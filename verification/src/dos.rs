//! Density-of-states results: their shape, and their average over samples.
//!
//! A result holds an energy grid, a total curve over that grid, and one curve
//! per orbital. This module is generic in the type of the numbers. It decides
//! whether the lengths fit together and in which order the samples enter an
//! average; the arithmetic on the numbers is handed in by the caller.

use vstd::prelude::*;
use crate::layout::BANDS;

verus! {

/// Number of momentum-grid points along the first axis.
pub const GRID_X: usize = 256;

/// Number of momentum-grid points along the second axis.
pub const GRID_Y: usize = 256;

/// Number of momentum-grid points along the third axis, which the model does
/// not depend on.
pub const GRID_Z: usize = 1;

/// Number of energy bins of a density-of-states curve.
pub const NUM_ENERGIES: usize = 1001;

/// A density of states: an energy grid, the total density at each grid point,
/// and the density of each orbital at each grid point.
#[derive(Clone, Debug)]
pub struct DosValues<T> {
    pub es: Vec<T>,
    pub total_dos: Vec<T>,
    pub orbital_dos: Vec<Vec<T>>,
}

/// What a density-of-states calculation is handed to work with: the band
/// count of the model, the momentum grid, and the number of energy bins.
#[derive(Clone, Copy, Debug, PartialEq, Eq, Structural)]
pub struct GridPlan {
    /// Number of bands of the model.
    pub bands: usize,
    /// Number of momentum-grid points along each of the three axes.
    pub grid_x: usize,
    pub grid_y: usize,
    pub grid_z: usize,
    /// Number of energy bins.
    pub num_energies: usize,
}

/// Why a density-of-states calculation was refused or its result rejected.
#[derive(Clone, Copy, Debug, PartialEq, Eq, Structural)]
pub enum DosError {
    /// The energy or the velocity unit is not one, so that the output's axis
    /// labels would be wrong.
    Units,
    /// The momentum window does not span a unit interval along its third
    /// axis, so that the rescaling to physical units would be wrong.
    Window,
    /// The integrator's result does not have one curve per band, each as long
    /// as the energy grid.
    Malformed,
}

/// Why a collection of results cannot be averaged.
#[derive(Clone, Copy, Debug, PartialEq, Eq, Structural)]
pub enum AverageError {
    /// The collection is empty.
    NoSamples,
    /// The result at position `sample` is the first whose lengths do not fit.
    ShapeMismatch { sample: usize },
}

/// The common shape of a collection of results that can be averaged.
#[derive(Clone, Copy, Debug, PartialEq, Eq, Structural)]
pub struct AverageShape {
    /// Number of results in the collection.
    pub samples: usize,
    /// Length of the shared energy grid.
    pub energies: usize,
    /// Number of orbitals of every result.
    pub orbitals: usize,
}

impl<T> DosValues<T> {
    /// Whether the result has `energies` grid points and `orbitals` orbitals,
    /// with every curve as long as the energy grid.
    pub open spec fn fits(&self, energies: int, orbitals: int) -> bool {
        &&& self.es@.len() == energies
        &&& self.total_dos@.len() == energies
        &&& self.orbital_dos@.len() == orbitals
        &&& forall|o: int|
            0 <= o < self.orbital_dos@.len() ==> (#[trigger] self.orbital_dos@[o])@.len()
                == energies
    }

    /// Decides whether the result has `energies` grid points and `orbitals`
    /// orbitals, with every curve as long as the energy grid.
    pub fn is_conforming(&self, energies: usize, orbitals: usize) -> (ok: bool)
        ensures
            ok == self.fits(energies as int, orbitals as int),
    {
        if self.es.len() != energies || self.total_dos.len() != energies
            || self.orbital_dos.len() != orbitals {
            return false;
        }
        let mut o: usize = 0;
        while o < self.orbital_dos.len()
            invariant
                0 <= o <= self.orbital_dos@.len(),
                forall|j: int| 0 <= j < o ==> (#[trigger] self.orbital_dos@[j])@.len() == energies,
            decreases self.orbital_dos.len() - o,
        {
            if self.orbital_dos[o].len() != energies {
                return false;
            }
            o += 1;
        }
        true
    }
}

/// Whether the result at position `i` fits the shape that the first result
/// sets: the same energy-grid length and orbital count, every curve as long as
/// the energy grid.
pub open spec fn fits_first<T>(all: Seq<DosValues<T>>, i: int) -> bool
    recommends
        0 <= i < all.len(),
{
    all[i].fits(all[0].es@.len() as int, all[0].orbital_dos@.len() as int)
}

/// What `check_average` returns on `all`: the shape of the average, or the
/// reason why there is none.
pub open spec fn average_check<T>(all: Seq<DosValues<T>>, checked: Result<AverageShape, AverageError>) -> bool {
    match checked {
        Ok(shape) => {
            &&& all.len() > 0
            &&& forall|i: int| 0 <= i < all.len() ==> fits_first(all, i)
            &&& shape.samples == all.len()
            &&& shape.energies == all[0].es@.len()
            &&& shape.orbitals == all[0].orbital_dos@.len()
        },
        Err(AverageError::NoSamples) => all.len() == 0,
        Err(AverageError::ShapeMismatch { sample }) => {
            &&& sample < all.len()
            &&& !fits_first(all, sample as int)
            &&& forall|i: int| 0 <= i < sample ==> fits_first(all, i)
        },
    }
}

/// Checks that a collection of results can be averaged, and returns the shape
/// of the average.
///
/// Fails with `NoSamples` on an empty collection, and with `ShapeMismatch` at
/// the first result whose lengths do not fit those set by the first result.
pub fn check_average<T>(all_dos: &Vec<DosValues<T>>) -> (checked: Result<
    AverageShape,
    AverageError,
>)
    ensures
        average_check(all_dos@, checked),
{
    if all_dos.len() == 0 {
        return Err(AverageError::NoSamples);
    }
    let energies: usize = all_dos[0].es.len();
    let orbitals: usize = all_dos[0].orbital_dos.len();
    let mut i: usize = 0;
    while i < all_dos.len()
        invariant
            0 <= i <= all_dos.len(),
            all_dos.len() > 0,
            energies == all_dos[0].es@.len(),
            orbitals == all_dos[0].orbital_dos@.len(),
            forall|j: int| 0 <= j < i ==> fits_first(all_dos@, j),
        decreases all_dos.len() - i,
    {
        if !all_dos[i].is_conforming(energies, orbitals) {
            return Err(AverageError::ShapeMismatch { sample: i });
        }
        i += 1;
    }
    Ok(AverageShape { samples: all_dos.len(), energies, orbitals })
}

/// Whether `sums` are the running sums that `add_share` makes of `items`: they
/// start at `start`, and each next one is what `add_share` returns for the one
/// before, the next item, and `count`.
pub open spec fn running_sums<T, F: Fn(T, T, usize) -> T>(
    add_share: F,
    count: usize,
    start: T,
    items: Seq<T>,
    sums: Seq<T>,
) -> bool {
    &&& sums.len() == items.len() + 1
    &&& sums[0] == start
    &&& forall|i: int|
        0 <= i < items.len() ==> add_share.ensures(
            (sums[i], items[i], count),
            #[trigger] sums[i + 1],
        )
}

/// Whether `end` is what `start` becomes when `add_share` takes in the items
/// of `items` one after the other, each together with `count`.
pub open spec fn accumulates<T, F: Fn(T, T, usize) -> T>(
    add_share: F,
    count: usize,
    start: T,
    items: Seq<T>,
    end: T,
) -> bool {
    exists|sums: Seq<T>|
        #[trigger] running_sums(add_share, count, start, items, sums) && sums.last() == end
}

/// The total density at energy index `e`, sample by sample.
pub open spec fn total_column<T>(all: Seq<DosValues<T>>, e: int) -> Seq<T> {
    Seq::new(all.len(), |s: int| all[s].total_dos@[e])
}

/// The density of orbital `o` at energy index `e`, sample by sample.
pub open spec fn orbital_column<T>(all: Seq<DosValues<T>>, o: int, e: int) -> Seq<T> {
    Seq::new(all.len(), |s: int| all[s].orbital_dos@[o]@[e])
}

/// Taking in one more item extends the running sums by what `add_share`
/// returned for it.
proof fn lemma_running_sums_push<T, F: Fn(T, T, usize) -> T>(
    add_share: F,
    count: usize,
    start: T,
    items: Seq<T>,
    sums: Seq<T>,
    item: T,
    next: T,
)
    requires
        running_sums(add_share, count, start, items, sums),
        add_share.ensures((sums.last(), item, count), next),
    ensures
        running_sums(add_share, count, start, items.push(item), sums.push(next)),
{
    let longer = sums.push(next);
    assert forall|i: int| 0 <= i < items.len() + 1 implies add_share.ensures(
        (longer[i], items.push(item)[i], count),
        #[trigger] longer[i + 1],
    ) by {
        if i < items.len() {
            assert(sums[i + 1] == longer[i + 1]);
        }
    }
}

fn copy_curve<T: Copy>(curve: &Vec<T>) -> (copy: Vec<T>)
    ensures
        copy@ == curve@,
{
    let mut copy: Vec<T> = Vec::new();
    let mut i: usize = 0;
    while i < curve.len()
        invariant
            0 <= i <= curve.len(),
            copy@ == curve@.take(i as int),
        decreases curve.len() - i,
    {
        copy.push(curve[i]);
        assert(curve@.take(i + 1) =~= curve@.take(i as int).push(curve@[i as int]));
        i += 1;
    }
    assert(curve@.take(curve.len() as int) =~= curve@);
    copy
}

fn rescale_curve<T: Copy, F: Fn(T) -> T>(curve: &Vec<T>, rescale: &F) -> (scaled: Vec<T>)
    requires
        forall|value: T| rescale.requires((value,)),
    ensures
        scaled@.len() == curve@.len(),
        forall|i: int|
            0 <= i < curve@.len() ==> rescale.ensures((curve@[i],), #[trigger] scaled@[i]),
{
    let mut scaled: Vec<T> = Vec::new();
    let mut i: usize = 0;
    while i < curve.len()
        invariant
            0 <= i <= curve.len(),
            forall|value: T| rescale.requires((value,)),
            scaled@.len() == i,
            forall|j: int| 0 <= j < i ==> rescale.ensures((curve@[j],), #[trigger] scaled@[j]),
        decreases curve.len() - i,
    {
        scaled.push(rescale(curve[i]));
        i += 1;
    }
    scaled
}

/// Rescales a density of states: every value of the total curve and of each
/// orbital's curve is replaced by what `rescale` returns for it. The energy
/// grid stays as it is.
pub fn rescale_dos<T: Copy, F: Fn(T) -> T>(dos: &DosValues<T>, rescale: F) -> (scaled: DosValues<T>)
    requires
        forall|value: T| rescale.requires((value,)),
    ensures
        rescaled(*dos, rescale, scaled),
{
    let es = copy_curve(&dos.es);
    let total_dos = rescale_curve(&dos.total_dos, &rescale);
    let mut orbital_dos: Vec<Vec<T>> = Vec::new();
    let mut o: usize = 0;
    while o < dos.orbital_dos.len()
        invariant
            0 <= o <= dos.orbital_dos.len(),
            forall|value: T| rescale.requires((value,)),
            orbital_dos@.len() == o,
            forall|p: int|
                0 <= p < o ==> (#[trigger] orbital_dos@[p])@.len() == dos.orbital_dos@[p]@.len(),
            forall|p: int, e: int|
                0 <= p < o && 0 <= e < dos.orbital_dos@[p]@.len() ==> rescale.ensures(
                    (dos.orbital_dos@[p]@[e],),
                    #[trigger] orbital_dos@[p]@[e],
                ),
        decreases dos.orbital_dos.len() - o,
    {
        let curve = rescale_curve(&dos.orbital_dos[o], &rescale);
        orbital_dos.push(curve);
        o += 1;
    }
    DosValues { es, total_dos, orbital_dos }
}

/// The plan of the bilayer calculation: four bands on a 256 x 256 x 1 grid,
/// with 1001 energy bins.
pub open spec fn bilayer_plan() -> GridPlan {
    GridPlan { bands: 4, grid_x: 256, grid_y: 256, grid_z: 1, num_energies: 1001 }
}

/// Whether `scaled` is `raw` with every density replaced by what `rescale`
/// returns for it, on the same energy grid.
pub open spec fn rescaled<T, F: Fn(T) -> T>(raw: DosValues<T>, rescale: F, scaled: DosValues<T>) -> bool {
    &&& scaled.es@ == raw.es@
    &&& scaled.total_dos@.len() == raw.total_dos@.len()
    &&& forall|e: int|
        0 <= e < raw.total_dos@.len() ==> rescale.ensures(
            (raw.total_dos@[e],),
            #[trigger] scaled.total_dos@[e],
        )
    &&& scaled.orbital_dos@.len() == raw.orbital_dos@.len()
    &&& forall|o: int|
        0 <= o < raw.orbital_dos@.len() ==> (#[trigger] scaled.orbital_dos@[o])@.len()
            == raw.orbital_dos@[o]@.len()
    &&& forall|o: int, e: int|
        0 <= o < raw.orbital_dos@.len() && 0 <= e < raw.orbital_dos@[o]@.len()
            ==> rescale.ensures(
            (raw.orbital_dos@[o]@[e],),
            #[trigger] scaled.orbital_dos@[o]@[e],
        )
}

/// Runs the density-of-states calculation of the bilayer model and rescales
/// its result to physical units.
///
/// The comparisons with tolerance are the caller's: `units_hold` says whether
/// the energy unit and the velocity unit are both one, `window_is_unit` whether
/// the momentum window spans a unit interval along its third axis. Where
/// either fails, nothing is calculated. Otherwise `integrate` is called once,
/// with the bilayer plan, and every density of its result is passed through
/// `rescale`. A result that does not have four orbital curves, or a curve that
/// is not as long as the energy grid, is rejected.
pub fn calculate_dos<T: Copy, I: FnOnce(GridPlan) -> DosValues<T>, R: Fn(T) -> T>(
    units_hold: bool,
    window_is_unit: bool,
    integrate: I,
    rescale: R,
) -> (calculated: Result<DosValues<T>, DosError>)
    requires
        integrate.requires((bilayer_plan(),)),
        forall|value: T| rescale.requires((value,)),
    ensures
        match calculated {
            Err(DosError::Units) => !units_hold,
            Err(DosError::Window) => units_hold && !window_is_unit,
            Err(DosError::Malformed) => {
                &&& units_hold
                &&& window_is_unit
                &&& exists|raw: DosValues<T>|
                    #[trigger] integrate.ensures((bilayer_plan(),), raw) && !raw.fits(
                        raw.es@.len() as int,
                        4,
                    )
            },
            Ok(scaled) => {
                &&& units_hold
                &&& window_is_unit
                &&& scaled.fits(scaled.es@.len() as int, 4)
                &&& exists|raw: DosValues<T>|
                    #[trigger] integrate.ensures((bilayer_plan(),), raw) && rescaled(
                        raw,
                        rescale,
                        scaled,
                    )
            },
        },
{
    if !units_hold {
        return Err(DosError::Units);
    }
    if !window_is_unit {
        return Err(DosError::Window);
    }
    let plan = GridPlan {
        bands: BANDS,
        grid_x: GRID_X,
        grid_y: GRID_Y,
        grid_z: GRID_Z,
        num_energies: NUM_ENERGIES,
    };
    let raw = integrate(plan);
    if !raw.is_conforming(raw.es.len(), BANDS) {
        return Err(DosError::Malformed);
    }
    let scaled = rescale_dos(&raw, rescale);
    Ok(scaled)
}

/// Folds the total density at energy index `e` over the samples.
fn average_total<T: Copy, F: Fn(T, T, usize) -> T>(
    all_dos: &Vec<DosValues<T>>,
    e: usize,
    zero: T,
    add_share: &F,
) -> (sum: T)
    requires
        forall|sum: T, value: T, count: usize| add_share.requires((sum, value, count)),
        forall|s: int| 0 <= s < all_dos.len() ==> e < (#[trigger] all_dos[s]).total_dos@.len(),
    ensures
        accumulates(*add_share, all_dos.len(), zero, total_column(all_dos@, e as int), sum),
{
    let count: usize = all_dos.len();
    let ghost column = total_column(all_dos@, e as int);
    let ghost mut sums: Seq<T> = seq![zero];
    let mut sum: T = zero;
    let mut s: usize = 0;
    while s < count
        invariant
            0 <= s <= count,
            count == all_dos.len(),
            forall|sum: T, value: T, n: usize| add_share.requires((sum, value, n)),
            forall|s: int| 0 <= s < all_dos.len() ==> e < (#[trigger] all_dos[s]).total_dos@.len(),
            column == total_column(all_dos@, e as int),
            running_sums(*add_share, count, zero, column.take(s as int), sums),
            sums.last() == sum,
        decreases count - s,
    {
        let value: T = all_dos[s].total_dos[e];
        let next: T = add_share(sum, value, count);
        proof {
            lemma_running_sums_push(*add_share, count, zero, column.take(s as int), sums, value, next);
            assert(column.take(s + 1) =~= column.take(s as int).push(value));
            sums = sums.push(next);
        }
        sum = next;
        s += 1;
    }
    assert(column.take(count as int) =~= column);
    sum
}

/// Folds the density of orbital `o` at energy index `e` over the samples.
fn average_orbital<T: Copy, F: Fn(T, T, usize) -> T>(
    all_dos: &Vec<DosValues<T>>,
    o: usize,
    e: usize,
    zero: T,
    add_share: &F,
) -> (sum: T)
    requires
        forall|sum: T, value: T, count: usize| add_share.requires((sum, value, count)),
        forall|s: int|
            0 <= s < all_dos.len() ==> o < (#[trigger] all_dos[s]).orbital_dos@.len() && e
                < all_dos[s].orbital_dos@[o as int]@.len(),
    ensures
        accumulates(
            *add_share,
            all_dos.len(),
            zero,
            orbital_column(all_dos@, o as int, e as int),
            sum,
        ),
{
    let count: usize = all_dos.len();
    let ghost column = orbital_column(all_dos@, o as int, e as int);
    let ghost mut sums: Seq<T> = seq![zero];
    let mut sum: T = zero;
    let mut s: usize = 0;
    while s < count
        invariant
            0 <= s <= count,
            count == all_dos.len(),
            forall|sum: T, value: T, n: usize| add_share.requires((sum, value, n)),
            forall|s: int|
                0 <= s < all_dos.len() ==> o < (#[trigger] all_dos[s]).orbital_dos@.len() && e
                    < all_dos[s].orbital_dos@[o as int]@.len(),
            column == orbital_column(all_dos@, o as int, e as int),
            running_sums(*add_share, count, zero, column.take(s as int), sums),
            sums.last() == sum,
        decreases count - s,
    {
        let value: T = all_dos[s].orbital_dos[o][e];
        let next: T = add_share(sum, value, count);
        proof {
            lemma_running_sums_push(*add_share, count, zero, column.take(s as int), sums, value, next);
            assert(column.take(s + 1) =~= column.take(s as int).push(value));
            sums = sums.push(next);
        }
        sum = next;
        s += 1;
    }
    assert(column.take(count as int) =~= column);
    sum
}

/// Averages a collection of results that share one energy grid.
///
/// `add_share(sum, value, count)` is the caller's arithmetic: it returns `sum`
/// with the share of `value` in a mean of `count` values added. Every value of
/// the average starts from `zero` and takes in the matching value of each
/// sample, in the order of the samples. The energy grid is that of the first
/// sample.
///
/// Fails as `check_average` does, in which case `add_share` is never called.
pub fn average_dos<T: Copy, F: Fn(T, T, usize) -> T>(
    all_dos: &Vec<DosValues<T>>,
    zero: T,
    add_share: F,
) -> (averaged: Result<DosValues<T>, AverageError>)
    requires
        forall|sum: T, value: T, count: usize| add_share.requires((sum, value, count)),
    ensures
        match averaged {
            Ok(avg) => {
                &&& all_dos.len() > 0
                &&& forall|i: int| 0 <= i < all_dos.len() ==> fits_first(all_dos@, i)
                &&& avg.fits(all_dos[0].es@.len() as int, all_dos[0].orbital_dos@.len() as int)
                &&& avg.es@ == all_dos[0].es@
                &&& forall|e: int|
                    0 <= e < avg.total_dos@.len() ==> accumulates(
                        add_share,
                        all_dos.len(),
                        zero,
                        total_column(all_dos@, e),
                        #[trigger] avg.total_dos@[e],
                    )
                &&& forall|o: int, e: int|
                    0 <= o < avg.orbital_dos@.len() && 0 <= e < avg.orbital_dos@[o]@.len()
                        ==> accumulates(
                        add_share,
                        all_dos.len(),
                        zero,
                        orbital_column(all_dos@, o, e),
                        #[trigger] avg.orbital_dos@[o]@[e],
                    )
            },
            Err(error) => average_check(all_dos@, Err(error)),
        },
{
    let shape = match check_average(all_dos) {
        Ok(shape) => shape,
        Err(error) => {
            return Err(error);
        },
    };
    let es = copy_curve(&all_dos[0].es);

    let mut total_dos: Vec<T> = Vec::new();
    let mut e: usize = 0;
    while e < shape.energies
        invariant
            0 <= e <= shape.energies,
            average_check(all_dos@, Ok(shape)),
            forall|sum: T, value: T, n: usize| add_share.requires((sum, value, n)),
            total_dos@.len() == e,
            forall|j: int|
                0 <= j < e ==> accumulates(
                    add_share,
                    all_dos.len(),
                    zero,
                    total_column(all_dos@, j),
                    #[trigger] total_dos@[j],
                ),
        decreases shape.energies - e,
    {
        assert forall|s: int| 0 <= s < all_dos.len() implies e < (
        #[trigger] all_dos[s]).total_dos@.len() by {
            assert(fits_first(all_dos@, s));
        }
        let sum = average_total(all_dos, e, zero, &add_share);
        total_dos.push(sum);
        e += 1;
    }

    let mut orbital_dos: Vec<Vec<T>> = Vec::new();
    let mut o: usize = 0;
    while o < shape.orbitals
        invariant
            0 <= o <= shape.orbitals,
            average_check(all_dos@, Ok(shape)),
            forall|sum: T, value: T, n: usize| add_share.requires((sum, value, n)),
            orbital_dos@.len() == o,
            forall|p: int| 0 <= p < o ==> (#[trigger] orbital_dos@[p])@.len() == shape.energies,
            forall|p: int, j: int|
                0 <= p < o && 0 <= j < shape.energies ==> accumulates(
                    add_share,
                    all_dos.len(),
                    zero,
                    orbital_column(all_dos@, p, j),
                    #[trigger] orbital_dos@[p]@[j],
                ),
        decreases shape.orbitals - o,
    {
        let mut curve: Vec<T> = Vec::new();
        let mut e: usize = 0;
        while e < shape.energies
            invariant
                0 <= e <= shape.energies,
                0 <= o < shape.orbitals,
                average_check(all_dos@, Ok(shape)),
                forall|sum: T, value: T, n: usize| add_share.requires((sum, value, n)),
                curve@.len() == e,
                forall|j: int|
                    0 <= j < e ==> accumulates(
                        add_share,
                        all_dos.len(),
                        zero,
                        orbital_column(all_dos@, o as int, j),
                        #[trigger] curve@[j],
                    ),
            decreases shape.energies - e,
        {
            assert forall|s: int| 0 <= s < all_dos.len() implies o < (
            #[trigger] all_dos[s]).orbital_dos@.len() && e
                < all_dos[s].orbital_dos@[o as int]@.len() by {
                assert(fits_first(all_dos@, s));
            }
            let sum = average_orbital(all_dos, o, e, zero, &add_share);
            curve.push(sum);
            e += 1;
        }
        orbital_dos.push(curve);
        o += 1;
    }

    Ok(DosValues { es, total_dos, orbital_dos })
}

} // verus!
