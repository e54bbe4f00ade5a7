//! Sampling of a disk in moiré parameter space on a square lattice.
//!
//! A sample is a lattice point `(x, y)` counted in grid steps: for a disk of
//! radius `r0` sampled at resolution `n`, the step is `r0 / n` and the point
//! stands for the coordinate `(x * step, y * step)`. The disk of radius `r0`
//! is then the set of lattice points with `x² + y² <= n²`.

use vstd::prelude::*;
use crate::disk_laws::{ascending, lemma_disk_members, lemma_disk_ascending};

verus! {

/// A lattice point, counted in grid steps from the centre of the disk.
#[derive(Clone, Copy, Debug, PartialEq, Eq, Structural)]
pub struct LatticePoint {
    pub x: i64,
    pub y: i64,
}

/// The mathematical lattice point that a `LatticePoint` stands for.
pub struct Site {
    pub x: int,
    pub y: int,
}

impl View for LatticePoint {
    type V = Site;

    open spec fn view(&self) -> Site {
        Site { x: self.x as int, y: self.y as int }
    }
}

/// The sites of a sequence of lattice points, in the same order.
pub open spec fn sites(points: Seq<LatticePoint>) -> Seq<Site> {
    points.map_values(|p: LatticePoint| p@)
}

/// Squared Euclidean norm, in squared grid steps.
pub open spec fn norm_sq(s: Site) -> int {
    s.x * s.x + s.y * s.y
}

/// Whether `s` lies in the closed disk of `radius` grid steps around the origin.
pub open spec fn within(s: Site, radius: int) -> bool {
    norm_sq(s) <= radius * radius
}

/// `within` as a predicate on sites, for a fixed radius.
pub open spec fn in_disk(radius: int) -> spec_fn(Site) -> bool {
    |s: Site| within(s, radius)
}

/// Row `y` of the square grid of half-width `n`: `x` runs from `-n` to `n`.
pub open spec fn grid_row(n: nat, y: int) -> Seq<Site> {
    Seq::new(2 * n + 1, |i: int| Site { x: i - n, y })
}

/// The first `count` rows of the square grid of half-width `n`, lowest `y` first.
pub open spec fn grid_rows(n: nat, count: nat) -> Seq<Site>
    decreases count,
{
    if count == 0 {
        Seq::empty()
    } else {
        grid_rows(n, (count - 1) as nat) + grid_row(n, count - 1 - n)
    }
}

/// The `(2n+1) x (2n+1)` square grid in row-major order (`y` outer, `x` inner).
pub open spec fn grid(n: nat) -> Seq<Site> {
    grid_rows(n, 2 * n + 1)
}

/// The disk sample set at resolution `n`: the grid points within `n` steps of
/// the origin, in grid order.
pub open spec fn disk(n: nat) -> Seq<Site> {
    grid(n).filter(in_disk(n as int))
}

/// Whether `s` is a point of the square grid of half-width `n`.
pub open spec fn in_grid(s: Site, n: int) -> bool {
    -n <= s.x <= n && -n <= s.y <= n
}

impl LatticePoint {
    /// Column and row of the point in the square grid of half-width `n`,
    /// counted from the corner `(-n, -n)`, or `None` where the point is not on
    /// that grid. A point with index `(i, j)` stands for the coordinate
    /// `(-r0 + i * step, -r0 + j * step)`.
    pub fn grid_index(&self, n: u32) -> (index: Option<(u64, u64)>)
        ensures
            index == if in_grid(self@, n as int) {
                Some(((self.x + n) as u64, (self.y + n) as u64))
            } else {
                None
            },
    {
        let half: i64 = n as i64;
        if self.x < -half || self.x > half || self.y < -half || self.y > half {
            None
        } else {
            Some(((self.x + half) as u64, (self.y + half) as u64))
        }
    }

    /// Decides whether the point lies in the closed disk of `radius` steps.
    pub fn is_within(&self, radius: u32) -> (inside: bool)
        ensures
            inside == within(self@, radius as int),
    {
        let x: i128 = self.x as i128;
        let y: i128 = self.y as i128;
        let r: u128 = radius as u128;
        assert(0 <= x * x <= 0x4000_0000_0000_0000_0000_0000_0000_0000) by (nonlinear_arith)
            requires
                -0x8000_0000_0000_0000 <= x <= 0x8000_0000_0000_0000,
        ;
        assert(0 <= y * y <= 0x4000_0000_0000_0000_0000_0000_0000_0000) by (nonlinear_arith)
            requires
                -0x8000_0000_0000_0000 <= y <= 0x8000_0000_0000_0000,
        ;
        assert(0 <= r * r <= 0xffff_ffff_0000_0000) by (nonlinear_arith)
            requires
                0 <= r <= 0xffff_ffff,
        ;
        let xx: u128 = (x * x) as u128;
        let yy: u128 = (y * y) as u128;
        xx + yy <= r * r
    }
}

/// Enumerates the disk sample set at resolution `n`.
///
/// The result lists, row by row from the lowest `y` and within a row from the
/// lowest `x`, every point of the `(2n+1) x (2n+1)` grid that lies within `n`
/// steps of the origin.
pub fn disk_samples(n: u32) -> (samples: Vec<LatticePoint>)
    ensures
        sites(samples@) == disk(n as nat),
        forall|i: int| 0 <= i < samples.len() ==> within(#[trigger] samples[i]@, n as int),
        forall|s: Site| within(s, n as int) <==> #[trigger] sites(samples@).contains(s),
        ascending(sites(samples@)),
{
    let half: i64 = n as i64;
    let ghost keep = in_disk(n as int);
    let mut samples: Vec<LatticePoint> = Vec::new();
    let mut y: i64 = -half;
    assert(sites(samples@) =~= grid_rows(n as nat, 0).filter(keep)) by {
        reveal(Seq::filter);
    }
    while y <= half
        invariant
            half == n,
            keep == in_disk(n as int),
            -half <= y <= half + 1,
            sites(samples@) == grid_rows(n as nat, (y + half) as nat).filter(keep),
        decreases half + 1 - y,
    {
        let ghost done = grid_rows(n as nat, (y + half) as nat).filter(keep);
        let ghost row = grid_row(n as nat, y as int);
        let mut x: i64 = -half;
        assert(row.take(0) =~= Seq::<Site>::empty());
        assert(sites(samples@) =~= done + row.take(0).filter(keep)) by {
            reveal(Seq::filter);
        }
        while x <= half
            invariant
                half == n,
                keep == in_disk(n as int),
                -half <= y <= half,
                -half <= x <= half + 1,
                row == grid_row(n as nat, y as int),
                sites(samples@) == done + row.take(x + half).filter(keep),
            decreases half + 1 - x,
        {
            let p = LatticePoint { x, y };
            let ghost before = sites(samples@);
            proof {
                let k = x + half;
                assert(row.take(k + 1) =~= row.take(k).push(p@));
                row.take(k).lemma_filter_push(p@, keep);
            }
            if p.is_within(n) {
                samples.push(p);
                assert(sites(samples@) =~= before.push(p@));
            }
            x += 1;
        }
        assert(row.take(2 * n + 1) =~= row);
        proof {
            Seq::filter_distributes_over_add(
                grid_rows(n as nat, (y + half) as nat),
                row,
                keep,
            );
        }
        y += 1;
    }
    proof {
        lemma_disk_members(n as nat);
        lemma_disk_ascending(n as nat);
        assert forall|i: int| 0 <= i < samples.len() implies within(
            #[trigger] samples[i]@,
            n as int,
        ) by {
            assert(sites(samples@)[i] == samples[i]@);
        }
    }
    samples
}

/// The sites found at the given positions of `points`, in the order of the
/// positions.
pub open spec fn picked(points: Seq<Site>, positions: Seq<usize>) -> Seq<Site> {
    positions.map_values(|k: usize| points[k as int])
}

/// Finds the positions in `points` of the points that lie within `radius`
/// steps of the origin, in ascending order.
///
/// Whatever was computed per sample of a larger disk can be regrouped by these
/// positions into what belongs to the smaller disk.
pub fn positions_within(points: &Vec<LatticePoint>, radius: u32) -> (positions: Vec<usize>)
    ensures
        forall|i: int| 0 <= i < positions.len() ==> #[trigger] positions[i] < points.len(),
        forall|i: int, j: int|
            0 <= i < j < positions.len() ==> #[trigger] positions[i] < #[trigger] positions[j],
        forall|k: int|
            0 <= k < points.len() ==> (within(#[trigger] points[k]@, radius as int)
                <==> positions@.contains(k as usize)),
        picked(sites(points@), positions@) == sites(points@).filter(in_disk(radius as int)),
{
    let ghost keep = in_disk(radius as int);
    let ghost all = sites(points@);
    let mut positions: Vec<usize> = Vec::new();
    let mut k: usize = 0;
    assert(all.take(0) =~= Seq::<Site>::empty());
    assert(picked(all, positions@) =~= all.take(0).filter(keep)) by {
        reveal(Seq::filter);
    }
    while k < points.len()
        invariant
            keep == in_disk(radius as int),
            all == sites(points@),
            0 <= k <= points.len(),
            forall|i: int| 0 <= i < positions.len() ==> #[trigger] positions[i] < k,
            forall|i: int, j: int|
                0 <= i < j < positions.len() ==> #[trigger] positions[i] < #[trigger] positions[j],
            forall|m: int|
                0 <= m < k ==> (within(#[trigger] points[m]@, radius as int)
                    <==> positions@.contains(m as usize)),
            picked(all, positions@) == all.take(k as int).filter(keep),
        decreases points.len() - k,
    {
        let p = points[k];
        let ghost before = positions@;
        proof {
            assert(all.take(k + 1) =~= all.take(k as int).push(p@));
            all.take(k as int).lemma_filter_push(p@, keep);
        }
        if p.is_within(radius) {
            positions.push(k);
            assert(picked(all, positions@) =~= picked(all, before).push(p@));
            assert(positions@[before.len() as int] == k);
            assert forall|m: int| 0 <= m < k + 1 implies (within(
                #[trigger] points[m]@,
                radius as int,
            ) <==> positions@.contains(m as usize)) by {
                if m < k {
                    if before.contains(m as usize) {
                        let i = choose|i: int| 0 <= i < before.len() && before[i] == m as usize;
                        assert(positions@[i] == m as usize);
                    }
                    if positions@.contains(m as usize) {
                        let i = choose|i: int|
                            0 <= i < positions@.len() && positions@[i] == m as usize;
                        assert(before[i] == m as usize);
                    }
                }
            }
        } else {
            assert forall|m: int| 0 <= m < k + 1 implies (within(
                #[trigger] points[m]@,
                radius as int,
            ) <==> positions@.contains(m as usize)) by {
                if m == k && positions@.contains(m as usize) {
                    let i = choose|i: int|
                        0 <= i < positions@.len() && positions@[i] == m as usize;
                    assert(positions@[i] < k);
                }
            }
        }
        k += 1;
    }
    assert(all.take(points.len() as int) =~= all);
    positions
}

/// Keeps the points of `points` that lie within `radius` steps of the origin,
/// in the order in which they stand.
///
/// Applied to a sample set of a larger disk on the same grid, this yields the
/// sample set of the smaller disk without enumerating it again.
pub fn filter_disk(points: &Vec<LatticePoint>, radius: u32) -> (kept: Vec<LatticePoint>)
    ensures
        sites(kept@) == sites(points@).filter(in_disk(radius as int)),
{
    let ghost keep = in_disk(radius as int);
    let ghost all = sites(points@);
    let mut kept: Vec<LatticePoint> = Vec::new();
    let mut i: usize = 0;
    assert(all.take(0) =~= Seq::<Site>::empty());
    assert(sites(kept@) =~= all.take(0).filter(keep)) by {
        reveal(Seq::filter);
    }
    while i < points.len()
        invariant
            keep == in_disk(radius as int),
            all == sites(points@),
            0 <= i <= points.len(),
            sites(kept@) == all.take(i as int).filter(keep),
        decreases points.len() - i,
    {
        let p = points[i];
        let ghost before = sites(kept@);
        proof {
            assert(all.take(i + 1) =~= all.take(i as int).push(p@));
            all.take(i as int).lemma_filter_push(p@, keep);
        }
        if p.is_within(radius) {
            kept.push(p);
            assert(sites(kept@) =~= before.push(p@));
        }
        i += 1;
    }
    assert(all.take(points.len() as int) =~= all);
    kept
}

} // verus!
