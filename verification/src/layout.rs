//! Block layout of the bilayer Bloch Hamiltonian.
//!
//! The Hamiltonian is a 4 x 4 matrix made of four 2 x 2 blocks:
//!
//! ```text
//! [ top          coupling ]
//! [ coupling^†   bottom   ]
//! ```
//!
//! `top` and `bottom` are the intralayer blocks of the two layers and
//! `coupling` is the interlayer coupling matrix scaled by the energy unit.
//! This module says, for each element of the 4 x 4 matrix, which element of
//! which block it is.

use vstd::prelude::*;

verus! {

/// Number of bands of the bilayer model: two sublattices on each of two layers.
pub const BANDS: usize = 4;

/// Where one element of the Hamiltonian comes from.
#[derive(Clone, Copy, Debug, PartialEq, Eq, Structural)]
pub enum Entry {
    /// Element `(row, col)` of the top layer's intralayer block.
    Top { row: usize, col: usize },
    /// Element `(row, col)` of the bottom layer's intralayer block.
    Bottom { row: usize, col: usize },
    /// Element `(row, col)` of the scaled coupling matrix.
    Coupling { row: usize, col: usize },
    /// Complex conjugate of element `(row, col)` of the scaled coupling matrix.
    CouplingConj { row: usize, col: usize },
}

/// The source of the Hamiltonian's element in row `r` and column `c`.
pub open spec fn entry_at(r: int, c: int) -> Entry
    recommends
        0 <= r < 4,
        0 <= c < 4,
{
    if r < 2 && c < 2 {
        Entry::Top { row: r as usize, col: c as usize }
    } else if r < 2 {
        Entry::Coupling { row: r as usize, col: (c - 2) as usize }
    } else if c < 2 {
        Entry::CouplingConj { row: c as usize, col: (r - 2) as usize }
    } else {
        Entry::Bottom { row: (r - 2) as usize, col: (c - 2) as usize }
    }
}

/// The source that the conjugate transpose reads in place of `e`: the mirrored
/// element of an intralayer block, and for the coupling the same element with
/// the conjugation switched.
pub open spec fn adjoint(e: Entry) -> Entry {
    match e {
        Entry::Top { row, col } => Entry::Top { row: col, col: row },
        Entry::Bottom { row, col } => Entry::Bottom { row: col, col: row },
        Entry::Coupling { row, col } => Entry::CouplingConj { row, col },
        Entry::CouplingConj { row, col } => Entry::Coupling { row, col },
    }
}

/// Number of bands of the bilayer model.
pub fn bands() -> (n: usize)
    ensures
        n == 4,
{
    BANDS
}

/// The source of the Hamiltonian's element in row `r` and column `c`, or
/// `None` where `(r, c)` is outside the 4 x 4 matrix.
pub fn entry(r: usize, c: usize) -> (e: Option<Entry>)
    ensures
        e == if r < 4 && c < 4 {
            Some(entry_at(r as int, c as int))
        } else {
            None
        },
{
    if r >= BANDS || c >= BANDS {
        None
    } else if r < 2 && c < 2 {
        Some(Entry::Top { row: r, col: c })
    } else if r < 2 {
        Some(Entry::Coupling { row: r, col: c - 2 })
    } else if c < 2 {
        Some(Entry::CouplingConj { row: c, col: r - 2 })
    } else {
        Some(Entry::Bottom { row: r - 2, col: c - 2 })
    }
}

/// Whether `value` is what the source `e` gives: the element of the block it
/// names, or for the conjugated coupling what `conj` returns for that element.
pub open spec fn source_gives<T, F: Fn(T) -> T>(
    e: Entry,
    top: [[T; 2]; 2],
    bottom: [[T; 2]; 2],
    coupling: [[T; 2]; 2],
    conj: F,
    value: T,
) -> bool {
    match e {
        Entry::Top { row, col } => value == top[row as int][col as int],
        Entry::Bottom { row, col } => value == bottom[row as int][col as int],
        Entry::Coupling { row, col } => value == coupling[row as int][col as int],
        Entry::CouplingConj { row, col } => conj.ensures(
            (coupling[row as int][col as int],),
            value,
        ),
    }
}

/// Whether `h` is the 4 x 4 matrix that the layout makes of the three blocks.
pub open spec fn assembled<T, F: Fn(T) -> T>(
    top: [[T; 2]; 2],
    bottom: [[T; 2]; 2],
    coupling: [[T; 2]; 2],
    conj: F,
    h: [[T; 4]; 4],
) -> bool {
    forall|r: int, c: int|
        0 <= r < 4 && 0 <= c < 4 ==> source_gives(
            entry_at(r, c),
            top,
            bottom,
            coupling,
            conj,
            #[trigger] h[r][c],
        )
}

/// Assembles the Hamiltonian from the two intralayer blocks and the scaled
/// coupling matrix. `conj` is the caller's complex conjugation; it is called
/// once for each element of the coupling matrix.
pub fn assemble<T: Copy, F: Fn(T) -> T>(
    top: &[[T; 2]; 2],
    bottom: &[[T; 2]; 2],
    coupling: &[[T; 2]; 2],
    conj: F,
) -> (h: [[T; 4]; 4])
    requires
        forall|z: T| conj.requires((z,)),
    ensures
        assembled(*top, *bottom, *coupling, conj, h),
{
    let c00 = conj(coupling[0][0]);
    let c01 = conj(coupling[0][1]);
    let c10 = conj(coupling[1][0]);
    let c11 = conj(coupling[1][1]);
    let h = [
        [top[0][0], top[0][1], coupling[0][0], coupling[0][1]],
        [top[1][0], top[1][1], coupling[1][0], coupling[1][1]],
        [c00, c10, bottom[0][0], bottom[0][1]],
        [c01, c11, bottom[1][0], bottom[1][1]],
    ];
    assert forall|r: int, c: int| 0 <= r < 4 && 0 <= c < 4 implies source_gives(
        entry_at(r, c),
        *top,
        *bottom,
        *coupling,
        conj,
        #[trigger] h[r][c],
    ) by {
        assert(0 <= r < 4 && 0 <= c < 4);
    }
    h
}

/// The layout is Hermitian by construction: element `(c, r)` reads the adjoint
/// of what element `(r, c)` reads. A matrix assembled from it therefore equals
/// its own conjugate transpose whenever the two intralayer blocks do.
pub proof fn lemma_layout_hermitian(r: int, c: int)
    requires
        0 <= r < 4,
        0 <= c < 4,
    ensures
        entry_at(c, r) == adjoint(entry_at(r, c)),
{
}

/// An assembled matrix equals its own conjugate transpose, provided the two
/// intralayer blocks do and conjugating twice gives the value back: `conj`
/// takes every element `(r, c)` to the element `(c, r)`.
pub proof fn lemma_assembled_hermitian<T, F: Fn(T) -> T>(
    top: [[T; 2]; 2],
    bottom: [[T; 2]; 2],
    coupling: [[T; 2]; 2],
    conj: F,
    h: [[T; 4]; 4],
)
    requires
        assembled(top, bottom, coupling, conj, h),
        forall|a: T, b: T| conj.ensures((a,), b) ==> conj.ensures((b,), a),
        forall|i: int, j: int|
            0 <= i < 2 && 0 <= j < 2 ==> conj.ensures((#[trigger] top[i][j],), top[j][i]),
        forall|i: int, j: int|
            0 <= i < 2 && 0 <= j < 2 ==> conj.ensures((#[trigger] bottom[i][j],), bottom[j][i]),
    ensures
        forall|r: int, c: int|
            0 <= r < 4 && 0 <= c < 4 ==> conj.ensures((#[trigger] h[r][c],), h[c][r]),
{
    assert forall|r: int, c: int| 0 <= r < 4 && 0 <= c < 4 implies conj.ensures(
        (#[trigger] h[r][c],),
        h[c][r],
    ) by {
        assert(source_gives(entry_at(r, c), top, bottom, coupling, conj, h[r][c]));
        assert(source_gives(entry_at(c, r), top, bottom, coupling, conj, h[c][r]));
        if r < 2 && c < 2 {
            assert(conj.ensures((top[r][c],), top[c][r]));
        } else if r >= 2 && c >= 2 {
            assert(conj.ensures((bottom[r - 2][c - 2],), bottom[c - 2][r - 2]));
        }
    }
}

} // verus!
