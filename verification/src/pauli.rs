//! The standard Pauli matrices, as exact tables.
//!
//! Every element of a Pauli matrix is one of `0`, `1`, `-1`, `i`, `-i`, so the
//! matrices are held over the Gaussian integers.
//!
//! A rotation about the z axis by an angle with cosine `c` and sine `s` turns
//! the basis into
//!
//! ```text
//! sigma_x' = c * sigma_x + s * sigma_y
//! sigma_y' = c * sigma_y - s * sigma_x
//! sigma_z' = sigma_z
//! ```
//!
//! so every element of a rotated matrix is `fixed + c * cos + s * sin` with
//! three Gaussian integers. This module gives those three; multiplying by the
//! real weights is left to the caller.

use vstd::prelude::*;

verus! {

/// A Gaussian integer `re + i * im`.
#[derive(Clone, Copy, Debug, PartialEq, Eq, Structural)]
pub struct Gauss {
    pub re: i8,
    pub im: i8,
}

/// Which Pauli matrix.
#[derive(Clone, Copy, Debug, PartialEq, Eq, Structural)]
pub enum Axis {
    X,
    Y,
    Z,
}

/// The weights of one element of a rotated basis matrix: for a rotation with
/// cosine `c` and sine `s` the element is `fixed + c * cos + s * sin`.
#[derive(Clone, Copy, Debug, PartialEq, Eq, Structural)]
pub struct Mix {
    pub fixed: Gauss,
    pub cos: Gauss,
    pub sin: Gauss,
}

/// Complex conjugate of a Gaussian integer with a small imaginary part.
pub open spec fn conj(z: Gauss) -> Gauss
    recommends
        -1 <= z.im <= 1,
{
    Gauss { re: z.re, im: (-z.im) as i8 }
}

/// Element `(r, c)` of the Pauli matrix of `axis`:
/// `sigma_x = [[0, 1], [1, 0]]`, `sigma_y = [[0, -i], [i, 0]]`,
/// `sigma_z = [[1, 0], [0, -1]]`.
pub open spec fn pauli_at(axis: Axis, r: int, c: int) -> Gauss
    recommends
        0 <= r < 2,
        0 <= c < 2,
{
    match axis {
        Axis::X => if r != c {
            Gauss { re: 1, im: 0 }
        } else {
            Gauss { re: 0, im: 0 }
        },
        Axis::Y => if r == 0 && c == 1 {
            Gauss { re: 0, im: -1i8 }
        } else if r == 1 && c == 0 {
            Gauss { re: 0, im: 1 }
        } else {
            Gauss { re: 0, im: 0 }
        },
        Axis::Z => if r != c {
            Gauss { re: 0, im: 0 }
        } else if r == 0 {
            Gauss { re: 1, im: 0 }
        } else {
            Gauss { re: -1i8, im: 0 }
        },
    }
}

/// Element `(r, c)` of the Pauli matrix of `axis`, or `None` where `(r, c)` is
/// outside the 2 x 2 matrix.
pub fn pauli(axis: Axis, r: usize, c: usize) -> (z: Option<Gauss>)
    ensures
        z == if r < 2 && c < 2 {
            Some(pauli_at(axis, r as int, c as int))
        } else {
            None
        },
{
    if r >= 2 || c >= 2 {
        return None;
    }
    let zero = Gauss { re: 0, im: 0 };
    let z = match axis {
        Axis::X => if r != c {
            Gauss { re: 1, im: 0 }
        } else {
            zero
        },
        Axis::Y => if r == 0 && c == 1 {
            Gauss { re: 0, im: -1 }
        } else if r == 1 && c == 0 {
            Gauss { re: 0, im: 1 }
        } else {
            zero
        },
        Axis::Z => if r != c {
            zero
        } else if r == 0 {
            Gauss { re: 1, im: 0 }
        } else {
            Gauss { re: -1, im: 0 }
        },
    };
    Some(z)
}

/// The negative of a Gaussian integer with small parts.
pub open spec fn neg(z: Gauss) -> Gauss
    recommends
        -1 <= z.re <= 1,
        -1 <= z.im <= 1,
{
    Gauss { re: (-z.re) as i8, im: (-z.im) as i8 }
}

/// The weights of element `(r, c)` of the rotated matrix of `axis`.
pub open spec fn rotated_at(axis: Axis, r: int, c: int) -> Mix
    recommends
        0 <= r < 2,
        0 <= c < 2,
{
    let zero = Gauss { re: 0, im: 0 };
    match axis {
        Axis::X => Mix { fixed: zero, cos: pauli_at(Axis::X, r, c), sin: pauli_at(Axis::Y, r, c) },
        Axis::Y => Mix {
            fixed: zero,
            cos: pauli_at(Axis::Y, r, c),
            sin: neg(pauli_at(Axis::X, r, c)),
        },
        Axis::Z => Mix { fixed: pauli_at(Axis::Z, r, c), cos: zero, sin: zero },
    }
}

/// The value of `m` for integer weights `c` and `s`, as real and imaginary part.
pub open spec fn mix_value(m: Mix, c: int, s: int) -> (int, int) {
    (m.fixed.re + c * m.cos.re + s * m.sin.re, m.fixed.im + c * m.cos.im + s * m.sin.im)
}

/// The weights of element `(r, c)` of the rotated matrix of `axis`, or `None`
/// where `(r, c)` is outside the 2 x 2 matrix.
pub fn rotated(axis: Axis, r: usize, c: usize) -> (m: Option<Mix>)
    ensures
        m == if r < 2 && c < 2 {
            Some(rotated_at(axis, r as int, c as int))
        } else {
            None
        },
{
    if r >= 2 || c >= 2 {
        return None;
    }
    let zero = Gauss { re: 0, im: 0 };
    let m = match axis {
        Axis::X => {
            let x = pauli(Axis::X, r, c).unwrap();
            let y = pauli(Axis::Y, r, c).unwrap();
            Mix { fixed: zero, cos: x, sin: y }
        },
        Axis::Y => {
            let x = pauli(Axis::X, r, c).unwrap();
            let y = pauli(Axis::Y, r, c).unwrap();
            Mix { fixed: zero, cos: y, sin: Gauss { re: -x.re, im: -x.im } }
        },
        Axis::Z => {
            let z = pauli(Axis::Z, r, c).unwrap();
            Mix { fixed: z, cos: zero, sin: zero }
        },
    };
    Some(m)
}

/// Each Pauli matrix is Hermitian: element `(c, r)` is the complex conjugate
/// of element `(r, c)`.
pub proof fn lemma_pauli_hermitian(axis: Axis, r: int, c: int)
    requires
        0 <= r < 2,
        0 <= c < 2,
    ensures
        pauli_at(axis, c, r) == conj(pauli_at(axis, r, c)),
{
}

/// A rotation by the angle zero, whose cosine is one and whose sine is zero,
/// leaves the basis as it is.
pub proof fn lemma_rotation_identity(axis: Axis, r: int, c: int)
    requires
        0 <= r < 2,
        0 <= c < 2,
    ensures
        mix_value(rotated_at(axis, r, c), 1, 0) == (
            pauli_at(axis, r, c).re as int,
            pauli_at(axis, r, c).im as int,
        ),
{
}

/// Each of the three weight tables of a rotated matrix is Hermitian. A rotated
/// matrix is a combination of its tables with real weights, so it is Hermitian
/// for every angle.
pub proof fn lemma_rotated_hermitian(axis: Axis, r: int, c: int)
    requires
        0 <= r < 2,
        0 <= c < 2,
    ensures
        rotated_at(axis, c, r).fixed == conj(rotated_at(axis, r, c).fixed),
        rotated_at(axis, c, r).cos == conj(rotated_at(axis, r, c).cos),
        rotated_at(axis, c, r).sin == conj(rotated_at(axis, r, c).sin),
        forall|cos: int, sin: int|
            #![trigger mix_value(rotated_at(axis, c, r), cos, sin)]
            mix_value(rotated_at(axis, c, r), cos, sin) == (
                mix_value(rotated_at(axis, r, c), cos, sin).0,
                -mix_value(rotated_at(axis, r, c), cos, sin).1,
            ),
{
    let a = rotated_at(axis, r, c);
    let b = rotated_at(axis, c, r);
    assert forall|cos: int, sin: int|
        #![trigger mix_value(rotated_at(axis, c, r), cos, sin)]
        mix_value(b, cos, sin) == (mix_value(a, cos, sin).0, -mix_value(a, cos, sin).1) by {
        let (p, q) = (a.cos.im as int, a.sin.im as int);
        assert(cos * (-p) == -(cos * p) && sin * (-q) == -(sin * q)) by (nonlinear_arith);
    }
}

} // verus!
