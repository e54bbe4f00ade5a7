use blg_moire::pauli::{pauli, rotated, Axis, Gauss, Mix};

fn table(axis: Axis) -> [[(i8, i8); 2]; 2] {
    let mut m = [[(0, 0); 2]; 2];
    for r in 0..2 {
        for c in 0..2 {
            let z = pauli(axis, r, c).unwrap();
            m[r][c] = (z.re, z.im);
        }
    }
    m
}

#[test]
fn sigma_x_has_real_ones_off_the_diagonal() {
    assert_eq!(table(Axis::X), [[(0, 0), (1, 0)], [(1, 0), (0, 0)]]);
}

#[test]
fn sigma_y_has_imaginary_units_off_the_diagonal() {
    assert_eq!(table(Axis::Y), [[(0, 0), (0, -1)], [(0, 1), (0, 0)]]);
}

#[test]
fn sigma_z_is_diagonal() {
    assert_eq!(table(Axis::Z), [[(1, 0), (0, 0)], [(0, 0), (-1, 0)]]);
}

#[test]
fn outside_the_matrix_there_is_no_element() {
    for axis in [Axis::X, Axis::Y, Axis::Z] {
        assert_eq!(pauli(axis, 2, 0), None);
        assert_eq!(pauli(axis, 0, 2), None);
        assert_eq!(pauli(axis, usize::MAX, usize::MAX), None);
    }
}

#[test]
fn pauli_matrices_are_hermitian() {
    for axis in [Axis::X, Axis::Y, Axis::Z] {
        for r in 0..2 {
            for c in 0..2 {
                let z = pauli(axis, r, c).unwrap();
                assert_eq!(pauli(axis, c, r), Some(Gauss { re: z.re, im: -z.im }));
            }
        }
    }
}

#[test]
fn pauli_matrices_square_to_the_identity() {
    for axis in [Axis::X, Axis::Y, Axis::Z] {
        let m = table(axis);
        for r in 0..2 {
            for c in 0..2 {
                let mut sum = (0i8, 0i8);
                for k in 0..2 {
                    let (a, b) = (m[r][k], m[k][c]);
                    sum.0 += a.0 * b.0 - a.1 * b.1;
                    sum.1 += a.0 * b.1 + a.1 * b.0;
                }
                assert_eq!(sum, if r == c { (1, 0) } else { (0, 0) });
            }
        }
    }
}

fn g(re: i8, im: i8) -> Gauss {
    Gauss { re, im }
}

fn weights(axis: Axis) -> [[Mix; 2]; 2] {
    let at = |r, c| rotated(axis, r, c).unwrap();
    [[at(0, 0), at(0, 1)], [at(1, 0), at(1, 1)]]
}

#[test]
fn rotated_sigma_x_mixes_sigma_x_with_sigma_y() {
    let zero = g(0, 0);
    assert_eq!(
        weights(Axis::X),
        [
            [
                Mix { fixed: zero, cos: zero, sin: zero },
                Mix { fixed: zero, cos: g(1, 0), sin: g(0, -1) },
            ],
            [
                Mix { fixed: zero, cos: g(1, 0), sin: g(0, 1) },
                Mix { fixed: zero, cos: zero, sin: zero },
            ],
        ]
    );
}

#[test]
fn rotated_sigma_y_mixes_sigma_y_with_minus_sigma_x() {
    let zero = g(0, 0);
    assert_eq!(
        weights(Axis::Y),
        [
            [
                Mix { fixed: zero, cos: zero, sin: zero },
                Mix { fixed: zero, cos: g(0, -1), sin: g(-1, 0) },
            ],
            [
                Mix { fixed: zero, cos: g(0, 1), sin: g(-1, 0) },
                Mix { fixed: zero, cos: zero, sin: zero },
            ],
        ]
    );
}

#[test]
fn sigma_z_is_never_rotated() {
    let zero = g(0, 0);
    assert_eq!(
        weights(Axis::Z),
        [
            [
                Mix { fixed: g(1, 0), cos: zero, sin: zero },
                Mix { fixed: zero, cos: zero, sin: zero },
            ],
            [
                Mix { fixed: zero, cos: zero, sin: zero },
                Mix { fixed: g(-1, 0), cos: zero, sin: zero },
            ],
        ]
    );
}

#[test]
fn outside_the_matrix_there_are_no_weights() {
    for axis in [Axis::X, Axis::Y, Axis::Z] {
        assert_eq!(rotated(axis, 2, 1), None);
        assert_eq!(rotated(axis, 1, 2), None);
    }
}

fn value(m: Mix, cos: f64, sin: f64) -> (f64, f64) {
    (
        (m.fixed.re as f64) + (m.cos.re as f64) * cos + (m.sin.re as f64) * sin,
        (m.fixed.im as f64) + (m.cos.im as f64) * cos + (m.sin.im as f64) * sin,
    )
}

#[test]
fn unrotated_basis_is_the_standard_one() {
    let (cos, sin) = (0.0f64.cos(), 0.0f64.sin());
    for axis in [Axis::X, Axis::Y, Axis::Z] {
        for r in 0..2 {
            for c in 0..2 {
                let z = pauli(axis, r, c).unwrap();
                let m = rotated(axis, r, c).unwrap();
                assert_eq!(value(m, cos, sin), (z.re as f64, z.im as f64));
            }
        }
    }
}

#[test]
fn opposite_rotations_of_the_two_layers_agree_at_angle_zero() {
    let theta: f64 = 0.0;
    for axis in [Axis::X, Axis::Y] {
        for r in 0..2 {
            for c in 0..2 {
                let m = rotated(axis, r, c).unwrap();
                let top = value(m, (-theta / 2.0).cos(), (-theta / 2.0).sin());
                let bottom = value(m, (theta / 2.0).cos(), (theta / 2.0).sin());
                assert_eq!(top, bottom);
            }
        }
    }
}

#[test]
fn quarter_turn_sends_sigma_x_to_sigma_y_and_sigma_y_to_minus_sigma_x() {
    for r in 0..2 {
        for c in 0..2 {
            let x = pauli(Axis::X, r, c).unwrap();
            let y = pauli(Axis::Y, r, c).unwrap();
            assert_eq!(
                value(rotated(Axis::X, r, c).unwrap(), 0.0, 1.0),
                (y.re as f64, y.im as f64)
            );
            assert_eq!(
                value(rotated(Axis::Y, r, c).unwrap(), 0.0, 1.0),
                (-(x.re as f64), -(x.im as f64))
            );
        }
    }
}

#[test]
fn rotated_basis_is_hermitian_at_any_angle() {
    for angle in [0.0f64, 0.3, -0.3, 1.0, 2.5, -3.1] {
        for axis in [Axis::X, Axis::Y, Axis::Z] {
            for r in 0..2 {
                for c in 0..2 {
                    let a = value(rotated(axis, r, c).unwrap(), angle.cos(), angle.sin());
                    let b = value(rotated(axis, c, r).unwrap(), angle.cos(), angle.sin());
                    assert_eq!(b, (a.0, -a.1));
                }
            }
        }
    }
}
