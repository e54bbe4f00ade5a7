use blg_moire::dos::{
    average_dos, check_average, rescale_dos, AverageError, AverageShape, DosValues, GRID_X,
    GRID_Y, GRID_Z, NUM_ENERGIES,
};

fn shape(energies: usize, total: usize, orbitals: &[usize]) -> DosValues<f64> {
    DosValues {
        es: vec![0.0; energies],
        total_dos: vec![0.0; total],
        orbital_dos: orbitals.iter().map(|&len| vec![0.0; len]).collect(),
    }
}

fn add_share(sum: f64, value: f64, count: usize) -> f64 {
    sum + value / (count as f64)
}

#[test]
fn pipeline_grid_is_fixed() {
    assert_eq!((GRID_X, GRID_Y, GRID_Z), (256, 256, 1));
    assert_eq!(NUM_ENERGIES, 1001);
}

#[test]
fn conforming_shape_is_accepted() {
    assert!(shape(1001, 1001, &[1001, 1001, 1001, 1001]).is_conforming(1001, 4));
    assert!(shape(0, 0, &[]).is_conforming(0, 0));
    assert!(shape(3, 3, &[3, 3]).is_conforming(3, 2));
}

#[test]
fn each_wrong_length_is_rejected() {
    assert!(!shape(1000, 1001, &[1001, 1001]).is_conforming(1001, 2));
    assert!(!shape(1001, 1000, &[1001, 1001]).is_conforming(1001, 2));
    assert!(!shape(1001, 1001, &[1001]).is_conforming(1001, 2));
    assert!(!shape(1001, 1001, &[1001, 1001, 1001]).is_conforming(1001, 2));
    assert!(!shape(1001, 1001, &[1001, 1000]).is_conforming(1001, 2));
    assert!(!shape(1001, 1001, &[1000, 1001]).is_conforming(1001, 2));
    assert!(!shape(3, 3, &[3, 3]).is_conforming(4, 2));
}

#[test]
fn empty_collection_has_no_average() {
    assert_eq!(check_average(&Vec::<DosValues<f64>>::new()), Err(AverageError::NoSamples));
    let averaged = average_dos(&Vec::<DosValues<f64>>::new(), 0.0, add_share);
    assert_eq!(averaged.unwrap_err(), AverageError::NoSamples);
}

#[test]
fn matching_collection_yields_the_common_shape() {
    let shapes = vec![
        shape(1001, 1001, &[1001, 1001, 1001, 1001]),
        shape(1001, 1001, &[1001, 1001, 1001, 1001]),
        shape(1001, 1001, &[1001, 1001, 1001, 1001]),
    ];
    assert_eq!(
        check_average(&shapes),
        Ok(AverageShape { samples: 3, energies: 1001, orbitals: 4 })
    );
}

#[test]
fn single_result_is_its_own_average_shape() {
    assert_eq!(
        check_average(&vec![shape(5, 5, &[5, 5])]),
        Ok(AverageShape { samples: 1, energies: 5, orbitals: 2 })
    );
    assert_eq!(
        check_average(&vec![shape(0, 0, &[])]),
        Ok(AverageShape { samples: 1, energies: 0, orbitals: 0 })
    );
}

#[test]
fn first_mismatched_sample_is_named() {
    let shapes = vec![
        shape(5, 5, &[5, 5]),
        shape(5, 5, &[5, 5]),
        shape(6, 6, &[6, 6]),
        shape(5, 5, &[5]),
    ];
    assert_eq!(check_average(&shapes), Err(AverageError::ShapeMismatch { sample: 2 }));
    assert_eq!(
        average_dos(&shapes, 0.0, add_share).unwrap_err(),
        AverageError::ShapeMismatch { sample: 2 }
    );
}

#[test]
fn mixed_orbital_counts_are_rejected() {
    let shapes = vec![shape(5, 5, &[5, 5, 5, 5]), shape(5, 5, &[5, 5])];
    assert_eq!(check_average(&shapes), Err(AverageError::ShapeMismatch { sample: 1 }));
    assert_eq!(
        average_dos(&shapes, 0.0, add_share).unwrap_err(),
        AverageError::ShapeMismatch { sample: 1 }
    );
}

#[test]
fn short_total_curve_is_rejected() {
    let shapes = vec![shape(5, 5, &[5, 5]), shape(5, 4, &[5, 5])];
    assert_eq!(check_average(&shapes), Err(AverageError::ShapeMismatch { sample: 1 }));
}

#[test]
fn long_total_curve_is_rejected() {
    let shapes = vec![shape(5, 5, &[5, 5]), shape(5, 6, &[5, 5])];
    assert_eq!(
        average_dos(&shapes, 0.0, add_share).unwrap_err(),
        AverageError::ShapeMismatch { sample: 1 }
    );
}

#[test]
fn short_orbital_curve_is_rejected() {
    let shapes = vec![shape(5, 5, &[5, 5]), shape(5, 5, &[5, 5]), shape(5, 5, &[5, 4])];
    assert_eq!(check_average(&shapes), Err(AverageError::ShapeMismatch { sample: 2 }));
}

#[test]
fn inconsistent_first_result_is_rejected_at_position_zero() {
    let shapes = vec![shape(5, 4, &[5, 5]), shape(5, 5, &[5, 5])];
    assert_eq!(check_average(&shapes), Err(AverageError::ShapeMismatch { sample: 0 }));
    let shapes = vec![shape(5, 5, &[5, 3])];
    assert_eq!(check_average(&shapes), Err(AverageError::ShapeMismatch { sample: 0 }));
}

#[test]
fn the_arithmetic_is_not_called_when_the_shapes_do_not_fit() {
    let shapes = vec![shape(2, 2, &[2]), shape(2, 2, &[2]), shape(2, 3, &[2])];
    let averaged = average_dos(&shapes, 0.0, |_: f64, _: f64, _: usize| -> f64 {
        panic!("called on a collection that cannot be averaged")
    });
    assert_eq!(averaged.unwrap_err(), AverageError::ShapeMismatch { sample: 2 });
}

fn constant_dos(es: &[f64], offset: f64, orbitals: usize) -> DosValues<f64> {
    DosValues {
        es: es.to_vec(),
        total_dos: es.iter().map(|_| 2.0 + offset).collect(),
        orbital_dos: (0..orbitals)
            .map(|o| es.iter().map(|_| (o as f64) + offset).collect())
            .collect(),
    }
}

#[test]
fn average_of_offset_curves_is_the_mean_offset() {
    let es = [-1.0, -0.5, 0.0, 0.5, 1.0];
    let offsets = [0.0, 1.0, 2.0, 3.0];
    let all: Vec<DosValues<f64>> = offsets.iter().map(|&c| constant_dos(&es, c, 4)).collect();
    let avg = average_dos(&all, 0.0, add_share).unwrap();
    assert_eq!(avg.es, es.to_vec());
    assert_eq!(avg.total_dos, vec![3.5; 5]);
    assert_eq!(avg.orbital_dos.len(), 4);
    for o in 0..4 {
        assert_eq!(avg.orbital_dos[o], vec![(o as f64) + 1.5; 5]);
    }
}

#[test]
fn average_of_many_offset_curves_is_the_mean_offset_up_to_rounding() {
    let es: Vec<f64> = (0..11).map(|i| -5.0 + (i as f64)).collect();
    let offsets: Vec<f64> = (0..441).map(|i| 0.1 * (i as f64)).collect();
    let mean = offsets.iter().sum::<f64>() / (offsets.len() as f64);
    let all: Vec<DosValues<f64>> = offsets.iter().map(|&c| constant_dos(&es, c, 4)).collect();
    let avg = average_dos(&all, 0.0, add_share).unwrap();
    assert_eq!(avg.total_dos.len(), es.len());
    for e in 0..es.len() {
        assert!((avg.total_dos[e] - (2.0 + mean)).abs() <= 1e-9);
        for o in 0..4 {
            assert!((avg.orbital_dos[o][e] - ((o as f64) + mean)).abs() <= 1e-9);
        }
    }
}

#[test]
fn average_takes_the_samples_in_their_order() {
    let all = vec![
        DosValues { es: vec![0u32], total_dos: vec![1u32, 2], orbital_dos: vec![vec![3u32, 4]] },
        DosValues { es: vec![9u32], total_dos: vec![5u32, 6], orbital_dos: vec![vec![7u32, 8]] },
    ];
    let all: Vec<DosValues<u32>> = all
        .into_iter()
        .map(|d| DosValues { es: vec![d.es[0], d.es[0]], ..d })
        .collect();
    let avg = average_dos(&all, 0u32, |sum, value, count| 10 * sum + value + (count as u32)).unwrap();
    assert_eq!(avg.es, vec![0, 0]);
    assert_eq!(avg.total_dos, vec![10 * (1 + 2) + 5 + 2, 10 * (2 + 2) + 6 + 2]);
    assert_eq!(avg.orbital_dos, vec![vec![10 * (3 + 2) + 7 + 2, 10 * (4 + 2) + 8 + 2]]);
}

#[test]
fn average_of_one_sample_is_that_sample() {
    let one = DosValues {
        es: vec![0.0, 1.0],
        total_dos: vec![0.25, 0.75],
        orbital_dos: vec![vec![0.125, 0.5], vec![0.125, 0.25]],
    };
    let avg = average_dos(&vec![one.clone()], 0.0, add_share).unwrap();
    assert_eq!(avg.es, one.es);
    assert_eq!(avg.total_dos, one.total_dos);
    assert_eq!(avg.orbital_dos, one.orbital_dos);
}

#[test]
fn energy_grid_of_the_average_is_that_of_the_first_sample() {
    let first = DosValues { es: vec![0.0, 1.0], total_dos: vec![1.0, 1.0], orbital_dos: vec![] };
    let second = DosValues { es: vec![5.0, 6.0], total_dos: vec![3.0, 5.0], orbital_dos: vec![] };
    let avg = average_dos(&vec![first, second], 0.0, add_share).unwrap();
    assert_eq!(avg.es, vec![0.0, 1.0]);
    assert_eq!(avg.total_dos, vec![2.0, 3.0]);
    assert_eq!(avg.orbital_dos, Vec::<Vec<f64>>::new());
}

#[test]
fn rescale_multiplies_every_density_and_keeps_the_energies() {
    let k_start = [-10.0f64, -10.0, 0.0];
    let k_stop = [10.0f64, 10.0, 1.0];
    let scale = (k_stop[0] - k_start[0]) * (k_stop[1] - k_start[1])
        / (2.0 * std::f64::consts::PI).powi(2);
    assert!((scale - 10.132118364233778).abs() <= 1e-12);
    let dos = DosValues {
        es: vec![-1.0, 0.0, 1.0],
        total_dos: vec![1.0, 2.0, 4.0],
        orbital_dos: vec![vec![0.5, 1.0, 2.0], vec![0.5, 1.0, 2.0]],
    };
    let scaled = rescale_dos(&dos, |x| x * scale);
    assert_eq!(scaled.es, vec![-1.0, 0.0, 1.0]);
    assert_eq!(scaled.total_dos, vec![scale, 2.0 * scale, 4.0 * scale]);
    assert_eq!(
        scaled.orbital_dos,
        vec![vec![0.5 * scale, scale, 2.0 * scale], vec![0.5 * scale, scale, 2.0 * scale]]
    );
}

#[test]
fn rescale_keeps_a_ragged_shape_as_it_is() {
    let dos = DosValues {
        es: vec![1u8, 2],
        total_dos: vec![3u8],
        orbital_dos: vec![vec![], vec![4u8, 5, 6]],
    };
    let scaled = rescale_dos(&dos, |x| x + 1);
    assert_eq!(scaled.es, vec![1, 2]);
    assert_eq!(scaled.total_dos, vec![4]);
    assert_eq!(scaled.orbital_dos, vec![vec![], vec![5, 6, 7]]);
}

fn band_dos(energies: usize, orbitals: usize) -> DosValues<f64> {
    DosValues {
        es: (0..energies).map(|i| i as f64).collect(),
        total_dos: vec![4.0; energies],
        orbital_dos: vec![vec![1.0; energies]; orbitals],
    }
}

#[test]
fn calculation_hands_the_bilayer_plan_to_the_integrator() {
    let seen = std::cell::Cell::new(None);
    let calculated = blg_moire::dos::calculate_dos(
        true,
        true,
        |plan| {
            seen.set(Some(plan));
            band_dos(plan.num_energies, plan.bands)
        },
        |x: f64| x,
    );
    assert_eq!(
        seen.get(),
        Some(blg_moire::dos::GridPlan {
            bands: 4,
            grid_x: 256,
            grid_y: 256,
            grid_z: 1,
            num_energies: 1001,
        })
    );
    let dos = calculated.unwrap();
    assert_eq!(dos.es.len(), 1001);
    assert_eq!(dos.total_dos, vec![4.0; 1001]);
    assert_eq!(dos.orbital_dos, vec![vec![1.0; 1001]; 4]);
}

#[test]
fn calculation_rescales_what_the_integrator_returns() {
    let k_max: f64 = 10.0;
    let scale = (2.0 * k_max) * (2.0 * k_max) / (2.0 * std::f64::consts::PI).powi(2);
    let dos = blg_moire::dos::calculate_dos(true, true, |_| band_dos(3, 4), |x: f64| x * scale)
        .unwrap();
    assert_eq!(dos.es, vec![0.0, 1.0, 2.0]);
    assert_eq!(dos.total_dos, vec![4.0 * scale; 3]);
    assert_eq!(dos.orbital_dos, vec![vec![scale; 3]; 4]);
}

#[test]
fn window_that_is_not_a_unit_span_stops_the_calculation() {
    let k_start = [-10.0f64, -10.0, 0.0];
    let k_stop = [10.0f64, 10.0, 2.0];
    let window_is_unit =
        (k_start[2] - 0.0).abs() <= 1e-12 && (k_stop[2] - 1.0).abs() <= 1e-12;
    let calculated = blg_moire::dos::calculate_dos(
        true,
        window_is_unit,
        |_| -> DosValues<f64> { panic!("integrated over a window that is not a unit span") },
        |_: f64| -> f64 { panic!("rescaled over a window that is not a unit span") },
    );
    assert_eq!(calculated.unwrap_err(), blg_moire::dos::DosError::Window);
}

#[test]
fn units_other_than_one_stop_the_calculation() {
    for window_is_unit in [true, false] {
        let calculated = blg_moire::dos::calculate_dos(
            false,
            window_is_unit,
            |_| -> DosValues<f64> { panic!("integrated in the wrong units") },
            |_: f64| -> f64 { panic!("rescaled in the wrong units") },
        );
        assert_eq!(calculated.unwrap_err(), blg_moire::dos::DosError::Units);
    }
}

#[test]
fn result_with_the_wrong_orbital_count_is_rejected() {
    for orbitals in [0usize, 2, 3, 5] {
        let calculated =
            blg_moire::dos::calculate_dos(true, true, |_| band_dos(7, orbitals), |x: f64| x);
        assert_eq!(calculated.unwrap_err(), blg_moire::dos::DosError::Malformed);
    }
}

#[test]
fn result_with_a_curve_of_the_wrong_length_is_rejected() {
    let calculated = blg_moire::dos::calculate_dos(
        true,
        true,
        |_| {
            let mut dos = band_dos(7, 4);
            dos.orbital_dos[2].pop();
            dos
        },
        |x: f64| x,
    );
    assert_eq!(calculated.unwrap_err(), blg_moire::dos::DosError::Malformed);
    let calculated = blg_moire::dos::calculate_dos(
        true,
        true,
        |_| {
            let mut dos = band_dos(7, 4);
            dos.total_dos.push(0.0);
            dos
        },
        |x: f64| x,
    );
    assert_eq!(calculated.unwrap_err(), blg_moire::dos::DosError::Malformed);
}

#[test]
fn energy_axis_restricted_by_the_integrator_is_accepted() {
    let dos = blg_moire::dos::calculate_dos(true, true, |_| band_dos(250, 4), |x: f64| 2.0 * x)
        .unwrap();
    assert_eq!(dos.es.len(), 250);
    assert_eq!(dos.total_dos, vec![8.0; 250]);
}
