use noise_visualizer::grid::GridError;
use noise_visualizer::sampling::{make_noise_grid, sample_range, SampleRange};

/// An order key for finite floats: keys compare as the floats do.
fn order_key(v: f64) -> u64 {
    let bits = v.to_bits();
    if bits >> 63 == 1 {
        !bits
    } else {
        bits | (1u64 << 63)
    }
}

fn rescale(v: f64, lo: f64, hi: f64) -> f64 {
    (v - lo) / (hi - lo)
}

#[test]
fn sample_range_takes_first_extremes() {
    assert_eq!(
        sample_range(&[5, 2, 9, 2, 9, 4]),
        Ok(SampleRange { min_index: 1, max_index: 2 })
    );
    assert_eq!(
        sample_range(&[3, 3, 3]),
        Err(GridError::DegenerateNoiseRange)
    );
    assert_eq!(
        sample_range(&[3, 4]),
        Ok(SampleRange { min_index: 0, max_index: 1 })
    );
}

#[test]
fn normalization_spans_unit_interval() {
    let raw = [0.3f64, -0.2, 0.1, 0.45, -0.05, 0.0];
    let g = make_noise_grid(
        (3, 2),
        |x: u32, y: u32| 0.5 + raw[(x + y * 3) as usize],
        order_key,
        rescale,
    )
    .unwrap();
    let vals = g.as_slice();
    assert_eq!(vals[1], 0.0);
    assert_eq!(vals[3], 1.0);
    assert!(vals.iter().all(|&v| (0.0..=1.0).contains(&v)));
    assert!((vals[0] - 0.5 / 0.65).abs() < 1e-12);
}

#[test]
fn constant_noise_is_degenerate() {
    let r = make_noise_grid((4, 4), |_x: u32, _y: u32| 0.5 + 0.25, order_key, rescale);
    assert_eq!(r.err(), Some(GridError::DegenerateNoiseRange));
}

#[test]
fn noise_grid_refuses_thin_dimensions() {
    let r = make_noise_grid((1, 4), |x: u32, y: u32| (x + y) as f64, order_key, rescale);
    assert_eq!(r.err(), Some(GridError::InvalidDimensions));
}

#[test]
fn samples_on_half_open_unit_square() {
    let g = make_noise_grid(
        (4, 2),
        |x: u32, y: u32| x as f64 / 4.0 + 10.0 * (y as f64 / 2.0),
        order_key,
        rescale,
    )
    .unwrap();
    let vals = g.as_slice();
    assert_eq!(vals[0], 0.0);
    assert_eq!(vals[7], 1.0);
    assert!((vals[1] - 0.25 / 5.75).abs() < 1e-12);
}
