use noise_visualizer::grid::{Grid, GridError};

#[test]
fn new_fills_every_cell() {
    let g = Grid::new(3, 2, 7u8).unwrap();
    assert_eq!(g.width(), 3);
    assert_eq!(g.height(), 2);
    assert_eq!(g.as_slice(), &[7u8; 6][..]);
}

#[test]
fn new_refuses_thin_grids() {
    assert_eq!(Grid::new(1, 5, 0u8).err(), Some(GridError::InvalidDimensions));
    assert_eq!(Grid::new(5, 1, 0u8).err(), Some(GridError::InvalidDimensions));
    assert_eq!(Grid::new(0, 0, 0u8).err(), Some(GridError::InvalidDimensions));
    assert!(Grid::new(2, 2, 0u8).is_ok());
}

#[test]
fn from_vec_checks_dimensions_then_length() {
    assert_eq!(
        Grid::from_vec(vec![0.0f64; 4], 1, 4).err(),
        Some(GridError::InvalidDimensions)
    );
    assert_eq!(
        Grid::from_vec(vec![0.0f64; 5], 2, 2).err(),
        Some(GridError::LengthMismatch)
    );
    let g = Grid::from_vec(vec![1.0f64, 2.0, 3.0, 4.0, 5.0, 6.0], 2, 3).unwrap();
    assert_eq!(g.get(1, 0), 2.0);
    assert_eq!(g.get(0, 2), 5.0);
}

#[test]
fn from_fn_is_row_major() {
    let g = Grid::from_fn(3, 2, |x: u32, y: u32| (x, y)).unwrap();
    assert_eq!(
        g.as_slice(),
        &[(0, 0), (1, 0), (2, 0), (0, 1), (1, 1), (2, 1)][..]
    );
    assert_eq!(g.get(2, 1), (2, 1));
    assert_eq!(
        Grid::from_fn(1, 3, |x: u32, y: u32| x + y).err(),
        Some(GridError::InvalidDimensions)
    );
}

#[test]
fn map_keeps_shape() {
    let g = Grid::from_vec(vec![1u32, 2, 3, 4], 2, 2).unwrap();
    let m = g.map(|v: u32| v * 10);
    assert_eq!(m.width(), 2);
    assert_eq!(m.height(), 2);
    assert_eq!(m.as_slice(), &[10u32, 20, 30, 40][..]);
}
