use noise_visualizer::grid::Grid;
use noise_visualizer::mesh::QuadCorners;

#[test]
fn three_by_three_scenario() {
    let mut values = vec![0.0f64; 9];
    values[2] = 0.5;
    values[5] = 0.7;
    values[8] = 0.8;
    let g = Grid::from_vec(values, 3, 3).unwrap();
    let vertices = g.gen_vertices();
    let indices = g.gen_indices();
    assert_eq!(vertices.len(), 9);
    assert_eq!(indices.len(), 24);
    assert_eq!((vertices[2].x, vertices[2].y, vertices[2].height), (2, 0, 0.5));
    assert_eq!((vertices[5].x, vertices[5].y, vertices[5].height), (2, 1, 0.7));
    assert_eq!((vertices[8].x, vertices[8].y, vertices[8].height), (2, 2, 0.8));
    assert_eq!((vertices[4].x, vertices[4].y, vertices[4].height), (1, 1, 0.0));
}

#[test]
fn mesh_counts_and_bounds_for_many_sizes() {
    for w in 2u32..7 {
        for h in 2u32..7 {
            let g = Grid::new(w, h, 0u8).unwrap();
            let vertices = g.gen_vertices();
            let indices = g.gen_indices();
            assert_eq!(vertices.len(), (w * h) as usize);
            assert_eq!(indices.len(), (6 * (w - 1) * (h - 1)) as usize);
            assert!(indices.iter().all(|&i| i < w * h));
        }
    }
}

#[test]
fn single_quad_winding() {
    let g = Grid::new(2, 2, 0u8).unwrap();
    assert_eq!(g.gen_indices(), vec![0, 2, 1, 2, 3, 1]);
}

#[test]
fn index_list_of_three_by_two() {
    let g = Grid::new(3, 2, 0u8).unwrap();
    assert_eq!(
        g.gen_indices(),
        vec![0, 3, 1, 3, 4, 1, 1, 4, 2, 4, 5, 2]
    );
}

#[test]
fn quads_in_row_major_order() {
    let g = Grid::new(3, 3, 0u8).unwrap();
    let quads = g.gen_quads();
    assert_eq!(quads.len(), 4);
    assert_eq!(
        quads[0],
        QuadCorners { bottom_left: 0, top_left: 3, bottom_right: 1, top_right: 4 }
    );
    assert_eq!(
        quads[3],
        QuadCorners { bottom_left: 4, top_left: 7, bottom_right: 5, top_right: 8 }
    );
}

#[test]
fn mesh_twice_is_identical() {
    let values: Vec<f64> = (0..20).map(|i| (i as f64 * 0.37).sin()).collect();
    let g = Grid::from_vec(values, 5, 4).unwrap();
    let (v1, i1) = (g.gen_vertices(), g.gen_indices());
    let (v2, i2) = (g.gen_vertices(), g.gen_indices());
    assert_eq!(i1, i2);
    assert_eq!(v1.len(), v2.len());
    for (a, b) in v1.iter().zip(v2.iter()) {
        assert_eq!((a.x, a.y, a.height.to_bits()), (b.x, b.y, b.height.to_bits()));
    }
}

#[test]
fn normal_weights_of_three_by_three() {
    let g = Grid::new(3, 3, 0u8).unwrap();
    assert_eq!(g.normal_weights(), vec![1, 3, 2, 3, 6, 3, 2, 3, 1]);
}

#[test]
fn normal_weights_never_zero() {
    for w in 2u32..6 {
        for h in 2u32..6 {
            let g = Grid::new(w, h, 0u8).unwrap();
            let weights = g.normal_weights();
            assert_eq!(weights.len(), (w * h) as usize);
            assert!(weights.iter().all(|&k| (1..=6).contains(&k)));
        }
    }
    let g = Grid::new(2, 2, 0u8).unwrap();
    assert_eq!(g.normal_weights(), vec![1, 2, 2, 1]);
}
