use noise_visualizer::animated::{AnimationError, PerlinAnimation};

fn offset_after(ticks: u32) -> u32 {
    let mut anim: PerlinAnimation<(), ()> = PerlinAnimation::new((), (150, 150));
    let mut last = anim.slice_offset();
    for _ in 0..ticks {
        last = anim.tick();
    }
    assert_eq!(last, anim.slice_offset());
    last
}

#[test]
fn ping_pong_offsets() {
    assert_eq!(offset_after(0), 0);
    assert_eq!(offset_after(1000), 1000);
    assert_eq!(offset_after(1999), 1);
    assert_eq!(offset_after(2000), 0);
    assert_eq!(offset_after(500), 500);
    assert_eq!(offset_after(1500), 500);
    assert_eq!(offset_after(2001), 1);
}

#[test]
fn geometry_missing_until_set() {
    let mut anim: PerlinAnimation<u8, Vec<u32>> = PerlinAnimation::new(7, (3, 3));
    assert_eq!(anim.get_geometry().err(), Some(AnimationError::UninitializedGeometry));
    anim.tick();
    assert_eq!(anim.get_geometry().err(), Some(AnimationError::UninitializedGeometry));
    anim.set_geometry(vec![1, 2, 3]);
    assert_eq!(anim.get_geometry().unwrap(), &vec![1, 2, 3]);
    anim.set_geometry(vec![4]);
    assert_eq!(anim.get_geometry().unwrap(), &vec![4]);
    assert_eq!(anim.frame(), 1);
    assert_eq!(*anim.noise(), 7);
    assert_eq!(anim.dimensions(), (3, 3));
}
