use ray_tracer::{pixel_at, pixel_index};

#[test]
fn pixel_at_reads_row_major() {
    assert_eq!(pixel_at(0, 4, 3), (0, 0));
    assert_eq!(pixel_at(3, 4, 3), (3, 0));
    assert_eq!(pixel_at(5, 4, 3), (1, 1));
    assert_eq!(pixel_at(11, 4, 3), (3, 2));
}

#[test]
fn pixel_index_is_row_major() {
    assert_eq!(pixel_index(1, 1, 4, 3), 5);
    assert_eq!(pixel_index(3, 2, 4, 3), 11);
    assert_eq!(pixel_index(0, 0, 1, 1), 0);
}

#[test]
fn pixel_slots_round_trip() {
    let (w, h) = (7u32, 5u32);
    let mut seen = vec![false; (w * h) as usize];
    for n in 0..(w * h) as usize {
        let (x, y) = pixel_at(n, w, h);
        assert_eq!(pixel_index(x, y, w, h), n);
        assert!(!seen[n]);
        seen[n] = true;
    }
}

#[test]
fn pixel_at_of_large_image() {
    assert_eq!(pixel_at(4_000_000_000, 100_000, 100_000), (0, 40_000));
}
