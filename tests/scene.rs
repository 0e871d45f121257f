use walnut::closest_hit_index;

fn key(t: f32) -> Option<u32> {
    Some(t.to_bits())
}

#[test]
fn nearer_of_two_spheres_wins() {
    assert_eq!(closest_hit_index(&[key(4.0), key(2.0)]), Some(1));
    assert_eq!(closest_hit_index(&[key(2.0), key(4.0)]), Some(0));
}

#[test]
fn misses_are_skipped() {
    assert_eq!(closest_hit_index(&[None, key(7.5), None, key(0.25)]), Some(3));
    assert_eq!(closest_hit_index(&[None, key(7.5), None]), Some(1));
}

#[test]
fn ties_go_to_the_first_shape() {
    assert_eq!(closest_hit_index(&[key(3.0), key(1.0), key(1.0)]), Some(1));
    assert_eq!(closest_hit_index(&[Some(5), Some(5)]), Some(0));
}

#[test]
fn all_misses_give_none() {
    assert_eq!(closest_hit_index(&[None, None]), None);
    assert_eq!(closest_hit_index(&[]), None);
}

#[test]
fn keys_order_as_distances() {
    let ts = [0.001f32, 0.5, 1.0, 2.0, 1.0e6, f32::INFINITY];
    for w in ts.windows(2) {
        assert!(w[0].to_bits() < w[1].to_bits());
    }
    assert_eq!(closest_hit_index(&[key(1.0e6), key(0.001), key(0.5)]), Some(1));
}
