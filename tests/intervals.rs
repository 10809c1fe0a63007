use ray_tracer::distance::distance_key;
use ray_tracer::hittable::{closest_hit, Roots};
use ray_tracer::utils::{Clamp, RangeExt};

#[test]
fn surrounds_is_open() {
    let r = 2u32..5u32;
    assert!(r.surrounds(&3));
    assert!(r.surrounds(&4));
    assert!(!r.surrounds(&2));
    assert!(!r.surrounds(&5));
    assert!(!r.surrounds(&0));
    assert!(!r.surrounds(&9));
}

#[test]
fn clamp_moves_onto_nearer_end() {
    let r = 10u32..20u32;
    assert_eq!(r.clamp(3), 10);
    assert_eq!(r.clamp(10), 10);
    assert_eq!(r.clamp(15), 15);
    assert_eq!(r.clamp(20), 20);
    assert_eq!(r.clamp(25), 20);
}

#[test]
fn sphere_from_outside_hits_near_root() {
    // unit sphere at the origin, ray from z = 5 towards -z: roots at 4 and 6
    let roots = Roots::new(4, 6);
    assert_eq!(roots.hit(&(1..1000)), Some(4));
}

#[test]
fn sphere_from_inside_hits_far_root() {
    // ray starting at the center: roots at -1 and 1, shifted by 10 into keys
    let roots = Roots::new(9, 11);
    assert_eq!(roots.hit(&(10..1000)), Some(11));
}

#[test]
fn hit_at_interval_ends_is_rejected() {
    let roots = Roots::new(4, 6);
    assert_eq!(roots.hit(&(4..6)), None);
    assert_eq!(roots.hit(&(4..7)), Some(6));
    assert_eq!(roots.hit(&(3..4)), None);
    assert_eq!(Roots::new(5, 5).hit(&(5..9)), None);
}

#[test]
fn closest_hit_takes_smaller_distance_in_either_order() {
    let front = Some(Roots::new(4, 6));
    let back = Some(Roots::new(5, 8));
    let forward = vec![front, back];
    let reverse = vec![back, front];
    assert_eq!(closest_hit(&forward, &(1..1000)), Some((0, 4)));
    assert_eq!(closest_hit(&reverse, &(1..1000)), Some((1, 4)));
}

#[test]
fn closest_hit_skips_misses_and_out_of_range() {
    let cands = vec![None, Some(Roots::new(50, 60)), Some(Roots::new(7, 9))];
    assert_eq!(closest_hit(&cands, &(1..40)), Some((2, 7)));
    assert_eq!(closest_hit(&cands, &(7..40)), Some((2, 9)));
    assert_eq!(closest_hit(&cands, &(9..40)), None);
}

#[test]
fn closest_hit_of_empty_list_is_none() {
    assert_eq!(closest_hit(&vec![], &(0..100)), None);
}

#[test]
fn closest_hit_tie_goes_to_first() {
    let cands = vec![Some(Roots::new(3, 5)), Some(Roots::new(3, 4))];
    assert_eq!(closest_hit(&cands, &(0..100)), Some((0, 3)));
}

#[test]
fn distance_keys_keep_float_order() {
    let values = [-1.0e30f32, -6.0, -4.0, -0.001, 0.0, 0.001, 1.0, 4.0, 6.0, 1.0e30, f32::INFINITY];
    for pair in values.windows(2) {
        assert!(distance_key(pair[0].to_bits()) < distance_key(pair[1].to_bits()));
    }
    assert_eq!(distance_key(0.0f32.to_bits()), 0x8000_0000);
    assert_eq!(distance_key((-0.0f32).to_bits()), 0x7fff_ffff);
    assert_eq!(distance_key(1.0f32.to_bits()), 0xbf80_0000);
}

#[test]
fn sphere_roots_from_float_distances() {
    // unit sphere at the origin, ray from z = 5 along -z: roots at t = 4 and t = 6
    let roots = Roots::new(distance_key(4.0f32.to_bits()), distance_key(6.0f32.to_bits()));
    let ray_t = distance_key(0.001f32.to_bits())..distance_key(f32::INFINITY.to_bits());
    assert_eq!(roots.hit(&ray_t), Some(distance_key(4.0f32.to_bits())));
    // the same ray starting at the center: roots at t = -1 and t = 1
    let inside = Roots::new(distance_key((-1.0f32).to_bits()), distance_key(1.0f32.to_bits()));
    assert_eq!(inside.hit(&ray_t), Some(distance_key(1.0f32.to_bits())));
}
