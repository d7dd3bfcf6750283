use swarm_engine::vector::{Vec3i, UNIT};

#[test]
fn unit_is_a_thousand_steps() {
    assert_eq!(UNIT, 1000);
}

#[test]
fn zero_and_new_agree() {
    assert_eq!(Vec3i::zero(), Vec3i::new(0, 0, 0));
    assert_eq!(Vec3i::new(1, -2, 3), Vec3i { x: 1, y: -2, z: 3 });
}

#[test]
fn dot_product_and_length() {
    let a = Vec3i::new(1, 2, 3);
    let b = Vec3i::new(4, -5, 6);
    assert_eq!(a.dot_product(&b), 12);
    assert_eq!(b.dot_product(&a), 12);
    assert_eq!(a.length_sq(), 14);
    assert_eq!(Vec3i::zero().length_sq(), 0);
}

#[test]
fn distance_is_symmetric_and_exact() {
    let a = Vec3i::new(1, 2, 3);
    let b = Vec3i::new(4, 6, 3);
    assert_eq!(a.distance_sq(&b), 25);
    assert_eq!(b.distance_sq(&a), 25);
    assert_eq!(a.distance_sq(&a), 0);
}

#[test]
fn extreme_coordinates_do_not_overflow() {
    let lo = Vec3i::new(i32::MIN, i32::MIN, i32::MIN);
    let hi = Vec3i::new(i32::MAX, i32::MAX, i32::MAX);
    let gap: u128 = (1u128 << 32) - 1;
    assert_eq!(lo.distance_sq(&hi), 3 * gap * gap);
    assert_eq!(lo.length_sq(), 3u128 << 62);
    assert_eq!(lo.dot_product(&lo), 3i128 << 62);
    assert_eq!(lo.dot_product(&hi), -3 * (1i128 << 31) * ((1i128 << 31) - 1));
    assert!(lo.agrees_with(&lo));
    assert!(hi.agrees_with(&hi));
    assert!(!lo.agrees_with(&hi));
    assert!(!lo.is_within(&hi, u32::MAX));
    assert!(lo.is_within(&Vec3i::new(i32::MIN, i32::MIN, i32::MAX), u32::MAX));
}

#[test]
fn within_includes_the_boundary_and_closer_than_does_not() {
    let a = Vec3i::zero();
    let b = Vec3i::new(300, 400, 0);
    assert!(a.is_within(&b, 500));
    assert!(!a.is_within(&b, 499));
    assert!(!a.is_closer_than(&b, 500));
    assert!(a.is_closer_than(&b, 501));
    assert!(a.is_within(&a, 0));
    assert!(!a.is_closer_than(&a, 0));
}

#[test]
fn headings_agree_up_to_sixty_degrees() {
    let east = Vec3i::new(1000, 0, 0);
    // 45 degrees
    assert!(east.agrees_with(&Vec3i::new(1000, 1000, 0)));
    // exactly 60 degrees: cosine one half
    assert!(Vec3i::new(1, 1, 0).agrees_with(&Vec3i::new(1, 0, 1)));
    // a little more than 60 degrees
    assert!(!Vec3i::new(1000, 1000, 0).agrees_with(&Vec3i::new(1000, 0, 1001)));
    // about 63 degrees
    assert!(!east.agrees_with(&Vec3i::new(1000, 2000, 0)));
    // orthogonal and opposite
    assert!(!east.agrees_with(&Vec3i::new(0, 1000, 0)));
    assert!(!east.agrees_with(&Vec3i::new(-1000, 0, 0)));
    // parallel, whatever the speed
    assert!(east.agrees_with(&Vec3i::new(1, 0, 0)));
}

#[test]
fn heading_within_sixty_degrees_rounds_nowhere() {
    let east = Vec3i::new(1, 0, 0);
    // 4 * dot^2 = 36 against a product of 35 and of 38
    assert!(east.agrees_with(&Vec3i::new(3, 5, 1)));
    assert!(!east.agrees_with(&Vec3i::new(3, 5, 2)));
    // 4 * dot^2 = 64 against a product of 61 and of 65
    assert!(east.agrees_with(&Vec3i::new(4, 6, 3)));
    assert!(!east.agrees_with(&Vec3i::new(4, 7, 0)));
    // 4 * dot^2 = 16 against a product of 20
    assert!(!Vec3i::new(2, 0, 0).agrees_with(&Vec3i::new(1, 2, 0)));
    // 4 * dot^2 = 100 against a product of 106
    assert!(!east.agrees_with(&Vec3i::new(5, 0, 9)));
}

#[test]
fn a_vector_at_rest_agrees_with_nothing() {
    let rest = Vec3i::zero();
    let east = Vec3i::new(1000, 0, 0);
    assert!(!rest.agrees_with(&east));
    assert!(!east.agrees_with(&rest));
    assert!(!rest.agrees_with(&rest));
}
