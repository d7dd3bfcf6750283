use swarm_engine::avoidance::{Avoidance, Spacing};
use swarm_engine::bot::SwarmBot;
use swarm_engine::cohesion::{Cohesion, COHESION_THRUST};
use swarm_engine::pipeline::commit_pushes;
use swarm_engine::steering::{damp_along, direction_to, isqrt, pull_toward, push, stretch};
use swarm_engine::vector::Vec3i;

#[test]
fn square_roots_round_down() {
    assert_eq!(isqrt(0), 0);
    assert_eq!(isqrt(1), 1);
    assert_eq!(isqrt(2), 1);
    assert_eq!(isqrt(3), 1);
    assert_eq!(isqrt(4), 2);
    assert_eq!(isqrt(24), 4);
    assert_eq!(isqrt(25), 5);
    assert_eq!(isqrt(26), 5);
    assert_eq!(isqrt(999_999_999_999), 999_999);
    assert_eq!(isqrt(1_000_000_000_000), 1_000_000);
    assert_eq!(isqrt(1u128 << 64), 1u64 << 32);
    assert_eq!(isqrt((1u128 << 64) - 1), (1u64 << 32) - 1);
    assert_eq!(isqrt(u128::MAX), u64::MAX);
    let r = u64::MAX as u128;
    assert_eq!(isqrt(r * r), u64::MAX);
    assert_eq!(isqrt(r * r - 1), u64::MAX - 1);
}

#[test]
fn pull_points_at_the_goal_with_the_size_of_the_gain() {
    let from = Vec3i::zero();
    let to = Vec3i::new(3000, 4000, 0);
    assert_eq!(COHESION_THRUST, 300);
    assert_eq!(pull_toward(&from, &to, 300, 1000), Vec3i::new(180, 240, 0));
    assert_eq!(pull_toward(&to, &from, 300, 1000), Vec3i::new(-180, -240, 0));
    assert_eq!(pull_toward(&from, &Vec3i::new(0, 0, -7), 300, 1000), Vec3i::new(0, 0, -300));
    assert_eq!(pull_toward(&from, &to, 300, 0), Vec3i::zero());
    assert_eq!(pull_toward(&from, &to, 0, 1000), Vec3i::zero());
}

#[test]
fn pull_rounds_toward_zero() {
    let from = Vec3i::zero();
    let to = Vec3i::new(3000, 4000, 0);
    // the gain of 16 ms is 4.8, rounded down to 4; 2.4 and 3.2 round to 2 and 3
    assert_eq!(pull_toward(&from, &to, 300, 16), Vec3i::new(2, 3, 0));
    assert_eq!(pull_toward(&to, &from, 300, 16), Vec3i::new(-2, -3, 0));
    // short displacements keep their direction: 300 over the root of 3 is 173.2
    assert_eq!(pull_toward(&from, &Vec3i::new(1, 1, 1), 300, 1000), Vec3i::new(173, 173, 173));
    assert_eq!(pull_toward(&from, &Vec3i::new(-1, 1, 0), 300, 1000), Vec3i::new(-212, 212, 0));
}

#[test]
fn pull_between_equal_points_is_nothing() {
    let p = Vec3i::new(5, 6, 7);
    assert_eq!(pull_toward(&p, &p, 300, 1000), Vec3i::zero());
}

#[test]
fn pull_is_capped() {
    let from = Vec3i::new(i32::MIN, 0, 0);
    let to = Vec3i::new(i32::MAX, 0, 0);
    assert_eq!(pull_toward(&from, &to, u32::MAX, u32::MAX), Vec3i::new(i32::MAX, 0, 0));
    assert_eq!(pull_toward(&to, &from, u32::MAX, u32::MAX), Vec3i::new(i32::MIN, 0, 0));
}

#[test]
fn damp_takes_the_part_that_closes_in() {
    let from = Vec3i::zero();
    let near = Vec3i::new(50, 0, 0);
    assert_eq!(damp_along(&Vec3i::new(1000, 0, 0), &from, &near), Vec3i::new(-1000, 0, 0));
    assert_eq!(damp_along(&Vec3i::new(0, 1000, 0), &from, &near), Vec3i::zero());
    assert_eq!(
        damp_along(&Vec3i::new(1000, 500, 0), &from, &Vec3i::new(30, 40, 0)),
        Vec3i::new(-600, -800, 0)
    );
    assert_eq!(damp_along(&Vec3i::new(10, 0, 0), &from, &Vec3i::new(1, 1, 1)), Vec3i::new(-3, -3, -3));
    assert_eq!(damp_along(&Vec3i::new(1000, 0, 0), &from, &from), Vec3i::zero());
}

#[test]
fn damp_never_pushes_at_the_other() {
    let from = Vec3i::zero();
    let near = Vec3i::new(50, 0, 0);
    // moving away: nothing to take, and nothing that would bring it back
    assert_eq!(damp_along(&Vec3i::new(-1000, 0, 0), &from, &near), Vec3i::zero());
    assert_eq!(damp_along(&Vec3i::new(-10, 0, 0), &from, &Vec3i::new(1, 1, 1)), Vec3i::zero());
    assert_eq!(damp_along(&Vec3i::new(-1000, 700, 0), &from, &near), Vec3i::zero());
    // closing in from any side, the push points away
    for (v, to) in [
        (Vec3i::new(300, -200, 100), Vec3i::new(40, 10, -20)),
        (Vec3i::new(-300, 200, 100), Vec3i::new(-40, 10, 20)),
        (Vec3i::new(7, 7, 7), Vec3i::new(1, 90, 1)),
    ] {
        let p = damp_along(&v, &from, &to);
        assert!(v.dot_product(&to) > 0);
        assert!(p.dot_product(&to) < 0, "push {:?}", p);
        assert!(p.x * to.x <= 0 && p.y * to.y <= 0 && p.z * to.z <= 0);
    }
}

#[test]
fn damp_does_not_overflow() {
    let v = Vec3i::new(i32::MIN, i32::MIN, i32::MIN);
    let from = Vec3i::new(i32::MIN, i32::MIN, i32::MIN);
    let to = Vec3i::new(i32::MAX, i32::MAX, i32::MAX);
    assert_eq!(damp_along(&v, &from, &to), Vec3i::zero());
    assert_eq!(damp_along(&v, &to, &from), Vec3i::new(i32::MAX, i32::MAX, i32::MAX));
    let w = Vec3i::new(i32::MAX, i32::MAX, i32::MAX);
    assert_eq!(damp_along(&w, &from, &to), Vec3i::new(-i32::MAX, -i32::MAX, -i32::MAX));
}

#[test]
fn direction_has_the_length_of_a_unit() {
    let from = Vec3i::new(100, 100, 100);
    assert_eq!(direction_to(&from, &Vec3i::new(3100, 4100, 100)), Vec3i::new(600, 800, 0));
    assert_eq!(direction_to(&from, &Vec3i::new(100, 100, 99)), Vec3i::new(0, 0, -1000));
    assert_eq!(direction_to(&from, &from), Vec3i::new(0, 1000, 0));
    assert_eq!(direction_to(&from, &Vec3i::new(101, 101, 101)), Vec3i::new(577, 577, 577));
    assert_eq!(direction_to(&from, &Vec3i::new(1100, 1100, 1100)), Vec3i::new(577, 577, 577));
    assert_eq!(
        direction_to(&Vec3i::new(i32::MIN, 0, 0), &Vec3i::new(i32::MAX, 0, 0)),
        Vec3i::new(1000, 0, 0)
    );
}

#[test]
fn stretch_scales_a_heading_to_a_length() {
    assert_eq!(stretch(&Vec3i::new(600, -800, 0), 2000), Vec3i::new(1200, -1600, 0));
    assert_eq!(stretch(&Vec3i::new(600, -800, 0), 0), Vec3i::zero());
    assert_eq!(stretch(&Vec3i::new(577, -577, 1), 3), Vec3i::new(1, -1, 0));
    assert_eq!(
        stretch(&Vec3i::new(i32::MAX, i32::MIN, 1000), u32::MAX),
        Vec3i::new(i32::MAX, i32::MIN, i32::MAX)
    );
}

#[test]
fn push_adds_and_caps() {
    assert_eq!(push(&Vec3i::new(1, 2, 3), &Vec3i::new(10, -20, 30)), Vec3i::new(11, -18, 33));
    assert_eq!(
        push(&Vec3i::new(i32::MAX, i32::MIN, 0), &Vec3i::new(1, -1, 0)),
        Vec3i::new(i32::MAX, i32::MIN, 0)
    );
}

#[test]
fn commit_adds_the_pushes_of_a_tick_to_the_velocities() {
    let mut bots = vec![
        SwarmBot::new(1, Vec3i::zero()),
        SwarmBot::new(2, Vec3i::zero()),
        SwarmBot::new(3, Vec3i::zero()),
    ];
    bots[0].velocity = Vec3i::new(1, 1, 1);
    let before = bots.clone();
    let up = Vec3i::new(0, 1000, 0);
    let cohesion = vec![
        Cohesion::Close { leader: 1, heading: up, push: Vec3i::new(10, 0, 0) },
        Cohesion::Hold { leader: 0, heading: up },
        Cohesion::Idle,
        Cohesion::Close { leader: 0, heading: up, push: Vec3i::new(99, 99, 99) },
    ];
    let spacing = vec![
        Avoidance { bot: 0, other: 1, kind: Spacing::Repel, push: Vec3i::new(-5, 0, 0) },
        Avoidance { bot: 2, other: 1, kind: Spacing::Cohere, push: Vec3i::new(0, 7, 0) },
        Avoidance { bot: 0, other: 2, kind: Spacing::Cohere, push: Vec3i::new(0, 0, 2) },
        Avoidance { bot: 3, other: 2, kind: Spacing::Cohere, push: Vec3i::new(9, 9, 9) },
    ];
    commit_pushes(&mut bots, &cohesion, &spacing);
    assert_eq!(bots[0].velocity, Vec3i::new(6, 1, 3));
    assert_eq!(bots[1].velocity, Vec3i::zero());
    assert_eq!(bots[2].velocity, Vec3i::new(0, 7, 0));
    for (b, o) in bots.iter().zip(before.iter()) {
        let mut same = *b;
        same.velocity = o.velocity;
        assert_eq!(same, *o);
    }
}
