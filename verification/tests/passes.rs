use swarm_engine::avoidance::{avoidance, push_for, spacing, Avoidance, Spacing};
use swarm_engine::bot::{locate, SwarmBot, TargetVicinity, AROUND_RANGE, NEAR_RANGE, SIGHT_RANGE};
use swarm_engine::collider::{detect_collisions, Collider, ColliderInfo};
use swarm_engine::damage::{collision_response, holds, take_damage, CollisionDamage, CollisionEvents, DamageOutcome};
use swarm_engine::spawn::{locate_point, release_bots, Placement, SwarmPoint};
use swarm_engine::steering::isqrt;
use swarm_engine::target::{nearest_target, shape_thrust, thrust_control, TargetFix, CRUISE_THRUST, FAR_THRUST};
use swarm_engine::tracker::SwarmTracker;
use swarm_engine::vector::Vec3i;

fn bot(id: u64, x: i32, y: i32, z: i32) -> SwarmBot {
    let mut b = SwarmBot::new(id, Vec3i::new(x, y, z));
    b.velocity = Vec3i::new(0, 0, 1000);
    b
}

#[test]
fn default_bot_has_the_stock_settings() {
    let b = SwarmBot::default();
    assert_eq!(b.id, 0);
    assert_eq!(b.position, Vec3i::zero());
    assert_eq!(b.velocity, Vec3i::zero());
    assert_eq!(b.heading, Vec3i::new(0, 1000, 0));
    assert_eq!(b.swarm_point, None);
    assert_eq!(b.health, 40);
    assert!(b.is_alive);
    assert!(b.explosible);
    assert_eq!(b.thrust, 1000);
    assert_eq!(b.target_vicinity, TargetVicinity::Around);
    assert_eq!(b.swarm_up_distance, 2000);
    assert_eq!(b.swarm_spacing_min, 100);
    assert_eq!(b.swarm_spacing_max, 500);
    assert_eq!(b.cohere_thrust, 200);
    assert_eq!(SwarmBot::new(9, Vec3i::new(1, 2, 3)).id, 9);
    assert_eq!(SwarmBot::new(9, Vec3i::new(1, 2, 3)).position, Vec3i::new(1, 2, 3));
}

#[test]
fn vicinity_bands_include_their_upper_bounds() {
    assert_eq!(NEAR_RANGE, 3000);
    assert_eq!(AROUND_RANGE, 6000);
    assert_eq!(SwarmBot::estimate_vicinity(0), TargetVicinity::Near);
    assert_eq!(SwarmBot::estimate_vicinity(9_000_000), TargetVicinity::Near);
    assert_eq!(SwarmBot::estimate_vicinity(9_000_001), TargetVicinity::Around);
    assert_eq!(SwarmBot::estimate_vicinity(36_000_000), TargetVicinity::Around);
    assert_eq!(SwarmBot::estimate_vicinity(36_000_001), TargetVicinity::Far);
    assert_eq!(SwarmBot::estimate_vicinity(u128::MAX), TargetVicinity::Far);
}

#[test]
fn locate_finds_the_first_place_of_a_handle() {
    let bots = vec![bot(5, 0, 0, 0), bot(7, 1, 0, 0), bot(5, 2, 0, 0)];
    assert_eq!(locate(&bots, 5), Some(0));
    assert_eq!(locate(&bots, 7), Some(1));
    assert_eq!(locate(&bots, 6), None);
    assert_eq!(locate(&Vec::new(), 5), None);
}

#[test]
fn spacing_bands() {
    let a = bot(1, 0, 0, 0);
    assert_eq!(spacing(&a, &bot(2, 0, 0, 0)), None);
    assert_eq!(spacing(&a, &bot(2, 1, 0, 0)), Some(Spacing::Repel));
    assert_eq!(spacing(&a, &bot(2, 99, 0, 0)), Some(Spacing::Repel));
    assert_eq!(spacing(&a, &bot(2, 100, 0, 0)), Some(Spacing::Cohere));
    assert_eq!(spacing(&a, &bot(2, 499, 0, 0)), Some(Spacing::Cohere));
    assert_eq!(spacing(&a, &bot(2, 500, 0, 0)), None);
    assert_eq!(spacing(&a, &bot(2, 0, 60, 80)), Some(Spacing::Cohere));
}

#[test]
fn spacing_goes_by_the_distances_of_the_first_agent() {
    let mut a = bot(1, 0, 0, 0);
    let b = bot(2, 300, 0, 0);
    a.swarm_spacing_min = 400;
    assert_eq!(spacing(&a, &b), Some(Spacing::Repel));
    assert_eq!(spacing(&b, &a), Some(Spacing::Cohere));
    a.swarm_spacing_min = 0;
    a.swarm_spacing_max = 0;
    assert_eq!(spacing(&a, &b), None);
}

#[test]
fn avoidance_looks_at_every_pair_once_in_order() {
    let mut bots = vec![bot(1, 0, 0, 0), bot(2, 50, 0, 0), bot(3, 250, 0, 0), bot(4, 10_000, 0, 0)];
    bots[0].velocity = Vec3i::new(700, 0, 1000);
    let orders = avoidance(&bots, 1000);
    assert_eq!(
        orders,
        vec![
            Avoidance { bot: 0, other: 1, kind: Spacing::Repel, push: Vec3i::new(-700, 0, 0) },
            Avoidance { bot: 0, other: 2, kind: Spacing::Cohere, push: Vec3i::new(200, 0, 0) },
            Avoidance { bot: 1, other: 2, kind: Spacing::Cohere, push: Vec3i::new(200, 0, 0) },
        ]
    );
    assert_eq!(avoidance(&Vec::new(), 1000), Vec::new());
    assert_eq!(avoidance(&vec![bot(1, 0, 0, 0)], 1000), Vec::new());
}

#[test]
fn an_agent_that_moves_away_inside_the_minimum_spacing_is_not_pulled_back() {
    // 0.05 units apart with a minimum of 0.1, the first receding at one unit a second
    let mut bots = vec![bot(1, 0, 0, 0), bot(2, 50, 0, 0)];
    bots[0].velocity = Vec3i::new(-1000, 0, 0);
    assert_eq!(
        avoidance(&bots, 16),
        vec![Avoidance { bot: 0, other: 1, kind: Spacing::Repel, push: Vec3i::zero() }]
    );
    // closing in at the same speed, it is stopped
    bots[0].velocity = Vec3i::new(1000, 0, 0);
    assert_eq!(
        avoidance(&bots, 16),
        vec![Avoidance { bot: 0, other: 1, kind: Spacing::Repel, push: Vec3i::new(-1000, 0, 0) }]
    );
}

#[test]
fn spacing_pushes() {
    let mut a = bot(1, 0, 0, 0);
    a.velocity = Vec3i::new(1000, 500, 0);
    let b = bot(2, 30, 40, 0);
    // the part of the velocity along the line to the other is taken away
    assert_eq!(push_for(&a, &b, Spacing::Repel, 16), Vec3i::new(-600, -800, 0));
    // 0.2 units per second per second, toward the other
    assert_eq!(push_for(&a, &b, Spacing::Cohere, 1000), Vec3i::new(120, 160, 0));
    assert_eq!(push_for(&b, &a, Spacing::Cohere, 1000), Vec3i::new(-120, -160, 0));
    assert_eq!(push_for(&a, &b, Spacing::Cohere, 16), Vec3i::new(1, 2, 0));
    assert_eq!(push_for(&a, &a, Spacing::Cohere, 1000), Vec3i::zero());
    assert_eq!(push_for(&a, &a, Spacing::Repel, 1000), Vec3i::zero());
}

#[test]
fn nearest_target_is_the_first_of_the_nearest_in_sight() {
    let pos = Vec3i::new(0, 0, 0);
    let targets = vec![
        Vec3i::new(5000, 0, 0),
        Vec3i::new(0, 4000, 0),
        Vec3i::new(0, 0, -4000),
        Vec3i::new(7000, 0, 0),
    ];
    assert_eq!(
        nearest_target(&pos, &targets),
        TargetFix {
            target: Some(1),
            distance_sq: 16_000_000,
            vicinity: TargetVicinity::Around,
            heading: Vec3i::new(0, 1000, 0),
        }
    );
    assert_eq!(
        nearest_target(&Vec3i::new(6000, 0, 0), &targets),
        TargetFix {
            target: Some(0),
            distance_sq: 1_000_000,
            vicinity: TargetVicinity::Near,
            heading: Vec3i::new(-1000, 0, 0),
        }
    );
    assert_eq!(
        nearest_target(&Vec3i::new(20_000, 0, 0), &targets),
        TargetFix {
            target: Some(3),
            distance_sq: 169_000_000,
            vicinity: TargetVicinity::Far,
            heading: Vec3i::new(-1000, 0, 0),
        }
    );
}

#[test]
fn no_target_in_sight() {
    assert_eq!(SIGHT_RANGE, 9_999_000);
    let range_sq = 9_999_000u128 * 9_999_000u128;
    // with nothing in sight an agent heads for the origin; at the origin, straight up
    let none = TargetFix {
        target: None,
        distance_sq: range_sq,
        vicinity: TargetVicinity::Far,
        heading: Vec3i::new(0, 1000, 0),
    };
    let pos = Vec3i::zero();
    assert_eq!(nearest_target(&pos, &Vec::new()), none);
    assert_eq!(nearest_target(&pos, &vec![Vec3i::new(9_999_000, 0, 0)]), none);
    assert_eq!(
        nearest_target(&pos, &vec![Vec3i::new(9_998_999, 0, 0)]),
        TargetFix {
            target: Some(0),
            distance_sq: 9_998_999u128 * 9_998_999u128,
            vicinity: TargetVicinity::Far,
            heading: Vec3i::new(1000, 0, 0),
        }
    );
    assert_eq!(
        nearest_target(&Vec3i::new(0, 0, 50), &Vec::new()).heading,
        Vec3i::new(0, 0, -1000)
    );
}

#[test]
fn only_solo_agents_and_leaders_acquire_targets() {
    let bots = vec![bot(1, 0, 0, 0), bot(2, 500, 0, 0), bot(3, 50_000, 0, 0), bot(4, 0, 0, 0)];
    let mut t = SwarmTracker::new();
    for id in 1..=3 {
        assert!(t.insert(id));
    }
    assert!(t.join(1, 2));
    assert!(!t.acquires(1));
    assert!(t.acquires(2));
    assert!(t.acquires(3));
    assert!(!t.acquires(4));
    let targets = vec![Vec3i::new(500, 0, 1000)];
    let fixes = t.detect_target(&bots, &targets);
    assert_eq!(fixes.len(), 4);
    assert_eq!(fixes[0], None);
    assert_eq!(
        fixes[1],
        Some(TargetFix {
            target: Some(0),
            distance_sq: 1_000_000,
            vicinity: TargetVicinity::Near,
            heading: Vec3i::new(0, 0, 1000),
        })
    );
    assert_eq!(fixes[2].unwrap().target, Some(0));
    assert_eq!(fixes[2].unwrap().vicinity, TargetVicinity::Far);
    assert_eq!(fixes[3], None);
}

#[test]
fn thrust_builds_up_far_from_the_target() {
    assert_eq!(FAR_THRUST, 3000);
    assert_eq!(shape_thrust(TargetVicinity::Far, 1000, 1000), 1300);
    assert_eq!(shape_thrust(TargetVicinity::Far, 1000, 16), 1004);
    assert_eq!(shape_thrust(TargetVicinity::Far, 2999, 1000), 3299);
    assert_eq!(shape_thrust(TargetVicinity::Far, 3000, 1000), 3000);
    assert_eq!(shape_thrust(TargetVicinity::Far, 5000, 1000), 5000);
    assert_eq!(shape_thrust(TargetVicinity::Far, 0, 0), 0);
    assert_eq!(shape_thrust(TargetVicinity::Far, 2999, u32::MAX), 2999 + 1_288_490_188);
}

#[test]
fn thrust_settles_around_the_target() {
    assert_eq!(CRUISE_THRUST, 1000);
    assert_eq!(shape_thrust(TargetVicinity::Around, 3000, 1000), 2400);
    assert_eq!(shape_thrust(TargetVicinity::Around, 3000, 16), 2991);
    assert_eq!(shape_thrust(TargetVicinity::Around, 1001, 1000), 401);
    assert_eq!(shape_thrust(TargetVicinity::Around, 1001, 10_000), 0);
    assert_eq!(shape_thrust(TargetVicinity::Around, 1000, 1000), 1000);
    assert_eq!(shape_thrust(TargetVicinity::Around, 400, 16), 1000);
    assert_eq!(shape_thrust(TargetVicinity::Around, 0, 0), 1000);
}

#[test]
fn thrust_holds_near_the_target() {
    assert_eq!(shape_thrust(TargetVicinity::Near, 0, 1000), 0);
    assert_eq!(shape_thrust(TargetVicinity::Near, 2500, 1000), 2500);
    assert_eq!(shape_thrust(TargetVicinity::Near, u32::MAX, u32::MAX), u32::MAX);
}

#[test]
fn thrust_control_shapes_every_agent_and_nothing_else() {
    let mut bots = vec![bot(1, 0, 0, 0), bot(2, 5, 5, 5), bot(3, 9, 9, 9)];
    bots[0].target_vicinity = TargetVicinity::Far;
    bots[1].target_vicinity = TargetVicinity::Around;
    bots[1].thrust = 2000;
    bots[2].target_vicinity = TargetVicinity::Near;
    let before = bots.clone();
    thrust_control(&mut bots, 500);
    assert_eq!(bots[0].thrust, 1150);
    assert_eq!(bots[1].thrust, 1700);
    assert_eq!(bots[2].thrust, 1000);
    for (b, o) in bots.iter().zip(before.iter()) {
        let mut same = *b;
        same.thrust = o.thrust;
        assert_eq!(same, *o);
    }
}

#[test]
fn damage_from_oneself_is_ignored() {
    let mut b = bot(1, 0, 0, 0);
    let d = CollisionDamage { damage: 1000, from: Some(1) };
    assert_eq!(take_damage(&mut b, &d, &Vec::new()), DamageOutcome::Ignored);
    assert_eq!(b.health, 40);
    assert!(b.is_alive);
    assert_eq!(b, bot(1, 0, 0, 0));
}

#[test]
fn damage_from_an_immune_source_is_ignored() {
    let mut b = bot(1, 0, 0, 0);
    let d = CollisionDamage { damage: 10, from: Some(7) };
    assert_eq!(take_damage(&mut b, &d, &vec![3, 7]), DamageOutcome::Ignored);
    assert_eq!(b.health, 40);
    assert_eq!(take_damage(&mut b, &d, &vec![3, 8]), DamageOutcome::Hit);
    assert_eq!(b.health, 30);
    assert!(holds(&vec![3, 7], 7));
    assert!(!holds(&vec![3, 7], 8));
    assert!(!holds(&Vec::new(), 8));
}

#[test]
fn damage_takes_health_until_the_agent_is_dead() {
    let mut b = bot(1, 0, 0, 0);
    let d = CollisionDamage { damage: 15, from: None };
    assert_eq!(take_damage(&mut b, &d, &Vec::new()), DamageOutcome::Hit);
    assert_eq!(b.health, 25);
    assert_eq!(take_damage(&mut b, &d, &Vec::new()), DamageOutcome::Hit);
    assert_eq!(b.health, 10);
    assert!(b.is_alive);
    assert_eq!(take_damage(&mut b, &d, &Vec::new()), DamageOutcome::Exploded);
    assert_eq!(b.health, 0);
    assert!(!b.is_alive);
    // the dead take no more damage
    assert_eq!(take_damage(&mut b, &d, &Vec::new()), DamageOutcome::Ignored);
    assert_eq!(b.health, 0);
}

#[test]
fn exact_damage_kills_and_only_explosible_agents_blow_up() {
    let mut b = bot(1, 0, 0, 0);
    b.explosible = false;
    let d = CollisionDamage { damage: 40, from: Some(2) };
    assert_eq!(take_damage(&mut b, &d, &Vec::new()), DamageOutcome::Destroyed);
    assert_eq!(b.health, 0);
    assert!(!b.is_alive);
    let mut c = bot(3, 0, 0, 0);
    let light = CollisionDamage { damage: 0, from: Some(2) };
    assert_eq!(take_damage(&mut c, &light, &Vec::new()), DamageOutcome::Hit);
    assert_eq!(c.health, 40);
    let heavy = CollisionDamage { damage: u32::MAX, from: Some(2) };
    assert_eq!(take_damage(&mut c, &heavy, &Vec::new()), DamageOutcome::Exploded);
}

#[test]
fn collision_response_applies_the_events_in_order() {
    let mut bots = vec![bot(1, 0, 0, 0), bot(2, 0, 0, 0), bot(3, 0, 0, 0)];
    bots[2].explosible = false;
    let immune = vec![vec![], vec![9]];
    let hit = |victim: u64, damage: u32, from: Option<u64>| {
        CollisionEvents::TakeDamage(victim, CollisionDamage { damage, from }, from.unwrap_or(0))
    };
    let events = vec![
        hit(1, 30, Some(2)),
        hit(2, 100, Some(9)),
        hit(1, 30, Some(1)),
        hit(3, 40, None),
        hit(8, 40, None),
        hit(1, 10, Some(3)),
        hit(1, 10, Some(3)),
        hit(2, 5, Some(1)),
    ];
    let explosions = collision_response(&mut bots, &immune, &events);
    assert_eq!(explosions, vec![0]);
    assert_eq!((bots[0].health, bots[0].is_alive), (0, false));
    assert_eq!((bots[1].health, bots[1].is_alive), (35, true));
    assert_eq!((bots[2].health, bots[2].is_alive), (0, false));
}

#[test]
fn stock_spawn_point() {
    let p = SwarmPoint::default();
    assert_eq!(
        p,
        SwarmPoint {
            id: 0,
            origin: Vec3i::zero(),
            burst_count: 5,
            cooldown: 2000,
            last_burst: 0,
            limit: 20,
            live_bots: 0,
            radius: 2000
        }
    );
    assert_eq!(SwarmPoint::new(4).id, 4);
    assert_eq!(p.xyz(), Vec3i::zero());
}

#[test]
fn spawn_point_releases_bursts_up_to_its_limit() {
    let mut p = SwarmPoint::new(1);
    assert_eq!(p.release(1999), 0);
    assert_eq!(p.last_burst, 1999);
    assert_eq!(p.release(1), 5);
    assert_eq!((p.last_burst, p.live_bots), (0, 5));
    assert_eq!(p.release(2500), 5);
    assert_eq!(p.release(2000), 5);
    assert_eq!(p.release(2000), 5);
    assert_eq!(p.live_bots, 20);
    assert_eq!(p.release(2000), 0);
    assert_eq!((p.last_burst, p.live_bots), (0, 20));
    p.retire();
    p.retire();
    assert_eq!(p.live_bots, 18);
    assert_eq!(p.release(2000), 2);
    assert_eq!(p.live_bots, 20);
}

#[test]
fn spawn_point_counts_do_not_wrap() {
    let mut p = SwarmPoint::new(1);
    p.retire();
    assert_eq!(p.live_bots, 0);
    p.last_burst = u64::MAX - 1;
    p.cooldown = u64::MAX;
    assert_eq!(p.release(0), 0);
    assert_eq!(p.last_burst, u64::MAX - 1);
    assert_eq!(p.release(5), 5);
    assert_eq!(p.last_burst, 0);
    p.live_bots = 30;
    p.cooldown = 0;
    assert_eq!(p.release(0), 0);
    assert_eq!(p.live_bots, 30);
}

#[test]
fn placements_lie_on_the_sphere_of_the_spawn_point() {
    let mut p = SwarmPoint::new(1);
    p.origin = Vec3i::new(10_000, -20_000, 30_000);
    // the draw (600, 0, 800) has the length 1000
    assert_eq!(p.place(600, 0, 800), (Vec3i::new(600, 0, 800), Vec3i::new(11_200, -20_000, 31_600)));
    assert_eq!(p.place(-3, 0, -4), (Vec3i::new(-600, 0, -800), Vec3i::new(8_800, -20_000, 28_400)));
    // a draw of all zeros points straight up
    assert_eq!(p.place(0, 0, 0), (Vec3i::new(0, 1000, 0), Vec3i::new(10_000, -18_000, 30_000)));
    // a short draw points where a long one does
    assert_eq!(p.place(1, 1, 1).0, Vec3i::new(577, 577, 577));
    assert_eq!(p.place(1000, 1000, 1000).0, Vec3i::new(577, 577, 577));
    assert_eq!(p.place(-1000, 1000, -1000).1, Vec3i::new(8_846, -18_846, 28_846));
    p.radius = 0;
    assert_eq!(p.place(600, 0, 800).1, p.origin);
}

#[test]
fn release_bots_serves_every_spawn_point() {
    let mut rng = rand::rng();
    let mut points = vec![SwarmPoint::new(1), SwarmPoint::new(2)];
    points[1].cooldown = 500;
    points[1].burst_count = 3;
    points[1].origin = Vec3i::new(50_000, 0, 0);
    let placements = release_bots(&mut points, 600, &mut rng);
    assert_eq!(placements.iter().map(|p| p.point).collect::<Vec<usize>>(), vec![1, 1, 1]);
    assert_eq!(points[0].last_burst, 600);
    assert_eq!((points[1].last_burst, points[1].live_bots), (0, 3));
    let placements = release_bots(&mut points, 1400, &mut rng);
    assert_eq!(
        placements.iter().map(|p| p.point).collect::<Vec<usize>>(),
        vec![0, 0, 0, 0, 0, 1, 1, 1]
    );
    for p in placements.iter() {
        // the heading has the length of a unit and the agent sits a radius out, up to rounding
        let length = isqrt(p.heading.length_sq());
        assert!((998..=1000).contains(&length), "heading {:?}", p.heading);
        let out = isqrt(p.position.distance_sq(&points[p.point].origin));
        assert!((1994..=2001).contains(&out), "position {:?}", p.position);
    }
    assert_eq!(locate_point(&points, 2), Some(1));
    assert_eq!(locate_point(&points, 3), None);
}

#[test]
fn new_agents_scatter_in_all_directions() {
    let mut rng = rand::rng();
    let mut points = vec![SwarmPoint::new(1)];
    points[0].limit = 1000;
    points[0].burst_count = 200;
    let placements: Vec<Placement> = release_bots(&mut points, 2000, &mut rng);
    assert_eq!(placements.len(), 200);
    assert_eq!(points[0].live_bots, 200);
    // two hundred draws that all agree are no draws at all
    assert!(placements.iter().any(|p| p.heading != placements[0].heading));
    assert!(placements.iter().any(|p| p.heading.x < 0));
    assert!(placements.iter().any(|p| p.heading.x > 0));
    assert!(placements.iter().any(|p| p.heading.y < 0));
    assert!(placements.iter().any(|p| p.heading.y > 0));
    assert!(placements.iter().any(|p| p.heading.z < 0));
    assert!(placements.iter().any(|p| p.heading.z > 0));
}

#[test]
fn nothing_is_released_before_the_cooldown_is_over_or_above_the_limit() {
    let mut rng = rand::rng();
    let mut points = vec![SwarmPoint::new(1)];
    assert_eq!(release_bots(&mut points, 1999, &mut rng), Vec::new());
    points[0].live_bots = 20;
    assert_eq!(release_bots(&mut points, 1, &mut rng), Vec::new());
    assert_eq!(points[0].last_burst, 0);
    assert_eq!(release_bots(&mut Vec::new(), 5000, &mut rng), Vec::new());
}

#[test]
fn teardown_removes_the_dead_and_tells_their_spawn_points() {
    let mut bots = vec![bot(1, 0, 0, 0), bot(2, 500, 0, 0), bot(3, 600, 0, 0), bot(4, 0, 0, 0)];
    bots[0].swarm_point = Some(10);
    bots[1].swarm_point = Some(11);
    bots[2].swarm_point = Some(99);
    let mut points = vec![SwarmPoint::new(10), SwarmPoint::new(11)];
    points[0].live_bots = 2;
    points[1].live_bots = 1;
    let mut t = SwarmTracker::new();
    for id in 1..=3 {
        assert!(t.insert(id));
    }
    assert!(t.join(1, 2));
    assert!(t.join(3, 2));
    bots[0].is_alive = false;
    bots[2].is_alive = false;
    bots[3].is_alive = false;
    let dead = t.despawn_swarm_bots(&bots, &mut points);
    assert_eq!(dead, vec![0, 2, 3]);
    assert_eq!(points[0].live_bots, 1);
    assert_eq!(points[1].live_bots, 1);
    assert!(!t.contains(1));
    assert!(!t.contains(3));
    assert_eq!(t.get(2).unwrap().followers, 0);
    assert_eq!(t.pool().subscribers(1), Some(1));
    assert_eq!(t.len(), 1);
}

#[test]
fn spheres_and_points_collide_where_they_touch() {
    let s = |x: i32, r: u32| Collider::Sphere { center: Vec3i::new(x, 0, 0), radius: r };
    let p = |x: i32| Collider::Point { center: Vec3i::new(x, 0, 0) };
    assert!(s(0, 300).check_collision(&s(500, 200)));
    assert!(!s(0, 300).check_collision(&s(501, 200)));
    assert!(s(0, 300).check_collision(&p(300)));
    assert!(p(300).check_collision(&s(0, 300)));
    assert!(!s(0, 300).check_collision(&p(301)));
    assert!(p(7).check_collision(&p(7)));
    assert!(!p(7).check_collision(&p(8)));
    assert!(s(i32::MIN, u32::MAX).check_collision(&s(i32::MAX, u32::MAX)));
    assert_eq!(s(1, 2).get_radius(), Some(2));
    assert_eq!(p(1).get_radius(), None);
    assert_eq!(s(1, 2).get_center(), Vec3i::new(1, 0, 0));
    let mut c = s(1, 2);
    c.set_center(Vec3i::new(4, 5, 6));
    assert_eq!(c, Collider::Sphere { center: Vec3i::new(4, 5, 6), radius: 2 });
    let mut q = p(1);
    q.set_center(Vec3i::new(4, 5, 6));
    assert_eq!(q, Collider::Point { center: Vec3i::new(4, 5, 6) });
}

#[test]
fn collisions_raise_damage_both_ways() {
    let info = |id: u64, x: i32, damage: Option<CollisionDamage>| ColliderInfo {
        id,
        collider: Collider::Sphere { center: Vec3i::new(x, 0, 0), radius: 50 },
        damage,
    };
    let d1 = CollisionDamage { damage: 10, from: None };
    let d2 = CollisionDamage { damage: 20, from: Some(2) };
    let objects = vec![info(1, 0, Some(d1)), info(2, 100, Some(d2)), info(3, 150, None), info(4, 900, Some(d1))];
    let events = detect_collisions(&objects);
    assert_eq!(
        events,
        vec![
            CollisionEvents::TakeDamage(2, d1, 1),
            CollisionEvents::TakeDamage(1, d2, 2),
            CollisionEvents::TakeDamage(3, d2, 2),
        ]
    );
    assert_eq!(detect_collisions(&Vec::new()), Vec::new());
}
