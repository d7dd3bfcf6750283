use swarm_engine::avoidance::{Avoidance, Spacing};
use swarm_engine::bot::{SwarmBot, TargetVicinity};
use swarm_engine::cohesion::Cohesion;
use swarm_engine::damage::{CollisionDamage, CollisionEvents};
use swarm_engine::data::SwarmBotState;
use swarm_engine::formation::Join;
use swarm_engine::spawn::SwarmPoint;
use swarm_engine::tracker::SwarmTracker;
use swarm_engine::vector::Vec3i;

fn bot(id: u64, x: i32) -> SwarmBot {
    let mut b = SwarmBot::new(id, Vec3i::new(x, 0, 0));
    b.velocity = Vec3i::new(0, 0, 1000);
    b
}

#[test]
fn first_half_of_a_tick_runs_the_passes_in_order() {
    let mut bots = vec![bot(1, 0), bot(2, 400), bot(3, 50_000)];
    let mut t = SwarmTracker::new();
    for b in bots.iter() {
        assert!(t.insert(b.id));
    }
    let targets = vec![Vec3i::new(0, 0, 20_000)];
    let orders = t.coordinate(&mut bots, &targets, 1000);
    // all three were on their own when targets were acquired
    assert!(orders.fixes.iter().all(|f| f.is_some()));
    assert_eq!(orders.fixes[0].unwrap().target, Some(0));
    for b in bots.iter() {
        assert_eq!(b.target_vicinity, TargetVicinity::Far);
        assert_eq!(b.thrust, 1300);
    }
    let east = Vec3i::new(1000, 0, 0);
    let up = Vec3i::new(0, 1000, 0);
    assert_eq!(orders.joins, vec![Some(Join { leader: 1, heading: east }), None, None]);
    // cohesion sees the follower that formation has just made
    assert_eq!(
        orders.cohesion,
        vec![Cohesion::Hold { leader: 1, heading: up }, Cohesion::Idle, Cohesion::Idle]
    );
    // the last pass to set a steering target wins
    assert_eq!(orders.heading(0), Some(up));
    assert_eq!(orders.heading(1), Some(Vec3i::new(-19, 0, 999)));
    assert_eq!(orders.heading(3), None);
    assert_eq!(t.get(1).unwrap().state, SwarmBotState::InSwarm);
    assert_eq!(
        orders.spacing,
        vec![Avoidance { bot: 0, other: 1, kind: Spacing::Cohere, push: Vec3i::new(200, 0, 0) }]
    );
    // a tick later the follower acquires no target and keeps its band
    let orders = t.coordinate(&mut bots, &Vec::new(), 1000);
    assert_eq!(orders.fixes[0], None);
    assert_eq!(orders.fixes[1].unwrap().target, None);
    assert_eq!(bots[0].thrust, 1600);
    assert_eq!(bots[1].thrust, 1600);
}

#[test]
fn second_half_of_a_tick_buries_those_that_the_damage_killed() {
    let mut bots = vec![bot(1, 0), bot(2, 400), bot(3, 800)];
    bots[1].swarm_point = Some(5);
    let mut points = vec![SwarmPoint::new(5)];
    points[0].live_bots = 3;
    let mut t = SwarmTracker::new();
    for b in bots.iter() {
        assert!(t.insert(b.id));
    }
    let mut bots_before = bots.clone();
    t.coordinate(&mut bots_before, &Vec::new(), 0);
    assert_eq!(t.get(2).unwrap().followers, 2);
    let events = vec![
        CollisionEvents::TakeDamage(2, CollisionDamage { damage: 100, from: Some(3) }, 3),
        CollisionEvents::TakeDamage(3, CollisionDamage { damage: 100, from: Some(3) }, 3),
    ];
    let losses = t.conclude(&mut bots, &Vec::new(), &events, &mut points);
    assert_eq!(losses.explosions, vec![1]);
    assert_eq!(losses.dead, vec![1]);
    assert!(!bots[1].is_alive);
    assert!(bots[2].is_alive);
    assert_eq!(bots[2].health, 40);
    assert!(!t.contains(2));
    assert_eq!(points[0].live_bots, 2);
    assert_eq!(t.get(1).unwrap().leader, Some(2));
    assert_eq!(t.pool().subscribers(1), Some(2));
}
