//! The passes of one tick, in their fixed order.
//!
//! A tick falls in two halves with the integration of the motion, which is
//! the caller's, between them. Before it come target acquisition, thrust
//! shaping, formation, cohesion and avoidance, all on the snapshot taken at
//! the start of the tick. After it come damage and teardown.

use crate::avoidance::{avoidance, avoidance_rows, Avoidance};
use crate::bot::SwarmBot;
use crate::cohesion::{coerce_order, coerce_upto, Cohesion};
use crate::damage::{collision_response, explosions_upto, respond_upto, CollisionEvents};
use crate::formation::{swarm_up_order, swarm_up_upto, Join};
use crate::steering::{push, pushed};
use crate::spawn::SwarmPoint;
use crate::target::{fix_on, seeks_target, shaped_thrust, thrust_control, TargetFix};
use crate::teardown::{dead_upto, depart_upto, retire_upto};
use crate::tracker::SwarmTracker;
use crate::vector::Vec3i;
use vstd::prelude::*;

verus! {

/// What the first half of a tick tells the caller to do, agent by agent.
/// `fixes`, `joins` and `cohesion` have one entry for each agent of the
/// snapshot.
#[derive(Clone, Debug, PartialEq, Eq)]
pub struct TickOrders {
    /// The target that each agent has acquired.
    pub fixes: Vec<Option<TargetFix>>,
    /// The leader that each agent has joined.
    pub joins: Vec<Option<Join>>,
    /// What each follower is to do about its leader.
    pub cohesion: Vec<Cohesion>,
    /// The corrections for spacing, in the order in which to apply them.
    pub spacing: Vec<Avoidance>,
}

/// The steering target that the passes of a tick leave an agent with: each
/// pass that sets one overrides the pass before it, so cohesion goes before
/// formation and formation before target acquisition.
pub open spec fn steering_target(
    fix: Option<TargetFix>,
    join: Option<Join>,
    cohesion: Cohesion,
) -> Option<Vec3i> {
    match cohesion {
        Cohesion::Hold { heading, .. } => Some(heading),
        Cohesion::Close { heading, .. } => Some(heading),
        _ => match join {
            Some(j) => Some(j.heading),
            None => match fix {
                Some(f) => Some(f.heading),
                None => None,
            },
        },
    }
}

impl TickOrders {
    /// The new steering target of the agent at index `i`, if the tick has
    /// set one: [`steering_target`]. Outside the snapshot there is none.
    pub fn heading(&self, i: usize) -> (h: Option<Vec3i>)
        ensures
            h == if i < self.fixes.len() && i < self.joins.len() && i < self.cohesion.len() {
                steering_target(self.fixes[i as int], self.joins[i as int], self.cohesion[i as int])
            } else {
                None::<Vec3i>
            },
    {
        if i >= self.fixes.len() || i >= self.joins.len() || i >= self.cohesion.len() {
            return None;
        }
        match self.cohesion[i] {
            Cohesion::Hold { heading, .. } => Some(heading),
            Cohesion::Close { heading, .. } => Some(heading),
            _ => match self.joins[i] {
                Some(j) => Some(j.heading),
                None => match self.fixes[i] {
                    Some(f) => Some(f.heading),
                    None => None,
                },
            },
        }
    }
}

/// What the second half of a tick tells the caller to do.
#[derive(Clone, Debug, PartialEq, Eq)]
pub struct TickLosses {
    /// The agents that blow up, by their index, in the order of the events.
    pub explosions: Vec<usize>,
    /// The agents to remove from the scene, by their index.
    pub dead: Vec<usize>,
}

/// The agent with the band of the target that it has acquired, if it has
/// acquired one, and with its thrust shaped by that band for `dt_ms`
/// milliseconds.
pub open spec fn briefed(bot: SwarmBot, fix: Option<TargetFix>, dt_ms: u32) -> SwarmBot {
    let vicinity = match fix {
        Some(f) => f.vicinity,
        None => bot.target_vicinity,
    };
    SwarmBot {
        target_vicinity: vicinity,
        thrust: shaped_thrust(vicinity, bot.thrust, dt_ms),
        ..bot
    }
}

/// The agents after the cohesion pushes of the first `n` of them were added
/// to their velocities.
pub open spec fn closed_in(bots: Seq<SwarmBot>, orders: Seq<Cohesion>, n: int) -> Seq<SwarmBot>
    decreases n,
{
    if n <= 0 {
        bots
    } else {
        let before = closed_in(bots, orders, n - 1);
        match orders[n - 1] {
            Cohesion::Close { push: p, .. } => if n - 1 < before.len() {
                before.update(
                    n - 1,
                    SwarmBot { velocity: pushed(before[n - 1].velocity, p), ..before[n - 1] },
                )
            } else {
                before
            },
            _ => before,
        }
    }
}

/// The agents after the pushes of the first `n` spacing corrections were
/// added to their velocities, in order. A correction for an index outside
/// the snapshot is passed over.
pub open spec fn spaced(bots: Seq<SwarmBot>, orders: Seq<Avoidance>, n: int) -> Seq<SwarmBot>
    decreases n,
{
    if n <= 0 {
        bots
    } else {
        let before = spaced(bots, orders, n - 1);
        let i = orders[n - 1].bot as int;
        if i < before.len() {
            before.update(
                i,
                SwarmBot { velocity: pushed(before[i].velocity, orders[n - 1].push), ..before[i] },
            )
        } else {
            before
        }
    }
}

/// Adds the pushes of a tick to the velocities of the agents: first those
/// of cohesion, agent by agent, then those of avoidance in their order.
/// Nothing else changes.
pub fn commit_pushes(bots: &mut Vec<SwarmBot>, cohesion: &Vec<Cohesion>, spacing: &Vec<Avoidance>)
    ensures
        final(bots)@ == spaced(
            closed_in(old(bots)@, cohesion@, cohesion.len() as int),
            spacing@,
            spacing.len() as int,
        ),
        final(bots).len() == old(bots).len(),
{
    let n = cohesion.len();
    let mut i: usize = 0;
    while i < n
        invariant
            n == cohesion.len(),
            i <= n,
            bots.len() == old(bots).len(),
            bots@ == closed_in(old(bots)@, cohesion@, i as int),
        decreases n - i,
    {
        match cohesion[i] {
            Cohesion::Close { push: p, .. } => {
                if i < bots.len() {
                    let mut bot = bots[i];
                    bot.velocity = push(&bot.velocity, &p);
                    bots.set(i, bot);
                }
            },
            _ => {},
        }
        i = i + 1;
    }
    let ghost mid = bots@;
    let m = spacing.len();
    let mut k: usize = 0;
    while k < m
        invariant
            m == spacing.len(),
            k <= m,
            bots.len() == old(bots).len(),
            bots@ == spaced(mid, spacing@, k as int),
        decreases m - k,
    {
        let order = &spacing[k];
        if order.bot < bots.len() {
            let mut bot = bots[order.bot];
            bot.velocity = push(&bot.velocity, &order.push);
            bots.set(order.bot, bot);
        }
        k = k + 1;
    }
}

/// Writes the band of each acquired target into its agent.
fn note_fixes(bots: &mut Vec<SwarmBot>, fixes: &Vec<Option<TargetFix>>)
    requires
        fixes.len() == old(bots).len(),
    ensures
        final(bots).len() == old(bots).len(),
        forall|i: int|
            0 <= i < old(bots).len() ==> #[trigger] final(bots)[i] == (SwarmBot {
                target_vicinity: match fixes[i] {
                    Some(f) => f.vicinity,
                    None => old(bots)[i].target_vicinity,
                },
                ..old(bots)[i]
            }),
{
    let n = bots.len();
    let mut i: usize = 0;
    while i < n
        invariant
            n == bots.len(),
            n == old(bots).len(),
            n == fixes.len(),
            i <= n,
            forall|k: int|
                0 <= k < i ==> #[trigger] bots[k] == (SwarmBot {
                    target_vicinity: match fixes[k] {
                        Some(f) => f.vicinity,
                        None => old(bots)[k].target_vicinity,
                    },
                    ..old(bots)[k]
                }),
            forall|k: int| i <= k < n ==> #[trigger] bots[k] == old(bots)[k],
        decreases n - i,
    {
        match fixes[i] {
            Some(f) => {
                let mut bot = bots[i];
                bot.target_vicinity = f.vicinity;
                bots.set(i, bot);
            },
            None => {},
        }
        i = i + 1;
    }
}

impl SwarmTracker {
    /// The first half of a tick, in this order:
    ///
    /// 1. target acquisition ([`SwarmTracker::detect_target`]), whose bands
    ///    are written into the agents;
    /// 2. thrust shaping ([`thrust_control`]);
    /// 3. formation ([`SwarmTracker::swarm_up`]);
    /// 4. cohesion ([`SwarmTracker::coerce`]), on the records as formation
    ///    left them;
    /// 5. avoidance ([`avoidance`]).
    ///
    /// Of the agents only the band and the thrust change, so every pass
    /// sees the positions and velocities of the start of the tick. The
    /// pushes are the caller's to add when the passes are over
    /// ([`commit_pushes`]).
    pub fn coordinate(
        &mut self,
        bots: &mut Vec<SwarmBot>,
        targets: &Vec<Vec3i>,
        dt_ms: u32,
    ) -> (orders: TickOrders)
        requires
            old(self).wf(),
        ensures
            final(self).wf(),
            final(bots).len() == old(bots).len(),
            orders.fixes.len() == old(bots).len(),
            orders.joins.len() == old(bots).len(),
            orders.cohesion.len() == old(bots).len(),
            forall|i: int|
                0 <= i < old(bots).len() ==> #[trigger] orders.fixes[i] == if seeks_target(
                    old(self)@,
                    old(bots)[i].id,
                ) {
                    Some(fix_on(old(bots)[i].position, targets@))
                } else {
                    None::<TargetFix>
                },
            forall|i: int|
                0 <= i < old(bots).len() ==> #[trigger] final(bots)[i] == briefed(
                    old(bots)[i],
                    orders.fixes[i],
                    dt_ms,
                ),
            final(self)@ == coerce_upto(
                swarm_up_upto(old(self)@, final(bots)@, old(bots).len() as int),
                final(bots)@,
                old(bots).len() as int,
                dt_ms,
            ),
            forall|i: int|
                0 <= i < old(bots).len() ==> #[trigger] orders.joins[i] == swarm_up_order(
                    swarm_up_upto(old(self)@, final(bots)@, i),
                    final(bots)@,
                    i,
                ),
            forall|i: int|
                0 <= i < old(bots).len() ==> #[trigger] orders.cohesion[i] == coerce_order(
                    coerce_upto(
                        swarm_up_upto(old(self)@, final(bots)@, old(bots).len() as int),
                        final(bots)@,
                        i,
                        dt_ms,
                    ),
                    final(bots)@,
                    i,
                    dt_ms,
                ),
            orders.spacing@ == avoidance_rows(final(bots)@, old(bots).len() as int, dt_ms),
    {
        let fixes = self.detect_target(bots, targets);
        note_fixes(bots, &fixes);
        thrust_control(bots, dt_ms);
        let joins = self.swarm_up(bots);
        let cohesion = self.coerce(bots, dt_ms);
        let spacing = avoidance(bots, dt_ms);
        TickOrders { fixes, joins, cohesion, spacing }
    }

    /// The second half of a tick: damage ([`collision_response`]), then
    /// teardown ([`SwarmTracker::despawn_swarm_bots`]) of the agents that
    /// the damage has killed and of those that were dead before.
    pub fn conclude(
        &mut self,
        bots: &mut Vec<SwarmBot>,
        immune_to: &Vec<Vec<u64>>,
        events: &Vec<CollisionEvents>,
        points: &mut Vec<SwarmPoint>,
    ) -> (losses: TickLosses)
        requires
            old(self).wf(),
        ensures
            final(self).wf(),
            final(bots)@ == respond_upto(old(bots)@, immune_to@, events@, events.len() as int),
            losses.explosions@ == explosions_upto(
                old(bots)@,
                immune_to@,
                events@,
                events.len() as int,
            ),
            final(self)@ == depart_upto(old(self)@, final(bots)@, final(bots).len() as int),
            final(points)@ == retire_upto(old(points)@, final(bots)@, final(bots).len() as int),
            losses.dead@ == dead_upto(final(bots)@, final(bots).len() as int),
            forall|i: int|
                #![trigger final(bots)[i]]
                0 <= i < final(bots).len() && !final(bots)[i].is_alive
                    ==> !final(self)@.table.contains_key(final(bots)[i].id),
    {
        let explosions = collision_response(bots, immune_to, events);
        let dead = self.despawn_swarm_bots(bots, points);
        TickLosses { explosions, dead }
    }
}

} // verus!
