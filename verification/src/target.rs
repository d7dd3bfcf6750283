//! Target acquisition and thrust shaping.
//!
//! Agents on their own and leaders steer for the nearest target in sight;
//! followers steer by their leader and acquire nothing. How hard an agent
//! pushes depends on how far its target is.

use crate::bot::{SwarmBot, TargetVicinity, SIGHT_RANGE};
use crate::data::Role;
use crate::model::TrackerView;
use crate::steering::{direction, direction_to};
use crate::tracker::SwarmTracker;
use crate::vector::Vec3i;
use vstd::prelude::*;

verus! {

/// The thrust that an agent far from its target builds up to: 3 units.
pub const FAR_THRUST: u32 = 3_000;

/// The thrust that an agent around its target settles at: 1 unit.
pub const CRUISE_THRUST: u32 = 1_000;

/// What an agent has acquired: the index of the target in the list, or
/// `None` with no target in sight; the square of its distance; the band that
/// the distance falls in; and the heading toward it, which is the agent's
/// steering target from now on. With no target in sight the distance is
/// that of [`SIGHT_RANGE`], the band is `Far`, and the agent heads for the
/// origin.
#[derive(Clone, Copy, Debug, PartialEq, Eq)]
pub struct TargetFix {
    pub target: Option<usize>,
    pub distance_sq: u128,
    pub vicinity: TargetVicinity,
    pub heading: Vec3i,
}

/// The target in sight that is nearest to `pos` among the first `n`, the
/// first of them where several are equally near. A target is in sight
/// where it is closer than [`SIGHT_RANGE`].
pub open spec fn nearest_upto(pos: Vec3i, targets: Seq<Vec3i>, n: int) -> Option<int>
    decreases n,
{
    if n <= 0 {
        None
    } else {
        let before = nearest_upto(pos, targets, n - 1);
        let reach = match before {
            Some(p) => pos.dist_sq(targets[p]),
            None => SIGHT_RANGE * SIGHT_RANGE,
        };
        if pos.dist_sq(targets[n - 1]) < reach {
            Some(n - 1)
        } else {
            before
        }
    }
}

/// What an agent at `pos` acquires from `targets`.
pub open spec fn fix_on(pos: Vec3i, targets: Seq<Vec3i>) -> TargetFix {
    match nearest_upto(pos, targets, targets.len() as int) {
        Some(p) => TargetFix {
            target: Some(p as usize),
            distance_sq: pos.dist_sq(targets[p]) as u128,
            vicinity: SwarmBot::vicinity_of(pos.dist_sq(targets[p])),
            heading: direction(pos, targets[p]),
        },
        None => TargetFix {
            target: None,
            distance_sq: (SIGHT_RANGE * SIGHT_RANGE) as u128,
            vicinity: TargetVicinity::Far,
            heading: direction(pos, Vec3i { x: 0, y: 0, z: 0 }),
        },
    }
}

/// The agent `id` acquires targets: it has a record and follows nobody. It
/// is on its own, or a leader and therefore `InSwarm`.
pub open spec fn seeks_target(v: TrackerView, id: u64) -> bool {
    v.table.contains_key(id) && !(v.table[id].role_of(id) is Follower)
}

/// The thrust after `dt_ms` milliseconds of shaping by the band `vicinity`.
///
/// - `Far`: below [`FAR_THRUST`], thrust grows by 0.3 units per second.
/// - `Around`: above [`CRUISE_THRUST`], thrust falls by 0.6 units per
///   second, not below zero; at or below it, thrust is set to
///   [`CRUISE_THRUST`].
/// - `Near`: thrust stays.
///
/// A change is rounded down to a thousandth, and the result is capped by
/// what a `u32` holds.
pub open spec fn shaped_thrust(vicinity: TargetVicinity, thrust: u32, dt_ms: u32) -> u32 {
    match vicinity {
        TargetVicinity::Far => if thrust < FAR_THRUST {
            let raised = thrust + 3 * dt_ms / 10;
            if raised > u32::MAX {
                u32::MAX
            } else {
                raised as u32
            }
        } else {
            thrust
        },
        TargetVicinity::Around => if thrust > CRUISE_THRUST {
            let lowered = thrust - 6 * dt_ms / 10;
            if lowered < 0 {
                0
            } else {
                lowered as u32
            }
        } else {
            CRUISE_THRUST
        },
        TargetVicinity::Near => thrust,
    }
}

/// What [`nearest_upto`] finds is in sight and no target is nearer, nor
/// is an earlier one as near; where it finds nothing, no target is in sight.
pub proof fn lemma_nearest(pos: Vec3i, targets: Seq<Vec3i>, n: int)
    requires
        0 <= n <= targets.len(),
    ensures
        match nearest_upto(pos, targets, n) {
            Some(p) => {
                &&& 0 <= p < n
                &&& pos.dist_sq(targets[p]) < SIGHT_RANGE * SIGHT_RANGE
                &&& forall|k: int| 0 <= k < n ==> pos.dist_sq(targets[p]) <= pos.dist_sq(targets[k])
                &&& forall|k: int| 0 <= k < p ==> pos.dist_sq(targets[p]) < pos.dist_sq(targets[k])
            },
            None => forall|k: int|
                0 <= k < n ==> pos.dist_sq(targets[k]) >= SIGHT_RANGE * SIGHT_RANGE,
        },
    decreases n,
{
    if n > 0 {
        lemma_nearest(pos, targets, n - 1);
    }
}

/// Computes [`fix_on`].
pub fn nearest_target(pos: &Vec3i, targets: &Vec<Vec3i>) -> (fix: TargetFix)
    ensures
        fix == fix_on(*pos, targets@),
{
    let n = targets.len();
    let mut best: Option<usize> = None;
    let mut reach: u128 = (SIGHT_RANGE as u128) * (SIGHT_RANGE as u128);
    let mut k: usize = 0;
    while k < n
        invariant
            n == targets.len(),
            k <= n,
            match best {
                Some(p) => nearest_upto(*pos, targets@, k as int) == Some(p as int) && p < k
                    && reach == pos.dist_sq(targets@[p as int]),
                None => nearest_upto(*pos, targets@, k as int) is None && reach == SIGHT_RANGE
                    * SIGHT_RANGE,
            },
        decreases n - k,
    {
        let d = pos.distance_sq(&targets[k]);
        if d < reach {
            best = Some(k);
            reach = d;
        }
        k = k + 1;
    }
    match best {
        Some(p) => TargetFix {
            target: Some(p),
            distance_sq: reach,
            vicinity: SwarmBot::estimate_vicinity(reach),
            heading: direction_to(pos, &targets[p]),
        },
        None => TargetFix {
            target: None,
            distance_sq: reach,
            vicinity: TargetVicinity::Far,
            heading: direction_to(pos, &Vec3i::zero()),
        },
    }
}

/// Computes [`shaped_thrust`].
pub fn shape_thrust(vicinity: TargetVicinity, thrust: u32, dt_ms: u32) -> (t: u32)
    ensures
        t == shaped_thrust(vicinity, thrust, dt_ms),
{
    match vicinity {
        TargetVicinity::Far => {
            if thrust < FAR_THRUST {
                let raised: u64 = thrust as u64 + 3 * (dt_ms as u64) / 10;
                if raised > u32::MAX as u64 {
                    u32::MAX
                } else {
                    raised as u32
                }
            } else {
                thrust
            }
        },
        TargetVicinity::Around => {
            if thrust > CRUISE_THRUST {
                let drop: u64 = 6 * (dt_ms as u64) / 10;
                if drop > thrust as u64 {
                    0
                } else {
                    (thrust as u64 - drop) as u32
                }
            } else {
                CRUISE_THRUST
            }
        },
        TargetVicinity::Near => thrust,
    }
}

/// Thrust shaping: sets the thrust of every agent to what its band makes of
/// it in `dt_ms` milliseconds. Nothing else changes.
pub fn thrust_control(bots: &mut Vec<SwarmBot>, dt_ms: u32)
    ensures
        final(bots).len() == old(bots).len(),
        forall|i: int|
            0 <= i < old(bots).len() ==> #[trigger] final(bots)[i] == (SwarmBot {
                thrust: shaped_thrust(old(bots)[i].target_vicinity, old(bots)[i].thrust, dt_ms),
                ..old(bots)[i]
            }),
{
    let n = bots.len();
    let mut i: usize = 0;
    while i < n
        invariant
            n == bots.len(),
            n == old(bots).len(),
            i <= n,
            forall|k: int|
                0 <= k < i ==> #[trigger] bots[k] == (SwarmBot {
                    thrust: shaped_thrust(
                        old(bots)[k].target_vicinity,
                        old(bots)[k].thrust,
                        dt_ms,
                    ),
                    ..old(bots)[k]
                }),
            forall|k: int| i <= k < n ==> #[trigger] bots[k] == old(bots)[k],
        decreases n - i,
    {
        let mut bot = bots[i];
        bot.thrust = shape_thrust(bot.target_vicinity, bot.thrust, dt_ms);
        bots.set(i, bot);
        i = i + 1;
    }
}

impl SwarmTracker {
    /// Decides [`seeks_target`].
    pub fn acquires(&self, id: u64) -> (b: bool)
        ensures
            b == seeks_target(self@, id),
    {
        match self.get(id) {
            Some(d) => match d.role(id) {
                Role::Follower(_) => false,
                _ => true,
            },
            None => false,
        }
    }

    /// Target acquisition. `fixes[i]` is what `bots[i]` acquires from
    /// `targets`, for an agent on its own and for a leader; it is `None` for
    /// a follower and for an agent without a record, which keep their
    /// heading.
    pub fn detect_target(&self, bots: &Vec<SwarmBot>, targets: &Vec<Vec3i>) -> (fixes: Vec<
        Option<TargetFix>,
    >)
        ensures
            fixes.len() == bots.len(),
            forall|i: int|
                0 <= i < bots.len() ==> #[trigger] fixes[i] == if seeks_target(
                    self@,
                    bots[i].id,
                ) {
                    Some(fix_on(bots[i].position, targets@))
                } else {
                    None::<TargetFix>
                },
    {
        let n = bots.len();
        let mut fixes: Vec<Option<TargetFix>> = Vec::new();
        let mut i: usize = 0;
        while i < n
            invariant
                n == bots.len(),
                i <= n,
                fixes.len() == i,
                forall|k: int|
                    0 <= k < i ==> #[trigger] fixes[k] == if seeks_target(self@, bots[k].id) {
                        Some(fix_on(bots[k].position, targets@))
                    } else {
                        None::<TargetFix>
                    },
            decreases n - i,
        {
            let fix = if self.acquires(bots[i].id) {
                Some(nearest_target(&bots[i].position, targets))
            } else {
                None
            };
            fixes.push(fix);
            i = i + 1;
        }
        fixes
    }
}

} // verus!
