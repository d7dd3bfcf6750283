//! What the coordination passes know of one agent at the start of a tick.

use crate::vector::{Vec3i, UNIT};
use vstd::prelude::*;

verus! {

/// How far an agent is from its target, in three bands.
#[derive(Clone, Copy, Debug, PartialEq, Eq, Structural)]
pub enum TargetVicinity {
    Far,
    Around,
    Near,
}

/// Targets at this distance or beyond are out of sight: 9999 world units.
pub const SIGHT_RANGE: u32 = 9_999_000;

/// Up to this distance a target is `Near`: 3 world units.
pub const NEAR_RANGE: u32 = 3_000;

/// Up to this distance a target is `Around`: 6 world units.
pub const AROUND_RANGE: u32 = 6_000;

/// One agent as the passes see it: its handle, where it is, where it points
/// and how it moves, its condition, and the distances that rule its
/// behaviour. The heading is a vector of the length of one unit. Lengths are in
/// fixed-point steps, velocities in steps per second, thrust in steps per
/// second per second.
#[derive(Clone, Copy, Debug, PartialEq, Eq)]
pub struct SwarmBot {
    pub id: u64,
    pub swarm_point: Option<u64>,
    pub position: Vec3i,
    pub heading: Vec3i,
    pub velocity: Vec3i,
    pub thrust: u32,
    pub target_vicinity: TargetVicinity,
    pub health: u32,
    pub is_alive: bool,
    pub explosible: bool,
    pub swarm_up_distance: u32,
    pub swarm_spacing_min: u32,
    pub swarm_spacing_max: u32,
    pub cohere_thrust: u32,
}

impl SwarmBot {
    /// An agent fresh from its spawner: at rest, pointing straight up, in full
    /// health, with the stock distances.
    pub open spec fn fresh(id: u64, position: Vec3i) -> SwarmBot {
        SwarmBot {
            id,
            swarm_point: None,
            position,
            heading: Vec3i { x: 0, y: UNIT as i32, z: 0 },
            velocity: Vec3i { x: 0, y: 0, z: 0 },
            thrust: 1_000,
            target_vicinity: TargetVicinity::Around,
            health: 40,
            is_alive: true,
            explosible: true,
            swarm_up_distance: 2_000,
            swarm_spacing_min: 100,
            swarm_spacing_max: 500,
            cohere_thrust: 200,
        }
    }

    /// The band of a target at the distance whose square is `dist_sq`.
    pub open spec fn vicinity_of(dist_sq: int) -> TargetVicinity {
        if dist_sq <= NEAR_RANGE * NEAR_RANGE {
            TargetVicinity::Near
        } else if dist_sq <= AROUND_RANGE * AROUND_RANGE {
            TargetVicinity::Around
        } else {
            TargetVicinity::Far
        }
    }

    /// Makes [`SwarmBot::fresh`].
    pub fn new(id: u64, position: Vec3i) -> (bot: SwarmBot)
        ensures
            bot == SwarmBot::fresh(id, position),
    {
        SwarmBot {
            id,
            swarm_point: None,
            position,
            heading: Vec3i { x: 0, y: UNIT as i32, z: 0 },
            velocity: Vec3i::zero(),
            thrust: 1_000,
            target_vicinity: TargetVicinity::Around,
            health: 40,
            is_alive: true,
            explosible: true,
            swarm_up_distance: 2_000,
            swarm_spacing_min: 100,
            swarm_spacing_max: 500,
            cohere_thrust: 200,
        }
    }

    /// Computes [`SwarmBot::vicinity_of`]: `Near` up to 3 units, `Around` up
    /// to 6, `Far` beyond.
    pub fn estimate_vicinity(dist_sq: u128) -> (v: TargetVicinity)
        ensures
            v == SwarmBot::vicinity_of(dist_sq as int),
    {
        if dist_sq <= 9_000_000 {
            TargetVicinity::Near
        } else if dist_sq <= 36_000_000 {
            TargetVicinity::Around
        } else {
            TargetVicinity::Far
        }
    }
}

impl Default for SwarmBot {
    /// A fresh agent with handle `0` at the origin.
    fn default() -> (bot: SwarmBot)
        ensures
            bot == SwarmBot::fresh(0, Vec3i { x: 0, y: 0, z: 0 }),
    {
        SwarmBot::new(0, Vec3i::zero())
    }
}

/// The first index from `from` on at which the snapshot holds the agent `id`.
pub open spec fn first_with_id(bots: Seq<SwarmBot>, id: u64, from: int) -> Option<int>
    decreases bots.len() - from,
{
    if from >= bots.len() {
        None
    } else if bots[from].id == id {
        Some(from)
    } else {
        first_with_id(bots, id, from + 1)
    }
}

/// What [`first_with_id`] finds holds `id` and nothing before it does; where
/// it finds nothing, the snapshot does not hold `id` from `from` on.
pub proof fn lemma_first_with_id(bots: Seq<SwarmBot>, id: u64, from: int)
    requires
        0 <= from,
    ensures
        match first_with_id(bots, id, from) {
            Some(j) => from <= j < bots.len() && bots[j].id == id && forall|k: int|
                from <= k < j ==> bots[k].id != id,
            None => forall|k: int| from <= k < bots.len() ==> bots[k].id != id,
        },
    decreases bots.len() - from,
{
    if from < bots.len() && bots[from].id != id {
        lemma_first_with_id(bots, id, from + 1);
    }
}

/// Finds the first place of the agent `id` in the snapshot:
/// [`first_with_id`].
pub fn locate(bots: &Vec<SwarmBot>, id: u64) -> (found: Option<usize>)
    ensures
        match found {
            Some(j) => first_with_id(bots@, id, 0) == Some(j as int),
            None => first_with_id(bots@, id, 0) is None,
        },
{
    let n = bots.len();
    let mut j: usize = 0;
    while j < n
        invariant
            n == bots.len(),
            j <= n,
            first_with_id(bots@, id, 0) == first_with_id(bots@, id, j as int),
        decreases n - j,
    {
        if bots[j].id == id {
            return Some(j);
        }
        j = j + 1;
    }
    None
}

} // verus!
