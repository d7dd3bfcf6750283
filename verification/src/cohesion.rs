//! Cohesion: each follower checks on its leader.
//!
//! A follower whose leader is gone heals itself. One whose leader is within
//! the settle radius is in formation; one farther out is told to close the
//! gap, with a push toward the leader in proportion to the length of the
//! tick.

use crate::bot::{first_with_id, lemma_first_with_id, locate, SwarmBot};
use crate::data::SwarmBotState;
use crate::model::{lemma_heal_valid, lemma_restate_valid, TrackerView};
use crate::steering::{direction, direction_to, pull, pull_toward};
use crate::tracker::SwarmTracker;
use crate::vector::Vec3i;
use vstd::prelude::*;

verus! {

/// What the cohesion pass found for one agent of the snapshot. `leader` is
/// the index of the agent's leader in the snapshot, `heading` the agent's
/// steering target from now on.
#[derive(Clone, Copy, Debug, PartialEq, Eq)]
pub enum Cohesion {
    /// Not a follower, or the leader is not in the snapshot: nothing to do.
    Idle,
    /// The leader was gone; the agent has healed itself.
    Released,
    /// Within the settle radius of its leader: in formation, heading where
    /// the leader heads.
    Hold { leader: usize, heading: Vec3i },
    /// Beyond the settle radius: on its way, heading for the leader, and
    /// pushed toward it by `push`.
    Close { leader: usize, heading: Vec3i, push: Vec3i },
}

/// The acceleration with which a follower closes in on its leader: 0.3
/// units per second per second.
pub const COHESION_THRUST: u32 = 300;

/// What the pass finds for `bots[i]` in the state `v`, in a tick of `dt_ms`
/// milliseconds. The settle radius of an agent is its `swarm_spacing_max`.
/// The push of a follower beyond it points at the leader and has the size
/// that [`COHESION_THRUST`] gives in the tick.
pub open spec fn coerce_order(v: TrackerView, bots: Seq<SwarmBot>, i: int, dt_ms: u32) -> Cohesion {
    let a = bots[i];
    if !v.table.contains_key(a.id) {
        Cohesion::Idle
    } else {
        match v.table[a.id].leader {
            None => Cohesion::Idle,
            Some(l) => if l == a.id {
                Cohesion::Idle
            } else if !v.table.contains_key(l) {
                Cohesion::Released
            } else {
                match first_with_id(bots, l, 0) {
                    None => Cohesion::Idle,
                    Some(j) => if a.position.within(bots[j].position, a.swarm_spacing_max) {
                        Cohesion::Hold { leader: j as usize, heading: bots[j].heading }
                    } else {
                        Cohesion::Close {
                            leader: j as usize,
                            heading: direction(a.position, bots[j].position),
                            push: pull(a.position, bots[j].position, COHESION_THRUST, dt_ms),
                        }
                    },
                }
            },
        }
    }
}

/// The state after the turn of `bots[i]`.
pub open spec fn coerce_step(
    v: TrackerView,
    bots: Seq<SwarmBot>,
    i: int,
    dt_ms: u32,
) -> TrackerView {
    match coerce_order(v, bots, i, dt_ms) {
        Cohesion::Idle => v,
        Cohesion::Released => v.heal(bots[i].id),
        Cohesion::Hold { .. } => v.restate(bots[i].id, SwarmBotState::InSwarm),
        Cohesion::Close { .. } => v.restate(bots[i].id, SwarmBotState::Swarming),
    }
}

/// The state after the turns of the first `n` agents of the snapshot.
pub open spec fn coerce_upto(v: TrackerView, bots: Seq<SwarmBot>, n: int, dt_ms: u32) -> TrackerView
    decreases n,
{
    if n <= 0 {
        v
    } else {
        coerce_step(coerce_upto(v, bots, n - 1, dt_ms), bots, n - 1, dt_ms)
    }
}

/// A turn of the cohesion pass keeps the tracker valid. It changes no
/// record but that of the agent whose turn it is, and it neither adds nor
/// removes a record.
pub proof fn lemma_coerce_step_valid(v: TrackerView, bots: Seq<SwarmBot>, i: int, dt_ms: u32)
    requires
        v.valid(),
        0 <= i < bots.len(),
    ensures
        coerce_step(v, bots, i, dt_ms).valid(),
        coerce_step(v, bots, i, dt_ms).table.dom() == v.table.dom(),
        forall|a: u64|
            a != bots[i].id && v.table.contains_key(a) ==> #[trigger] coerce_step(
                v,
                bots,
                i,
                dt_ms,
            ).table[a] == v.table[a],
        !coerce_step(v, bots, i, dt_ms).is_orphan(bots[i].id),
{
    let a = bots[i].id;
    let w = coerce_step(v, bots, i, dt_ms);
    match coerce_order(v, bots, i, dt_ms) {
        Cohesion::Idle => {
            lemma_first_with_id(bots, a, 0);
        },
        Cohesion::Released => {
            lemma_heal_valid(v, a);
        },
        Cohesion::Hold { .. } => {
            assert(v.table[a].consistent());
            lemma_restate_valid(v, a, SwarmBotState::InSwarm);
        },
        Cohesion::Close { .. } => {
            assert(v.table[a].consistent());
            lemma_restate_valid(v, a, SwarmBotState::Swarming);
        },
    }
    assert(w.table.dom() =~= v.table.dom());
}

/// The cohesion pass keeps the tracker valid and keeps the set of agents,
/// and when it is over, none of the agents that had a turn names a leader
/// that is gone.
pub proof fn lemma_coerce_heals(v: TrackerView, bots: Seq<SwarmBot>, n: int, dt_ms: u32)
    requires
        v.valid(),
        0 <= n <= bots.len(),
    ensures
        coerce_upto(v, bots, n, dt_ms).valid(),
        coerce_upto(v, bots, n, dt_ms).table.dom() == v.table.dom(),
        forall|k: int|
            0 <= k < n ==> !coerce_upto(v, bots, n, dt_ms).is_orphan(#[trigger] bots[k].id),
    decreases n,
{
    if n > 0 {
        let u = coerce_upto(v, bots, n - 1, dt_ms);
        lemma_coerce_heals(v, bots, n - 1, dt_ms);
        lemma_coerce_step_valid(u, bots, n - 1, dt_ms);
        let w = coerce_upto(v, bots, n, dt_ms);
        assert(w == coerce_step(u, bots, n - 1, dt_ms));
        assert forall|k: int| 0 <= k < n implies !w.is_orphan(#[trigger] bots[k].id) by {
            if k < n - 1 && bots[k].id != bots[n - 1].id {
                assert(!u.is_orphan(bots[k].id));
                if u.table.contains_key(bots[k].id) {
                    assert(w.table[bots[k].id] == u.table[bots[k].id]);
                }
            }
        }
    }
}

impl SwarmTracker {
    /// Decides what the cohesion pass finds for `bots[i]`: [`coerce_order`].
    pub fn inspect(&self, bots: &Vec<SwarmBot>, i: usize, dt_ms: u32) -> (order: Cohesion)
        requires
            i < bots.len(),
        ensures
            order == coerce_order(self@, bots@, i as int, dt_ms),
    {
        let a = &bots[i];
        let ra = match self.get(a.id) {
            Some(d) => d,
            None => {
                return Cohesion::Idle;
            },
        };
        let l = match ra.leader {
            Some(l) => l,
            None => {
                return Cohesion::Idle;
            },
        };
        if l == a.id {
            return Cohesion::Idle;
        }
        if !self.contains(l) {
            return Cohesion::Released;
        }
        match locate(bots, l) {
            None => Cohesion::Idle,
            Some(j) => {
                proof {
                    lemma_first_with_id(bots@, l, 0);
                }
                if a.position.is_within(&bots[j].position, a.swarm_spacing_max) {
                    Cohesion::Hold { leader: j, heading: bots[j].heading }
                } else {
                    Cohesion::Close {
                        leader: j,
                        heading: direction_to(&a.position, &bots[j].position),
                        push: pull_toward(&a.position, &bots[j].position, COHESION_THRUST, dt_ms),
                    }
                }
            },
        }
    }

    /// The cohesion pass. Each follower of the snapshot, in order:
    ///
    /// - whose leader has no record any more heals itself
    ///   ([`TrackerView::heal`]) and is `Released`;
    /// - whose leader is within the follower's `swarm_spacing_max` is
    ///   `InSwarm` and told to `Hold`;
    /// - whose leader is farther away is `Swarming` and told to `Close`,
    ///   with the push that a tick of `dt_ms` milliseconds calls for.
    ///
    /// Agents that follow nobody are `Idle`, and so is a follower whose
    /// leader has a record but no place in the snapshot. When the pass is
    /// over, no agent of the snapshot names a leader that is gone.
    pub fn coerce(&mut self, bots: &Vec<SwarmBot>, dt_ms: u32) -> (orders: Vec<Cohesion>)
        requires
            old(self).wf(),
        ensures
            final(self).wf(),
            final(self)@ == coerce_upto(old(self)@, bots@, bots.len() as int, dt_ms),
            final(self)@.table.dom() == old(self)@.table.dom(),
            orders.len() == bots.len(),
            forall|i: int|
                0 <= i < bots.len() ==> #[trigger] orders[i] == coerce_order(
                    coerce_upto(old(self)@, bots@, i, dt_ms),
                    bots@,
                    i,
                    dt_ms,
                ),
            forall|i: int| 0 <= i < bots.len() ==> !final(self)@.is_orphan(#[trigger] bots[i].id),
    {
        let ghost start = self@;
        proof {
            self.lemma_wf_valid();
        }
        let n = bots.len();
        let mut orders: Vec<Cohesion> = Vec::new();
        let mut i: usize = 0;
        while i < n
            invariant
                self.wf(),
                start.valid(),
                n == bots.len(),
                i <= n,
                self@ == coerce_upto(start, bots@, i as int, dt_ms),
                orders.len() == i,
                forall|k: int|
                    0 <= k < i ==> #[trigger] orders[k] == coerce_order(
                        coerce_upto(start, bots@, k, dt_ms),
                        bots@,
                        k,
                        dt_ms,
                    ),
            decreases n - i,
        {
            let order = self.inspect(bots, i, dt_ms);
            proof {
                self.lemma_wf_valid();
                lemma_coerce_step_valid(self@, bots@, i as int, dt_ms);
            }
            match order {
                Cohesion::Idle => {},
                Cohesion::Released => {
                    let healed = self.heal(bots[i].id);
                    assert(healed);
                },
                Cohesion::Hold { .. } => {
                    let set = self.set_state(bots[i].id, SwarmBotState::InSwarm);
                    assert(set);
                },
                Cohesion::Close { .. } => {
                    let set = self.set_state(bots[i].id, SwarmBotState::Swarming);
                    assert(set);
                },
            }
            orders.push(order);
            i = i + 1;
        }
        proof {
            lemma_coerce_heals(start, bots@, n as int, dt_ms);
        }
        orders
    }
}

} // verus!
