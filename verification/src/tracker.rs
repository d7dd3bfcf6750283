//! The tracker: the membership record of every live agent, and the pool of
//! group ids that the groups draw on.

use crate::data::{Role, SwarmBotState, SwarmData, DEFAULT_FOLLOWERS_LIMIT};
use crate::model::{
    lemma_depart_valid, lemma_heal_valid, lemma_join_valid, lemma_register_valid,
    lemma_restate_valid, TrackerView,
};
use crate::pool::{PoolView, SwarmIdPool};
use std::collections::HashMap;
use vstd::pervasive::unreached;
use vstd::prelude::*;
use vstd::std_specs::iter::IteratorSpec;

verus! {

broadcast use vstd::std_specs::hash::group_hash_axioms;

/// The membership table and the pool of group ids.
///
/// A group lives as long as one of its members carries its id. A leader
/// whose followers are all gone stays the leader of its group, alone, until
/// it goes itself or is joined again.
#[derive(Clone, Debug)]
pub struct SwarmTracker {
    table: HashMap<u64, SwarmData>,
    pool: SwarmIdPool,
}

impl View for SwarmTracker {
    type V = TrackerView;

    closed spec fn view(&self) -> TrackerView {
        TrackerView { table: self.table@, pool: self.pool@ }
    }
}

impl SwarmTracker {
    /// The tracker is in a consistent state. Every constructor gives such a
    /// tracker and every method keeps it so.
    pub closed spec fn wf(&self) -> bool {
        &&& self.pool.wf()
        &&& self@.valid()
    }

    /// A consistent tracker holds a valid table and pool.
    pub proof fn lemma_wf_valid(&self)
        requires
            self.wf(),
        ensures
            self@.valid(),
    {
    }

    /// A tracker without agents, over a pool of twenty group ids.
    pub fn new() -> (t: SwarmTracker)
        ensures
            t.wf(),
            t@.table == Map::<u64, SwarmData>::empty(),
            t@.pool == PoolView::fresh(20),
    {
        SwarmTracker::with_groups(20)
    }

    /// A tracker without agents, over a pool of `limit` group ids: at most
    /// `limit` groups can exist at a time.
    pub fn with_groups(limit: u32) -> (t: SwarmTracker)
        ensures
            t.wf(),
            t@.table == Map::<u64, SwarmData>::empty(),
            t@.pool == PoolView::fresh(limit),
    {
        let t = SwarmTracker { table: HashMap::new(), pool: SwarmIdPool::new(limit) };
        proof {
            let v = t@;
            assert forall|l: u64| #[trigger] v.table.contains_key(l) implies v.table[l].followers
                == v.followers_of(l).len() by {}
            assert forall|g: u32| #[trigger] v.pool.knows(g) implies v.pool.subs[g - 1]
                == v.members_of(g).len() by {
                assert(v.members_of(g) =~= Set::<u64>::empty());
            }
        }
        t
    }

    /// The pool of group ids.
    pub fn pool(&self) -> (p: &SwarmIdPool)
        requires
            self.wf(),
        ensures
            p.wf(),
            p@ == self@.pool,
    {
        &self.pool
    }

    /// The number of agents with a record.
    pub fn len(&self) -> (n: usize)
        requires
            self.wf(),
        ensures
            n == self@.table.dom().len(),
    {
        self.table.len()
    }

    /// Whether the agent `id` has a record.
    pub fn contains(&self, id: u64) -> (b: bool)
        ensures
            b == self@.table.contains_key(id),
    {
        self.table.contains_key(&id)
    }

    /// The record of the agent `id`, if it has one.
    pub fn get(&self, id: u64) -> (r: Option<SwarmData>)
        ensures
            r == if self@.table.contains_key(id) {
                Some(self@.table[id])
            } else {
                None::<SwarmData>
            },
    {
        match self.table.get(&id) {
            Some(d) => Some(*d),
            None => None,
        }
    }

    /// Whether some record names `id` as its leader.
    pub fn is_named(&self, id: u64) -> (b: bool)
        ensures
            b == self@.names(id),
    {
        let mut found = false;
        let ghost all = self.table.iter().remaining();
        for entry in it: self.table.iter()
            invariant
                it.seq() == all,
                found == (exists|i: int| 0 <= i < it.index() && it.seq()[i].1.leader == Some(id)),
        {
            match entry.1.leader {
                Some(l) => {
                    if l == id {
                        found = true;
                    }
                },
                None => {},
            }
        }
        proof {
            let m = self.table@;
            if found {
                let i = choose|i: int| 0 <= i < all.len() && all[i].1.leader == Some(id);
                assert(m.contains_key(*all[i].0) && m[*all[i].0] == *all[i].1);
            }
            if self@.names(id) {
                let a = choose|a: u64| #[trigger] m.contains_key(a) && m[a].leader == Some(id);
                assert(all.contains((&a, &m[a])));
                let i = choose|i: int| 0 <= i < all.len() && all[i] == (&a, &m[a]);
                assert(all[i].1.leader == Some(id));
            }
        }
        found
    }

    /// Registers the agent `id`, on its own, with the stock fan-out limit.
    /// See [`SwarmTracker::insert_with_limit`].
    pub fn insert(&mut self, id: u64) -> (ok: bool)
        requires
            old(self).wf(),
        ensures
            final(self).wf(),
            ok == old(self)@.admits(id),
            ok ==> final(self)@ == old(self)@.register(id, DEFAULT_FOLLOWERS_LIMIT),
            !ok ==> final(self)@ == old(self)@,
    {
        self.insert_with_limit(id, DEFAULT_FOLLOWERS_LIMIT)
    }

    /// Registers the agent `id`, on its own, able to lead up to
    /// `followers_limit` followers.
    ///
    /// The handle is refused, and nothing changes, where it already has a
    /// record or where a record still names it as leader: the followers of
    /// a leader that is gone must not find a stranger under its handle.
    pub fn insert_with_limit(&mut self, id: u64, followers_limit: u32) -> (ok: bool)
        requires
            old(self).wf(),
        ensures
            final(self).wf(),
            ok == old(self)@.admits(id),
            ok ==> final(self)@ == old(self)@.register(id, followers_limit),
            !ok ==> final(self)@ == old(self)@,
    {
        if self.table.contains_key(&id) || self.is_named(id) {
            return false;
        }
        proof {
            lemma_register_valid(self@, id, followers_limit);
        }
        self.table.insert(id, SwarmData::new(followers_limit));
        true
    }

    /// Decides [`TrackerView::can_join`].
    pub fn can_join(&self, a: u64, b: u64) -> (ok: bool)
        requires
            self.wf(),
        ensures
            ok == self@.can_join(a, b),
    {
        if a == b {
            return false;
        }
        let ra = match self.table.get(&a) {
            Some(d) => *d,
            None => {
                return false;
            },
        };
        let rb = match self.table.get(&b) {
            Some(d) => *d,
            None => {
                return false;
            },
        };
        ra.state == SwarmBotState::Solo && rb.can_lead(b) && (rb.swarm_id != 0
            || self.pool.available() > 0)
    }

    /// Lets the Solo agent `a` join `b`, where [`TrackerView::can_join`]
    /// allows it; otherwise nothing changes.
    pub fn join(&mut self, a: u64, b: u64) -> (ok: bool)
        requires
            old(self).wf(),
        ensures
            final(self).wf(),
            ok == old(self)@.can_join(a, b),
            ok ==> final(self)@ == old(self)@.join(a, b),
            !ok ==> final(self)@ == old(self)@,
    {
        if a == b {
            return false;
        }
        let ra = match self.table.get(&a) {
            Some(d) => *d,
            None => {
                return false;
            },
        };
        let rb = match self.table.get(&b) {
            Some(d) => *d,
            None => {
                return false;
            },
        };
        if ra.state != SwarmBotState::Solo || !rb.can_lead(b) {
            return false;
        }
        if rb.swarm_id == 0 && self.pool.available() == 0 {
            return false;
        }
        let ghost before = self@;
        proof {
            lemma_join_valid(before, a, b);
        }
        let id: u32 = if rb.swarm_id != 0 {
            rb.swarm_id
        } else {
            match self.pool.get_id() {
                Some(g) => g,
                None => unreached(),
            }
        };
        assert(id == before.group_for(b));
        assert(self.pool@ == before.pool_for(b));
        let counted = self.pool.unit_inc_subs(id);
        assert(counted is Ok);
        self.table.insert(b, rb.recruit(b, id));
        self.table.insert(a, ra.enlist(b, id));
        assert(self@ == before.join(a, b));
        true
    }

    /// Lets the orphan `a` take note that its leader is gone; for any other
    /// agent nothing changes.
    pub fn heal(&mut self, a: u64) -> (ok: bool)
        requires
            old(self).wf(),
        ensures
            final(self).wf(),
            ok == old(self)@.is_orphan(a),
            ok ==> final(self)@ == old(self)@.heal(a),
            !ok ==> final(self)@ == old(self)@,
    {
        let ra = match self.table.get(&a) {
            Some(d) => *d,
            None => {
                return false;
            },
        };
        let gone = match ra.leader {
            Some(l) => l != a && !self.table.contains_key(&l),
            None => false,
        };
        if !gone {
            return false;
        }
        let ghost before = self@;
        proof {
            lemma_heal_valid(before, a);
        }
        let healed = ra.orphan(a);
        if healed.swarm_id == 0 {
            self.pool.unit_dec_subs(ra.swarm_id);
        }
        self.table.insert(a, healed);
        assert(self@ == before.heal(a));
        true
    }

    /// Sets the state of the follower `a` to `state`, one of `Swarming` and
    /// `InSwarm`. Nothing changes for an agent without a record, on its own
    /// or at the head of a group, nor where `state` is `Solo`: a leader is
    /// always `InSwarm`.
    pub fn set_state(&mut self, a: u64, state: SwarmBotState) -> (ok: bool)
        requires
            old(self).wf(),
        ensures
            final(self).wf(),
            ok == (old(self)@.table.contains_key(a) && old(self)@.table[a].role_of(a) is Follower
                && state != SwarmBotState::Solo),
            ok ==> final(self)@ == old(self)@.restate(a, state),
            !ok ==> final(self)@ == old(self)@,
    {
        let ra = match self.table.get(&a) {
            Some(d) => *d,
            None => {
                return false;
            },
        };
        let follows = match ra.role(a) {
            Role::Follower(_) => true,
            _ => false,
        };
        if !follows || state == SwarmBotState::Solo {
            return false;
        }
        proof {
            lemma_restate_valid(self@, a, state);
        }
        self.table.insert(a, ra.with_state(state));
        true
    }

    /// Removes the record of the agent `id` and hands it back: the agent is
    /// gone. Its group, if it had one, has one subscriber fewer, and the
    /// leader it followed one follower fewer. Its own followers are not
    /// touched: each finds out by itself. Without a record for `id` nothing
    /// changes.
    pub fn remove(&mut self, id: u64) -> (r: Option<SwarmData>)
        requires
            old(self).wf(),
        ensures
            final(self).wf(),
            r == if old(self)@.table.contains_key(id) {
                Some(old(self)@.table[id])
            } else {
                None::<SwarmData>
            },
            r is Some ==> final(self)@ == old(self)@.depart(id),
            r is None ==> final(self)@ == old(self)@,
    {
        let rec = match self.table.get(&id) {
            Some(d) => *d,
            None => {
                return None;
            },
        };
        let ghost before = self@;
        proof {
            lemma_depart_valid(before, id);
        }
        if rec.swarm_id != 0 {
            self.pool.unit_dec_subs(rec.swarm_id);
        }
        match rec.leader {
            Some(l) => {
                if l != id {
                    match self.table.get(&l) {
                        Some(d) => {
                            let rl = *d;
                            assert(before.mourner(id) == Some(l));
                            self.table.insert(
                                l,
                                SwarmData {
                                    leader: rl.leader,
                                    followers: rl.followers - 1,
                                    followers_limit: rl.followers_limit,
                                    state: rl.state,
                                    swarm_id: rl.swarm_id,
                                },
                            );
                        },
                        None => {},
                    }
                }
            },
            None => {},
        }
        self.table.remove(&id);
        assert(self@.table =~= before.depart(id).table);
        assert(self@ == before.depart(id));
        Some(rec)
    }
}

impl Default for SwarmTracker {
    /// A tracker without agents, over a pool of twenty group ids.
    fn default() -> (t: SwarmTracker)
        ensures
            t.wf(),
            t@.table == Map::<u64, SwarmData>::empty(),
            t@.pool == PoolView::fresh(20),
    {
        SwarmTracker::new()
    }
}

} // verus!
