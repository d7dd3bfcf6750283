//! The mathematical model of the tracker: a map from agent handles to
//! membership records beside the pool of group ids, the invariant that ties
//! the two together, and the steps by which they change.

use crate::data::{SwarmBotState, SwarmData};
use crate::pool::{lemma_allocate_valid, lemma_subscribe_valid, lemma_unsubscribe_valid, PoolView};
use vstd::prelude::*;

verus! {

/// What a tracker holds.
pub struct TrackerView {
    pub table: Map<u64, SwarmData>,
    pub pool: PoolView,
}

impl TrackerView {
    /// `a` has a record that names another agent, `l`, as its leader.
    pub open spec fn follows(self, a: u64, l: u64) -> bool {
        a != l && self.table.contains_key(a) && self.table[a].leader == Some(l)
    }

    /// `l` has a record that names `l` itself as leader.
    pub open spec fn leads(self, l: u64) -> bool {
        self.table.contains_key(l) && self.table[l].leader == Some(l)
    }

    /// `a` has a record that carries the group id `g`.
    pub open spec fn in_group(self, a: u64, g: u32) -> bool {
        self.table.contains_key(a) && self.table[a].swarm_id == g
    }

    /// `a` and `b` have records that carry the same group id, not `0`.
    pub open spec fn share_group(self, a: u64, b: u64) -> bool {
        &&& self.table.contains_key(a)
        &&& self.table.contains_key(b)
        &&& self.table[a].swarm_id != 0
        &&& self.table[a].swarm_id == self.table[b].swarm_id
    }

    /// `a` and `b` have records that name the same leader.
    pub open spec fn share_leader(self, a: u64, b: u64) -> bool {
        &&& self.table.contains_key(a)
        &&& self.table.contains_key(b)
        &&& self.table[a].leader is Some
        &&& self.table[a].leader == self.table[b].leader
    }

    /// Some record names `l` as its leader.
    pub open spec fn names(self, l: u64) -> bool {
        exists|a: u64| #[trigger] self.table.contains_key(a) && self.table[a].leader == Some(l)
    }

    /// `a` has a record that names a leader without a record: the leader is
    /// gone and `a` has not yet taken note.
    pub open spec fn is_orphan(self, a: u64) -> bool {
        &&& self.table.contains_key(a)
        &&& self.table[a].leader matches Some(l)
        &&& l != a
        &&& !self.table.contains_key(l)
    }

    /// The agents that follow `l`.
    pub open spec fn followers_of(self, l: u64) -> Set<u64> {
        self.table.dom().filter(|a: u64| self.follows(a, l))
    }

    /// The agents whose records carry the group id `g`.
    pub open spec fn members_of(self, g: u32) -> Set<u64> {
        self.table.dom().filter(|a: u64| self.in_group(a, g))
    }

    /// The invariant of the tracker.
    ///
    /// - The pool is valid, and the agents are finitely many.
    /// - Each record is consistent in itself, with a group id of the pool.
    /// - Hierarchies are one level deep: the leader that a follower names,
    ///   where it still has a record, leads itself, and carries the
    ///   follower's group id. A leader is `InSwarm`.
    /// - Agents with the same group id name the same leader, and agents that
    ///   name the same leader carry the same group id, also where the
    ///   leader is gone.
    /// - The follower count of each record is the number of agents that
    ///   follow it.
    /// - The subscriber count of each group id is the number of agents that
    ///   carry it.
    pub open spec fn valid(self) -> bool {
        &&& self.pool.valid()
        &&& self.table.dom().finite()
        &&& forall|a: u64| #[trigger]
            self.table.contains_key(a) ==> self.table[a].consistent() && self.table[a].swarm_id
                <= self.pool.limit()
        &&& forall|a: u64, l: u64|
            #[trigger] self.follows(a, l) && self.table.contains_key(l) ==> self.leads(l)
                && self.table[l].swarm_id == self.table[a].swarm_id
        &&& forall|l: u64| #[trigger]
            self.leads(l) ==> self.table[l].state == SwarmBotState::InSwarm
        &&& forall|a: u64, b: u64| #[trigger]
            self.share_group(a, b) ==> self.table[a].leader == self.table[b].leader
        &&& forall|a: u64, b: u64| #[trigger]
            self.share_leader(a, b) ==> self.table[a].swarm_id == self.table[b].swarm_id
        &&& forall|l: u64| #[trigger]
            self.table.contains_key(l) ==> self.table[l].followers == self.followers_of(l).len()
        &&& forall|g: u32| #[trigger]
            self.pool.knows(g) ==> self.pool.subs[g - 1] == self.members_of(g).len()
    }

    /// The same tracker with the record of `a` set to `r`.
    pub open spec fn with_record(self, a: u64, r: SwarmData) -> TrackerView {
        TrackerView { table: self.table.insert(a, r), pool: self.pool }
    }

    /// The same tracker without a record for `a`.
    pub open spec fn without_record(self, a: u64) -> TrackerView {
        TrackerView { table: self.table.remove(a), pool: self.pool }
    }

    /// The handle `id` can be given to a new agent: it has no record and no
    /// record names it.
    pub open spec fn admits(self, id: u64) -> bool {
        !self.table.contains_key(id) && !self.names(id)
    }

    /// The tracker after the agent `id` was registered, on its own.
    pub open spec fn register(self, id: u64, limit: u32) -> TrackerView {
        self.with_record(id, SwarmData::solo(limit))
    }

    /// The tracker after the state of `a` was set to `state`.
    pub open spec fn restate(self, a: u64, state: SwarmBotState) -> TrackerView {
        self.with_record(a, self.table[a].in_state(state))
    }
}

/// How many agents follow `l` after the record of `a` was set to `r`.
pub proof fn lemma_followers_after_update(v: TrackerView, a: u64, r: SwarmData, l: u64)
    requires
        v.table.dom().finite(),
    ensures
        v.followers_of(l).finite(),
        v.with_record(a, r).followers_of(l).finite(),
        v.with_record(a, r).followers_of(l).len() == v.followers_of(l).len() + (if a != l
            && r.leader == Some(l) {
            1int
        } else {
            0int
        }) - (if v.follows(a, l) {
            1int
        } else {
            0int
        }),
{
    let w = v.with_record(a, r);
    let before = v.followers_of(l);
    let after = w.followers_of(l);
    if a != l && r.leader == Some(l) {
        assert(after =~= before.insert(a));
    } else {
        assert(after =~= before.remove(a));
    }
}

/// How many agents carry the group id `g` after the record of `a` was set to
/// `r`.
pub proof fn lemma_members_after_update(v: TrackerView, a: u64, r: SwarmData, g: u32)
    requires
        v.table.dom().finite(),
    ensures
        v.members_of(g).finite(),
        v.with_record(a, r).members_of(g).finite(),
        v.with_record(a, r).members_of(g).len() == v.members_of(g).len() + (if r.swarm_id == g {
            1int
        } else {
            0int
        }) - (if v.in_group(a, g) {
            1int
        } else {
            0int
        }),
{
    let w = v.with_record(a, r);
    let before = v.members_of(g);
    let after = w.members_of(g);
    if r.swarm_id == g {
        assert(after =~= before.insert(a));
    } else {
        assert(after =~= before.remove(a));
    }
}

/// How many agents follow `l` after the record of `a` was removed.
pub proof fn lemma_followers_after_removal(v: TrackerView, a: u64, l: u64)
    requires
        v.table.dom().finite(),
    ensures
        v.followers_of(l).finite(),
        v.without_record(a).followers_of(l).finite(),
        v.without_record(a).followers_of(l).len() == v.followers_of(l).len() - (if v.follows(
            a,
            l,
        ) {
            1int
        } else {
            0int
        }),
{
    assert(v.without_record(a).followers_of(l) =~= v.followers_of(l).remove(a));
}

/// How many agents carry the group id `g` after the record of `a` was
/// removed.
pub proof fn lemma_members_after_removal(v: TrackerView, a: u64, g: u32)
    requires
        v.table.dom().finite(),
    ensures
        v.members_of(g).finite(),
        v.without_record(a).members_of(g).finite(),
        v.without_record(a).members_of(g).len() == v.members_of(g).len() - (if v.in_group(a, g) {
            1int
        } else {
            0int
        }),
{
    assert(v.without_record(a).members_of(g) =~= v.members_of(g).remove(a));
}

/// An agent that leads nobody's leader has no followers: only an agent that
/// names itself as leader is followed.
pub proof fn lemma_only_leaders_are_followed(v: TrackerView, l: u64)
    requires
        v.valid(),
        v.table.contains_key(l),
        !v.leads(l),
    ensures
        v.followers_of(l) =~= Set::<u64>::empty(),
        v.table[l].followers == 0,
{
    assert forall|a: u64| !v.followers_of(l).contains(a) by {
        if v.follows(a, l) {
            assert(v.leads(l));
        }
    }
    assert(v.followers_of(l) =~= Set::<u64>::empty());
}

/// Registering an admitted handle keeps the tracker valid.
pub proof fn lemma_register_valid(v: TrackerView, id: u64, limit: u32)
    requires
        v.valid(),
        v.admits(id),
    ensures
        v.register(id, limit).valid(),
{
    let r = SwarmData::solo(limit);
    let w = v.register(id, limit);
    assert forall|a: u64, l: u64| #[trigger] w.follows(a, l) && w.table.contains_key(
        l,
    ) implies w.leads(l) && w.table[l].swarm_id == w.table[a].swarm_id by {
        assert(a != id);
        assert(v.follows(a, l));
        if l == id {
            assert(v.table.contains_key(a) && v.table[a].leader == Some(id));
            assert(v.names(id));
        }
    }
    assert forall|l: u64| #[trigger] w.leads(l) implies w.table[l].state
        == SwarmBotState::InSwarm by {
        assert(v.leads(l));
    }
    assert forall|a: u64, b: u64| #[trigger] w.share_group(a, b) implies w.table[a].leader
        == w.table[b].leader by {
        assert(v.share_group(a, b));
    }
    assert forall|a: u64, b: u64| #[trigger] w.share_leader(a, b) implies w.table[a].swarm_id
        == w.table[b].swarm_id by {
        assert(v.share_leader(a, b));
    }
    assert forall|l: u64| #[trigger] w.table.contains_key(l) implies w.table[l].followers
        == w.followers_of(l).len() by {
        lemma_followers_after_update(v, id, r, l);
        if l == id {
            assert forall|a: u64| !v.followers_of(id).contains(a) by {
                if v.follows(a, id) {
                    assert(v.table.contains_key(a) && v.table[a].leader == Some(id));
                    assert(v.names(id));
                }
            }
            assert(v.followers_of(id) =~= Set::<u64>::empty());
        }
    }
    assert forall|g: u32| #[trigger] w.pool.knows(g) implies w.pool.subs[g - 1] == w.members_of(
        g,
    ).len() by {
        lemma_members_after_update(v, id, r, g);
    }
}

/// Moving a follower between `Swarming` and `InSwarm` keeps the tracker
/// valid.
pub proof fn lemma_restate_valid(v: TrackerView, a: u64, state: SwarmBotState)
    requires
        v.valid(),
        v.table.contains_key(a),
        v.table[a].role_of(a) is Follower,
        state != SwarmBotState::Solo,
    ensures
        v.restate(a, state).valid(),
{
    let r = v.table[a].in_state(state);
    let w = v.restate(a, state);
    assert(v.table[a].consistent());
    assert forall|l: u64| #[trigger] w.leads(l) implies w.table[l].state
        == SwarmBotState::InSwarm by {
        assert(v.leads(l));
    }
    assert forall|x: u64, l: u64| #[trigger] w.follows(x, l) && w.table.contains_key(
        l,
    ) implies w.leads(l) && w.table[l].swarm_id == w.table[x].swarm_id by {
        assert(v.follows(x, l));
    }
    assert forall|x: u64, y: u64| #[trigger] w.share_group(x, y) implies w.table[x].leader
        == w.table[y].leader by {
        assert(v.share_group(x, y));
    }
    assert forall|x: u64, y: u64| #[trigger] w.share_leader(x, y) implies w.table[x].swarm_id
        == w.table[y].swarm_id by {
        assert(v.share_leader(x, y));
    }
    assert forall|l: u64| #[trigger] w.table.contains_key(l) implies w.table[l].followers
        == w.followers_of(l).len() by {
        lemma_followers_after_update(v, a, r, l);
    }
    assert forall|g: u32| #[trigger] w.pool.knows(g) implies w.pool.subs[g - 1] == w.members_of(
        g,
    ).len() by {
        lemma_members_after_update(v, a, r, g);
    }
}


impl TrackerView {
    /// The Solo agent `a` can join `b`: `b` is another agent, follows
    /// nobody, has room for a follower, and has a group id or can get one.
    pub open spec fn can_join(self, a: u64, b: u64) -> bool {
        &&& a != b
        &&& self.table.contains_key(a)
        &&& self.table[a].state == SwarmBotState::Solo
        &&& self.table.contains_key(b)
        &&& self.table[b].open_to_followers(b)
        &&& (self.table[b].swarm_id != 0 || self.pool.free.len() > 0)
    }

    /// The group id under which an agent joins `b`: the one `b` has, or else
    /// the next of the pool.
    pub open spec fn group_for(self, b: u64) -> u32 {
        if self.table[b].swarm_id != 0 {
            self.table[b].swarm_id
        } else {
            self.pool.free[0]
        }
    }

    /// The pool once `b` has a group id.
    pub open spec fn pool_for(self, b: u64) -> PoolView {
        if self.table[b].swarm_id != 0 {
            self.pool
        } else {
            self.pool.allocate()
        }
    }

    /// The tracker after `a` joined `b`. Where `b` was on its own, it takes
    /// the next id of the pool and becomes the leader of a new group. `a`
    /// becomes a follower of `b` on its way into formation, `b` counts one
    /// follower more and the group one subscriber more.
    pub open spec fn join(self, a: u64, b: u64) -> TrackerView {
        let g = self.group_for(b);
        TrackerView {
            table: self.table.insert(b, self.table[b].with_recruit(b, g)).insert(
                a,
                self.table[a].enlisted(b, g),
            ),
            pool: self.pool_for(b).subscribe(g),
        }
    }

    /// The tracker after the orphan `a` took note that its leader is gone.
    /// Where `a` is on its own again, its group has one subscriber fewer.
    pub open spec fn heal(self, a: u64) -> TrackerView {
        let healed = self.table[a].orphaned(a);
        TrackerView {
            table: self.table.insert(a, healed),
            pool: if healed.swarm_id == 0 {
                self.pool.unsubscribe(self.table[a].swarm_id)
            } else {
                self.pool
            },
        }
    }

    /// The leader whose follower count drops when `a` departs, if any: the
    /// leader that `a` follows, where it still has a record.
    pub open spec fn mourner(self, a: u64) -> Option<u64> {
        match self.table[a].leader {
            Some(l) => if l != a && self.table.contains_key(l) {
                Some(l)
            } else {
                None
            },
            None => None,
        }
    }

    /// The tracker after the agent `a` departed: its record is removed, its
    /// group, if it had one, has one subscriber fewer, and the leader it
    /// followed, if that still has a record, one follower fewer. Agents that
    /// followed `a` are left as they are.
    pub open spec fn depart(self, a: u64) -> TrackerView {
        let r = self.table[a];
        let table = match self.mourner(a) {
            Some(l) => self.table.insert(l, self.table[l].without_follower()),
            None => self.table,
        };
        TrackerView {
            table: table.remove(a),
            pool: if r.swarm_id != 0 {
                self.pool.unsubscribe(r.swarm_id)
            } else {
                self.pool
            },
        }
    }
}

/// The members of a group whose leader has a record are the leader and its
/// followers, so they are at most one more than the leader's follower count.
pub proof fn lemma_group_size(v: TrackerView, l: u64)
    requires
        v.valid(),
        v.leads(l),
    ensures
        v.members_of(v.table[l].swarm_id).finite(),
        v.members_of(v.table[l].swarm_id) =~= v.followers_of(l).insert(l),
        v.members_of(v.table[l].swarm_id).len() == v.table[l].followers + 1,
{
    let g = v.table[l].swarm_id;
    let members = v.members_of(g);
    let group = v.followers_of(l).insert(l);
    assert(v.table[l].consistent());
    assert forall|x: u64| members.contains(x) implies group.contains(x) by {
        assert(v.share_group(x, l));
    }
    assert forall|x: u64| group.contains(x) implies members.contains(x) by {
        if x != l {
            assert(v.follows(x, l));
        }
    }
    assert(members =~= group);
}

/// A group id in the pool's stock is on no record.
pub proof fn lemma_stock_is_unused(v: TrackerView, g: u32)
    requires
        v.valid(),
        v.pool.free.contains(g),
    ensures
        v.pool.knows(g),
        v.pool.subs[g - 1] == 0,
        v.members_of(g) =~= Set::<u64>::empty(),
        forall|a: u64| v.table.contains_key(a) ==> v.table[a].swarm_id != g,
{
    let k = choose|k: int| 0 <= k < v.pool.free.len() && v.pool.free[k] == g;
    assert(v.pool.knows(v.pool.free[k]));
    assert(v.pool.knows(g));
    assert(v.members_of(g).finite());
    v.members_of(g).lemma_len0_is_empty();
    assert forall|a: u64| v.table.contains_key(a) implies v.table[a].swarm_id != g by {
        if v.table[a].swarm_id == g {
            assert(v.in_group(a, g));
            assert(v.members_of(g).contains(a));
        }
    }
}

/// A group id on some record has a subscriber, so it is not in the pool's
/// stock.
pub proof fn lemma_used_id_is_subscribed(v: TrackerView, a: u64)
    requires
        v.valid(),
        v.table.contains_key(a),
        v.table[a].swarm_id != 0,
    ensures
        v.pool.knows(v.table[a].swarm_id),
        v.pool.subs[v.table[a].swarm_id - 1] > 0,
        !v.pool.free.contains(v.table[a].swarm_id),
        v.pool.in_use(v.table[a].swarm_id),
{
    let g = v.table[a].swarm_id;
    assert(v.pool.knows(g));
    assert(v.in_group(a, g));
    assert(v.members_of(g).contains(a));
    assert(v.members_of(g).finite());
}

/// Joining keeps the tracker valid, and the pool can take the subscription.
pub proof fn lemma_join_valid(v: TrackerView, a: u64, b: u64)
    requires
        v.valid(),
        v.can_join(a, b),
    ensures
        v.join(a, b).valid(),
        v.table[a].leader is None,
        v.table[a].followers == 0,
        v.pool_for(b).valid(),
        v.pool_for(b).check_subscribe(v.group_for(b)) is Ok,
{
    let ra = v.table[a];
    let rb = v.table[b];
    let g = v.group_for(b);
    let ready = v.pool_for(b);
    let ra2 = ra.enlisted(b, g);
    let rb2 = rb.with_recruit(b, g);
    let v1 = v.with_record(b, rb2);
    let v2 = v1.with_record(a, ra2);
    let w = v.join(a, b);
    assert(w.table == v2.table);
    assert(ra.consistent() && rb.consistent());
    lemma_only_leaders_are_followed(v, a);
    if rb.swarm_id != 0 {
        assert(v.leads(b));
        lemma_group_size(v, b);
        lemma_used_id_is_subscribed(v, b);
    } else {
        assert(v.pool.knows(v.pool.free[0]));
        assert(v.pool.free.contains(g));
        lemma_stock_is_unused(v, g);
        lemma_allocate_valid(v.pool);
    }
    assert(ready.knows(g));
    assert(ready.check_subscribe(g) is Ok);
    lemma_subscribe_valid(ready, g);
    assert(w.pool.subs.len() == v.pool.subs.len());

    assert forall|x: u64| #[trigger] w.table.contains_key(x) implies w.table[x].consistent()
        && w.table[x].swarm_id <= w.pool.limit() by {
        if x != a && x != b {
            assert(v.table.contains_key(x));
        }
    }
    assert forall|x: u64, l: u64| #[trigger] w.follows(x, l) && w.table.contains_key(
        l,
    ) implies w.leads(l) && w.table[l].swarm_id == w.table[x].swarm_id by {
        if x != a && x != b {
            assert(v.follows(x, l));
            assert(v.table[x].consistent());
            if l == a {
                assert(v.leads(a));
            }
        }
    }
    assert forall|l: u64| #[trigger] w.leads(l) implies w.table[l].state
        == SwarmBotState::InSwarm by {
        if l != a && l != b {
            assert(v.leads(l));
        }
    }
    assert forall|x: u64, y: u64| #[trigger] w.share_group(x, y) implies w.table[x].leader
        == w.table[y].leader by {
        let x_new = x == a || x == b;
        let y_new = y == a || y == b;
        if !x_new && !y_new {
            assert(v.share_group(x, y));
        } else if x_new && !y_new {
            assert(v.in_group(y, g));
            assert(v.members_of(g).contains(y));
            assert(v.share_group(y, b));
        } else if !x_new && y_new {
            assert(v.in_group(x, g));
            assert(v.members_of(g).contains(x));
            assert(v.share_group(x, b));
        }
    }
    assert forall|x: u64, y: u64| #[trigger] w.share_leader(x, y) implies w.table[x].swarm_id
        == w.table[y].swarm_id by {
        let x_new = x == a || x == b;
        let y_new = y == a || y == b;
        if !x_new && !y_new {
            assert(v.share_leader(x, y));
        } else if x_new && !y_new {
            assert(v.follows(y, b));
            assert(v.table[y].consistent());
        } else if !x_new && y_new {
            assert(v.follows(x, b));
            assert(v.table[x].consistent());
        }
    }
    assert forall|l: u64| #[trigger] w.table.contains_key(l) implies w.table[l].followers
        == w.followers_of(l).len() by {
        lemma_followers_after_update(v, b, rb2, l);
        lemma_followers_after_update(v1, a, ra2, l);
        assert(v2.followers_of(l) == w.followers_of(l));
        if l != a && l != b {
            assert(v.table.contains_key(l));
        }
    }
    assert forall|id: u32| #[trigger] w.pool.knows(id) implies w.pool.subs[id - 1]
        == w.members_of(id).len() by {
        lemma_members_after_update(v, b, rb2, id);
        lemma_members_after_update(v1, a, ra2, id);
        assert(v2.members_of(id) == w.members_of(id));
        assert(v.pool.knows(id));
    }
}

/// Joining leaves a group without its leader alone. Where `f` follows a
/// leader `l` that is gone, a join changes the record of no follower of `l`,
/// and gives the id of their group to nobody.
pub proof fn lemma_join_spares_orphans(v: TrackerView, a: u64, b: u64, l: u64, f: u64)
    requires
        v.valid(),
        v.can_join(a, b),
        !v.table.contains_key(l),
        v.follows(f, l),
    ensures
        v.join(a, b).table.dom() == v.table.dom(),
        v.join(a, b).pool.subs.len() == v.pool.subs.len(),
        forall|x: u64| #[trigger] v.follows(x, l) ==> v.join(a, b).table[x] == v.table[x],
        forall|x: u64| #[trigger]
            v.join(a, b).in_group(x, v.table[f].swarm_id) ==> v.in_group(x, v.table[f].swarm_id),
{
    let w = v.join(a, b);
    let g = v.table[f].swarm_id;
    let new_id = v.group_for(b);
    lemma_join_valid(v, a, b);
    assert(v.table[a].consistent() && v.table[b].consistent() && v.table[f].consistent());
    assert(w.table.dom() =~= v.table.dom());
    if v.table[b].swarm_id != 0 {
        if new_id == g {
            assert(v.share_group(b, f));
        }
    } else {
        assert(v.pool.free.contains(v.pool.free[0]));
        lemma_stock_is_unused(v, new_id);
        lemma_allocate_valid(v.pool);
    }
    assert(new_id != g);
}

/// Healing an orphan keeps the tracker valid. The orphan has no followers,
/// so it is on its own afterwards, and its old group can let it go.
pub proof fn lemma_heal_valid(v: TrackerView, a: u64)
    requires
        v.valid(),
        v.is_orphan(a),
    ensures
        v.heal(a).valid(),
        v.table[a].followers == 0,
        v.heal(a).table[a] == SwarmData::solo(v.table[a].followers_limit),
        v.pool.in_use(v.table[a].swarm_id),
{
    let ra = v.table[a];
    let g = ra.swarm_id;
    let healed = ra.orphaned(a);
    let w = v.heal(a);
    let v1 = v.with_record(a, healed);
    assert(w.table == v1.table);
    assert(ra.consistent());
    lemma_only_leaders_are_followed(v, a);
    lemma_used_id_is_subscribed(v, a);
    lemma_unsubscribe_valid(v.pool, g);
    assert forall|x: u64| #[trigger] w.table.contains_key(x) implies w.table[x].consistent()
        && w.table[x].swarm_id <= w.pool.limit() by {
        if x != a {
            assert(v.table.contains_key(x));
        }
    }
    assert forall|x: u64, l: u64| #[trigger] w.follows(x, l) && w.table.contains_key(
        l,
    ) implies w.leads(l) && w.table[l].swarm_id == w.table[x].swarm_id by {
        assert(v.follows(x, l));
        if l == a {
            assert(v.leads(a));
        }
    }
    assert forall|l: u64| #[trigger] w.leads(l) implies w.table[l].state
        == SwarmBotState::InSwarm by {
        assert(v.leads(l));
    }
    assert forall|x: u64, y: u64| #[trigger] w.share_group(x, y) implies w.table[x].leader
        == w.table[y].leader by {
        assert(v.share_group(x, y));
    }
    assert forall|x: u64, y: u64| #[trigger] w.share_leader(x, y) implies w.table[x].swarm_id
        == w.table[y].swarm_id by {
        assert(v.share_leader(x, y));
    }
    assert forall|l: u64| #[trigger] w.table.contains_key(l) implies w.table[l].followers
        == w.followers_of(l).len() by {
        lemma_followers_after_update(v, a, healed, l);
        assert(v1.followers_of(l) == w.followers_of(l));
    }
    assert forall|id: u32| #[trigger] w.pool.knows(id) implies w.pool.subs[id - 1]
        == w.members_of(id).len() by {
        lemma_members_after_update(v, a, healed, id);
        assert(v1.members_of(id) == w.members_of(id));
        assert(v.pool.knows(id));
    }
}

/// The departure of an agent keeps the tracker valid.
pub proof fn lemma_depart_valid(v: TrackerView, a: u64)
    requires
        v.valid(),
        v.table.contains_key(a),
    ensures
        v.depart(a).valid(),
        v.mourner(a) matches Some(l) ==> v.table[l].followers > 0,
        v.table[a].swarm_id != 0 ==> v.pool.in_use(v.table[a].swarm_id),
{
    let ra = v.table[a];
    let g = ra.swarm_id;
    let w = v.depart(a);
    assert(ra.consistent());
    let v1 = match v.mourner(a) {
        Some(l) => v.with_record(l, v.table[l].without_follower()),
        None => v,
    };
    let v2 = v1.without_record(a);
    assert(w.table == v2.table);
    if g != 0 {
        lemma_used_id_is_subscribed(v, a);
        lemma_unsubscribe_valid(v.pool, g);
    }
    assert(w.pool.subs.len() == v.pool.subs.len());
    if let Some(l) = v.mourner(a) {
        assert(v.follows(a, l));
        assert(v.followers_of(l).contains(a));
        assert(v.followers_of(l).finite());
        assert(v.table[l].consistent());
    }
    assert forall|x: u64| #[trigger] w.table.contains_key(x) implies w.table[x].consistent()
        && w.table[x].swarm_id <= w.pool.limit() by {
        assert(v.table.contains_key(x));
    }
    assert forall|x: u64, l: u64| #[trigger] w.follows(x, l) && w.table.contains_key(
        l,
    ) implies w.leads(l) && w.table[l].swarm_id == w.table[x].swarm_id by {
        assert(v.follows(x, l));
    }
    assert forall|l: u64| #[trigger] w.leads(l) implies w.table[l].state
        == SwarmBotState::InSwarm by {
        assert(v.leads(l));
    }
    assert forall|x: u64, y: u64| #[trigger] w.share_group(x, y) implies w.table[x].leader
        == w.table[y].leader by {
        assert(v.share_group(x, y));
    }
    assert forall|x: u64, y: u64| #[trigger] w.share_leader(x, y) implies w.table[x].swarm_id
        == w.table[y].swarm_id by {
        assert(v.share_leader(x, y));
    }
    assert forall|l: u64| #[trigger] w.table.contains_key(l) implies w.table[l].followers
        == w.followers_of(l).len() by {
        assert(v.table.contains_key(l));
        if let Some(m) = v.mourner(a) {
            lemma_followers_after_update(v, m, v.table[m].without_follower(), l);
        }
        lemma_followers_after_removal(v1, a, l);
        assert(v2.followers_of(l) == w.followers_of(l));
    }
    assert forall|id: u32| #[trigger] w.pool.knows(id) implies w.pool.subs[id - 1]
        == w.members_of(id).len() by {
        if let Some(m) = v.mourner(a) {
            lemma_members_after_update(v, m, v.table[m].without_follower(), id);
        }
        lemma_members_after_removal(v1, a, id);
        assert(v2.members_of(id) == w.members_of(id));
        assert(v.pool.knows(id));
    }
}

} // verus!
