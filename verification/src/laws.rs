//! What holds of every valid tracker, and of the passes that change it.
//!
//! Every constructor of the tracker gives a valid one and every method keeps
//! it valid, so what is proved here of valid trackers holds at every tick.

use crate::bot::SwarmBot;
use crate::cohesion::{
    coerce_order, coerce_step, coerce_upto, lemma_coerce_heals, lemma_coerce_step_valid, Cohesion,
};
use crate::damage::{damaged, CollisionDamage};
use crate::formation::{lemma_swarm_up_spares_orphans, lemma_swarm_up_valid, swarm_up_upto};
use crate::data::SwarmBotState;
use crate::target::seeks_target;
use crate::teardown::{depart_upto, lemma_depart_upto};
use crate::data::SwarmData;
use crate::model::{
    lemma_depart_valid, lemma_group_size, lemma_heal_valid, lemma_only_leaders_are_followed,
    lemma_stock_is_unused, TrackerView,
};
use vstd::prelude::*;

verus! {

/// At every tick: formation, cohesion and teardown each turn a valid tracker
/// into a valid one, whatever the snapshots hold.
pub proof fn passes_keep_the_invariant(
    v: TrackerView,
    bots: Seq<SwarmBot>,
    dt_ms: u32,
    later: Seq<SwarmBot>,
)
    requires
        v.valid(),
    ensures
        swarm_up_upto(v, bots, bots.len() as int).valid(),
        coerce_upto(
            swarm_up_upto(v, bots, bots.len() as int),
            bots,
            bots.len() as int,
            dt_ms,
        ).valid(),
        depart_upto(
            coerce_upto(swarm_up_upto(v, bots, bots.len() as int), bots, bots.len() as int, dt_ms),
            later,
            later.len() as int,
        ).valid(),
{
    let formed = swarm_up_upto(v, bots, bots.len() as int);
    lemma_swarm_up_valid(v, bots, bots.len() as int);
    let settled = coerce_upto(formed, bots, bots.len() as int, dt_ms);
    lemma_coerce_heals(formed, bots, bots.len() as int, dt_ms);
    lemma_depart_upto(settled, later, later.len() as int);
}

/// Bounded fan-out: the agents that follow a leader are as many as its
/// record counts, and no more than its limit.
pub proof fn bounded_fan_out(v: TrackerView, l: u64)
    requires
        v.valid(),
        v.table.contains_key(l),
    ensures
        v.followers_of(l).finite(),
        v.followers_of(l).len() == v.table[l].followers,
        v.followers_of(l).len() <= v.table[l].followers_limit,
{
    assert(v.table[l].consistent());
}

/// Depth-one hierarchy: the leader that an agent names is the agent itself,
/// or is gone, or leads itself. A follower never follows a follower.
pub proof fn depth_one_hierarchy(v: TrackerView, a: u64, b: u64)
    requires
        v.valid(),
        v.table.contains_key(a),
        v.table[a].leader == Some(b),
    ensures
        b == a || !v.table.contains_key(b) || v.table[b].leader == Some(b),
{
    if b != a && v.table.contains_key(b) {
        assert(v.follows(a, b));
        assert(v.leads(b));
    }
}

/// A follower has no followers of its own.
pub proof fn followers_lead_nobody(v: TrackerView, a: u64, l: u64)
    requires
        v.valid(),
        v.follows(a, l),
    ensures
        v.table[a].followers == 0,
        v.followers_of(a) =~= Set::<u64>::empty(),
{
    lemma_only_leaders_are_followed(v, a);
}

/// Group id exclusivity: two agents with the same group id name the same
/// leader, so no two groups share an id.
pub proof fn group_id_exclusive(v: TrackerView, a: u64, b: u64)
    requires
        v.valid(),
        v.table.contains_key(a),
        v.table.contains_key(b),
        v.table[a].swarm_id != 0,
        v.table[a].swarm_id == v.table[b].swarm_id,
    ensures
        v.table[a].leader == v.table[b].leader,
        v.table[a].leader is Some,
{
    assert(v.share_group(a, b));
    assert(v.table[a].consistent());
}

/// Group id exclusivity: the agents that carry the id of a leader's group
/// are the leader and its followers, and the id has as many subscribers.
pub proof fn group_is_leader_and_followers(v: TrackerView, l: u64)
    requires
        v.valid(),
        v.leads(l),
    ensures
        v.members_of(v.table[l].swarm_id) =~= v.followers_of(l).insert(l),
        v.pool.knows(v.table[l].swarm_id),
        v.pool.subs[v.table[l].swarm_id - 1] == v.table[l].followers + 1,
{
    lemma_group_size(v, l);
    assert(v.table[l].consistent());
    assert(v.pool.knows(v.table[l].swarm_id));
}

/// Only agents on their own and leaders acquire targets, and a leader is
/// `InSwarm`: an agent that is `Swarming` is a follower and acquires none.
pub proof fn swarming_agents_acquire_no_target(v: TrackerView, a: u64)
    requires
        v.valid(),
        v.table.contains_key(a),
        v.table[a].state == SwarmBotState::Swarming,
    ensures
        v.table[a].role_of(a) is Follower,
        !seeks_target(v, a),
{
    assert(v.table[a].consistent());
    if v.table[a].leader == Some(a) {
        assert(v.leads(a));
    }
}

/// No mutual joins: once `a` has joined `b`, neither of the two joins
/// anyone, so `b` cannot join `a` in turn.
pub proof fn no_mutual_join(v: TrackerView, a: u64, b: u64, x: u64)
    requires
        v.valid(),
        v.can_join(a, b),
    ensures
        !v.join(a, b).can_join(a, x),
        !v.join(a, b).can_join(b, x),
{
}

/// Reuse safety: an id without subscribers is in the pool's stock, and no
/// agent carries it until the pool hands it out again.
pub proof fn released_id_unused(v: TrackerView, g: u32, a: u64)
    requires
        v.valid(),
        v.pool.knows(g),
        v.pool.subs[g - 1] == 0,
        v.table.contains_key(a),
    ensures
        v.pool.free.contains(g),
        v.table[a].swarm_id != g,
{
    lemma_stock_is_unused(v, g);
}

/// The cohesion pass gives no agent a group id: an agent carries the id it
/// had before the pass, or none.
pub proof fn coerce_assigns_no_id(
    v: TrackerView,
    bots: Seq<SwarmBot>,
    n: int,
    dt_ms: u32,
    a: u64,
)
    requires
        v.valid(),
        0 <= n <= bots.len(),
        v.table.contains_key(a),
    ensures
        coerce_upto(v, bots, n, dt_ms).table.contains_key(a),
        coerce_upto(v, bots, n, dt_ms).table[a].swarm_id == 0 || coerce_upto(
            v,
            bots,
            n,
            dt_ms,
        ).table[a].swarm_id == v.table[a].swarm_id,
    decreases n,
{
    lemma_coerce_heals(v, bots, n, dt_ms);
    if n > 0 {
        let u = coerce_upto(v, bots, n - 1, dt_ms);
        coerce_assigns_no_id(v, bots, n - 1, dt_ms, a);
        lemma_coerce_heals(v, bots, n - 1, dt_ms);
        lemma_coerce_step_valid(u, bots, n - 1, dt_ms);
        if bots[n - 1].id == a {
            if coerce_order(u, bots, n - 1, dt_ms) == Cohesion::Released {
                lemma_heal_valid(u, a);
            }
        }
    }
}

/// An orphan that has a turn in the cohesion pass is on its own when the
/// pass is over; one that has no turn is as it was.
pub proof fn orphan_after_coerce(
    v: TrackerView,
    bots: Seq<SwarmBot>,
    n: int,
    dt_ms: u32,
    a: u64,
)
    requires
        v.valid(),
        0 <= n <= bots.len(),
        v.is_orphan(a),
    ensures
        coerce_upto(v, bots, n, dt_ms).table.contains_key(a),
        coerce_upto(v, bots, n, dt_ms).table[a] == if exists|k: int| 0 <= k < n && bots[k].id == a {
            SwarmData::solo(v.table[a].followers_limit)
        } else {
            v.table[a]
        },
    decreases n,
{
    lemma_coerce_heals(v, bots, n, dt_ms);
    if n > 0 {
        let u = coerce_upto(v, bots, n - 1, dt_ms);
        let w = coerce_upto(v, bots, n, dt_ms);
        orphan_after_coerce(v, bots, n - 1, dt_ms, a);
        lemma_coerce_heals(v, bots, n - 1, dt_ms);
        lemma_coerce_step_valid(u, bots, n - 1, dt_ms);
        assert(w == coerce_step(u, bots, n - 1, dt_ms));
        if bots[n - 1].id == a {
            if exists|k: int| 0 <= k < n - 1 && bots[k].id == a {
                assert(coerce_order(u, bots, n - 1, dt_ms) == Cohesion::Idle);
            } else {
                assert(u.is_orphan(a));
                assert(coerce_order(u, bots, n - 1, dt_ms) == Cohesion::Released);
                lemma_heal_valid(u, a);
            }
        } else {
            assert(w.table[a] == u.table[a]);
            if exists|k: int| 0 <= k < n && bots[k].id == a {
                let k = choose|k: int| 0 <= k < n && bots[k].id == a;
                assert(0 <= k < n - 1 && bots[k].id == a);
            }
        }
    }
}

/// Self-healing: when a leader departs, each of its followers that has a
/// turn in the next cohesion pass is on its own after it, without a group
/// id. (A follower has no followers, so none of them takes the group over.)
pub proof fn followers_heal_after_leader_loss(
    v: TrackerView,
    l: u64,
    f: u64,
    bots: Seq<SwarmBot>,
    dt_ms: u32,
    k: int,
)
    requires
        v.valid(),
        v.table.contains_key(l),
        v.follows(f, l),
        0 <= k < bots.len(),
        bots[k].id == f,
    ensures
        coerce_upto(v.depart(l), bots, bots.len() as int, dt_ms).valid(),
        coerce_upto(v.depart(l), bots, bots.len() as int, dt_ms).table.contains_key(f),
        coerce_upto(v.depart(l), bots, bots.len() as int, dt_ms).table[f] == SwarmData::solo(
            v.table[f].followers_limit,
        ),
{
    let u = v.depart(l);
    lemma_depart_valid(v, l);
    assert(v.leads(l));
    assert(v.mourner(l) is None);
    assert(u.table[f] == v.table[f]);
    assert(u.is_orphan(f));
    lemma_coerce_heals(u, bots, bots.len() as int, dt_ms);
    orphan_after_coerce(u, bots, bots.len() as int, dt_ms, f);
}

/// Self-healing and reuse: when a leader departs and all of its followers
/// have a turn in the next cohesion pass, the group's id has no subscriber
/// after the pass and is back in the pool's stock.
pub proof fn group_id_returns_after_leader_loss(
    v: TrackerView,
    l: u64,
    bots: Seq<SwarmBot>,
    dt_ms: u32,
)
    requires
        v.valid(),
        v.leads(l),
        forall|f: u64| #[trigger]
            v.follows(f, l) ==> exists|k: int| 0 <= k < bots.len() && bots[k].id == f,
    ensures
        coerce_upto(v.depart(l), bots, bots.len() as int, dt_ms).pool.subs[v.table[l].swarm_id
            - 1] == 0,
        coerce_upto(v.depart(l), bots, bots.len() as int, dt_ms).pool.free.contains(
            v.table[l].swarm_id,
        ),
{
    let g = v.table[l].swarm_id;
    let n = bots.len() as int;
    let u = v.depart(l);
    let w = coerce_upto(u, bots, n, dt_ms);
    lemma_depart_valid(v, l);
    lemma_group_size(v, l);
    assert(v.table[l].consistent());
    assert(v.mourner(l) is None);
    lemma_coerce_heals(u, bots, n, dt_ms);
    assert(w.pool.subs.len() == v.pool.subs.len()) by {
        lemma_pool_size_after_coerce(u, bots, n, dt_ms);
    }
    assert(w.pool.knows(g));
    assert forall|x: u64| !w.members_of(g).contains(x) by {
        if w.table.contains_key(x) && w.table[x].swarm_id == g {
            assert(u.table.contains_key(x));
            coerce_assigns_no_id(u, bots, n, dt_ms, x);
            assert(u.table[x] == v.table[x]);
            assert(v.in_group(x, g));
            assert(v.members_of(g).contains(x));
            assert(v.followers_of(l).insert(l).contains(x));
            assert(v.follows(x, l));
            let k = choose|k: int| 0 <= k < bots.len() && bots[k].id == x;
            followers_heal_after_leader_loss(v, l, x, bots, dt_ms, k);
        }
    }
    assert(w.members_of(g) =~= Set::<u64>::empty());
}

/// Self-healing and reuse, from the state in which a leader is gone: where
/// all agents that still follow the lost leader `l` have a turn in a
/// cohesion pass, the id of their group has no subscriber after the pass
/// and is back in the pool's stock.
pub proof fn lost_group_dissolves_after_coerce(
    v: TrackerView,
    l: u64,
    f: u64,
    bots: Seq<SwarmBot>,
    dt_ms: u32,
)
    requires
        v.valid(),
        !v.table.contains_key(l),
        v.follows(f, l),
        forall|x: u64| #[trigger]
            v.follows(x, l) ==> exists|k: int| 0 <= k < bots.len() && bots[k].id == x,
    ensures
        coerce_upto(v, bots, bots.len() as int, dt_ms).valid(),
        v.pool.knows(v.table[f].swarm_id),
        coerce_upto(v, bots, bots.len() as int, dt_ms).pool.subs[v.table[f].swarm_id - 1] == 0,
        coerce_upto(v, bots, bots.len() as int, dt_ms).pool.free.contains(v.table[f].swarm_id),
{
    let g = v.table[f].swarm_id;
    let n = bots.len() as int;
    let w = coerce_upto(v, bots, n, dt_ms);
    assert(v.table[f].consistent());
    lemma_coerce_heals(v, bots, n, dt_ms);
    lemma_pool_size_after_coerce(v, bots, n, dt_ms);
    assert(w.pool.knows(g));
    assert forall|x: u64| !w.members_of(g).contains(x) by {
        if w.table.contains_key(x) && w.table[x].swarm_id == g {
            coerce_assigns_no_id(v, bots, n, dt_ms, x);
            assert(v.share_group(x, f));
            assert(v.follows(x, l));
            assert(v.is_orphan(x));
            orphan_after_coerce(v, bots, n, dt_ms, x);
        }
    }
    assert(w.members_of(g) =~= Set::<u64>::empty());
}

/// Self-healing within a tick, from the state in which a leader is gone:
/// an agent that follows the lost leader and has a turn in the tick is on
/// its own after formation and cohesion, without a group id. Formation,
/// which comes first, leaves it as it is, and nobody joins it.
pub proof fn orphans_heal_within_a_tick(
    v: TrackerView,
    l: u64,
    f: u64,
    bots: Seq<SwarmBot>,
    dt_ms: u32,
    k: int,
)
    requires
        v.valid(),
        !v.table.contains_key(l),
        v.follows(f, l),
        0 <= k < bots.len(),
        bots[k].id == f,
    ensures
        coerce_upto(
            swarm_up_upto(v, bots, bots.len() as int),
            bots,
            bots.len() as int,
            dt_ms,
        ).valid(),
        coerce_upto(
            swarm_up_upto(v, bots, bots.len() as int),
            bots,
            bots.len() as int,
            dt_ms,
        ).table.contains_key(f),
        coerce_upto(
            swarm_up_upto(v, bots, bots.len() as int),
            bots,
            bots.len() as int,
            dt_ms,
        ).table[f] == SwarmData::solo(v.table[f].followers_limit),
{
    let n = bots.len() as int;
    let formed = swarm_up_upto(v, bots, n);
    lemma_swarm_up_spares_orphans(v, bots, n, l, f);
    assert(formed.table[f] == v.table[f]);
    assert(formed.is_orphan(f));
    lemma_coerce_heals(formed, bots, n, dt_ms);
    orphan_after_coerce(formed, bots, n, dt_ms, f);
}

/// Self-healing and reuse within a tick, from the state in which a leader
/// is gone: where all agents that follow the lost leader `l` have a turn in
/// the tick, the id of their group has no subscriber after formation and
/// cohesion and is back in the pool's stock. Formation cannot hand the id
/// out in between, because the followers still hold it.
pub proof fn lost_group_dissolves_within_a_tick(
    v: TrackerView,
    l: u64,
    f: u64,
    bots: Seq<SwarmBot>,
    dt_ms: u32,
)
    requires
        v.valid(),
        !v.table.contains_key(l),
        v.follows(f, l),
        forall|x: u64| #[trigger]
            v.follows(x, l) ==> exists|k: int| 0 <= k < bots.len() && bots[k].id == x,
    ensures
        v.pool.knows(v.table[f].swarm_id),
        coerce_upto(
            swarm_up_upto(v, bots, bots.len() as int),
            bots,
            bots.len() as int,
            dt_ms,
        ).pool.subs[v.table[f].swarm_id - 1] == 0,
        coerce_upto(
            swarm_up_upto(v, bots, bots.len() as int),
            bots,
            bots.len() as int,
            dt_ms,
        ).pool.free.contains(v.table[f].swarm_id),
{
    let g = v.table[f].swarm_id;
    let n = bots.len() as int;
    let formed = swarm_up_upto(v, bots, n);
    lemma_swarm_up_spares_orphans(v, bots, n, l, f);
    assert(v.table[f].consistent());
    assert(formed.table[f] == v.table[f]);
    assert(formed.follows(f, l));
    assert forall|x: u64| #[trigger] formed.follows(x, l) implies exists|k: int|
        0 <= k < bots.len() && bots[k].id == x by {
        assert(formed.share_leader(x, f));
        assert(formed.in_group(x, g));
        assert(v.in_group(x, g));
        assert(v.share_group(x, f));
        assert(v.follows(x, l));
    }
    lost_group_dissolves_after_coerce(formed, l, f, bots, dt_ms);
}

/// Self-healing in the tick after a leader's departure: each of its
/// followers that has a turn is on its own after formation and cohesion,
/// and where all of them have a turn, the id of the group is back in the
/// pool's stock.
pub proof fn group_dissolves_in_the_tick_after_leader_loss(
    v: TrackerView,
    l: u64,
    f: u64,
    bots: Seq<SwarmBot>,
    dt_ms: u32,
    k: int,
)
    requires
        v.valid(),
        v.table.contains_key(l),
        v.follows(f, l),
        0 <= k < bots.len(),
        bots[k].id == f,
    ensures
        coerce_upto(
            swarm_up_upto(v.depart(l), bots, bots.len() as int),
            bots,
            bots.len() as int,
            dt_ms,
        ).table[f] == SwarmData::solo(v.table[f].followers_limit),
        (forall|x: u64| #[trigger]
            v.follows(x, l) ==> exists|j: int| 0 <= j < bots.len() && bots[j].id == x)
            ==> coerce_upto(
            swarm_up_upto(v.depart(l), bots, bots.len() as int),
            bots,
            bots.len() as int,
            dt_ms,
        ).pool.free.contains(v.table[l].swarm_id),
{
    let u = v.depart(l);
    lemma_depart_valid(v, l);
    assert(v.leads(l));
    assert(v.mourner(l) is None);
    assert(u.table[f] == v.table[f]);
    assert(u.follows(f, l));
    orphans_heal_within_a_tick(u, l, f, bots, dt_ms, k);
    if forall|x: u64| #[trigger]
        v.follows(x, l) ==> exists|j: int| 0 <= j < bots.len() && bots[j].id == x {
        assert forall|x: u64| #[trigger] u.follows(x, l) implies exists|j: int|
            0 <= j < bots.len() && bots[j].id == x by {
            assert(v.follows(x, l));
        }
        lost_group_dissolves_within_a_tick(u, l, f, bots, dt_ms);
    }
}

/// The cohesion pass keeps the size of the pool.
pub proof fn lemma_pool_size_after_coerce(v: TrackerView, bots: Seq<SwarmBot>, n: int, dt_ms: u32)
    requires
        v.valid(),
        0 <= n <= bots.len(),
    ensures
        coerce_upto(v, bots, n, dt_ms).pool.subs.len() == v.pool.subs.len(),
    decreases n,
{
    if n > 0 {
        lemma_pool_size_after_coerce(v, bots, n - 1, dt_ms);
        lemma_coerce_heals(v, bots, n - 1, dt_ms);
        let u = coerce_upto(v, bots, n - 1, dt_ms);
        if coerce_order(u, bots, n - 1, dt_ms) == Cohesion::Released {
            lemma_heal_valid(u, bots[n - 1].id);
        }
    }
}

/// Damage immunity: damage that an agent caused itself changes nothing of
/// it, whatever the amount.
pub proof fn no_self_damage(bot: SwarmBot, d: CollisionDamage, immune_to: Seq<u64>)
    requires
        d.from == Some(bot.id),
    ensures
        damaged(bot, d, immune_to) == bot,
{
}

} // verus!
