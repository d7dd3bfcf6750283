//! Group formation: each agent on its own looks for a leader to join.
//!
//! The agents are visited in the order of the snapshot. Positions and
//! velocities are those of the snapshot, taken at the start of the tick;
//! the membership records are read as they stand when an agent's turn
//! comes, so an agent that was joined earlier in the pass is a leader by
//! then and no longer looks for one itself.

use crate::bot::SwarmBot;
use crate::data::SwarmBotState;
use crate::model::{lemma_join_spares_orphans, lemma_join_valid, TrackerView};
use crate::steering::{direction, direction_to};
use crate::tracker::SwarmTracker;
use crate::vector::Vec3i;
use vstd::prelude::*;

verus! {

/// What the formation pass tells an agent that has joined a leader: the index
/// of the leader in the snapshot, and the heading toward it, which is the
/// agent's steering target from now on.
#[derive(Clone, Copy, Debug, PartialEq, Eq, Structural)]
pub struct Join {
    pub leader: usize,
    pub heading: Vec3i,
}

/// The Solo agent `bots[i]` can join `bots[j]` in the state `v`:
///
/// - `bots[j]` is within the joiner's `swarm_up_distance`;
/// - the two move in directions at most 60 degrees apart;
/// - `bots[j]` is another agent, follows nobody, and has room for a
///   follower;
/// - `bots[j]` does not follow the joiner;
/// - `bots[j]` has a group id, or the pool has one to give.
pub open spec fn eligible(v: TrackerView, bots: Seq<SwarmBot>, i: int, j: int) -> bool {
    &&& bots[i].position.within(bots[j].position, bots[i].swarm_up_distance)
    &&& bots[i].velocity.heading_agrees(bots[j].velocity)
    &&& v.can_join(bots[i].id, bots[j].id)
    &&& v.table[bots[j].id].leader != Some(bots[i].id)
}

/// The first index from `from` on at which `bots[i]` finds an eligible
/// leader.
pub open spec fn first_eligible(v: TrackerView, bots: Seq<SwarmBot>, i: int, from: int) -> Option<
    int,
>
    decreases bots.len() - from,
{
    if from >= bots.len() {
        None
    } else if eligible(v, bots, i, from) {
        Some(from)
    } else {
        first_eligible(v, bots, i, from + 1)
    }
}

/// The leader that `bots[i]` joins on its turn: for an agent on its own, the
/// first eligible one in the order of the snapshot (not the closest); for
/// any other agent, and for one without a record, none.
pub open spec fn swarm_up_choice(v: TrackerView, bots: Seq<SwarmBot>, i: int) -> Option<int> {
    if v.table.contains_key(bots[i].id) && v.table[bots[i].id].state == SwarmBotState::Solo {
        first_eligible(v, bots, i, 0)
    } else {
        None
    }
}

/// The state after the turn of `bots[i]`.
pub open spec fn swarm_up_step(v: TrackerView, bots: Seq<SwarmBot>, i: int) -> TrackerView {
    match swarm_up_choice(v, bots, i) {
        Some(j) => v.join(bots[i].id, bots[j].id),
        None => v,
    }
}

/// The state after the turns of the first `n` agents of the snapshot.
pub open spec fn swarm_up_upto(v: TrackerView, bots: Seq<SwarmBot>, n: int) -> TrackerView
    decreases n,
{
    if n <= 0 {
        v
    } else {
        swarm_up_step(swarm_up_upto(v, bots, n - 1), bots, n - 1)
    }
}

/// What the pass tells `bots[i]` on its turn.
pub open spec fn swarm_up_order(v: TrackerView, bots: Seq<SwarmBot>, i: int) -> Option<Join> {
    match swarm_up_choice(v, bots, i) {
        Some(j) => Some(
            Join { leader: j as usize, heading: direction(bots[i].position, bots[j].position) },
        ),
        None => None,
    }
}

/// An index into the snapshot as a mathematical integer.
pub open spec fn as_index(o: Option<usize>) -> Option<int> {
    match o {
        Some(j) => Some(j as int),
        None => None,
    }
}

/// What [`first_eligible`] finds is eligible and nothing before it is; where
/// it finds nothing, nothing is eligible.
pub proof fn lemma_first_eligible(v: TrackerView, bots: Seq<SwarmBot>, i: int, from: int)
    requires
        0 <= from,
    ensures
        match first_eligible(v, bots, i, from) {
            Some(j) => from <= j < bots.len() && eligible(v, bots, i, j) && forall|k: int|
                from <= k < j ==> !eligible(v, bots, i, k),
            None => forall|k: int| from <= k < bots.len() ==> !eligible(v, bots, i, k),
        },
    decreases bots.len() - from,
{
    if from < bots.len() && !eligible(v, bots, i, from) {
        lemma_first_eligible(v, bots, i, from + 1);
    }
}

/// A turn of the formation pass keeps the tracker valid.
pub proof fn lemma_swarm_up_step_valid(v: TrackerView, bots: Seq<SwarmBot>, i: int)
    requires
        v.valid(),
        0 <= i < bots.len(),
    ensures
        swarm_up_step(v, bots, i).valid(),
{
    if let Some(j) = swarm_up_choice(v, bots, i) {
        lemma_first_eligible(v, bots, i, 0);
        lemma_join_valid(v, bots[i].id, bots[j].id);
    }
}

/// The formation pass keeps the tracker valid.
pub proof fn lemma_swarm_up_valid(v: TrackerView, bots: Seq<SwarmBot>, n: int)
    requires
        v.valid(),
        0 <= n <= bots.len(),
    ensures
        swarm_up_upto(v, bots, n).valid(),
    decreases n,
{
    if n > 0 {
        lemma_swarm_up_valid(v, bots, n - 1);
        lemma_swarm_up_step_valid(swarm_up_upto(v, bots, n - 1), bots, n - 1);
    }
}

/// The formation pass leaves a group without its leader alone. Where `f`
/// follows a leader `l` that is gone, the pass keeps the records of the
/// followers of `l` as they are and gives the id of their group to nobody;
/// it neither adds nor removes a record.
pub proof fn lemma_swarm_up_spares_orphans(
    v: TrackerView,
    bots: Seq<SwarmBot>,
    n: int,
    l: u64,
    f: u64,
)
    requires
        v.valid(),
        0 <= n <= bots.len(),
        !v.table.contains_key(l),
        v.follows(f, l),
    ensures
        swarm_up_upto(v, bots, n).valid(),
        swarm_up_upto(v, bots, n).table.dom() == v.table.dom(),
        swarm_up_upto(v, bots, n).pool.subs.len() == v.pool.subs.len(),
        forall|x: u64| #[trigger]
            v.follows(x, l) ==> swarm_up_upto(v, bots, n).table[x] == v.table[x],
        forall|x: u64| #[trigger]
            swarm_up_upto(v, bots, n).in_group(x, v.table[f].swarm_id) ==> v.in_group(
                x,
                v.table[f].swarm_id,
            ),
    decreases n,
{
    if n > 0 {
        let u = swarm_up_upto(v, bots, n - 1);
        let w = swarm_up_upto(v, bots, n);
        let g = v.table[f].swarm_id;
        lemma_swarm_up_spares_orphans(v, bots, n - 1, l, f);
        lemma_swarm_up_step_valid(u, bots, n - 1);
        assert(w == swarm_up_step(u, bots, n - 1));
        assert(u.table[f] == v.table[f]);
        assert(u.follows(f, l));
        if let Some(j) = swarm_up_choice(u, bots, n - 1) {
            lemma_first_eligible(u, bots, n - 1, 0);
            lemma_join_spares_orphans(u, bots[n - 1].id, bots[j].id, l, f);
            assert forall|x: u64| #[trigger] v.follows(x, l) implies w.table[x] == v.table[x] by {
                assert(u.table[x] == v.table[x]);
                assert(u.follows(x, l));
            }
            assert forall|x: u64| #[trigger] w.in_group(x, g) implies v.in_group(x, g) by {
                assert(u.in_group(x, g));
            }
        }
    }
}

impl SwarmTracker {
    /// Decides [`eligible`].
    pub fn is_eligible(&self, bots: &Vec<SwarmBot>, i: usize, j: usize) -> (ok: bool)
        requires
            self.wf(),
            i < bots.len(),
            j < bots.len(),
        ensures
            ok == eligible(self@, bots@, i as int, j as int),
    {
        let a = &bots[i];
        let b = &bots[j];
        if !a.position.is_within(&b.position, a.swarm_up_distance) {
            return false;
        }
        if !a.velocity.agrees_with(&b.velocity) {
            return false;
        }
        if !self.can_join(a.id, b.id) {
            return false;
        }
        match self.get(b.id) {
            Some(rb) => match rb.leader {
                Some(l) => l != a.id,
                None => true,
            },
            None => false,
        }
    }

    /// Finds the leader that `bots[i]` joins on its turn, if any:
    /// [`swarm_up_choice`].
    pub fn scout(&self, bots: &Vec<SwarmBot>, i: usize) -> (found: Option<usize>)
        requires
            self.wf(),
            i < bots.len(),
        ensures
            as_index(found) == swarm_up_choice(self@, bots@, i as int),
    {
        let solo = match self.get(bots[i].id) {
            Some(ra) => ra.state == SwarmBotState::Solo,
            None => false,
        };
        if !solo {
            return None;
        }
        let n = bots.len();
        let mut j: usize = 0;
        while j < n
            invariant
                self.wf(),
                n == bots.len(),
                i < n,
                j <= n,
                first_eligible(self@, bots@, i as int, 0) == first_eligible(
                    self@,
                    bots@,
                    i as int,
                    j as int,
                ),
            decreases n - j,
        {
            if self.is_eligible(bots, i, j) {
                return Some(j);
            }
            j = j + 1;
        }
        None
    }

    /// The formation pass. Each agent of the snapshot that is on its own
    /// joins the first eligible leader in the order of the snapshot, if there
    /// is one: see [`eligible`] and [`TrackerView::join`].
    ///
    /// `orders[i]` names the leader that `bots[i]` has joined in this pass
    /// and the heading toward it, or is `None`. With the pool exhausted an
    /// agent can still join a group that exists; it cannot found one, and
    /// stays on its own until a later tick.
    pub fn swarm_up(&mut self, bots: &Vec<SwarmBot>) -> (orders: Vec<Option<Join>>)
        requires
            old(self).wf(),
        ensures
            final(self).wf(),
            final(self)@ == swarm_up_upto(old(self)@, bots@, bots.len() as int),
            orders.len() == bots.len(),
            forall|i: int|
                0 <= i < bots.len() ==> #[trigger] orders[i] == swarm_up_order(
                    swarm_up_upto(old(self)@, bots@, i),
                    bots@,
                    i,
                ),
    {
        let ghost start = self@;
        let n = bots.len();
        let mut orders: Vec<Option<Join>> = Vec::new();
        let mut i: usize = 0;
        while i < n
            invariant
                self.wf(),
                n == bots.len(),
                i <= n,
                self@ == swarm_up_upto(start, bots@, i as int),
                orders.len() == i,
                forall|k: int|
                    0 <= k < i ==> #[trigger] orders[k] == swarm_up_order(
                        swarm_up_upto(start, bots@, k),
                        bots@,
                        k,
                    ),
            decreases n - i,
        {
            let order = match self.scout(bots, i) {
                Some(j) => {
                    proof {
                        lemma_first_eligible(self@, bots@, i as int, 0);
                    }
                    let joined = self.join(bots[i].id, bots[j].id);
                    assert(joined);
                    Some(
                        Join {
                            leader: j,
                            heading: direction_to(&bots[i].position, &bots[j].position),
                        },
                    )
                },
                None => None,
            };
            orders.push(order);
            i = i + 1;
        }
        orders
    }
}

} // verus!
