//! Teardown: the dead agents leave the simulation.

use crate::bot::SwarmBot;
use crate::model::{lemma_depart_valid, TrackerView};
use crate::spawn::{first_point, lemma_first_point, locate_point, SwarmPoint};
use crate::tracker::SwarmTracker;
use vstd::prelude::*;

verus! {

/// The tracker after the turn of `bot`: a dead agent with a record departs
/// ([`TrackerView::depart`]).
pub open spec fn depart_step(v: TrackerView, bot: SwarmBot) -> TrackerView {
    if !bot.is_alive && v.table.contains_key(bot.id) {
        v.depart(bot.id)
    } else {
        v
    }
}

/// The tracker after the turns of the first `n` agents of the snapshot.
pub open spec fn depart_upto(v: TrackerView, bots: Seq<SwarmBot>, n: int) -> TrackerView
    decreases n,
{
    if n <= 0 {
        v
    } else {
        depart_step(depart_upto(v, bots, n - 1), bots[n - 1])
    }
}

/// The spawn points after the turn of `bot`: the first spawn point with the
/// handle that a dead agent names takes note that the agent is gone.
pub open spec fn retire_step(points: Seq<SwarmPoint>, bot: SwarmBot) -> Seq<SwarmPoint> {
    if bot.is_alive {
        points
    } else {
        match bot.swarm_point {
            Some(p) => match first_point(points, p, 0) {
                Some(k) => points.update(k, points[k].retired()),
                None => points,
            },
            None => points,
        }
    }
}

/// The spawn points after the turns of the first `n` agents of the snapshot.
pub open spec fn retire_upto(points: Seq<SwarmPoint>, bots: Seq<SwarmBot>, n: int) -> Seq<
    SwarmPoint,
>
    decreases n,
{
    if n <= 0 {
        points
    } else {
        retire_step(retire_upto(points, bots, n - 1), bots[n - 1])
    }
}

/// The indices of the dead among the first `n` agents, in rising order.
pub open spec fn dead_upto(bots: Seq<SwarmBot>, n: int) -> Seq<usize>
    decreases n,
{
    if n <= 0 {
        Seq::empty()
    } else if bots[n - 1].is_alive {
        dead_upto(bots, n - 1)
    } else {
        dead_upto(bots, n - 1).push((n - 1) as usize)
    }
}

/// Teardown keeps the tracker valid and adds no record, and when it is over
/// none of the dead agents that had a turn has a record.
pub proof fn lemma_depart_upto(v: TrackerView, bots: Seq<SwarmBot>, n: int)
    requires
        v.valid(),
        0 <= n <= bots.len(),
    ensures
        depart_upto(v, bots, n).valid(),
        depart_upto(v, bots, n).table.dom().subset_of(v.table.dom()),
        forall|k: int|
            0 <= k < n && !bots[k].is_alive ==> !depart_upto(v, bots, n).table.contains_key(
                #[trigger] bots[k].id,
            ),
    decreases n,
{
    if n > 0 {
        let u = depart_upto(v, bots, n - 1);
        lemma_depart_upto(v, bots, n - 1);
        let w = depart_upto(v, bots, n);
        assert(w == depart_step(u, bots[n - 1]));
        if !bots[n - 1].is_alive && u.table.contains_key(bots[n - 1].id) {
            lemma_depart_valid(u, bots[n - 1].id);
        }
        assert(w.table.dom().subset_of(u.table.dom()));
    }
}

impl SwarmTracker {
    /// Teardown. Each dead agent of the snapshot, in order: its spawn point
    /// counts one live agent fewer, and its record leaves the tracker
    /// ([`TrackerView::depart`]): its group has one subscriber fewer, and
    /// the leader it followed one follower fewer. Nothing is done for the
    /// followers of a dead leader: each heals itself in the next cohesion
    /// pass.
    ///
    /// The result lists the dead by their index in the snapshot, for the
    /// caller to remove from the scene.
    pub fn despawn_swarm_bots(
        &mut self,
        bots: &Vec<SwarmBot>,
        points: &mut Vec<SwarmPoint>,
    ) -> (dead: Vec<usize>)
        requires
            old(self).wf(),
        ensures
            final(self).wf(),
            final(self)@ == depart_upto(old(self)@, bots@, bots.len() as int),
            final(points)@ == retire_upto(old(points)@, bots@, bots.len() as int),
            dead@ == dead_upto(bots@, bots.len() as int),
            final(self)@.table.dom().subset_of(old(self)@.table.dom()),
            forall|i: int|
                0 <= i < bots.len() && !bots[i].is_alive ==> !final(self)@.table.contains_key(
                    #[trigger] bots[i].id,
                ),
    {
        let ghost start = self@;
        let ghost start_points = points@;
        proof {
            self.lemma_wf_valid();
        }
        let n = bots.len();
        let mut dead: Vec<usize> = Vec::new();
        let mut i: usize = 0;
        while i < n
            invariant
                self.wf(),
                start.valid(),
                n == bots.len(),
                i <= n,
                self@ == depart_upto(start, bots@, i as int),
                points@ == retire_upto(start_points, bots@, i as int),
                dead@ == dead_upto(bots@, i as int),
            decreases n - i,
        {
            let bot = &bots[i];
            if !bot.is_alive {
                match bot.swarm_point {
                    Some(p) => {
                        match locate_point(points, p) {
                            Some(k) => {
                                proof {
                                    lemma_first_point(points@, p, 0);
                                }
                                let mut point = points[k];
                                point.retire();
                                points.set(k, point);
                            },
                            None => {},
                        }
                    },
                    None => {},
                }
                let _ = self.remove(bot.id);
                dead.push(i);
            }
            i = i + 1;
        }
        proof {
            lemma_depart_upto(start, bots@, n as int);
        }
        dead
    }
}

} // verus!
