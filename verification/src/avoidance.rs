//! Local avoidance: every pair of agents is checked once for its spacing.

use crate::bot::SwarmBot;
use crate::steering::{
    along, damp, damp_along, lemma_damp_repels, lemma_pull_bounded, pull, pull_toward,
};
use crate::vector::Vec3i;
use vstd::prelude::*;

verus! {

/// The correction that the spacing of a pair calls for.
#[derive(Clone, Copy, Debug, PartialEq, Eq, Structural)]
pub enum Spacing {
    /// Closer than the minimum: the agent is pushed away from the other, by
    /// as much as it closes in on it.
    Repel,
    /// At least the minimum apart, but closer than the maximum: a weak pull
    /// toward the other that keeps a loose group together.
    Cohere,
}

/// A correction for the agent at index `bot` of the snapshot, on account of
/// the agent at index `other`: the band that their spacing falls in, and the
/// push that it calls for.
#[derive(Clone, Copy, Debug, PartialEq, Eq, Structural)]
pub struct Avoidance {
    pub bot: usize,
    pub other: usize,
    pub kind: Spacing,
    pub push: Vec3i,
}

/// The correction that `a` owes to its spacing from `b`, by the distances
/// that `a` keeps: `Repel` below `swarm_spacing_min`, `Cohere` from there to
/// below `swarm_spacing_max`, none from there on. Two agents at the same
/// point have no line between them and get none.
pub open spec fn spacing_between(a: SwarmBot, b: SwarmBot) -> Option<Spacing> {
    if a.position.dist_sq(b.position) == 0 {
        None
    } else if a.position.closer_than(b.position, a.swarm_spacing_min) {
        Some(Spacing::Repel)
    } else if a.position.closer_than(b.position, a.swarm_spacing_max) {
        Some(Spacing::Cohere)
    } else {
        None
    }
}

/// The push that `a` gets for its spacing from `b` in a tick of `dt_ms`
/// milliseconds. `Repel` points away from `b` and takes from the velocity of
/// `a` the part with which it closes in on `b`; `Cohere` pulls toward `b`
/// with the size that the agent's `cohere_thrust` gives in the tick.
pub open spec fn spacing_push(a: SwarmBot, b: SwarmBot, kind: Spacing, dt_ms: u32) -> Vec3i {
    match kind {
        Spacing::Repel => damp(a.velocity, a.position, b.position),
        Spacing::Cohere => pull(a.position, b.position, a.cohere_thrust, dt_ms),
    }
}

/// The corrections for `bots[i]` on account of the agents after it and
/// before index `end`, in rising order of their index.
pub open spec fn avoidance_row(bots: Seq<SwarmBot>, i: int, end: int, dt_ms: u32) -> Seq<
    Avoidance,
>
    decreases end - i,
{
    if end <= i + 1 {
        Seq::empty()
    } else {
        let before = avoidance_row(bots, i, end - 1, dt_ms);
        match spacing_between(bots[i], bots[end - 1]) {
            Some(kind) => before.push(
                Avoidance {
                    bot: i as usize,
                    other: (end - 1) as usize,
                    kind,
                    push: spacing_push(bots[i], bots[end - 1], kind, dt_ms),
                },
            ),
            None => before,
        }
    }
}

/// The corrections for the first `n` agents, each on account of the agents
/// after it in the snapshot: every pair is looked at once, and only its
/// first agent is corrected.
pub open spec fn avoidance_rows(bots: Seq<SwarmBot>, n: int, dt_ms: u32) -> Seq<Avoidance>
    decreases n,
{
    if n <= 0 {
        Seq::empty()
    } else {
        avoidance_rows(bots, n - 1, dt_ms) + avoidance_row(
            bots,
            n - 1,
            bots.len() as int,
            dt_ms,
        )
    }
}

/// A `Repel` push has no part toward the other agent, and a `Cohere` push
/// has no part away from it.
pub proof fn lemma_spacing_push_direction(a: SwarmBot, b: SwarmBot, dt_ms: u32)
    ensures
        along(spacing_push(a, b, Spacing::Repel, dt_ms), a.position, b.position) <= 0,
        along(spacing_push(a, b, Spacing::Cohere, dt_ms), a.position, b.position) >= 0,
{
    lemma_damp_repels(a.velocity, a.position, b.position);
    lemma_pull_bounded(a.position, b.position, a.cohere_thrust, dt_ms);
    let p = spacing_push(a, b, Spacing::Cohere, dt_ms);
    let dx = b.position.x - a.position.x;
    let dy = b.position.y - a.position.y;
    let dz = b.position.z - a.position.z;
    assert(p.x * dx >= 0 && p.y * dy >= 0 && p.z * dz >= 0) by (nonlinear_arith)
        requires
            dx >= 0 ==> p.x >= 0,
            dx <= 0 ==> p.x <= 0,
            dy >= 0 ==> p.y >= 0,
            dy <= 0 ==> p.y <= 0,
            dz >= 0 ==> p.z >= 0,
            dz <= 0 ==> p.z <= 0,
    ;
}

/// The correction `o` fits its pair: it is for an agent of the snapshot on
/// account of a later one, in the band that their spacing falls in, with
/// the push of that band; and the push has no part toward the other agent
/// in the band `Repel` and no part away from it in the band `Cohere`.
pub open spec fn order_fits(bots: Seq<SwarmBot>, o: Avoidance, dt_ms: u32) -> bool {
    &&& o.bot < o.other < bots.len()
    &&& spacing_between(bots[o.bot as int], bots[o.other as int]) == Some(o.kind)
    &&& o.push == spacing_push(bots[o.bot as int], bots[o.other as int], o.kind, dt_ms)
    &&& o.kind == Spacing::Repel ==> along(
        o.push,
        bots[o.bot as int].position,
        bots[o.other as int].position,
    ) <= 0
    &&& o.kind == Spacing::Cohere ==> along(
        o.push,
        bots[o.bot as int].position,
        bots[o.other as int].position,
    ) >= 0
}

/// Every correction of a row fits its pair.
pub proof fn lemma_avoidance_row_fits(bots: Seq<SwarmBot>, i: int, end: int, dt_ms: u32, k: int)
    requires
        0 <= i,
        end <= bots.len() <= usize::MAX,
        0 <= k < avoidance_row(bots, i, end, dt_ms).len(),
    ensures
        order_fits(bots, avoidance_row(bots, i, end, dt_ms)[k], dt_ms),
        avoidance_row(bots, i, end, dt_ms)[k].bot == i,
        avoidance_row(bots, i, end, dt_ms)[k].other < end,
    decreases end - i,
{
    if end > i + 1 {
        let before = avoidance_row(bots, i, end - 1, dt_ms);
        if k < before.len() {
            lemma_avoidance_row_fits(bots, i, end - 1, dt_ms, k);
        } else {
            lemma_spacing_push_direction(bots[i], bots[end - 1], dt_ms);
        }
    }
}

/// Every correction of the pass fits its pair: it is for the first agent of
/// a pair whose spacing falls in a band, and its push has no part toward
/// the other agent below the minimum spacing and no part away from it
/// above.
pub proof fn lemma_avoidance_fits(bots: Seq<SwarmBot>, n: int, dt_ms: u32, k: int)
    requires
        0 <= n <= bots.len() <= usize::MAX,
        0 <= k < avoidance_rows(bots, n, dt_ms).len(),
    ensures
        order_fits(bots, avoidance_rows(bots, n, dt_ms)[k], dt_ms),
    decreases n,
{
    if n > 0 {
        let before = avoidance_rows(bots, n - 1, dt_ms);
        if k < before.len() {
            lemma_avoidance_fits(bots, n - 1, dt_ms, k);
        } else {
            lemma_avoidance_row_fits(bots, n - 1, bots.len() as int, dt_ms, k - before.len());
        }
    }
}

/// Computes [`spacing_between`].
pub fn spacing(a: &SwarmBot, b: &SwarmBot) -> (s: Option<Spacing>)
    ensures
        s == spacing_between(*a, *b),
{
    if a.position.distance_sq(&b.position) == 0 {
        None
    } else if a.position.is_closer_than(&b.position, a.swarm_spacing_min) {
        Some(Spacing::Repel)
    } else if a.position.is_closer_than(&b.position, a.swarm_spacing_max) {
        Some(Spacing::Cohere)
    } else {
        None
    }
}

/// Computes [`spacing_push`].
pub fn push_for(a: &SwarmBot, b: &SwarmBot, kind: Spacing, dt_ms: u32) -> (p: Vec3i)
    ensures
        p == spacing_push(*a, *b, kind, dt_ms),
{
    match kind {
        Spacing::Repel => damp_along(&a.velocity, &a.position, &b.position),
        Spacing::Cohere => pull_toward(&a.position, &b.position, a.cohere_thrust, dt_ms),
    }
}

/// The avoidance pass: the corrections that the spacing of the agents calls
/// for in a tick of `dt_ms` milliseconds, pair by pair in the order of the
/// snapshot. Every push is computed from the snapshot; the caller adds them
/// to the velocities once the pass is over.
pub fn avoidance(bots: &Vec<SwarmBot>, dt_ms: u32) -> (orders: Vec<Avoidance>)
    ensures
        orders@ == avoidance_rows(bots@, bots.len() as int, dt_ms),
        forall|k: int| 0 <= k < orders.len() ==> order_fits(bots@, #[trigger] orders[k], dt_ms),
{
    let n = bots.len();
    let mut orders: Vec<Avoidance> = Vec::new();
    let mut i: usize = 0;
    while i < n
        invariant
            n == bots.len(),
            i <= n,
            orders@ == avoidance_rows(bots@, i as int, dt_ms),
        decreases n - i,
    {
        let ghost done = orders@;
        let mut j: usize = i + 1;
        while j < n
            invariant
                n == bots.len(),
                i < n,
                i < j <= n,
                orders@ == done + avoidance_row(bots@, i as int, j as int, dt_ms),
            decreases n - j,
        {
            match spacing(&bots[i], &bots[j]) {
                Some(kind) => {
                    let push = push_for(&bots[i], &bots[j], kind, dt_ms);
                    orders.push(Avoidance { bot: i, other: j, kind, push });
                },
                None => {},
            }
            j = j + 1;
        }
        i = i + 1;
    }
    proof {
        assert forall|k: int| 0 <= k < orders.len() implies order_fits(
            bots@,
            #[trigger] orders[k],
            dt_ms,
        ) by {
            lemma_avoidance_fits(bots@, n as int, dt_ms, k);
        }
    }
    orders
}

} // verus!
