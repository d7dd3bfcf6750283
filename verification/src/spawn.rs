//! Spawn points: where agents come from, how many at a time, and where they
//! appear.

use crate::steering::{direction, direction_to, push, pushed, stretch, stretched};
use crate::vector::{Vec3i, UNIT};
use vstd::prelude::*;

verus! {

/// A spawn point. Every `cooldown` milliseconds it releases a burst of up to
/// `burst_count` agents, as long as fewer than `limit` of its agents live.
/// `radius` is the distance from `origin` at which its agents appear.
#[derive(Clone, Copy, Debug, PartialEq, Eq)]
pub struct SwarmPoint {
    pub id: u64,
    pub origin: Vec3i,
    pub burst_count: u32,
    pub cooldown: u64,
    pub last_burst: u64,
    pub limit: u32,
    pub live_bots: u32,
    pub radius: u32,
}

/// Where a new agent appears and where it points: on the sphere of the spawn
/// point's radius, heading away from the center. `point` is the index of
/// the spawn point in the list.
#[derive(Clone, Copy, Debug, PartialEq, Eq, Structural)]
pub struct Placement {
    pub point: usize,
    pub heading: Vec3i,
    pub position: Vec3i,
}

/// `rand::rngs::ThreadRng`, the generator that draws the directions of new
/// agents. The library hands it on and knows nothing of its state.
#[verifier::external_type_specification]
#[verifier::external_body]
pub struct ExThreadRng(rand::rngs::ThreadRng);

/// Draws a number from `lo` to `hi`, both included, with
/// `rand::Rng::random_range`. That method returns a value of the range it is
/// given and panics on an empty range, which the precondition rules out;
/// nothing is claimed of which value comes. The generator reseeds itself
/// from the operating system now and then and panics where that source
/// fails, which no precondition can rule out.
#[verifier::external_body]
fn random_in(rng: &mut rand::rngs::ThreadRng, lo: i32, hi: i32) -> (r: i32)
    requires
        lo <= hi,
    ensures
        lo <= r <= hi,
{
    rand::Rng::random_range(rng, lo..=hi)
}

impl SwarmPoint {
    /// The stock spawn point: at the origin, five agents every two seconds,
    /// twenty at most, two units out.
    pub open spec fn stock(id: u64) -> SwarmPoint {
        SwarmPoint {
            id,
            origin: Vec3i { x: 0, y: 0, z: 0 },
            burst_count: 5,
            cooldown: 2_000,
            last_burst: 0,
            limit: 20,
            live_bots: 0,
            radius: 2_000,
        }
    }

    /// The time since the last burst, `dt_ms` milliseconds on.
    pub open spec fn waited(self, dt_ms: u64) -> u64 {
        if self.last_burst + dt_ms > u64::MAX {
            u64::MAX
        } else {
            (self.last_burst + dt_ms) as u64
        }
    }

    /// A burst is due `dt_ms` milliseconds on.
    pub open spec fn due(self, dt_ms: u64) -> bool {
        self.waited(dt_ms) >= self.cooldown
    }

    /// The size of a burst now: `burst_count`, or what is left below `limit`
    /// where that is less.
    pub open spec fn burst(self) -> u32 {
        let room = if self.live_bots >= self.limit {
            0
        } else {
            self.limit - self.live_bots
        };
        if room > self.burst_count {
            self.burst_count
        } else {
            room as u32
        }
    }

    /// The spawn point `dt_ms` milliseconds on. A burst that is due is
    /// released, and the wait starts anew.
    pub open spec fn released(self, dt_ms: u64) -> SwarmPoint {
        if self.due(dt_ms) {
            SwarmPoint {
                last_burst: 0,
                live_bots: (self.live_bots + self.burst()) as u32,
                ..self
            }
        } else {
            SwarmPoint { last_burst: self.waited(dt_ms), ..self }
        }
    }

    /// The spawn point after one of its agents is gone. The count does not
    /// fall below zero.
    pub open spec fn retired(self) -> SwarmPoint {
        SwarmPoint {
            live_bots: if self.live_bots == 0 {
                0
            } else {
                (self.live_bots - 1) as u32
            },
            ..self
        }
    }

    /// The heading of a new agent for the draw `(x, y, z)`: the direction of
    /// the draw from the origin, straight up for a draw of all zeros.
    pub open spec fn heading_for(x: i32, y: i32, z: i32) -> Vec3i {
        direction(Vec3i { x: 0, y: 0, z: 0 }, Vec3i { x, y, z })
    }

    /// Where the spawn point puts a new agent for the draw `(x, y, z)`: at
    /// the distance `radius` from `origin`, in the direction of the draw.
    pub open spec fn placed(self, x: i32, y: i32, z: i32) -> Vec3i {
        pushed(self.origin, stretched(SwarmPoint::heading_for(x, y, z), self.radius))
    }

    /// Computes [`SwarmPoint::heading_for`] and [`SwarmPoint::placed`].
    pub fn place(&self, x: i32, y: i32, z: i32) -> (at: (Vec3i, Vec3i))
        ensures
            at.0 == SwarmPoint::heading_for(x, y, z),
            at.1 == self.placed(x, y, z),
    {
        let heading = direction_to(&Vec3i::zero(), &Vec3i::new(x, y, z));
        let position = push(&self.origin, &stretch(&heading, self.radius));
        (heading, position)
    }

    /// Makes [`SwarmPoint::stock`].
    pub fn new(id: u64) -> (p: SwarmPoint)
        ensures
            p == SwarmPoint::stock(id),
    {
        SwarmPoint {
            id,
            origin: Vec3i::zero(),
            burst_count: 5,
            cooldown: 2_000,
            last_burst: 0,
            limit: 20,
            live_bots: 0,
            radius: 2_000,
        }
    }

    /// Where the spawn point is.
    pub fn xyz(&self) -> (v: Vec3i)
        ensures
            v == self.origin,
    {
        self.origin
    }

    /// Lets `dt_ms` milliseconds pass and says how many agents to spawn now:
    /// [`SwarmPoint::released`].
    pub fn release(&mut self, dt_ms: u64) -> (count: u32)
        ensures
            *final(self) == old(self).released(dt_ms),
            count == if old(self).due(dt_ms) {
                old(self).burst()
            } else {
                0
            },
            old(self).live_bots <= old(self).limit ==> final(self).live_bots <= final(self).limit,
    {
        let waited: u64 = if dt_ms > u64::MAX - self.last_burst {
            u64::MAX
        } else {
            self.last_burst + dt_ms
        };
        if waited < self.cooldown {
            self.last_burst = waited;
            return 0;
        }
        let room: u32 = if self.live_bots >= self.limit {
            0
        } else {
            self.limit - self.live_bots
        };
        let count: u32 = if room > self.burst_count {
            self.burst_count
        } else {
            room
        };
        self.last_burst = 0;
        self.live_bots = self.live_bots + count;
        count
    }

    /// Takes note that one of the agents is gone: [`SwarmPoint::retired`].
    pub fn retire(&mut self)
        ensures
            *final(self) == old(self).retired(),
    {
        if self.live_bots > 0 {
            self.live_bots = self.live_bots - 1;
        }
    }
}

impl Default for SwarmPoint {
    /// The stock spawn point with handle `0`.
    fn default() -> (p: SwarmPoint)
        ensures
            p == SwarmPoint::stock(0),
    {
        SwarmPoint::new(0)
    }
}

/// The first index from `from` on at which the list holds the spawn point
/// `id`.
pub open spec fn first_point(points: Seq<SwarmPoint>, id: u64, from: int) -> Option<int>
    decreases points.len() - from,
{
    if from >= points.len() {
        None
    } else if points[from].id == id {
        Some(from)
    } else {
        first_point(points, id, from + 1)
    }
}

/// What [`first_point`] finds holds `id` and nothing before it does; where
/// it finds nothing, the list does not hold `id` from `from` on.
pub proof fn lemma_first_point(points: Seq<SwarmPoint>, id: u64, from: int)
    requires
        0 <= from,
    ensures
        match first_point(points, id, from) {
            Some(j) => from <= j < points.len() && points[j].id == id && forall|k: int|
                from <= k < j ==> points[k].id != id,
            None => forall|k: int| from <= k < points.len() ==> points[k].id != id,
        },
    decreases points.len() - from,
{
    if from < points.len() && points[from].id != id {
        lemma_first_point(points, id, from + 1);
    }
}

/// Finds the first place of the spawn point `id` in the list:
/// [`first_point`].
pub fn locate_point(points: &Vec<SwarmPoint>, id: u64) -> (found: Option<usize>)
    ensures
        match found {
            Some(j) => first_point(points@, id, 0) == Some(j as int),
            None => first_point(points@, id, 0) is None,
        },
{
    let n = points.len();
    let mut j: usize = 0;
    while j < n
        invariant
            n == points.len(),
            j <= n,
            first_point(points@, id, 0) == first_point(points@, id, j as int),
        decreases n - j,
    {
        if points[j].id == id {
            return Some(j);
        }
        j = j + 1;
    }
    None
}

/// `p` is a placement that `point`, at index `i` of the list, can make: the
/// one for some draw with each coordinate between minus one unit and one
/// unit.
pub open spec fn placement_of(point: SwarmPoint, i: int, p: Placement) -> bool {
    exists|x: i32, y: i32, z: i32|
        {
            &&& -UNIT <= x <= UNIT
            &&& -UNIT <= y <= UNIT
            &&& -UNIT <= z <= UNIT
            &&& p.point == i
            &&& p.heading == SwarmPoint::heading_for(x, y, z)
            &&& p.position == #[trigger] point.placed(x, y, z)
        }
}

/// The number of agents that the first `n` spawn points release now.
pub open spec fn bursts_upto(points: Seq<SwarmPoint>, dt_ms: u64, n: int) -> int
    decreases n,
{
    if n <= 0 {
        0
    } else {
        bursts_upto(points, dt_ms, n - 1) + if points[n - 1].due(dt_ms) {
            points[n - 1].burst() as int
        } else {
            0
        }
    }
}

/// Lets `dt_ms` milliseconds pass at every spawn point and places the agents
/// of the bursts that are due, each in a direction drawn at random. The
/// caller spawns an agent at each placement and registers it with the
/// tracker.
///
/// The placements come spawn point by spawn point, in the order of the
/// list, as many for each as its burst holds: those of `points[i]` stand
/// from index `bursts_upto(.., i)` to below index `bursts_upto(.., i + 1)`.
pub fn release_bots(
    points: &mut Vec<SwarmPoint>,
    dt_ms: u64,
    rng: &mut rand::rngs::ThreadRng,
) -> (placements: Vec<Placement>)
    ensures
        final(points).len() == old(points).len(),
        forall|i: int|
            0 <= i < old(points).len() ==> #[trigger] final(points)[i] == old(points)[i].released(
                dt_ms,
            ),
        placements.len() == bursts_upto(old(points)@, dt_ms, old(points).len() as int),
        forall|k: int|
            0 <= k < placements.len() ==> 0 <= (#[trigger] placements[k]).point < old(
                points,
            ).len() && placement_of(
                old(points)[placements[k].point as int],
                placements[k].point as int,
                placements[k],
            ),
        forall|k: int|
            0 <= k < placements.len() ==> bursts_upto(
                old(points)@,
                dt_ms,
                (#[trigger] placements[k]).point as int,
            ) <= k < bursts_upto(old(points)@, dt_ms, placements[k].point + 1),
{
    let n = points.len();
    let mut placements: Vec<Placement> = Vec::new();
    let mut i: usize = 0;
    while i < n
        invariant
            n == points.len(),
            n == old(points).len(),
            i <= n,
            forall|k: int| 0 <= k < i ==> #[trigger] points[k] == old(points)[k].released(dt_ms),
            forall|k: int| i <= k < n ==> #[trigger] points[k] == old(points)[k],
            placements.len() == bursts_upto(old(points)@, dt_ms, i as int),
            forall|k: int|
                0 <= k < placements.len() ==> 0 <= (#[trigger] placements[k]).point < i
                    && placement_of(
                    old(points)[placements[k].point as int],
                    placements[k].point as int,
                    placements[k],
                ),
            forall|k: int|
                0 <= k < placements.len() ==> bursts_upto(
                    old(points)@,
                    dt_ms,
                    (#[trigger] placements[k]).point as int,
                ) <= k < bursts_upto(old(points)@, dt_ms, placements[k].point + 1),
        decreases n - i,
    {
        let mut point = points[i];
        let ghost before = point;
        let count = point.release(dt_ms);
        points.set(i, point);
        let ghost start = placements.len();
        let mut c: u32 = 0;
        while c < count
            invariant
                c <= count,
                i < n,
                n == old(points).len(),
                before == old(points)[i as int],
                point.origin == before.origin,
                point.radius == before.radius,
                placements.len() == start + c,
                forall|k: int|
                    0 <= k < placements.len() ==> 0 <= (#[trigger] placements[k]).point <= i
                        && placement_of(
                        old(points)[placements[k].point as int],
                        placements[k].point as int,
                        placements[k],
                    ),
                start == bursts_upto(old(points)@, dt_ms, i as int),
                start + count == bursts_upto(old(points)@, dt_ms, i + 1),
                forall|k: int|
                    0 <= k < placements.len() ==> bursts_upto(
                        old(points)@,
                        dt_ms,
                        (#[trigger] placements[k]).point as int,
                    ) <= k < bursts_upto(old(points)@, dt_ms, placements[k].point + 1),
            decreases count - c,
        {
            let x = random_in(rng, -(UNIT as i32), UNIT as i32);
            let y = random_in(rng, -(UNIT as i32), UNIT as i32);
            let z = random_in(rng, -(UNIT as i32), UNIT as i32);
            let (heading, position) = point.place(x, y, z);
            let placement = Placement { point: i, heading, position };
            assert(placement.position == before.placed(x, y, z));
            assert(placement_of(before, i as int, placement));
            placements.push(placement);
            c = c + 1;
        }
        i = i + 1;
    }
    placements
}

} // verus!
