//! Collision detection between spheres and points.

use crate::damage::{CollisionDamage, CollisionEvents};
use crate::vector::Vec3i;
use vstd::prelude::*;

verus! {

/// The shape of an object, placed in the world.
#[derive(Clone, Copy, Debug, PartialEq, Eq)]
pub enum Collider {
    Sphere { center: Vec3i, radius: u32 },
    Point { center: Vec3i },
}

/// An object that can collide: its handle, its shape, and the damage that it
/// deals to what it hits, if it deals any.
#[derive(Clone, Copy, Debug, PartialEq, Eq)]
pub struct ColliderInfo {
    pub id: u64,
    pub collider: Collider,
    pub damage: Option<CollisionDamage>,
}

impl Collider {
    /// Where the shape is.
    pub open spec fn center_of(self) -> Vec3i {
        match self {
            Collider::Sphere { center, .. } => center,
            Collider::Point { center } => center,
        }
    }

    /// How far the shape reaches from its center: nowhere, for a point.
    pub open spec fn reach(self) -> u32 {
        match self {
            Collider::Sphere { radius, .. } => radius,
            Collider::Point { .. } => 0,
        }
    }

    /// The two shapes touch or overlap: their centers are no farther apart
    /// than the two reach together. Two points collide where they coincide.
    pub open spec fn collides(self, other: Collider) -> bool {
        self.center_of().dist_sq(other.center_of()) <= (self.reach() + other.reach()) * (
        self.reach() + other.reach())
    }

    /// Computes [`Collider::center_of`].
    pub fn get_center(&self) -> (c: Vec3i)
        ensures
            c == self.center_of(),
    {
        match self {
            Collider::Sphere { center, .. } => *center,
            Collider::Point { center } => *center,
        }
    }

    /// The radius of a sphere; a point has none.
    pub fn get_radius(&self) -> (r: Option<u32>)
        ensures
            r == match *self {
                Collider::Sphere { radius, .. } => Some(radius),
                Collider::Point { .. } => None::<u32>,
            },
    {
        match self {
            Collider::Sphere { radius, .. } => Some(*radius),
            Collider::Point { .. } => None,
        }
    }

    /// Moves the shape to `c`.
    pub fn set_center(&mut self, c: Vec3i)
        ensures
            final(self).center_of() == c,
            final(self).reach() == old(self).reach(),
            *final(self) is Sphere <==> *old(self) is Sphere,
    {
        let moved = match self {
            Collider::Sphere { radius, .. } => Collider::Sphere { center: c, radius: *radius },
            Collider::Point { .. } => Collider::Point { center: c },
        };
        *self = moved;
    }

    /// Decides [`Collider::collides`].
    pub fn check_collision(&self, other: &Collider) -> (hit: bool)
        ensures
            hit == self.collides(*other),
    {
        let r1: u32 = match self {
            Collider::Sphere { radius, .. } => *radius,
            Collider::Point { .. } => 0,
        };
        let r2: u32 = match other {
            Collider::Sphere { radius, .. } => *radius,
            Collider::Point { .. } => 0,
        };
        let sum: u128 = r1 as u128 + r2 as u128;
        assert(sum * sum <= 0x2_0000_0000 * 0x2_0000_0000) by (nonlinear_arith)
            requires
                sum <= 0x2_0000_0000,
        ;
        let c1 = self.get_center();
        let c2 = other.get_center();
        c1.distance_sq(&c2) <= sum * sum
    }
}

/// The events that a collision of `a` and `b` raises: each of the two that
/// deals damage deals it to the other, `a` first.
pub open spec fn events_of(a: ColliderInfo, b: ColliderInfo) -> Seq<CollisionEvents> {
    let first = match a.damage {
        Some(d) => seq![CollisionEvents::TakeDamage(b.id, d, a.id)],
        None => Seq::empty(),
    };
    let second = match b.damage {
        Some(d) => seq![CollisionEvents::TakeDamage(a.id, d, b.id)],
        None => Seq::empty(),
    };
    if a.collider.collides(b.collider) {
        first + second
    } else {
        Seq::empty()
    }
}

/// The events of `objects[i]` with the objects after it and before index
/// `end`, in rising order of their index.
pub open spec fn collision_row(objects: Seq<ColliderInfo>, i: int, end: int) -> Seq<
    CollisionEvents,
>
    decreases end - i,
{
    if end <= i + 1 {
        Seq::empty()
    } else {
        collision_row(objects, i, end - 1) + events_of(objects[i], objects[end - 1])
    }
}

/// The events of the first `n` objects, each with the objects after it.
pub open spec fn collision_rows(objects: Seq<ColliderInfo>, n: int) -> Seq<CollisionEvents>
    decreases n,
{
    if n <= 0 {
        Seq::empty()
    } else {
        collision_rows(objects, n - 1) + collision_row(objects, n - 1, objects.len() as int)
    }
}

/// Collision detection: every pair of objects is checked once, in the order
/// of the list, and the events of the pairs that collide are raised in that
/// order.
pub fn detect_collisions(objects: &Vec<ColliderInfo>) -> (events: Vec<CollisionEvents>)
    ensures
        events@ == collision_rows(objects@, objects.len() as int),
{
    let n = objects.len();
    let mut events: Vec<CollisionEvents> = Vec::new();
    let mut i: usize = 0;
    while i < n
        invariant
            n == objects.len(),
            i <= n,
            events@ == collision_rows(objects@, i as int),
        decreases n - i,
    {
        let ghost done = events@;
        let mut j: usize = i + 1;
        while j < n
            invariant
                n == objects.len(),
                i < n,
                i < j <= n,
                events@ == done + collision_row(objects@, i as int, j as int),
            decreases n - j,
        {
            let a = &objects[i];
            let b = &objects[j];
            let ghost before = events@;
            if a.collider.check_collision(&b.collider) {
                match a.damage {
                    Some(d) => {
                        events.push(CollisionEvents::TakeDamage(b.id, d, a.id));
                    },
                    None => {},
                }
                match b.damage {
                    Some(d) => {
                        events.push(CollisionEvents::TakeDamage(a.id, d, b.id));
                    },
                    None => {},
                }
            }
            assert(events@ =~= before + events_of(*a, *b));
            assert(done + collision_row(objects@, i as int, j as int) + events_of(*a, *b) =~= done
                + (collision_row(objects@, i as int, j as int) + events_of(*a, *b)));
            j = j + 1;
        }
        i = i + 1;
    }
    events
}

} // verus!
