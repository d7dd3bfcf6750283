//! Swarm coordination engine.
//!
//! A population of autonomous agents organises itself, from pairwise local
//! information alone, into groups of one leader and a bounded number of
//! followers. The groups keep formation, repair themselves when their leader
//! is lost, and hand their group id back when their last member is gone.
//!
//! The engine decides and the caller moves: once per tick the caller hands
//! the passes a snapshot of the agents and gets back the changes of
//! membership, committed in the [`tracker::SwarmTracker`], and the orders
//! that turn into motion. [`pipeline`] runs the passes in their fixed order.
//!
//! All quantities are integers. Lengths are in fixed-point steps of a
//! thousandth of a world unit ([`vector::UNIT`]), times in milliseconds,
//! velocities in steps per second and accelerations in steps per second per
//! second. Agents and spawn points go by 64-bit handles that the caller
//! chooses and never reuses while an agent lives.
//!
//! [`model`] holds the invariant that every tracker keeps, and [`laws`] what
//! follows from it: bounded fan-out, hierarchies one level deep, one id per
//! group, no use of an id after its release, and self-healing within a
//! tick.

pub mod avoidance;
pub mod bot;
pub mod cohesion;
pub mod collider;
pub mod damage;
pub mod data;
pub mod formation;
pub mod laws;
pub mod model;
pub mod pipeline;
pub mod pool;
pub mod spawn;
pub mod steering;
pub mod target;
pub mod teardown;
pub mod tracker;
pub mod vector;

pub use avoidance::{Avoidance, Spacing};
pub use bot::{SwarmBot, TargetVicinity};
pub use cohesion::Cohesion;
pub use collider::{Collider, ColliderInfo};
pub use damage::{CollisionDamage, CollisionEvents, DamageOutcome};
pub use data::{Role, SwarmBotState, SwarmData};
pub use pipeline::{TickLosses, TickOrders};
pub use pool::{PoolError, SwarmIdPool};
pub use spawn::SwarmPoint;
pub use target::TargetFix;
pub use tracker::SwarmTracker;
pub use vector::Vec3i;
