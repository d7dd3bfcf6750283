//! Damage: what a collision does to an agent.

use crate::bot::{first_with_id, lemma_first_with_id, locate, SwarmBot};
use vstd::prelude::*;

verus! {

/// The damage that a collision deals, and the agent that caused it, if any.
#[derive(Clone, Copy, Debug, PartialEq, Eq)]
pub struct CollisionDamage {
    pub damage: u32,
    pub from: Option<u64>,
}

/// What the collision detector reports.
#[derive(Clone, Copy, Debug, PartialEq, Eq)]
pub enum CollisionEvents {
    /// The victim, the damage it is dealt, and the object it collided with.
    TakeDamage(u64, CollisionDamage, u64),
}

/// What a damage event did to its victim.
#[derive(Clone, Copy, Debug, PartialEq, Eq, Structural)]
pub enum DamageOutcome {
    /// Nothing: the victim caused the damage itself, is immune to its
    /// source, or was dead already.
    Ignored,
    /// The victim lost health and lives.
    Hit,
    /// The victim lost the last of its health.
    Destroyed,
    /// The victim lost the last of its health and blows up.
    Exploded,
}

/// The damage `d` takes effect on `bot`: the agent is alive, did not cause
/// the damage itself, and is not immune to its source. Damage without a
/// source always takes effect on a live agent.
pub open spec fn damage_applies(bot: SwarmBot, d: CollisionDamage, immune_to: Seq<u64>) -> bool {
    &&& bot.is_alive
    &&& match d.from {
        Some(source) => source != bot.id && !immune_to.contains(source),
        None => true,
    }
}

/// The health that `damage` leaves of `health`.
pub open spec fn health_after(health: u32, damage: u32) -> u32 {
    if damage >= health {
        0
    } else {
        (health - damage) as u32
    }
}

/// The agent after the damage `d`. Where the damage takes effect, it comes
/// off the agent's health, and an agent without health is dead.
pub open spec fn damaged(bot: SwarmBot, d: CollisionDamage, immune_to: Seq<u64>) -> SwarmBot {
    if damage_applies(bot, d, immune_to) {
        SwarmBot {
            health: health_after(bot.health, d.damage),
            is_alive: health_after(bot.health, d.damage) > 0,
            ..bot
        }
    } else {
        bot
    }
}

/// What the damage `d` does to `bot`.
pub open spec fn outcome_of(
    bot: SwarmBot,
    d: CollisionDamage,
    immune_to: Seq<u64>,
) -> DamageOutcome {
    if !damage_applies(bot, d, immune_to) {
        DamageOutcome::Ignored
    } else if health_after(bot.health, d.damage) > 0 {
        DamageOutcome::Hit
    } else if bot.explosible {
        DamageOutcome::Exploded
    } else {
        DamageOutcome::Destroyed
    }
}

/// The immunity list of the agent at index `i`: the `i`-th of the lists, or
/// the empty list where there are fewer.
pub open spec fn immunity(lists: Seq<Vec<u64>>, i: int) -> Seq<u64> {
    if 0 <= i < lists.len() {
        lists[i]@
    } else {
        Seq::empty()
    }
}

/// The agents after one event: the first agent of the snapshot with the
/// victim's handle takes the damage; without such an agent nothing happens.
pub open spec fn respond_step(
    bots: Seq<SwarmBot>,
    lists: Seq<Vec<u64>>,
    event: CollisionEvents,
) -> Seq<SwarmBot> {
    match event {
        CollisionEvents::TakeDamage(victim, d, _) => match first_with_id(bots, victim, 0) {
            Some(i) => bots.update(i, damaged(bots[i], d, immunity(lists, i))),
            None => bots,
        },
    }
}

/// The agents after the first `n` events, in order.
pub open spec fn respond_upto(
    bots: Seq<SwarmBot>,
    lists: Seq<Vec<u64>>,
    events: Seq<CollisionEvents>,
    n: int,
) -> Seq<SwarmBot>
    decreases n,
{
    if n <= 0 {
        bots
    } else {
        respond_step(respond_upto(bots, lists, events, n - 1), lists, events[n - 1])
    }
}

/// The index of the agent that the event `event` blows up, if it does.
pub open spec fn explosion_of(
    bots: Seq<SwarmBot>,
    lists: Seq<Vec<u64>>,
    event: CollisionEvents,
) -> Option<usize> {
    match event {
        CollisionEvents::TakeDamage(victim, d, _) => match first_with_id(bots, victim, 0) {
            Some(i) => if outcome_of(bots[i], d, immunity(lists, i)) == DamageOutcome::Exploded {
                Some(i as usize)
            } else {
                None
            },
            None => None,
        },
    }
}

/// The indices of the agents that the first `n` events blow up, in the order
/// of the events.
pub open spec fn explosions_upto(
    bots: Seq<SwarmBot>,
    lists: Seq<Vec<u64>>,
    events: Seq<CollisionEvents>,
    n: int,
) -> Seq<usize>
    decreases n,
{
    if n <= 0 {
        Seq::empty()
    } else {
        let before = explosions_upto(bots, lists, events, n - 1);
        match explosion_of(respond_upto(bots, lists, events, n - 1), lists, events[n - 1]) {
            Some(i) => before.push(i),
            None => before,
        }
    }
}

/// Whether `list` holds `id`.
pub fn holds(list: &Vec<u64>, id: u64) -> (b: bool)
    ensures
        b == list@.contains(id),
{
    let n = list.len();
    let mut k: usize = 0;
    while k < n
        invariant
            n == list.len(),
            k <= n,
            forall|j: int| 0 <= j < k ==> list@[j] != id,
        decreases n - k,
    {
        if list[k] == id {
            return true;
        }
        k = k + 1;
    }
    false
}

/// Applies the damage `d` to `bot` and says what it did: [`damaged`] and
/// [`outcome_of`]. Damage that an agent caused itself never takes its
/// health.
pub fn take_damage(bot: &mut SwarmBot, d: &CollisionDamage, immune_to: &Vec<u64>) -> (outcome:
    DamageOutcome)
    ensures
        *final(bot) == damaged(*old(bot), *d, immune_to@),
        outcome == outcome_of(*old(bot), *d, immune_to@),
        d.from == Some(old(bot).id) ==> *final(bot) == *old(bot),
{
    if !bot.is_alive {
        return DamageOutcome::Ignored;
    }
    match d.from {
        Some(source) => {
            if source == bot.id || holds(immune_to, source) {
                return DamageOutcome::Ignored;
            }
        },
        None => {},
    }
    let left: u32 = if d.damage >= bot.health {
        0
    } else {
        bot.health - d.damage
    };
    bot.health = left;
    bot.is_alive = left > 0;
    if left > 0 {
        DamageOutcome::Hit
    } else if bot.explosible {
        DamageOutcome::Exploded
    } else {
        DamageOutcome::Destroyed
    }
}

/// Damage application. Each event, in order, deals its damage to the first
/// agent of the snapshot with the victim's handle; `immune_to[i]` lists the
/// sources that `bots[i]` is immune to. The result lists the agents that
/// blow up, by their index, in the order of the events.
pub fn collision_response(
    bots: &mut Vec<SwarmBot>,
    immune_to: &Vec<Vec<u64>>,
    events: &Vec<CollisionEvents>,
) -> (explosions: Vec<usize>)
    ensures
        final(bots)@ == respond_upto(old(bots)@, immune_to@, events@, events.len() as int),
        explosions@ == explosions_upto(old(bots)@, immune_to@, events@, events.len() as int),
{
    let ghost start = bots@;
    let none: Vec<u64> = Vec::new();
    let n = events.len();
    let mut explosions: Vec<usize> = Vec::new();
    let mut k: usize = 0;
    while k < n
        invariant
            n == events.len(),
            k <= n,
            none@ == Seq::<u64>::empty(),
            bots@ == respond_upto(start, immune_to@, events@, k as int),
            explosions@ == explosions_upto(start, immune_to@, events@, k as int),
        decreases n - k,
    {
        match events[k] {
            CollisionEvents::TakeDamage(victim, d, _) => {
                match locate(bots, victim) {
                    Some(i) => {
                        proof {
                            lemma_first_with_id(bots@, victim, 0);
                        }
                        let list = if i < immune_to.len() {
                            &immune_to[i]
                        } else {
                            &none
                        };
                        let mut bot = bots[i];
                        let outcome = take_damage(&mut bot, &d, list);
                        bots.set(i, bot);
                        if outcome == DamageOutcome::Exploded {
                            explosions.push(i);
                        }
                    },
                    None => {},
                }
            },
        }
        k = k + 1;
    }
    explosions
}

} // verus!
