//! The membership record that the tracker keeps for each agent, and the rules
//! by which one record changes.

use vstd::prelude::*;

verus! {

/// Where an agent stands in the life of a group.
#[derive(Clone, Copy, Debug, PartialEq, Eq, Structural)]
pub enum SwarmBotState {
    /// In a group and on the way to its place in the formation.
    Swarming,
    /// In a group and in formation.
    InSwarm,
    /// In no group.
    Solo,
}

/// What an agent is to its group, read off its record.
#[derive(Clone, Copy, Debug, PartialEq, Eq)]
pub enum Role {
    /// In no group.
    Solo,
    /// The leader of its group.
    Leader,
    /// A follower of the agent with this handle.
    Follower(u64),
}

/// The membership record of one agent.
///
/// `leader` is `None` for an agent on its own, the agent's own handle for the
/// leader of a group, and the leader's handle for a follower. `swarm_id` is
/// the group's id, `0` for none.
#[derive(Clone, Copy, Debug, PartialEq, Eq)]
pub struct SwarmData {
    pub leader: Option<u64>,
    pub followers: u32,
    pub followers_limit: u32,
    pub state: SwarmBotState,
    pub swarm_id: u32,
}

/// The fan-out of a leader unless another limit is asked for.
pub const DEFAULT_FOLLOWERS_LIMIT: u32 = 10;

impl SwarmData {
    /// The record of an agent on its own that may lead up to `limit`
    /// followers.
    pub open spec fn solo(limit: u32) -> SwarmData {
        SwarmData {
            leader: None,
            followers: 0,
            followers_limit: limit,
            state: SwarmBotState::Solo,
            swarm_id: 0,
        }
    }

    /// The fields of the record agree with each other: an agent is `Solo`
    /// exactly when it has no group id, and exactly when it names no leader;
    /// and it has no more followers than its limit.
    pub open spec fn consistent(self) -> bool {
        &&& self.state == SwarmBotState::Solo <==> self.swarm_id == 0
        &&& self.state == SwarmBotState::Solo <==> self.leader is None
        &&& self.followers <= self.followers_limit
    }

    /// The role of the agent `me` whose record this is.
    pub open spec fn role_of(self, me: u64) -> Role {
        match self.leader {
            None => Role::Solo,
            Some(l) => if l == me {
                Role::Leader
            } else {
                Role::Follower(l)
            },
        }
    }

    /// The agent may take one more follower: it follows nobody and is below
    /// its limit.
    pub open spec fn open_to_followers(self, me: u64) -> bool {
        &&& !(self.role_of(me) is Follower)
        &&& self.followers < self.followers_limit
    }

    /// The record of a leader `me` after one more agent joined its group `id`.
    /// An agent that was on its own becomes the leader of the new group.
    pub open spec fn with_recruit(self, me: u64, id: u32) -> SwarmData {
        SwarmData {
            leader: Some(me),
            followers: (self.followers + 1) as u32,
            followers_limit: self.followers_limit,
            state: SwarmBotState::InSwarm,
            swarm_id: id,
        }
    }

    /// The record of an agent after it joined the group `id` of `leader`.
    pub open spec fn enlisted(self, leader: u64, id: u32) -> SwarmData {
        SwarmData {
            leader: Some(leader),
            followers: self.followers,
            followers_limit: self.followers_limit,
            state: SwarmBotState::Swarming,
            swarm_id: id,
        }
    }

    /// The record with another state.
    pub open spec fn in_state(self, state: SwarmBotState) -> SwarmData {
        SwarmData {
            leader: self.leader,
            followers: self.followers,
            followers_limit: self.followers_limit,
            state,
            swarm_id: self.swarm_id,
        }
    }

    /// The record of a follower `me` whose leader is gone. One that has
    /// followers of its own takes the group over; any other is on its own
    /// again.
    pub open spec fn orphaned(self, me: u64) -> SwarmData {
        if self.followers > 0 {
            SwarmData {
                leader: Some(me),
                followers: self.followers,
                followers_limit: self.followers_limit,
                state: self.state,
                swarm_id: self.swarm_id,
            }
        } else {
            SwarmData::solo(self.followers_limit)
        }
    }

    /// The record after one of the agent's followers left.
    pub open spec fn without_follower(self) -> SwarmData {
        SwarmData {
            leader: self.leader,
            followers: (self.followers - 1) as u32,
            followers_limit: self.followers_limit,
            state: self.state,
            swarm_id: self.swarm_id,
        }
    }

    /// A record for an agent on its own, with the given fan-out limit.
    pub fn new(followers_limit: u32) -> (d: SwarmData)
        ensures
            d == SwarmData::solo(followers_limit),
    {
        SwarmData {
            leader: None,
            followers: 0,
            followers_limit,
            state: SwarmBotState::Solo,
            swarm_id: 0,
        }
    }

    /// Computes [`SwarmData::role_of`].
    pub fn role(&self, me: u64) -> (r: Role)
        ensures
            r == self.role_of(me),
    {
        match self.leader {
            None => Role::Solo,
            Some(l) => if l == me {
                Role::Leader
            } else {
                Role::Follower(l)
            },
        }
    }

    /// Decides [`SwarmData::open_to_followers`].
    pub fn can_lead(&self, me: u64) -> (b: bool)
        ensures
            b == self.open_to_followers(me),
    {
        let free = match self.leader {
            None => true,
            Some(l) => l == me,
        };
        free && self.followers < self.followers_limit
    }

    /// Computes [`SwarmData::with_recruit`].
    pub fn recruit(&self, me: u64, id: u32) -> (d: SwarmData)
        requires
            self.followers < u32::MAX,
        ensures
            d == self.with_recruit(me, id),
    {
        SwarmData {
            leader: Some(me),
            followers: self.followers + 1,
            followers_limit: self.followers_limit,
            state: SwarmBotState::InSwarm,
            swarm_id: id,
        }
    }

    /// Computes [`SwarmData::enlisted`].
    pub fn enlist(&self, leader: u64, id: u32) -> (d: SwarmData)
        ensures
            d == self.enlisted(leader, id),
    {
        SwarmData {
            leader: Some(leader),
            followers: self.followers,
            followers_limit: self.followers_limit,
            state: SwarmBotState::Swarming,
            swarm_id: id,
        }
    }

    /// Computes [`SwarmData::in_state`].
    pub fn with_state(&self, state: SwarmBotState) -> (d: SwarmData)
        ensures
            d == self.in_state(state),
    {
        SwarmData {
            leader: self.leader,
            followers: self.followers,
            followers_limit: self.followers_limit,
            state,
            swarm_id: self.swarm_id,
        }
    }

    /// Computes [`SwarmData::orphaned`].
    pub fn orphan(&self, me: u64) -> (d: SwarmData)
        ensures
            d == self.orphaned(me),
    {
        if self.followers > 0 {
            SwarmData {
                leader: Some(me),
                followers: self.followers,
                followers_limit: self.followers_limit,
                state: self.state,
                swarm_id: self.swarm_id,
            }
        } else {
            SwarmData::new(self.followers_limit)
        }
    }
}

impl Default for SwarmData {
    /// An agent on its own that may lead up to ten followers.
    fn default() -> (d: SwarmData)
        ensures
            d == SwarmData::solo(DEFAULT_FOLLOWERS_LIMIT),
    {
        SwarmData::new(DEFAULT_FOLLOWERS_LIMIT)
    }
}

} // verus!
