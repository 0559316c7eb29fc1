//! The events that pass between the stages of a tick, and the goals they
//! act on. Positions are carried through untouched; the type `P` stands
//! for whatever represents a position in the world.

use vstd::prelude::*;

use crate::kind::EntityKind;

verus! {

/// What an agent is out to do.
#[derive(Clone, Copy, Debug, PartialEq)]
pub enum Missions<P> {
    /// Reach a position.
    MoveTo(P),
    /// Nothing.
    Idle,
}

/// An agent's current mission.
#[derive(Clone, Copy, Debug, PartialEq)]
pub struct Goal<P> {
    pub mission: Missions<P>,
}

impl<P> Goal<P> {
    /// A goal without a mission.
    pub fn new() -> (goal: Goal<P>)
        ensures
            goal.mission is Idle,
    {
        Goal { mission: Missions::Idle }
    }

    /// The goal of reaching `pos`.
    pub fn move_to(pos: P) -> (goal: Goal<P>)
        ensures
            goal.mission == Missions::MoveTo(pos),
    {
        Goal { mission: Missions::MoveTo(pos) }
    }
}

/// A change of motion.
#[derive(Clone, Copy, Debug, PartialEq)]
pub enum Movement<P> {
    /// Turn towards a direction.
    Rotate(P),
    /// Advance towards a position.
    Move(P),
}

/// What the Act stage is asked to do for an agent.
#[derive(Clone, Copy, Debug, PartialEq)]
pub enum Action<P> {
    /// Change motion.
    M(Movement<P>),
    /// Take on a goal.
    G(Goal<P>),
    /// The mission is complete: drop it.
    Done,
    /// Create a new agent in front of this one.
    SpawnChild,
    /// Merge this tick's sightings into memory.
    ProcessVision,
    /// Forget what is tracked provisionally.
    PruneVision,
}

/// An event for the Act stage.
#[derive(Clone, Copy, Debug, PartialEq)]
pub struct S1<P> {
    pub id: u64,
    pub action: Action<P>,
}

/// What the Identify stage is asked.
#[derive(Clone, Copy, Debug, PartialEq, Eq, Structural)]
pub enum A2 {
    /// Resolve the identity tag of an entity.
    Tag(u64),
}

/// An event for the Identify stage.
#[derive(Clone, Copy, Debug, PartialEq, Eq, Structural)]
pub struct S2 {
    pub id: u64,
    pub action: A2,
}

/// What the Assimilate stage is told.
#[derive(Clone, Copy, Debug, PartialEq)]
pub enum A3<P> {
    /// Entity `about` is of kind `info` and stands at `pos`.
    GainInfo { about: u64, info: EntityKind, pos: P },
}

/// An event for the Assimilate stage.
#[derive(Clone, Copy, Debug, PartialEq)]
pub struct S3<P> {
    pub id: u64,
    pub event: A3<P>,
}

} // verus!
