//! Identity tags: what kind of thing an entity is.

use vstd::prelude::*;

verus! {

/// Classification of an entity. `Base` marks a permanently immobile
/// structure; `Unknown` stands for an entity whose identity did not resolve.
#[derive(Clone, Copy, Debug, PartialEq, Eq, Structural)]
pub enum EntityKind {
    Agent,
    Base,
    Unknown,
}

/// The identity tag an entity carries in the world.
#[derive(Clone, Copy, Debug, PartialEq, Eq, Structural)]
pub struct Tag {
    pub kind: EntityKind,
}

impl Tag {
    /// The tag of the given kind.
    pub fn new(kind: EntityKind) -> (tag: Tag)
        ensures
            tag.kind == kind,
    {
        Tag { kind }
    }

    /// The tag of an agent.
    pub fn agent() -> (tag: Tag)
        ensures
            tag.kind == EntityKind::Agent,
    {
        Tag::new(EntityKind::Agent)
    }

    /// The tag of a base.
    pub fn base() -> (tag: Tag)
        ensures
            tag.kind == EntityKind::Base,
    {
        Tag::new(EntityKind::Base)
    }
}

} // verus!
