//! The sides of square and triangular bodies.

use vstd::prelude::*;

use crate::chance::roll;
use crate::chance::shuffled;

verus! {

/// A side of a square body.
#[derive(PartialEq, Eq, Structural, Hash, Clone, Copy, Debug)]
pub enum Side {
    Top,
    Bottom,
    Left,
    Right,
}

impl Side {
    /// The four sides: top, bottom, left, right.
    pub open spec fn all() -> Seq<Side> {
        seq![Side::Top, Side::Bottom, Side::Left, Side::Right]
    }

    /// The side across.
    pub open spec fn across(self) -> Side {
        match self {
            Side::Top => Side::Bottom,
            Side::Bottom => Side::Top,
            Side::Left => Side::Right,
            Side::Right => Side::Left,
        }
    }

    /// The side across.
    pub fn opposite(&self) -> (side: Side)
        ensures
            side == self.across(),
    {
        match self {
            Side::Top => Side::Bottom,
            Side::Bottom => Side::Top,
            Side::Left => Side::Right,
            Side::Right => Side::Left,
        }
    }

    /// The four sides: top, bottom, left, right.
    pub fn iter() -> (sides: Vec<Side>)
        ensures
            sides@ == Side::all(),
    {
        let sides = vec![Side::Top, Side::Bottom, Side::Left, Side::Right];
        assert(sides@ =~= Side::all());
        sides
    }

    /// The four sides in an order drawn at random.
    pub fn shuffled() -> (sides: Vec<Side>)
        ensures
            sides@.to_multiset() == Side::all().to_multiset(),
    {
        shuffled(Side::iter())
    }

    /// The side that stands for a drawn number: 0 top, 1 bottom, 2 left,
    /// anything else right.
    pub open spec fn numbered(drawn: u32) -> Side {
        if drawn == 0 {
            Side::Top
        } else if drawn == 1 {
            Side::Bottom
        } else if drawn == 2 {
            Side::Left
        } else {
            Side::Right
        }
    }

    /// The side that stands for a drawn number.
    pub fn from_roll(drawn: u32) -> (side: Side)
        ensures
            side == Side::numbered(drawn),
    {
        match drawn {
            0 => Side::Top,
            1 => Side::Bottom,
            2 => Side::Left,
            _ => Side::Right,
        }
    }

    /// A side drawn at random.
    pub fn random() -> (side: Side)
        ensures
            exists|drawn: u32| drawn <= 3 && side == Side::numbered(drawn),
    {
        let drawn = roll(3);
        Side::from_roll(drawn)
    }
}

/// A side of a triangular body.
#[derive(PartialEq, Eq, Structural, Hash, Clone, Copy, Debug)]
pub enum Triside {
    Down,
    Left,
    Right,
}

impl Triside {
    /// The three sides: down, left, right.
    pub open spec fn all() -> Seq<Triside> {
        seq![Triside::Down, Triside::Left, Triside::Right]
    }

    /// The three sides: down, left, right.
    pub fn iter() -> (sides: Vec<Triside>)
        ensures
            sides@ == Triside::all(),
    {
        let sides = vec![Triside::Down, Triside::Left, Triside::Right];
        assert(sides@ =~= Triside::all());
        sides
    }

    /// The two corners, of the corners `a`, `b`, `c` of the triangle, that
    /// bound this side, in the order in which the outline runs through them.
    pub fn filter_abc<T: Copy>(&self, corners: [T; 3]) -> (ends: [T; 2])
        ensures
            *self == Triside::Right ==> ends@ == seq![corners@[0], corners@[1]],
            *self == Triside::Down ==> ends@ == seq![corners@[1], corners@[2]],
            *self == Triside::Left ==> ends@ == seq![corners@[2], corners@[0]],
    {
        let ends = match self {
            Triside::Right => [corners[0], corners[1]],
            Triside::Down => [corners[1], corners[2]],
            Triside::Left => [corners[2], corners[0]],
        };
        assert(*self == Triside::Right ==> ends@ =~= seq![corners@[0], corners@[1]]);
        assert(*self == Triside::Down ==> ends@ =~= seq![corners@[1], corners@[2]]);
        assert(*self == Triside::Left ==> ends@ =~= seq![corners@[2], corners@[0]]);
        ends
    }

    /// The side that stands for a drawn number: 0 down, 1 left, anything
    /// else right.
    pub open spec fn numbered(drawn: u32) -> Triside {
        if drawn == 0 {
            Triside::Down
        } else if drawn == 1 {
            Triside::Left
        } else {
            Triside::Right
        }
    }

    /// The side that stands for a drawn number.
    pub fn from_roll(drawn: u32) -> (side: Triside)
        ensures
            side == Triside::numbered(drawn),
    {
        match drawn {
            0 => Triside::Down,
            1 => Triside::Left,
            _ => Triside::Right,
        }
    }

    /// A side drawn at random.
    pub fn random() -> (side: Triside)
        ensures
            exists|drawn: u32| drawn <= 2 && side == Triside::numbered(drawn),
    {
        let drawn = roll(2);
        Triside::from_roll(drawn)
    }

    /// The three sides in an order drawn at random.
    pub fn shuffled() -> (sides: Vec<Triside>)
        ensures
            sides@.to_multiset() == Triside::all().to_multiset(),
    {
        shuffled(Triside::iter())
    }
}

} // verus!
