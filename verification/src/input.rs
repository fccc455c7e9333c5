//! The input mapper: from the keys that went down in a tick to at
//! most one direction.

use crate::hex::Direction;
use vstd::prelude::*;

verus! {

/// The direction keys whose press edge fell in this tick. A key that
/// is merely held is not pressed.
#[derive(Clone, Copy, Debug, PartialEq, Eq, Structural)]
pub struct KeyEdges {
    pub north: bool,
    pub south: bool,
    pub west: bool,
    pub east: bool,
    pub north_west: bool,
    pub south_east: bool,
}

impl KeyEdges {
    /// Whether the key of direction `d` went down.
    pub open spec fn pressed(self, d: Direction) -> bool {
        match d {
            Direction::North => self.north,
            Direction::South => self.south,
            Direction::West => self.west,
            Direction::East => self.east,
            Direction::NorthWest => self.north_west,
            Direction::SouthEast => self.south_east,
        }
    }

    /// The direction that the tick's keys ask for: of the keys that went
    /// down, the one of lowest rank.
    pub open spec fn direction(self) -> Option<Direction> {
        if self.north {
            Some(Direction::North)
        } else if self.south {
            Some(Direction::South)
        } else if self.west {
            Some(Direction::West)
        } else if self.east {
            Some(Direction::East)
        } else if self.north_west {
            Some(Direction::NorthWest)
        } else if self.south_east {
            Some(Direction::SouthEast)
        } else {
            None
        }
    }

    /// No key went down.
    pub fn none() -> (keys: KeyEdges)
        ensures
            forall|d: Direction| !keys.pressed(d),
            keys.direction() is None,
    {
        KeyEdges {
            north: false,
            south: false,
            west: false,
            east: false,
            north_west: false,
            south_east: false,
        }
    }

    /// Only the key of direction `d` went down.
    pub fn only(d: Direction) -> (keys: KeyEdges)
        ensures
            forall|o: Direction| keys.pressed(o) <==> o == d,
            keys.direction() == Some(d),
    {
        KeyEdges {
            north: d == Direction::North,
            south: d == Direction::South,
            west: d == Direction::West,
            east: d == Direction::East,
            north_west: d == Direction::NorthWest,
            south_east: d == Direction::SouthEast,
        }
    }

    /// Whether the key of direction `d` went down.
    pub fn is_pressed(&self, d: Direction) -> (b: bool)
        ensures
            b == self.pressed(d),
    {
        match d {
            Direction::North => self.north,
            Direction::South => self.south,
            Direction::West => self.west,
            Direction::East => self.east,
            Direction::NorthWest => self.north_west,
            Direction::SouthEast => self.south_east,
        }
    }
}

/// Maps the keys of one tick to at most one direction. When
/// several keys went down together the first in the order north,
/// south, west, east, north-west, south-east wins.
pub fn map_input(keys: KeyEdges) -> (d: Option<Direction>)
    ensures
        d == keys.direction(),
        d is None <==> forall|o: Direction| !keys.pressed(o),
        d matches Some(chosen) ==> keys.pressed(chosen) && forall|o: Direction|
            keys.pressed(o) ==> chosen.rank() <= o.rank(),
{
    proof {
        lemma_direction_is_first_pressed(keys);
    }
    if keys.north {
        Some(Direction::North)
    } else if keys.south {
        Some(Direction::South)
    } else if keys.west {
        Some(Direction::West)
    } else if keys.east {
        Some(Direction::East)
    } else if keys.north_west {
        Some(Direction::NorthWest)
    } else if keys.south_east {
        Some(Direction::SouthEast)
    } else {
        None
    }
}

/// The direction chosen for a tick is a pressed one, and no pressed
/// direction has a lower rank; none is chosen only when no key went
/// down.
pub proof fn lemma_direction_is_first_pressed(keys: KeyEdges)
    ensures
        keys.direction() is None <==> forall|o: Direction| !keys.pressed(o),
        keys.direction() matches Some(chosen) ==> keys.pressed(chosen) && forall|o: Direction|
            keys.pressed(o) ==> chosen.rank() <= o.rank(),
{
    if keys.direction() is None {
        assert forall|o: Direction| !keys.pressed(o) by {}
    } else {
        let chosen = keys.direction()->0;
        assert(keys.pressed(chosen));
        assert forall|o: Direction| keys.pressed(o) implies chosen.rank() <= o.rank() by {}
    }
}

} // verus!
