use vstd::prelude::*;

use crate::decoration::Decoration;
use crate::winsys::geometry::Region;

verus! {

/// A request to set, clear or flip a boolean property.
#[derive(Debug, Copy, Clone, PartialEq, Eq, Structural)]
pub enum Toggle {
    On,
    Off,
    Reverse,
}

impl From<bool> for Toggle {
    /// The toggle that sets a property to `toggle`.
    fn from(toggle: bool) -> (r: Toggle) {
        match toggle {
            true => Toggle::On,
            false => Toggle::Off,
        }
    }
}

/// The toggle that sets a property to `toggle`.
pub open spec fn toggle_of(toggle: bool) -> Toggle {
    if toggle {
        Toggle::On
    } else {
        Toggle::Off
    }
}

impl vstd::std_specs::convert::FromSpecImpl<bool> for Toggle {
    open spec fn obeys_from_spec() -> bool {
        true
    }

    open spec fn from_spec(toggle: bool) -> Toggle {
        toggle_of(toggle)
    }
}

impl Toggle {

    /// The value of the property once the toggle is applied to `current`.
    pub fn eval(self, current: bool) -> (r: bool)
        ensures
            r == match self {
                Toggle::On => true,
                Toggle::Off => false,
                Toggle::Reverse => !current,
            },
    {
        match self {
            Toggle::On => true,
            Toggle::Off => false,
            Toggle::Reverse => !current,
        }
    }
}

/// One of the two ways round a cycle.
#[derive(Debug, Copy, Clone, PartialEq, Eq, Structural)]
pub enum Direction {
    Forward,
    Backward,
}

/// The direction opposite to `dir`.
pub open spec fn opposite(dir: Direction) -> Direction {
    match dir {
        Direction::Forward => Direction::Backward,
        Direction::Backward => Direction::Forward,
    }
}

impl Direction {
    /// The opposite direction.
    pub fn rev(&self) -> (r: Direction)
        ensures
            r == opposite(*self),
    {
        match self {
            Direction::Forward => Direction::Backward,
            Direction::Backward => Direction::Forward,
        }
    }
}

/// An increment or a decrement by some amount.
#[derive(Debug, Copy, Clone, PartialEq, Eq, Structural)]
pub enum Change<T> {
    Inc(T),
    Dec(T),
}

/// How a window's placement comes out: its decoration alone, or a new region too.
#[derive(Debug, Copy, Clone, PartialEq, Eq, Structural)]
pub enum Disposition {
    Unchanged(Decoration),
    Changed(Region, Decoration),
}

/// Reversing a direction twice gives it back, and never gives the same direction.
pub proof fn law_rev_involutive(dir: Direction)
    ensures
        opposite(opposite(dir)) == dir,
        opposite(dir) != dir,
{
}

} // verus!
