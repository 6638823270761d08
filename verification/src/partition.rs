use vstd::prelude::*;

use crate::identify::Ident;
use crate::identify::Identify;
use crate::identify::Index;
use crate::winsys::geometry::Region;
use crate::winsys::screen::Screen;

verus! {

/// A screen together with the workspace it shows.
#[derive(Clone)]
pub struct Partition {
    screen: Screen,
    index: Index,
}

impl Partition {
    /// The screen.
    pub closed spec fn screen_spec(&self) -> Screen {
        self.screen
    }

    /// The index of the workspace shown.
    pub closed spec fn index_spec(&self) -> Index {
        self.index
    }

    /// `screen` showing workspace `index`.
    pub fn new(screen: Screen, index: Index) -> (r: Self)
        ensures
            r.screen_spec() == screen,
            r.index_spec() == index,
    {
        Partition { screen, index }
    }

    /// The screen.
    pub fn screen(&self) -> (r: &Screen)
        ensures
            *r == self.screen_spec(),
    {
        &self.screen
    }

    /// The index of the workspace shown.
    pub fn index(&self) -> (r: Index)
        ensures
            r == self.index_spec(),
    {
        self.index
    }

    /// The whole region of the screen.
    pub fn full_region(&self) -> (r: Region)
        ensures
            r == self.screen_spec().full(),
    {
        self.screen.full_region()
    }

    /// The region of the screen that windows are placed in.
    pub fn placeable_region(&self) -> (r: Region)
        ensures
            r == self.screen_spec().placeable(),
    {
        self.screen.placeable_region()
    }
}

impl PartialEq for Partition {
    /// Partitions are the same when their screens have the same number.
    fn eq(&self, other: &Self) -> (r: bool) {
        self.screen.number() == other.screen.number()
    }
}

impl vstd::std_specs::cmp::PartialEqSpecImpl for Partition {
    open spec fn obeys_eq_spec() -> bool {
        true
    }

    open spec fn eq_spec(&self, other: &Self) -> bool {
        self.screen_spec().number_spec() == other.screen_spec().number_spec()
    }
}

impl Identify for Partition {
    open spec fn ident(&self) -> Ident {
        self.screen_spec().number_spec() as Ident
    }

    /// The number of the screen, taken modulo 2^32.
    fn id(&self) -> (r: Ident) {
        self.screen.number() as Ident
    }
}

} // verus!
