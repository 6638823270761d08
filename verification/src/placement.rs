use vstd::prelude::*;

use crate::decoration::Decoration;
use crate::winsys::geometry::Region;
use crate::winsys::window::Window;
use crate::zone::ZoneContent;

verus! {

/// The identifier of a zone of the layout tree.
pub type ZoneId = u32;

/// Whether a window floats or is tiled.
#[derive(Debug, PartialEq, Eq, Clone, Copy, Structural)]
pub enum PlacementMethod {
    Free,
    Tile,
}

/// A value that belongs to either the floating or the tiled side.
#[derive(Debug, PartialEq, Eq, Clone, Copy, Structural)]
pub enum PlacementClass<T> {
    Free(T),
    Tile(T),
}

/// What a placement positions: a client, a tab bar over some number of zones, or a layout.
#[derive(Debug, Copy, Clone, PartialEq, Eq, Structural)]
pub enum PlacementTarget {
    Client(Window),
    Tab(usize),
    Layout,
}

impl PlacementTarget {
    /// What placing a zone holding `content` positions: its client, a tab bar over its
    /// subzones, or its layout.
    pub fn from_zone_content<D>(content: &ZoneContent<D>) -> (r: Self)
        ensures
            r == match *content {
                ZoneContent::Client(w) => PlacementTarget::Client(w),
                ZoneContent::Tab(c) => PlacementTarget::Tab(c.elems().len() as usize),
                ZoneContent::Layout(..) => PlacementTarget::Layout,
            },
    {
        match content {
            ZoneContent::Client(window) => PlacementTarget::Client(*window),
            ZoneContent::Tab(zones) => PlacementTarget::Tab(zones.len()),
            ZoneContent::Layout(..) => PlacementTarget::Layout,
        }
    }
}

/// Where a placement puts its target.
#[derive(Debug, Copy, Clone, PartialEq, Eq, Structural)]
pub enum PlacementRegion {
    NoRegion,
    FreeRegion,
    NewRegion(Region),
}

/// Where and how a window (or a zone) is to be placed.
#[derive(Debug, Copy, Clone, PartialEq, Eq, Structural)]
pub struct Placement {
    pub method: PlacementMethod,
    pub kind: PlacementTarget,
    pub zone: ZoneId,
    pub region: PlacementRegion,
    pub decoration: Decoration,
}

} // verus!
