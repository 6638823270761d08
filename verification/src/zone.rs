use vstd::prelude::*;

use crate::cycle::active_in_range;
use crate::cycle::Cycle;
use crate::cycle::InsertPos;
use crate::cycle::Selector;
use crate::decoration::bare;
use crate::decoration::Decoration;
use crate::error::StateChangeError;
use crate::layout::config_of;
use crate::layout::kind_position;
use crate::layout::Layout;
use crate::layout::LayoutConfig;
use crate::layout::LayoutKind;
use crate::placement::PlacementMethod;
use crate::placement::ZoneId;
use crate::winsys::geometry::Dim;
use crate::winsys::geometry::Pos;
use crate::winsys::geometry::Region;
use crate::winsys::window::Window;

use std::collections::HashMap;

verus! {

broadcast use vstd::std_specs::hash::group_hash_axioms;

/// What a zone holds: a client's window, a tab of subzones, or a layout of subzones. The
/// layout data is of a type `D` of the caller's choosing.
pub enum ZoneContent<D> {
    Client(Window),
    Tab(Cycle<ZoneId>),
    Layout(Layout<D>, Cycle<ZoneId>),
}

impl<D> ZoneContent<D> {
    /// The subzones, for a tab or a layout.
    pub open spec fn subzones(self) -> Option<Cycle<ZoneId>> {
        match self {
            ZoneContent::Client(_) => None,
            ZoneContent::Tab(c) => Some(c),
            ZoneContent::Layout(_, c) => Some(c),
        }
    }

    /// The content with its subzones replaced by `c` (a client stays as it is).
    pub open spec fn with_subzones(self, c: Cycle<ZoneId>) -> ZoneContent<D> {
        match self {
            ZoneContent::Client(w) => ZoneContent::Client(w),
            ZoneContent::Tab(_) => ZoneContent::Tab(c),
            ZoneContent::Layout(l, _) => ZoneContent::Layout(l, c),
        }
    }

    /// A layout's data is complete.
    pub open spec fn layout_ok(self) -> bool {
        self matches ZoneContent::Layout(l, _) ==> l.wf()
    }
}

/// A node of the tree of zones a workspace is divided into: its identifier, its parent, how it
/// is placed, what it holds, its region and decoration, and whether it is visible.
pub struct Zone<D> {
    id: ZoneId,
    parent: Option<ZoneId>,
    method: PlacementMethod,
    content: ZoneContent<D>,
    region: Region,
    decoration: Decoration,
    is_visible: bool,
}

/// The region of nothing, at the origin.
pub open spec fn empty_region() -> Region {
    Region { pos: Pos { x: 0, y: 0 }, dim: Dim { w: 0, h: 0 } }
}

impl<D> Zone<D> {
    /// The identifier.
    pub closed spec fn identifier(&self) -> ZoneId {
        self.id
    }

    /// The parent's identifier, if any.
    pub closed spec fn parent_zone(&self) -> Option<ZoneId> {
        self.parent
    }

    /// How the zone is placed.
    pub closed spec fn placement(&self) -> PlacementMethod {
        self.method
    }

    /// What the zone holds.
    pub closed spec fn holds(&self) -> ZoneContent<D> {
        self.content
    }

    /// The region of the zone.
    pub closed spec fn area(&self) -> Region {
        self.region
    }

    /// The decoration of the zone.
    pub closed spec fn decorated(&self) -> Decoration {
        self.decoration
    }

    /// Whether the zone is visible.
    pub closed spec fn visible(&self) -> bool {
        self.is_visible
    }

    /// The same zone holding `content`.
    pub closed spec fn holding(self, content: ZoneContent<D>) -> Zone<D> {
        Zone { content, ..self }
    }

    /// The same zone in `region`.
    pub closed spec fn in_area(self, region: Region) -> Zone<D> {
        Zone { region, ..self }
    }

    /// The same zone placed by `method`.
    pub closed spec fn placed_by(self, method: PlacementMethod) -> Zone<D> {
        Zone { method, ..self }
    }

    /// A fresh zone: placed freely, undecorated and visible.
    pub closed spec fn fresh_zone(
        id: ZoneId,
        parent: Option<ZoneId>,
        content: ZoneContent<D>,
        region: Region,
    ) -> Zone<D> {
        Zone {
            id,
            parent,
            method: PlacementMethod::Free,
            content,
            region,
            decoration: bare(),
            is_visible: true,
        }
    }

    /// A zone `id` under `parent` holding `content` in `region`: placed freely, undecorated
    /// and visible.
    fn new(id: ZoneId, parent: Option<ZoneId>, content: ZoneContent<D>, region: Region) -> (r: Self)
        ensures
            r == Zone::fresh_zone(id, parent, content, region),
    {
        Zone {
            id,
            parent,
            method: PlacementMethod::Free,
            content,
            region,
            decoration: Decoration::no_decoration(),
            is_visible: true,
        }
    }

    /// Replaces what the zone holds.
    pub fn set_content(&mut self, content: ZoneContent<D>)
        ensures
            *final(self) == old(self).holding(content),
    {
        self.content = content;
    }

    /// Switches a layout zone to kind `kind`, giving back the kind it had; an invalid caller
    /// for any other zone.
    fn set_kind(&mut self, kind: LayoutKind) -> (r: Result<LayoutKind, StateChangeError>)
        ensures
            match old(self).holds() {
                ZoneContent::Layout(l, c) => final(self).holds() matches ZoneContent::Layout(
                    l2,
                    c2,
                ) && c2 == c && l2.all_data() == l.all_data() && if kind == l.current() {
                    r == Err::<LayoutKind, StateChangeError>(StateChangeError::EarlyStop)
                        && l2.current() == l.current() && l2.previous() == l.previous()
                } else {
                    r == Ok::<LayoutKind, StateChangeError>(l.current()) && l2.current()
                        == kind && l2.previous() == l.current()
                },
                _ => r == Err::<LayoutKind, StateChangeError>(StateChangeError::InvalidCaller)
                    && final(self).holds() == old(self).holds(),
            },
            final(self).identifier() == old(self).identifier(),
            final(self).parent_zone() == old(self).parent_zone(),
            final(self).placement() == old(self).placement(),
            final(self).area() == old(self).area(),
            final(self).decorated() == old(self).decorated(),
            final(self).visible() == old(self).visible(),
    {
        match &mut self.content {
            ZoneContent::Layout(layout, _) => layout.set_kind(kind),
            _ => Err(StateChangeError::InvalidCaller),
        }
    }

    /// The previous kind of a layout zone; an invalid caller for any other zone.
    pub fn prev_kind(&self) -> (r: Result<LayoutKind, StateChangeError>)
        ensures
            r == match self.holds() {
                ZoneContent::Layout(l, _) => Ok::<LayoutKind, StateChangeError>(l.previous()),
                _ => Err(StateChangeError::InvalidCaller),
            },
    {
        match &self.content {
            ZoneContent::Layout(layout, _) => Ok(layout.prev_kind()),
            _ => Err(StateChangeError::InvalidCaller),
        }
    }

    /// The kind of a layout zone; an invalid caller for any other zone.
    pub fn kind(&self) -> (r: Result<LayoutKind, StateChangeError>)
        ensures
            r == match self.holds() {
                ZoneContent::Layout(l, _) => Ok::<LayoutKind, StateChangeError>(l.current()),
                _ => Err(StateChangeError::InvalidCaller),
            },
    {
        match &self.content {
            ZoneContent::Layout(layout, _) => Ok(layout.kind()),
            _ => Err(StateChangeError::InvalidCaller),
        }
    }

    /// Moves the zone to `region`.
    pub fn set_region(&mut self, region: Region)
        ensures
            *final(self) == old(self).in_area(region),
    {
        self.region = region;
    }

    /// Places the zone by `method`.
    pub fn set_method(&mut self, method: PlacementMethod)
        ensures
            *final(self) == old(self).placed_by(method),
    {
        self.method = method;
    }

    /// The data of the kind a layout zone is in; none for any other zone.
    pub fn data(&self) -> (r: Option<&D>)
        requires
            self.holds().layout_ok(),
        ensures
            match self.holds() {
                ZoneContent::Layout(l, _) => r matches Some(d) && *d == l.data_of(l.current()),
                _ => r is None,
            },
    {
        match &self.content {
            ZoneContent::Layout(layout, _) => Some(layout.data()),
            _ => None,
        }
    }

    /// The data of the kind a layout zone is in, to be changed in place; none for any other
    /// zone.
    pub fn data_mut(&mut self) -> (r: Option<&mut D>)
        requires
            old(self).holds().layout_ok(),
        ensures
            match old(self).holds() {
                ZoneContent::Layout(l, c) => {
                    &&& r matches Some(d)
                    &&& *d == l.data_of(l.current())
                    &&& final(self).holds() matches ZoneContent::Layout(l2, c2)
                    &&& c2 == c
                    &&& l2.current() == l.current() && l2.previous() == l.previous()
                    &&& l2.all_data() == l.all_data().update(kind_position(l.current()), *final(d))
                    &&& *final(self) == old(self).holding(ZoneContent::Layout(l2, c2))
                },
                _ => r is None && *final(self) == *old(self),
            },
    {
        match &mut self.content {
            ZoneContent::Layout(layout, _) => Some(layout.data_mut()),
            _ => None,
        }
    }

    /// The data of the kind a layout zone was in before; none for any other zone.
    pub fn prev_data(&self) -> (r: Option<&D>)
        requires
            self.holds().layout_ok(),
        ensures
            match self.holds() {
                ZoneContent::Layout(l, _) => r matches Some(d) && *d == l.data_of(l.previous()),
                _ => r is None,
            },
    {
        match &self.content {
            ZoneContent::Layout(layout, _) => Some(layout.prev_data()),
            _ => None,
        }
    }

    /// The configuration of a layout zone; none for any other zone.
    pub fn config(&self) -> (r: Option<LayoutConfig>)
        ensures
            r == match self.holds() {
                ZoneContent::Layout(l, _) => Some(config_of(l.current())),
                _ => None,
            },
    {
        match &self.content {
            ZoneContent::Layout(layout, _) => Some(layout.config()),
            _ => None,
        }
    }

    /// What the zone holds.
    pub fn content(&self) -> (r: &ZoneContent<D>)
        ensures
            *r == self.holds(),
    {
        &self.content
    }

    /// The region of the zone.
    pub fn region(&self) -> (r: Region)
        ensures
            r == self.area(),
    {
        self.region
    }

    /// The decoration of the zone.
    pub fn decoration(&self) -> (r: Decoration)
        ensures
            r == self.decorated(),
    {
        self.decoration
    }

    /// How the zone is placed.
    pub fn method(&self) -> (r: PlacementMethod)
        ensures
            r == self.placement(),
    {
        self.method
    }
}

/// The parent of zone `id`, where it is known.
pub open spec fn parent_of<D>(zones: Map<ZoneId, Zone<D>>, id: ZoneId) -> Option<ZoneId> {
    if zones.contains_key(id) {
        zones[id].parent_zone()
    } else {
        None
    }
}

/// The zone holds subzones: it is a tab or a layout.
pub open spec fn is_cycle_zone<D>(zone: Zone<D>) -> bool {
    zone.holds().subzones() is Some
}

/// The nearest zone holding subzones, from `id` itself up through its parents; none where the
/// walk leaves the known zones first.
pub open spec fn nearest_cycle_of<D>(zones: Map<ZoneId, Zone<D>>, id: ZoneId) -> Option<ZoneId>
    decreases id,
{
    if !zones.contains_key(id) {
        None
    } else if is_cycle_zone(zones[id]) {
        Some(id)
    } else {
        match zones[id].parent_zone() {
            Some(p) => if p < id {
                nearest_cycle_of(zones, p)
            } else {
                None
            },
            None => None,
        }
    }
}

/// Every parent up from zone `id` is a known zone.
pub open spec fn ancestry_ok<D>(zones: Map<ZoneId, Zone<D>>, id: ZoneId) -> bool
    decreases id,
{
    match parent_of(zones, id) {
        Some(p) => p < id && zones.contains_key(p) && ancestry_ok(zones, p),
        None => true,
    }
}

/// The nearest parent up from zone `id` that holds subzones, if any.
pub open spec fn next_cycle_of<D>(zones: Map<ZoneId, Zone<D>>, id: ZoneId) -> Option<ZoneId>
    decreases id,
{
    match parent_of(zones, id) {
        Some(p) => if p < id {
            if zones.contains_key(p) && is_cycle_zone(zones[p]) {
                Some(p)
            } else {
                next_cycle_of(zones, p)
            }
        } else {
            None
        },
        None => None,
    }
}

/// Some parent up from zone `id` is a tab, or a layout whose kind is persistent.
pub open spec fn within_persistent<D>(zones: Map<ZoneId, Zone<D>>, id: ZoneId) -> bool
    decreases id,
{
    match parent_of(zones, id) {
        Some(p) => if p < id && zones.contains_key(p) {
            match zones[p].holds() {
                ZoneContent::Tab(_) => true,
                ZoneContent::Layout(l, _) => config_of(l.current()).persistent || within_persistent(
                    zones,
                    p,
                ),
                ZoneContent::Client(_) => within_persistent(zones, p),
            }
        } else {
            false
        },
        None => false,
    }
}

/// The subzones of zone `id` are well kept: a well-formed cycle whose focus is in range, of
/// known zones made after `id` and before `fresh`, at most `fresh` of them.
pub open spec fn subzones_ok<D>(zones: Map<ZoneId, Zone<D>>, id: ZoneId, c: Cycle<ZoneId>, fresh: ZoneId) -> bool {
    &&& c.wf()
    &&& active_in_range(c)
    &&& c.elems().len() <= fresh
    &&& forall|i: int|
        0 <= i < c.elems().len() ==> id < #[trigger] c.elems()[i] < fresh && zones.contains_key(
            c.elems()[i],
        )
}

/// A zone of the tree is well kept: it knows its identifier, made before `fresh`; its parent
/// was made before it; its subzones are well kept; a layout has the data of every kind.
pub open spec fn zone_ok<D>(zones: Map<ZoneId, Zone<D>>, id: ZoneId, fresh: ZoneId) -> bool {
    let z = zones[id];
    &&& z.identifier() == id
    &&& 0 < id < fresh
    &&& (z.parent_zone() matches Some(p) ==> p < id)
    &&& (z.holds().subzones() matches Some(c) ==> subzones_ok(zones, id, c, fresh))
    &&& z.holds().layout_ok()
}

/// The zones of a workspace tree, by identifier, and how a layout's data is treated when its
/// kind changes.
pub struct ZoneManager<D> {
    zone_map: HashMap<ZoneId, Zone<D>>,
    persistent_data_copy: bool,
    next_id: ZoneId,
}

impl<D> ZoneManager<D> {
    /// The zones, by identifier.
    pub closed spec fn zones(&self) -> Map<ZoneId, Zone<D>> {
        self.zone_map@
    }

    /// The identifier the next zone gets.
    pub closed spec fn fresh(&self) -> ZoneId {
        self.next_id
    }

    /// Whether a layout that changes kind takes the data of the kind it leaves.
    pub closed spec fn copies_data(&self) -> bool {
        self.persistent_data_copy
    }

    /// Every zone is well kept.
    pub open spec fn wf(&self) -> bool {
        &&& 0 < self.fresh()
        &&& forall|id: ZoneId| #[trigger]
            self.zones().contains_key(id) ==> zone_ok(self.zones(), id, self.fresh())
    }

    /// No zones yet; a layout that changes kind takes the data of the kind it leaves.
    pub fn new() -> (r: Self)
        ensures
            r.wf(),
            r.zones() == Map::<ZoneId, Zone<D>>::empty(),
            r.fresh() == 1,
            r.copies_data(),
    {
        ZoneManager { zone_map: HashMap::new(), persistent_data_copy: true, next_id: 1 }
    }

    /// Zone `id`, where it exists.
    pub fn zone_checked(&self, id: ZoneId) -> (r: Option<&Zone<D>>)
        ensures
            match r {
                Some(z) => self.zones().contains_key(id) && *z == self.zones()[id],
                None => !self.zones().contains_key(id),
            },
    {
        self.zone_map.get(&id)
    }

    /// Zone `id`.
    pub fn zone(&self, id: ZoneId) -> (r: &Zone<D>)
        requires
            self.zones().contains_key(id),
        ensures
            *r == self.zones()[id],
    {
        self.zone_map.get(&id).unwrap()
    }

    /// The parent of zone `id`, where the zone exists and has one.
    pub fn parent_id(&self, id: ZoneId) -> (r: Option<ZoneId>)
        ensures
            r == parent_of(self.zones(), id),
    {
        match self.zone_map.get(&id) {
            Some(zone) => zone.parent,
            None => None,
        }
    }

    /// Whether zone `id` holds subzones.
    pub fn is_cycle(&self, id: ZoneId) -> (r: bool)
        requires
            self.zones().contains_key(id),
        ensures
            r == is_cycle_zone(self.zones()[id]),
    {
        let zone = self.zone_map.get(&id).unwrap();
        match zone.content {
            ZoneContent::Tab(_) | ZoneContent::Layout(..) => true,
            _ => false,
        }
    }

    /// Whether, walking up from zone `id` (it included) through known zones, some zone holds
    /// subzones.
    pub fn has_nearest_cycle(&self, id: ZoneId) -> (r: bool)
        requires
            self.wf(),
        ensures
            r == nearest_cycle_of(self.zones(), id) is Some,
    {
        let mut next = id;
        loop
            invariant
                self.wf(),
                nearest_cycle_of(self.zones(), next) == nearest_cycle_of(self.zones(), id),
            decreases next,
        {
            match self.zone_map.get(&next) {
                None => {
                    return false;
                },
                Some(zone) => {
                    proof {
                        assert(self.zones().contains_key(next));
                        assert(zone_ok(self.zones(), next, self.next_id));
                    }
                    match zone.content {
                        ZoneContent::Tab(_) | ZoneContent::Layout(..) => {
                            return true;
                        },
                        _ => {},
                    }
                    match zone.parent {
                        Some(p) => next = p,
                        None => {
                            return false;
                        },
                    }
                },
            }
        }
    }

    /// The nearest zone that holds subzones, from `id` itself up through its parents.
    pub fn nearest_cycle(&self, id: ZoneId) -> (r: ZoneId)
        requires
            self.wf(),
            nearest_cycle_of(self.zones(), id) is Some,
        ensures
            nearest_cycle_of(self.zones(), id) == Some(r),
    {
        let mut next = id;
        loop
            invariant
                self.wf(),
                nearest_cycle_of(self.zones(), next) == nearest_cycle_of(self.zones(), id),
                nearest_cycle_of(self.zones(), id) is Some,
            decreases next,
        {
            let zone = self.zone_map.get(&next).unwrap();
            match zone.content {
                ZoneContent::Tab(_) | ZoneContent::Layout(..) => {
                    return next;
                },
                _ => {},
            }
            next = zone.parent.unwrap();
        }
    }

    /// The nearest parent up from zone `id` that holds subzones, if any.
    pub fn next_cycle(&self, id: ZoneId) -> (r: Option<ZoneId>)
        requires
            self.wf(),
            ancestry_ok(self.zones(), id),
        ensures
            r == next_cycle_of(self.zones(), id),
    {
        let mut cur = id;
        loop
            invariant
                self.wf(),
                ancestry_ok(self.zones(), cur),
                next_cycle_of(self.zones(), cur) == next_cycle_of(self.zones(), id),
            decreases cur,
        {
            match self.parent_id(cur) {
                Some(next_id) => {
                    let zone = self.zone_map.get(&next_id).unwrap();
                    match zone.content {
                        ZoneContent::Tab(_) | ZoneContent::Layout(..) => {
                            return Some(next_id);
                        },
                        _ => cur = next_id,
                    }
                },
                None => {
                    return None;
                },
            }
        }
    }
}

impl<D> ZoneManager<D> {
    /// Whether some parent up from zone `id` is a tab, or a layout of a persistent kind.
    pub fn is_within_persisent(&self, id: ZoneId) -> (r: bool)
        requires
            self.wf(),
            ancestry_ok(self.zones(), id),
        ensures
            r == within_persistent(self.zones(), id),
    {
        let mut cur = id;
        loop
            invariant
                self.wf(),
                ancestry_ok(self.zones(), cur),
                within_persistent(self.zones(), cur) == within_persistent(self.zones(), id),
            decreases cur,
        {
            match self.parent_id(cur) {
                Some(next_id) => {
                    let zone = self.zone_map.get(&next_id).unwrap();
                    match &zone.content {
                        ZoneContent::Tab(_) => {
                            return true;
                        },
                        ZoneContent::Layout(layout, _) => {
                            if layout.config().persistent {
                                return true;
                            }
                        },
                        _ => {},
                    }
                    cur = next_id;
                },
                None => {
                    return false;
                },
            }
        }
    }

    /// The nearest parent up from zone `id` that holds subzones, with its configuration when
    /// it is a layout.
    pub fn cycle_config(&self, id: ZoneId) -> (r: Option<(ZoneId, Option<LayoutConfig>)>)
        requires
            self.wf(),
            ancestry_ok(self.zones(), id),
        ensures
            r == match next_cycle_of(self.zones(), id) {
                Some(c) => Some(
                    (
                        c,
                        match self.zones()[c].holds() {
                            ZoneContent::Layout(l, _) => Some(config_of(l.current())),
                            _ => None,
                        },
                    ),
                ),
                None => None,
            },
    {
        proof {
            lemma_next_cycle_known(self.zones(), id);
        }
        match self.next_cycle(id) {
            Some(cycle) => {
                let zone = self.zone(cycle);
                Some((cycle, zone.config()))
            },
            None => None,
        }
    }

    /// The configuration of the layout nearest to zone `id` (it included); none when that is
    /// a tab.
    pub fn active_layoutconfig(&self, id: ZoneId) -> (r: Option<LayoutConfig>)
        requires
            self.wf(),
            nearest_cycle_of(self.zones(), id) is Some,
        ensures
            r == match self.zones()[nearest_cycle_of(self.zones(), id)->0].holds() {
                ZoneContent::Layout(l, _) => Some(config_of(l.current())),
                _ => None,
            },
    {
        let cycle = self.nearest_cycle(id);
        proof {
            lemma_nearest_cycle_known(self.zones(), id);
        }
        self.zone(cycle).config()
    }

    /// The data of the kind the layout nearest to zone `id` (it included) was in before; none
    /// when that is a tab.
    pub fn active_prev_data(&self, id: ZoneId) -> (r: Option<&D>)
        requires
            self.wf(),
            nearest_cycle_of(self.zones(), id) is Some,
        ensures
            match self.zones()[nearest_cycle_of(self.zones(), id)->0].holds() {
                ZoneContent::Layout(l, _) => r matches Some(d) && *d == l.data_of(l.previous()),
                _ => r is None,
            },
    {
        let cycle = self.nearest_cycle(id);
        proof {
            lemma_nearest_cycle_known(self.zones(), id);
        }
        self.zone(cycle).prev_data()
    }

    /// The data of the kind the layout nearest to zone `id` (it included) is in; none when
    /// that is a tab.
    pub fn active_data(&self, id: ZoneId) -> (r: Option<&D>)
        requires
            self.wf(),
            nearest_cycle_of(self.zones(), id) is Some,
        ensures
            match self.zones()[nearest_cycle_of(self.zones(), id)->0].holds() {
                ZoneContent::Layout(l, _) => r matches Some(d) && *d == l.data_of(l.current()),
                _ => r is None,
            },
    {
        let cycle = self.nearest_cycle(id);
        proof {
            lemma_nearest_cycle_known(self.zones(), id);
        }
        self.zone(cycle).data()
    }
}

/// The nearest zone holding subzones is a known zone that holds subzones.
pub proof fn lemma_nearest_cycle_known<D>(zones: Map<ZoneId, Zone<D>>, id: ZoneId)
    ensures
        nearest_cycle_of(zones, id) matches Some(c) ==> zones.contains_key(c) && is_cycle_zone(
            zones[c],
        ) && c <= id,
    decreases id,
{
    if zones.contains_key(id) && !is_cycle_zone(zones[id]) {
        if let Some(p) = zones[id].parent_zone() {
            if p < id {
                lemma_nearest_cycle_known(zones, p);
            }
        }
    }
}

/// The nearest parent holding subzones is a known zone that holds subzones, made before `id`.
pub proof fn lemma_next_cycle_known<D>(zones: Map<ZoneId, Zone<D>>, id: ZoneId)
    ensures
        next_cycle_of(zones, id) matches Some(c) ==> zones.contains_key(c) && is_cycle_zone(
            zones[c],
        ) && c < id,
    decreases id,
{
    if let Some(p) = parent_of(zones, id) {
        if p < id && !(zones.contains_key(p) && is_cycle_zone(zones[p])) {
            lemma_next_cycle_known(zones, p);
        }
    }
}

/// `after` is `before` with `child` taken in among its subzones, after the active one, and
/// nothing else changed.
pub open spec fn adopted<D>(before: Zone<D>, after: Zone<D>, child: ZoneId) -> bool {
    &&& before.holds().subzones() is Some
    &&& after.holds().subzones() is Some
    &&& after == before.holding(before.holds().with_subzones(after.holds().subzones()->0))
    &&& crate::cycle::inserted(
        before.holds().subzones()->0,
        after.holds().subzones()->0,
        InsertPos::AfterActive,
        child,
    )
}

/// Takes `child`, made after every subzone of `parent`, in among the subzones, after the
/// active one.
fn adopt(zones: &mut Cycle<ZoneId>, child: ZoneId, parent: ZoneId)
    requires
        old(zones).wf(),
        active_in_range(*old(zones)),
        old(zones).elems().len() <= child,
        child < u32::MAX,
        forall|i: int| 0 <= i < old(zones).elems().len() ==> #[trigger] old(zones).elems()[i] < child,
    ensures
        crate::cycle::inserted(*old(zones), *final(zones), InsertPos::AfterActive, child),
{
    proof {
        let c = *zones;
        assert forall|i: int| 0 <= i < c.ids().len() implies c.ids()[i] != child by {
            assert(c.ids()[i] == c.elems()[i]);
        }
    }
    zones.insert_at(&InsertPos::AfterActive, child);
}

impl<D> ZoneManager<D> {
    /// Makes a zone under `parent` holding `content` and gives back its identifier, the next
    /// fresh one. The zone is placed freely, undecorated, visible and at the origin with no
    /// dimensions; a known parent takes it in among its subzones, after the active one.
    pub fn new_zone(&mut self, parent: Option<ZoneId>, content: ZoneContent<D>) -> (r: ZoneId)
        requires
            old(self).wf(),
            old(self).fresh() < u32::MAX,
            parent matches Some(p) ==> p < old(self).fresh() && (old(self).zones().contains_key(p)
                ==> is_cycle_zone(old(self).zones()[p])),
            content.subzones() matches Some(c) ==> c.wf() && c.elems().len() == 0
                && active_in_range(c),
            content.layout_ok(),
        ensures
            final(self).wf(),
            r == old(self).fresh(),
            final(self).fresh() == old(self).fresh() + 1,
            final(self).copies_data() == old(self).copies_data(),
            final(self).zones().contains_key(r),
            final(self).zones()[r] == Zone::fresh_zone(r, parent, content, empty_region()),
            forall|k: ZoneId| k != r ==> (#[trigger] final(self).zones().contains_key(k)
                <==> old(self).zones().contains_key(k)),
            forall|k: ZoneId|
                k != r && old(self).zones().contains_key(k) && parent != Some(k)
                    ==> #[trigger] final(self).zones()[k] == old(self).zones()[k],
            parent matches Some(p) ==> (old(self).zones().contains_key(p) ==> adopted(
                old(self).zones()[p],
                final(self).zones()[p],
                r,
            )),
            parent matches Some(p) ==> (old(self).zones().contains_key(p) ==> next_cycle_of(
                final(self).zones(),
                r,
            ) == Some(p) && (content is Client ==> nearest_cycle_of(final(self).zones(), r)
                == Some(p))),
    {
        let id = self.next_id;
        let zone = Zone::new(id, parent, content, Region::new(0, 0, 0, 0));
        let ghost zones0 = self.zone_map@;
        if let Some(p) = parent {
            if let Some(mut pzone) = self.zone_map.remove(&p) {
                let ghost before = pzone;
                proof {
                    assert(old(self).zones().contains_key(p));
                    assert(zone_ok(zones0, p, id));
                }
                match &mut pzone.content {
                    ZoneContent::Tab(zones) => adopt(zones, id, p),
                    ZoneContent::Layout(_, zones) => adopt(zones, id, p),
                    _ => {},
                }
                proof {
                    let c0 = before.holds().subzones()->0;
                    let c1 = pzone.holds().subzones()->0;
                    crate::cycle::law_insertion_keeps_active_in_range(
                        c0,
                        c1,
                        InsertPos::AfterActive,
                        id,
                    );
                    assert(pzone == before.holding(before.holds().with_subzones(c1)));
                }
                self.zone_map.insert(p, pzone);
            }
        }
        self.zone_map.insert(id, zone);
        self.next_id = self.next_id + 1;
        proof {
            let zs = self.zone_map@;
            let fresh = self.next_id;
            assert forall|k: ZoneId| #[trigger] zs.contains_key(k) implies zone_ok(zs, k, fresh) by {
                if k == id {
                } else {
                    assert(old(self).zones().contains_key(k));
                    assert(zone_ok(zones0, k, id));
                    if parent == Some(k) {
                        let c0 = zones0[k].holds().subzones()->0;
                        let c1 = zs[k].holds().subzones()->0;
                        assert forall|i: int| 0 <= i < c1.elems().len() implies k < #[trigger] c1.elems()[i]
                            < fresh && zs.contains_key(c1.elems()[i]) by {
                            let q = c0.insert_target(InsertPos::AfterActive)->0;
                            if i < q {
                                assert(c1.elems()[i] == c0.elems()[i]);
                            } else if i > q {
                                assert(c1.elems()[i] == c0.elems()[i - 1]);
                            }
                        }
                    } else {
                        if let Some(c) = zs[k].holds().subzones() {
                            assert forall|i: int| 0 <= i < c.elems().len() implies k < #[trigger] c.elems()[i]
                                < fresh && zs.contains_key(c.elems()[i]) by {
                                assert(zones0.contains_key(c.elems()[i]));
                            }
                        }
                    }
                }
            }
            if let Some(p) = parent {
                if zones0.contains_key(p) {
                    assert(zs[id].parent_zone() == Some(p));
                    assert(parent_of(zs, id) == Some(p));
                    assert(zs.contains_key(p) && is_cycle_zone(zs[p]));
                    assert(next_cycle_of(zs, id) == Some(p));
                    assert(nearest_cycle_of(zs, p) == Some(p));
                }
            }
        }
        id
    }
}

/// Lets go of subzone `child`, where it is among the subzones.
fn release(zones: &mut Cycle<ZoneId>, child: ZoneId)
    requires
        old(zones).wf(),
        active_in_range(*old(zones)),
    ensures
        crate::cycle::removed(*old(zones), *final(zones), Selector::AtIdent(child)),
        active_in_range(*final(zones)),
        final(zones).elems().len() <= old(zones).elems().len(),
        forall|i: int|
            0 <= i < final(zones).elems().len() ==> old(zones).elems().contains(
                #[trigger] final(zones).elems()[i],
            ),
{
    let ghost before = *zones;
    zones.remove_for(&Selector::AtIdent(child));
    proof {
        if before.selected(Selector::AtIdent(child)) is Some {
            let p = before.target(Selector::AtIdent(child))->0;
            crate::cycle::law_removal_keeps_active_in_range(before, p);
            assert forall|i: int| 0 <= i < zones.elems().len() implies before.elems().contains(
                #[trigger] zones.elems()[i],
            ) by {
                if i < p {
                    assert(zones.elems()[i] == before.elems()[i]);
                } else {
                    assert(zones.elems()[i] == before.elems()[i + 1]);
                }
            }
        } else {
            assert forall|i: int| 0 <= i < zones.elems().len() implies before.elems().contains(
                #[trigger] zones.elems()[i],
            ) by {
                assert(zones.elems()[i] == before.elems()[i]);
            }
        }
    }
}

/// `after` is `before` with subzone `child` let go of, and nothing else changed.
pub open spec fn released<D>(before: Zone<D>, after: Zone<D>, child: ZoneId) -> bool {
    &&& before.holds().subzones() is Some
    &&& after.holds().subzones() is Some
    &&& after == before.holding(before.holds().with_subzones(after.holds().subzones()->0))
    &&& crate::cycle::removed(
        before.holds().subzones()->0,
        after.holds().subzones()->0,
        Selector::AtIdent(child),
    )
}

impl<D> ZoneManager<D> {
    /// Lets the nearest zone holding subzones, from `id` itself up, let go of zone `id` (which
    /// changes nothing where that is `id` itself). The zone itself stays known.
    pub fn remove_zone(&mut self, id: ZoneId)
        requires
            old(self).wf(),
            nearest_cycle_of(old(self).zones(), id) is Some,
        ensures
            final(self).wf(),
            final(self).fresh() == old(self).fresh(),
            final(self).copies_data() == old(self).copies_data(),
            final(self).zones().dom() == old(self).zones().dom(),
            forall|k: ZoneId|
                old(self).zones().contains_key(k) && Some(k) != nearest_cycle_of(old(self).zones(), id)
                    ==> #[trigger] final(self).zones()[k] == old(self).zones()[k],
            released(
                old(self).zones()[nearest_cycle_of(old(self).zones(), id)->0],
                final(self).zones()[nearest_cycle_of(old(self).zones(), id)->0],
                id,
            ),
    {
        let cycle = self.nearest_cycle(id);
        proof {
            lemma_nearest_cycle_known(self.zones(), id);
            assert(old(self).zones().contains_key(cycle));
        }
        let ghost zones0 = self.zone_map@;
        let mut zone = self.zone_map.remove(&cycle).unwrap();
        let ghost before = zone;
        match &mut zone.content {
            ZoneContent::Tab(zones) => release(zones, id),
            ZoneContent::Layout(_, zones) => release(zones, id),
            _ => {},
        }
        proof {
            assert(zone == before.holding(before.holds().with_subzones(zone.holds().subzones()->0)));
        }
        self.zone_map.insert(cycle, zone);
        proof {
            let zs = self.zone_map@;
            assert(zs.dom() =~= zones0.dom());
            assert forall|k: ZoneId| #[trigger] zs.contains_key(k) implies zone_ok(zs, k, self.next_id) by {
                assert(old(self).zones().contains_key(k));
                assert(zone_ok(zones0, k, self.next_id));
                if let Some(c) = zs[k].holds().subzones() {
                    let c0 = zones0[k].holds().subzones()->0;
                    assert forall|i: int| 0 <= i < c.elems().len() implies k < #[trigger] c.elems()[i]
                        < self.next_id && zs.contains_key(c.elems()[i]) by {
                        if k == cycle {
                            let j = choose|j: int| 0 <= j < c0.elems().len() && c0.elems()[j] == c.elems()[i];
                            assert(c0.elems()[j] == c.elems()[i]);
                        }
                    }
                }
            }
        }
    }
}

impl<D: Copy> ZoneManager<D> {
    /// Switches the layout nearest to zone `id` (it included) to kind `kind` and gives back the
    /// kind it had; where the manager copies data, the new kind takes the data of the kind
    /// left. An early stop when the layout has that kind already, an invalid caller when the
    /// nearest zone holding subzones is a tab; either way nothing changes.
    pub fn set_kind(&mut self, id: ZoneId, kind: LayoutKind) -> (r: Result<LayoutKind, StateChangeError>)
        requires
            old(self).wf(),
            nearest_cycle_of(old(self).zones(), id) is Some,
        ensures
            final(self).wf(),
            final(self).fresh() == old(self).fresh(),
            final(self).copies_data() == old(self).copies_data(),
            final(self).zones().dom() == old(self).zones().dom(),
            forall|k: ZoneId|
                old(self).zones().contains_key(k) && Some(k) != nearest_cycle_of(old(self).zones(), id)
                    ==> #[trigger] final(self).zones()[k] == old(self).zones()[k],
            ({
                let c = nearest_cycle_of(old(self).zones(), id)->0;
                kind_switched(old(self).zones()[c], final(self).zones()[c], kind, old(self).copies_data(), r)
            }),
    {
        let copy = self.persistent_data_copy;
        let cycle = self.nearest_cycle(id);
        proof {
            lemma_nearest_cycle_known(self.zones(), id);
            assert(old(self).zones().contains_key(cycle));
            assert(zone_ok(old(self).zones(), cycle, self.next_id));
        }
        let ghost zones0 = self.zone_map@;
        let mut zone = self.zone_map.remove(&cycle).unwrap();
        let r = zone.set_kind(kind);
        match r {
            Ok(_) => {
                if copy {
                    let prev_data = *zone.prev_data().unwrap();
                    match &mut zone.content {
                        ZoneContent::Layout(layout, _) => {
                            let data = layout.data_mut();
                            *data = prev_data;
                        },
                        _ => {},
                    }
                }
            },
            Err(_) => {},
        }
        self.zone_map.insert(cycle, zone);
        proof {
            let zs = self.zone_map@;
            assert(zs.dom() =~= zones0.dom());
            assert forall|k: ZoneId| #[trigger] zs.contains_key(k) implies zone_ok(zs, k, self.next_id) by {
                assert(old(self).zones().contains_key(k));
                assert(zone_ok(zones0, k, self.next_id));
            }
        }
        r
    }

    /// Switches the layout nearest to zone `id` (it included) back to its previous kind, as
    /// `set_kind` does; an invalid caller, changing nothing, when that zone is a tab.
    pub fn set_prev_kind(&mut self, id: ZoneId) -> (r: Result<LayoutKind, StateChangeError>)
        requires
            old(self).wf(),
            nearest_cycle_of(old(self).zones(), id) is Some,
        ensures
            final(self).wf(),
            final(self).fresh() == old(self).fresh(),
            final(self).copies_data() == old(self).copies_data(),
            final(self).zones().dom() == old(self).zones().dom(),
            forall|k: ZoneId|
                old(self).zones().contains_key(k) && Some(k) != nearest_cycle_of(old(self).zones(), id)
                    ==> #[trigger] final(self).zones()[k] == old(self).zones()[k],
            ({
                let c = nearest_cycle_of(old(self).zones(), id)->0;
                match old(self).zones()[c].holds() {
                    ZoneContent::Layout(l, _) => kind_switched(
                        old(self).zones()[c],
                        final(self).zones()[c],
                        l.previous(),
                        old(self).copies_data(),
                        r,
                    ),
                    _ => r == Err::<LayoutKind, StateChangeError>(StateChangeError::InvalidCaller)
                        && final(self).zones()[c] == old(self).zones()[c],
                }
            }),
    {
        let cycle = self.nearest_cycle(id);
        proof {
            lemma_nearest_cycle_known(self.zones(), id);
        }
        match self.zone(cycle).prev_kind() {
            Ok(kind) => self.set_kind(id, kind),
            Err(e) => Err(e),
        }
    }
}

/// `after` is what switching layout zone `before` to kind `kind` makes of it, with the data of
/// the kind left copied to the new kind where `copies`, and `r` what the switch gives back;
/// any other zone gives an invalid caller and stays as it is.
pub open spec fn kind_switched<D>(before: Zone<D>, after: Zone<D>, kind: LayoutKind, copies: bool, r: Result<LayoutKind, StateChangeError>) -> bool {
    match before.holds() {
        ZoneContent::Layout(l, c) => {
            &&& after.holds() matches ZoneContent::Layout(l2, c2)
            &&& c2 == c
            &&& after == before.holding(ZoneContent::Layout(l2, c2))
            &&& if kind == l.current() {
                &&& r == Err::<LayoutKind, StateChangeError>(StateChangeError::EarlyStop)
                &&& l2.current() == l.current() && l2.previous() == l.previous()
                &&& l2.all_data() == l.all_data()
            } else {
                &&& r == Ok::<LayoutKind, StateChangeError>(l.current())
                &&& l2.current() == kind && l2.previous() == l.current()
                &&& l2.all_data() == if copies {
                    l.all_data().update(kind_position(kind), l.data_of(l.current()))
                } else {
                    l.all_data()
                }
            }
        },
        _ => r == Err::<LayoutKind, StateChangeError>(StateChangeError::InvalidCaller) && after
            == before,
    }
}

/// Two trees of the same shape: the same zones, each with the same parent and the same
/// subzones in the same order; they differ at most in which subzone is active (and the focus
/// history behind it).
pub open spec fn same_shape<D>(a: Map<ZoneId, Zone<D>>, b: Map<ZoneId, Zone<D>>) -> bool {
    &&& a.dom() == b.dom()
    &&& forall|k: ZoneId| #[trigger]
        a.contains_key(k) ==> {
            &&& b[k].parent_zone() == a[k].parent_zone()
            &&& (a[k].holds().subzones() is Some <==> b[k].holds().subzones() is Some)
            &&& (a[k].holds().subzones() matches Some(c) ==> b[k] == a[k].holding(
                a[k].holds().with_subzones(b[k].holds().subzones()->0),
            ) && b[k].holds().subzones()->0.elems() == c.elems())
            &&& (a[k].holds().subzones() is None ==> b[k] == a[k])
        }
}

/// Zone `k` is one of the zones holding subzones up from zone `id`.
pub open spec fn cycle_above<D>(zones: Map<ZoneId, Zone<D>>, id: ZoneId, k: ZoneId) -> bool
    decreases id,
{
    match next_cycle_of(zones, id) {
        Some(c) => c == k || (c < id && cycle_above(zones, c, k)),
        None => false,
    }
}

/// Up from zone `id`, each zone holding subzones has the one below it on the way active, where
/// it holds it.
pub open spec fn focused_path<D>(zones: Map<ZoneId, Zone<D>>, id: ZoneId) -> bool
    decreases id,
{
    match next_cycle_of(zones, id) {
        Some(c) => {
            &&& c < id
            &&& zones[c].holds().subzones() matches Some(cy) && (cy.elems().contains(id) ==> 0
                <= cy.active() < cy.elems().len() && cy.elems()[cy.active() as int] == id)
            &&& focused_path(zones, c)
        },
        None => true,
    }
}

/// Trees of the same shape agree on every walk up through parents.
pub proof fn lemma_same_shape_walks<D>(a: Map<ZoneId, Zone<D>>, b: Map<ZoneId, Zone<D>>, id: ZoneId)
    requires
        same_shape(a, b),
    ensures
        next_cycle_of(a, id) == next_cycle_of(b, id),
        ancestry_ok(a, id) == ancestry_ok(b, id),
        forall|k: ZoneId| cycle_above(a, id, k) == cycle_above(b, id, k),
    decreases id,
{
    if a.contains_key(id) {
        assert(b.contains_key(id));
    } else {
        assert(!b.contains_key(id));
    }
    if let Some(p) = parent_of(a, id) {
        if p < id {
            if a.contains_key(p) {
                assert(b.contains_key(p));
            } else {
                assert(!b.contains_key(p));
            }
            lemma_same_shape_walks(a, b, p);
            lemma_next_cycle_known(a, id);
            if let Some(c) = next_cycle_of(a, id) {
                lemma_same_shape_walks(a, b, c);
            }
        }
    }
    assert(next_cycle_of(a, id) == next_cycle_of(b, id));
    assert forall|k: ZoneId| cycle_above(a, id, k) == cycle_above(b, id, k) by {
        match next_cycle_of(a, id) {
            Some(c) => {
                if c < id {
                    assert(cycle_above(a, c, k) == cycle_above(b, c, k));
                }
            },
            None => {},
        }
    }
}

/// Activating subzone `child`: it becomes the active subzone, where it is one.
fn focus_on(zones: &mut Cycle<ZoneId>, child: ZoneId)
    requires
        old(zones).wf(),
        active_in_range(*old(zones)),
    ensures
        final(zones).wf(),
        active_in_range(*final(zones)),
        final(zones).elems() == old(zones).elems(),
        final(zones).elems().contains(child) ==> 0 <= final(zones).active()
            < final(zones).elems().len() && final(zones).elems()[final(zones).active() as int]
            == child,
{
    let ghost before = *zones;
    zones.activate_for(&Selector::AtIdent(child));
    proof {
        if before.elems().contains(child) {
            let j = choose|j: int| 0 <= j < before.elems().len() && before.elems()[j] == child;
            assert(before.ids()[j] == child);
        }
    }
}

impl<D> ZoneManager<D> {
    /// Makes zone `id` the active subzone of the zone holding it, and so on up: each zone
    /// holding subzones up from `id` gets the subzone on the way active, where it holds it.
    pub fn activate_zone(&mut self, id: ZoneId)
        requires
            old(self).wf(),
            ancestry_ok(old(self).zones(), id),
        ensures
            final(self).wf(),
            final(self).fresh() == old(self).fresh(),
            final(self).copies_data() == old(self).copies_data(),
            same_shape(old(self).zones(), final(self).zones()),
            forall|k: ZoneId|
                old(self).zones().contains_key(k) && !cycle_above(old(self).zones(), id, k)
                    ==> #[trigger] final(self).zones()[k] == old(self).zones()[k],
            focused_path(final(self).zones(), id),
        decreases id,
    {
        proof {
            lemma_next_cycle_known(self.zones(), id);
        }
        match self.next_cycle(id) {
            Some(cycle_id) => {
                proof {
                    assert(old(self).zones().contains_key(cycle_id));
                    assert(zone_ok(old(self).zones(), cycle_id, self.next_id));
                }
                let ghost zones0 = self.zone_map@;
                let mut zone = self.zone_map.remove(&cycle_id).unwrap();
                let ghost before = zone;
                match &mut zone.content {
                    ZoneContent::Tab(zones) => focus_on(zones, id),
                    ZoneContent::Layout(_, zones) => focus_on(zones, id),
                    _ => {},
                }
                self.zone_map.insert(cycle_id, zone);
                proof {
                    let zs = self.zone_map@;
                    assert(zs.dom() =~= zones0.dom());
                    assert(zone == before.holding(before.holds().with_subzones(zone.holds().subzones()->0)));
                    assert forall|k: ZoneId| #[trigger] zs.contains_key(k) implies zone_ok(zs, k, self.next_id) by {
                        assert(old(self).zones().contains_key(k));
                        assert(zone_ok(zones0, k, self.next_id));
                    }
                    assert(same_shape(zones0, zs));
                    lemma_same_shape_walks(zones0, zs, id);
                    lemma_ancestry_up(zones0, id, cycle_id);
                    lemma_same_shape_walks(zones0, zs, cycle_id);
                }
                let ghost mid = self.zone_map@;
                self.activate_zone(cycle_id);
                proof {
                    let zs = self.zone_map@;
                    lemma_same_shape_trans(zones0, mid, zs);
                    lemma_same_shape_walks(zones0, zs, id);
                    lemma_same_shape_walks(mid, zs, cycle_id);
                    lemma_cycles_above_smaller(mid, cycle_id);
                    assert(!cycle_above(mid, cycle_id, cycle_id));
                    assert(zs[cycle_id] == mid[cycle_id]);
                    assert forall|k: ZoneId|
                        old(self).zones().contains_key(k) && !cycle_above(old(self).zones(), id, k)
                            implies #[trigger] zs[k] == old(self).zones()[k] by {
                        assert(k != cycle_id);
                        lemma_same_shape_walks(zones0, mid, cycle_id);
                        assert(!cycle_above(mid, cycle_id, k));
                    }
                }
            },
            None => {},
        }
    }
}

/// A known parent of a zone whose ancestry is known has known ancestry too.
pub proof fn lemma_ancestry_up<D>(zones: Map<ZoneId, Zone<D>>, id: ZoneId, c: ZoneId)
    requires
        ancestry_ok(zones, id),
        next_cycle_of(zones, id) == Some(c),
    ensures
        ancestry_ok(zones, c),
        c < id,
    decreases id,
{
    if let Some(p) = parent_of(zones, id) {
        if p != c {
            lemma_ancestry_up(zones, p, c);
        }
    }
}

/// The zones holding subzones up from `id` were made before it.
pub proof fn lemma_cycles_above_smaller<D>(zones: Map<ZoneId, Zone<D>>, id: ZoneId)
    ensures
        forall|k: ZoneId| cycle_above(zones, id, k) ==> k < id,
    decreases id,
{
    lemma_next_cycle_known(zones, id);
    if let Some(c) = next_cycle_of(zones, id) {
        lemma_cycles_above_smaller(zones, c);
        assert forall|k: ZoneId| cycle_above(zones, id, k) implies k < id by {
            if k != c {
                assert(cycle_above(zones, c, k));
            }
        }
    }
}

/// Having the same shape is transitive.
pub proof fn lemma_same_shape_trans<D>(a: Map<ZoneId, Zone<D>>, b: Map<ZoneId, Zone<D>>, c: Map<ZoneId, Zone<D>>)
    requires
        same_shape(a, b),
        same_shape(b, c),
    ensures
        same_shape(a, c),
{
    assert forall|k: ZoneId| #[trigger] a.contains_key(k) implies {
        &&& c[k].parent_zone() == a[k].parent_zone()
        &&& (a[k].holds().subzones() is Some <==> c[k].holds().subzones() is Some)
        &&& (a[k].holds().subzones() matches Some(cy) ==> c[k] == a[k].holding(
            a[k].holds().with_subzones(c[k].holds().subzones()->0),
        ) && c[k].holds().subzones()->0.elems() == cy.elems())
        &&& (a[k].holds().subzones() is None ==> c[k] == a[k])
    } by {
        assert(b.contains_key(k));
        if a[k].holds().subzones() is Some {
            lemma_holding_twice(a[k], b[k], c[k]);
        }
    }
}

/// Replacing the subzones twice is replacing them once.
pub proof fn lemma_holding_twice<D>(a: Zone<D>, b: Zone<D>, c: Zone<D>)
    requires
        a.holds().subzones() is Some,
        b == a.holding(a.holds().with_subzones(b.holds().subzones()->0)),
        c == b.holding(b.holds().with_subzones(c.holds().subzones()->0)),
    ensures
        c == a.holding(a.holds().with_subzones(c.holds().subzones()->0)),
{
}

/// The subzones of zone `id` (none where it is unknown or a client); with `recurse`, followed
/// by the subzones of each of them in turn, all the way down. Identifiers at or beyond
/// `fresh` are not followed.
pub open spec fn gathered<D>(zones: Map<ZoneId, Zone<D>>, fresh: ZoneId, id: ZoneId, recurse: bool) -> Seq<ZoneId>
    decreases fresh - id, 1int, 0int,
{
    if !zones.contains_key(id) {
        Seq::empty()
    } else {
        match zones[id].holds().subzones() {
            None => Seq::empty(),
            Some(c) => if recurse {
                c.elems() + gathered_each(zones, fresh, c.elems(), id)
            } else {
                c.elems()
            },
        }
    }
}

/// The subzones, all the way down, of each of `ids` (subzones of `parent`) in turn.
pub open spec fn gathered_each<D>(zones: Map<ZoneId, Zone<D>>, fresh: ZoneId, ids: Seq<ZoneId>, parent: ZoneId) -> Seq<ZoneId>
    decreases fresh - parent, 0int, ids.len(),
{
    if ids.len() == 0 {
        Seq::empty()
    } else {
        let last = ids.last();
        gathered_each(zones, fresh, ids.drop_last(), parent) + if parent < last <= fresh {
            gathered(zones, fresh, last, true)
        } else {
            Seq::empty()
        }
    }
}

impl<D> ZoneManager<D> {
    /// The subzones of zone `id`, none where it is unknown or a client; with `recurse`,
    /// followed by the subzones of each of them, all the way down.
    pub fn gather_subzones(&self, id: ZoneId, recurse: bool) -> (r: Vec<ZoneId>)
        requires
            self.wf(),
        ensures
            r@ == gathered(self.zones(), self.fresh(), id, recurse),
        decreases self.fresh() - id,
    {
        match self.zone_map.get(&id) {
            Some(zone) => {
                proof {
                    assert(self.zones().contains_key(id));
                    assert(zone_ok(self.zones(), id, self.next_id));
                }
                match &zone.content {
                    ZoneContent::Client(_) => Vec::new(),
                    ZoneContent::Tab(zones) => self.gather_from(zones, id, recurse),
                    ZoneContent::Layout(_, zones) => self.gather_from(zones, id, recurse),
                }
            },
            None => Vec::new(),
        }
    }

    /// The subzones `zones` of zone `id`, followed, with `recurse`, by their own subzones all
    /// the way down.
    fn gather_from(&self, zones: &Cycle<ZoneId>, id: ZoneId, recurse: bool) -> (r: Vec<ZoneId>)
        requires
            self.wf(),
            self.zones().contains_key(id),
            self.zones()[id].holds().subzones() == Some(*zones),
        ensures
            r@ == gathered(self.zones(), self.fresh(), id, recurse),
        decreases self.fresh() - id, 0int,
    {
        proof {
            assert(zone_ok(self.zones(), id, self.next_id));
        }
        let elems = zones.as_vec();
        proof {
            assert(elems@ =~= zones.elems());
        }
        if !recurse {
            return elems;
        }
        let mut all = elems.clone();
        let mut below: Vec<ZoneId> = Vec::new();
        let mut i: usize = 0;
        while i < elems.len()
            invariant
                self.wf(),
                self.zones().contains_key(id),
                self.zones()[id].holds().subzones() == Some(*zones),
                elems@ == zones.elems(),
                all@ == elems@,
                i <= elems@.len(),
                forall|j: int| 0 <= j < elems@.len() ==> id < #[trigger] elems@[j] < self.fresh(),
                below@ == gathered_each(self.zones(), self.fresh(), elems@.take(i as int), id),
            decreases elems@.len() - i,
        {
            let child = elems[i];
            proof {
                assert(elems@.take(i + 1).drop_last() =~= elems@.take(i as int));
                assert(elems@.take(i + 1).last() == child);
            }
            let sub = self.gather_subzones(child, true);
            let mut sub = sub;
            below.append(&mut sub);
            i = i + 1;
        }
        proof {
            assert(elems@.take(elems@.len() as int) =~= elems@);
        }
        all.append(&mut below);
        all
    }
}

/// A change to one aspect of a zone, made as the tree is arranged.
#[derive(Debug, Copy, Clone, PartialEq, Eq, Structural)]
pub enum ZoneChange {
    Visible(bool),
    Region(Region),
    Decoration(Decoration),
    Method(PlacementMethod),
}

impl<D> Zone<D> {
    /// The zone once `change` is made to it.
    pub closed spec fn changed(self, change: ZoneChange) -> Zone<D> {
        match change {
            ZoneChange::Visible(v) => Zone { is_visible: v, ..self },
            ZoneChange::Region(r) => Zone { region: r, ..self },
            ZoneChange::Decoration(d) => Zone { decoration: d, ..self },
            ZoneChange::Method(m) => Zone { method: m, ..self },
        }
    }

    /// Makes `change` to the zone.
    fn change(&mut self, change: ZoneChange)
        ensures
            *final(self) == old(self).changed(change),
    {
        match change {
            ZoneChange::Visible(v) => self.is_visible = v,
            ZoneChange::Region(r) => self.region = r,
            ZoneChange::Decoration(d) => self.decoration = d,
            ZoneChange::Method(m) => self.method = m,
        }
    }

    /// Whether the zone is visible.
    pub fn is_visible(&self) -> (r: bool)
        ensures
            r == self.visible(),
    {
        self.is_visible
    }
}

impl<D> ZoneManager<D> {
    /// Makes `change` to zone `id`, where it is known; nothing else changes.
    pub fn change_zone(&mut self, id: ZoneId, change: ZoneChange)
        requires
            old(self).wf(),
        ensures
            final(self).wf(),
            final(self).fresh() == old(self).fresh(),
            final(self).copies_data() == old(self).copies_data(),
            final(self).zones() == if old(self).zones().contains_key(id) {
                old(self).zones().insert(id, old(self).zones()[id].changed(change))
            } else {
                old(self).zones()
            },
    {
        let ghost zones0 = self.zone_map@;
        if let Some(mut zone) = self.zone_map.remove(&id) {
            zone.change(change);
            self.zone_map.insert(id, zone);
            proof {
                let zs = self.zone_map@;
                assert(zs =~= zones0.insert(id, zones0[id].changed(change)));
                assert forall|k: ZoneId| #[trigger] zs.contains_key(k) implies zone_ok(zs, k, self.next_id) by {
                    assert(old(self).zones().contains_key(k));
                    assert(zone_ok(zones0, k, self.next_id));
                }
            }
        } else {
            proof {
                assert(self.zone_map@ =~= zones0);
            }
        }
    }
}

impl<D> PartialEq for Zone<D> {
    fn eq(&self, other: &Self) -> (r: bool) {
        self.id == other.id
    }
}

impl<D> vstd::std_specs::cmp::PartialEqSpecImpl for Zone<D> {
    open spec fn obeys_eq_spec() -> bool {
        true
    }

    open spec fn eq_spec(&self, other: &Self) -> bool {
        self.identifier() == other.identifier()
    }
}

impl<D> crate::identify::Identify for Zone<D> {
    open spec fn ident(&self) -> crate::identify::Ident {
        self.identifier()
    }

    fn id(&self) -> (r: crate::identify::Ident) {
        self.id
    }
}

/// A zone taken in among a parent's subzones and then let go of again leaves the parent's
/// subzones as they were, and where the parent keeps a focus history and had an active
/// subzone, that subzone is active again.
pub proof fn law_adopt_then_release<D>(before: Zone<D>, with: Zone<D>, after: Zone<D>, child: ZoneId)
    requires
        before.holds().subzones() matches Some(c) && c.wf() && !c.elems().contains(child),
        adopted(before, with, child),
        released(with, after, child),
    ensures
        ({
            let c0 = before.holds().subzones()->0;
            let c2 = after.holds().subzones()->0;
            &&& c2.elems() == c0.elems()
            &&& c0.unwinds() && c0.active() < c0.elems().len() ==> c2.elems()[c2.active() as int]
                == c0.elems()[c0.active() as int]
        }),
{
    let c0 = before.holds().subzones()->0;
    let c1 = with.holds().subzones()->0;
    let q = c0.insert_target(InsertPos::AfterActive)->0;
    assert(!c0.ids().contains(child)) by {
        if c0.ids().contains(child) {
            let j = choose|j: int| 0 <= j < c0.ids().len() && c0.ids()[j] == child;
            assert(c0.elems()[j] == child);
        }
    }
    crate::cycle::law_insert_then_remove_undone(c0, c1, q, child);
    assert(c1.ids()[q] == child);
    c1.lemma_position_of_index(q);
}

/// `after` is layout zone `before` with the data of its current kind replaced by `d`, and
/// nothing else changed; any other zone stays as it is.
pub open spec fn data_set<D>(before: Zone<D>, after: Zone<D>, d: D) -> bool {
    match before.holds() {
        ZoneContent::Layout(l, c) => {
            &&& after.holds() matches ZoneContent::Layout(l2, c2)
            &&& c2 == c
            &&& l2.current() == l.current() && l2.previous() == l.previous()
            &&& l2.all_data() == l.all_data().update(kind_position(l.current()), d)
            &&& after == before.holding(ZoneContent::Layout(l2, c2))
        },
        _ => after == before,
    }
}

impl<D> ZoneManager<D> {
    /// Replaces the data of the kind the layout nearest to zone `id` (it included) is in, and
    /// tells whether it did: where that zone is a tab, nothing changes.
    pub fn set_active_data(&mut self, id: ZoneId, data: D) -> (r: bool)
        requires
            old(self).wf(),
            nearest_cycle_of(old(self).zones(), id) is Some,
        ensures
            final(self).wf(),
            final(self).fresh() == old(self).fresh(),
            final(self).copies_data() == old(self).copies_data(),
            final(self).zones().dom() == old(self).zones().dom(),
            forall|k: ZoneId|
                old(self).zones().contains_key(k) && Some(k) != nearest_cycle_of(old(self).zones(), id)
                    ==> #[trigger] final(self).zones()[k] == old(self).zones()[k],
            ({
                let c = nearest_cycle_of(old(self).zones(), id)->0;
                &&& data_set(old(self).zones()[c], final(self).zones()[c], data)
                &&& r == (old(self).zones()[c].holds() is Layout)
            }),
    {
        let cycle = self.nearest_cycle(id);
        proof {
            lemma_nearest_cycle_known(self.zones(), id);
            assert(old(self).zones().contains_key(cycle));
            assert(zone_ok(old(self).zones(), cycle, self.next_id));
        }
        let ghost zones0 = self.zone_map@;
        let mut zone = self.zone_map.remove(&cycle).unwrap();
        let done = match zone.data_mut() {
            Some(d) => {
                *d = data;
                true
            },
            None => false,
        };
        self.zone_map.insert(cycle, zone);
        proof {
            let zs = self.zone_map@;
            assert(zs.dom() =~= zones0.dom());
            assert forall|k: ZoneId| #[trigger] zs.contains_key(k) implies zone_ok(zs, k, self.next_id) by {
                assert(old(self).zones().contains_key(k));
                assert(zone_ok(zones0, k, self.next_id));
            }
        }
        done
    }
}

/// `after` is `before` with the data of the kind the layout nearest to zone `id` is in replaced
/// by `d`, and nothing else changed.
pub open spec fn data_replaced<D>(before: ZoneManager<D>, after: ZoneManager<D>, id: ZoneId, d: D) -> bool {
    let c = nearest_cycle_of(before.zones(), id)->0;
    &&& after.wf()
    &&& after.fresh() == before.fresh()
    &&& after.copies_data() == before.copies_data()
    &&& after.zones().dom() == before.zones().dom()
    &&& forall|k: ZoneId|
        before.zones().contains_key(k) && k != c ==> #[trigger] after.zones()[k] == before.zones()[k]
    &&& data_set(before.zones()[c], after.zones()[c], d)
}

/// The data of the kind the layout nearest to zone `id` (it included) is in, where that zone is
/// a layout.
pub open spec fn active_layout_data<D>(zones: Map<ZoneId, Zone<D>>, id: ZoneId) -> Option<D> {
    match nearest_cycle_of(zones, id) {
        Some(c) => match zones[c].holds() {
            ZoneContent::Layout(l, _) => Some(l.data_of(l.current())),
            _ => None,
        },
        None => None,
    }
}

/// The data of the kind the layout nearest to zone `id` (it included) was in before, where that
/// zone is a layout.
pub open spec fn active_layout_prev_data<D>(zones: Map<ZoneId, Zone<D>>, id: ZoneId) -> Option<D> {
    match nearest_cycle_of(zones, id) {
        Some(c) => match zones[c].holds() {
            ZoneContent::Layout(l, _) => Some(l.data_of(l.previous())),
            _ => None,
        },
        None => None,
    }
}

/// Two trees with the same zones, each holding the same and under the same parent; they may
/// differ in the zones' regions, decorations, methods and visibility.
pub open spec fn same_tree<D>(a: Map<ZoneId, Zone<D>>, b: Map<ZoneId, Zone<D>>) -> bool {
    &&& a.dom() == b.dom()
    &&& forall|k: ZoneId| #[trigger]
        a.contains_key(k) ==> b[k].holds() == a[k].holds() && b[k].parent_zone()
            == a[k].parent_zone() && b[k].identifier() == a[k].identifier()
}

/// A change to a zone touches only the aspect it names.
pub proof fn lemma_changed<D>(z: Zone<D>, change: ZoneChange)
    ensures
        z.changed(change).holds() == z.holds(),
        z.changed(change).parent_zone() == z.parent_zone(),
        z.changed(change).identifier() == z.identifier(),
        z.changed(change).area() == match change {
            ZoneChange::Region(r) => r,
            _ => z.area(),
        },
        z.changed(change).decorated() == match change {
            ZoneChange::Decoration(d) => d,
            _ => z.decorated(),
        },
        z.changed(change).placement() == match change {
            ZoneChange::Method(m) => m,
            _ => z.placement(),
        },
        z.changed(change).visible() == match change {
            ZoneChange::Visible(v) => v,
            _ => z.visible(),
        },
{
}

/// Every gathered subzone is a known zone made after `id`.
pub proof fn lemma_gathered_known<D>(zones: Map<ZoneId, Zone<D>>, fresh: ZoneId, id: ZoneId, recurse: bool)
    requires
        forall|k: ZoneId| #[trigger] zones.contains_key(k) ==> zone_ok(zones, k, fresh),
    ensures
        forall|i: int|
            0 <= i < gathered(zones, fresh, id, recurse).len() ==> zones.contains_key(
                #[trigger] gathered(zones, fresh, id, recurse)[i],
            ) && id < gathered(zones, fresh, id, recurse)[i],
    decreases fresh - id, 1int, 0int,
{
    if zones.contains_key(id) {
        assert(zone_ok(zones, id, fresh));
        if let Some(c) = zones[id].holds().subzones() {
            if recurse {
                lemma_gathered_each_known(zones, fresh, c.elems(), id);
                let g = gathered(zones, fresh, id, recurse);
                assert forall|i: int| 0 <= i < g.len() implies zones.contains_key(#[trigger] g[i])
                    && id < g[i] by {
                    if i >= c.elems().len() {
                        assert(g[i] == gathered_each(zones, fresh, c.elems(), id)[i - c.elems().len()]);
                    }
                }
            }
        }
    }
}

/// Every subzone gathered below `ids` (known zones made after `parent`) is a known zone made
/// after `parent`.
pub proof fn lemma_gathered_each_known<D>(zones: Map<ZoneId, Zone<D>>, fresh: ZoneId, ids: Seq<ZoneId>, parent: ZoneId)
    requires
        forall|k: ZoneId| #[trigger] zones.contains_key(k) ==> zone_ok(zones, k, fresh),
        forall|i: int| 0 <= i < ids.len() ==> zones.contains_key(#[trigger] ids[i]) && parent < ids[i],
    ensures
        forall|i: int|
            0 <= i < gathered_each(zones, fresh, ids, parent).len() ==> zones.contains_key(
                #[trigger] gathered_each(zones, fresh, ids, parent)[i],
            ) && parent < gathered_each(zones, fresh, ids, parent)[i],
    decreases fresh - parent, 0int, ids.len(),
{
    if ids.len() > 0 {
        let last = ids.last();
        lemma_gathered_each_known(zones, fresh, ids.drop_last(), parent);
        let front = gathered_each(zones, fresh, ids.drop_last(), parent);
        let g = gathered_each(zones, fresh, ids, parent);
        if parent < last <= fresh {
            lemma_gathered_known(zones, fresh, last, true);
        }
        assert forall|i: int| 0 <= i < g.len() implies zones.contains_key(#[trigger] g[i])
            && parent < g[i] by {
            if i < front.len() {
                assert(g[i] == front[i]);
            } else {
                assert(g[i] == gathered(zones, fresh, last, true)[i - front.len()]);
            }
        }
    }
}

/// Trees of the same shape find the same nearest zone holding subzones.
pub proof fn lemma_same_tree_walks<D>(a: Map<ZoneId, Zone<D>>, b: Map<ZoneId, Zone<D>>, id: ZoneId)
    requires
        same_tree(a, b),
    ensures
        nearest_cycle_of(a, id) == nearest_cycle_of(b, id),
    decreases id,
{
    if a.contains_key(id) {
        assert(b.contains_key(id));
        if let Some(p) = a[id].parent_zone() {
            if p < id {
                lemma_same_tree_walks(a, b, p);
            }
        }
    } else {
        assert(!b.contains_key(id));
    }
}

} // verus!
