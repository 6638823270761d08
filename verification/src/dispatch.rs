use vstd::prelude::*;

use crate::client::method_view;
use crate::client::text_matches;
use crate::client::Client;
use crate::client::ClientView;
use crate::compare::MatchMethod;
use crate::cycle::Criterion;
use crate::stack::StackLayer;
use crate::winsys::event::ToggleAction;
use crate::winsys::geometry::fits_i32;
use crate::winsys::geometry::Edge;
use crate::winsys::geometry::Region;
use crate::winsys::input::MouseEventKind;
use crate::winsys::window::Window;
use crate::winsys::window::WindowState;
use crate::winsys::window::WindowType;

verus! {

/// What a mouse event is taken as.
#[derive(Debug, Copy, Clone, PartialEq, Eq, Structural)]
pub enum MouseRoute {
    /// A button was released: any move or resize in progress ends.
    EndGrab,
    /// The pointer moved: a client being moved or resized follows it.
    Drag,
    /// The binding that applies everywhere runs.
    Global,
    /// The binding for the root window runs.
    Root,
    /// The binding for the client under the pointer runs.
    Client,
    /// No binding applies; the client under the pointer takes the focus.
    Focus,
    /// Nothing happens.
    Ignore,
}

/// What a mouse event of `kind` is taken as: a release or a motion first; then a global binding,
/// where one is bound; then, on the root window, a root binding; then, over a managed window, a
/// client binding, else the focus moves to it.
pub open spec fn mouse_route(
    kind: MouseEventKind,
    on_root: bool,
    global_bound: bool,
    root_bound: bool,
    client_bound: bool,
    over_managed: bool,
) -> MouseRoute {
    match kind {
        MouseEventKind::Release => MouseRoute::EndGrab,
        MouseEventKind::Motion => MouseRoute::Drag,
        MouseEventKind::Press => if global_bound {
            MouseRoute::Global
        } else if on_root && root_bound {
            MouseRoute::Root
        } else if !over_managed {
            MouseRoute::Ignore
        } else if client_bound {
            MouseRoute::Client
        } else {
            MouseRoute::Focus
        },
    }
}

/// What a mouse event of `kind` is taken as, given whether it came on the root window, which of
/// its global, root and client bindings are bound, and whether it came over a managed window.
pub fn route_mouse(
    kind: MouseEventKind,
    on_root: bool,
    global_bound: bool,
    root_bound: bool,
    client_bound: bool,
    over_managed: bool,
) -> (r: MouseRoute)
    ensures
        r == mouse_route(kind, on_root, global_bound, root_bound, client_bound, over_managed),
{
    match kind {
        MouseEventKind::Release => {
            return MouseRoute::EndGrab;
        },
        MouseEventKind::Motion => {
            return MouseRoute::Drag;
        },
        MouseEventKind::Press => {},
    }
    if global_bound {
        return MouseRoute::Global;
    }
    if on_root && root_bound {
        return MouseRoute::Root;
    }
    if over_managed {
        if client_bound {
            MouseRoute::Client
        } else {
            MouseRoute::Focus
        }
    } else {
        MouseRoute::Ignore
    }
}

/// The window that takes the focus once a mouse event taken as `route` is handled: after a
/// global or client binding that says it was handled (`handled`), or where no binding applies
/// over a managed window, the window `window` the event came over (for a client binding or none,
/// the managed window), where a window has the focus and it is another one; none otherwise.
pub open spec fn mouse_focus_spec(route: MouseRoute, handled: bool, window: Option<Window>, focus: Option<Window>) -> Option<Window> {
    let moves = match route {
        MouseRoute::Global => handled,
        MouseRoute::Client => handled,
        MouseRoute::Focus => true,
        _ => false,
    };
    if moves && focus is Some && window is Some && window != focus {
        window
    } else {
        None
    }
}

/// The window that takes the focus once a mouse event taken as `route` is handled, given
/// whether its binding said it was handled, the window it came over, and the focused window.
pub fn mouse_focus(route: MouseRoute, handled: bool, window: Option<Window>, focus: Option<Window>) -> (r: Option<Window>)
    ensures
        r == mouse_focus_spec(route, handled, window, focus),
{
    let moves = match route {
        MouseRoute::Global => handled,
        MouseRoute::Client => handled,
        MouseRoute::Focus => true,
        _ => false,
    };
    if moves && focus.is_some() && window.is_some() && window != focus {
        window
    } else {
        None
    }
}

/// The stacking layer of a window that is not managed, by the state and type it prefers: below
/// for a window that prefers to be below, then by type (desktop, dock, notification), then above
/// for one that prefers to be above; none otherwise.
pub open spec fn unmanaged_layer_spec(state: Option<WindowState>, window_type: WindowType) -> Option<StackLayer> {
    if state == Some(WindowState::Below) {
        Some(StackLayer::Below)
    } else if window_type == WindowType::Desktop {
        Some(StackLayer::Desktop)
    } else if window_type == WindowType::Dock {
        Some(StackLayer::Dock)
    } else if window_type == WindowType::Notification {
        Some(StackLayer::Notification)
    } else if state == Some(WindowState::Above) {
        Some(StackLayer::Above)
    } else {
        None
    }
}

/// The stacking layer of a window that is not managed, given the state and type it prefers.
pub fn unmanaged_layer(state: Option<WindowState>, window_type: WindowType) -> (r: Option<StackLayer>)
    ensures
        r == unmanaged_layer_spec(state, window_type),
{
    match (state, window_type) {
        (Some(WindowState::Below), _) => Some(StackLayer::Below),
        (_, WindowType::Desktop) => Some(StackLayer::Desktop),
        (_, WindowType::Dock) => Some(StackLayer::Dock),
        (_, WindowType::Notification) => Some(StackLayer::Notification),
        (Some(WindowState::Above), _) => Some(StackLayer::Above),
        _ => None,
    }
}

/// The strut a dock with region `geometry` is taken to reserve on a screen of region `full`:
/// at the origin, along the top when it spans the full width, along the left when it spans the
/// full height, else along the top when it is wider than high and along the left when it is
/// higher than wide; elsewhere, along the bottom when it ends at the bottom, along the right
/// when it ends at the right. The strut is as wide as the dock is thick.
pub open spec fn dock_strut_spec(geometry: Region, full: Region) -> Option<(Edge, u32)> {
    let (x, y, w, h) = (geometry.pos.x, geometry.pos.y, geometry.dim.w, geometry.dim.h);
    if x == 0 && y == 0 && w == full.dim.w {
        Some((Edge::Top, h as u32))
    } else if x == 0 && y == 0 && h == full.dim.h {
        Some((Edge::Left, w as u32))
    } else if x == 0 && y == 0 && w > h {
        Some((Edge::Top, h as u32))
    } else if x == 0 && y == 0 && w < h {
        Some((Edge::Left, w as u32))
    } else if y == full.dim.h - h {
        Some((Edge::Bottom, h as u32))
    } else if x == full.dim.w - w {
        Some((Edge::Right, w as u32))
    } else {
        None
    }
}

/// Working out a dock's strut stays representable.
pub open spec fn dock_strut_fits(geometry: Region, full: Region) -> bool {
    let at_origin_decided = geometry.pos.x == 0 && geometry.pos.y == 0 && (geometry.dim.w
        == full.dim.w || geometry.dim.h == full.dim.h || geometry.dim.w != geometry.dim.h);
    &&& !at_origin_decided ==> fits_i32(full.dim.h - geometry.dim.h)
    &&& !at_origin_decided && geometry.pos.y != full.dim.h - geometry.dim.h ==> fits_i32(
        full.dim.w - geometry.dim.w,
    )
}

/// The edge and width of the strut a dock with region `geometry` reserves on a screen of
/// region `full`, where it can be told.
pub fn dock_strut(geometry: Region, full: Region) -> (r: Option<(Edge, u32)>)
    requires
        dock_strut_fits(geometry, full),
    ensures
        r == dock_strut_spec(geometry, full),
{
    let x = geometry.pos.x;
    let y = geometry.pos.y;
    let w = geometry.dim.w;
    let h = geometry.dim.h;
    if x == 0 && y == 0 {
        if w == full.dim.w {
            return Some((Edge::Top, h as u32));
        } else if h == full.dim.h {
            return Some((Edge::Left, w as u32));
        } else if w > h {
            return Some((Edge::Top, h as u32));
        } else if w < h {
            return Some((Edge::Left, w as u32));
        }
    }
    if y == full.dim.h - h {
        Some((Edge::Bottom, h as u32))
    } else if x == full.dim.w - w {
        Some((Edge::Right, w as u32))
    } else {
        None
    }
}

/// The action a state request comes to: a toggle removes the state from a fullscreen window
/// and adds it to any other; adding and removing stay as they are.
pub fn resolve_toggle(action: ToggleAction, fullscreen: bool) -> (r: ToggleAction)
    ensures
        r == match action {
            ToggleAction::Toggle => if fullscreen {
                ToggleAction::Remove
            } else {
                ToggleAction::Add
            },
            _ => action,
        },
{
    match action {
        ToggleAction::Toggle => if fullscreen {
            ToggleAction::Remove
        } else {
            ToggleAction::Add
        },
        _ => action,
    }
}

/// Where a jump to `window` lands, and the window it is then taken to have jumped from: a jump
/// to the focused window goes back to the window the last jump came from (where there is one
/// and it is not the focused window itself); any jump while a window has the focus records that
/// window as the one jumped from.
pub open spec fn jump_spec(window: Window, focus: Option<Window>, jumped_from: Option<Window>) -> (Window, Option<Window>) {
    match focus {
        Some(f) => (
            if window == f && jumped_from is Some && jumped_from->0 != f {
                jumped_from->0
            } else {
                window
            },
            Some(f),
        ),
        None => (window, jumped_from),
    }
}

/// Where a jump to `window` lands, given the focused window and the window the last jump came
/// from, and the window it is then taken to have jumped from.
pub fn jump_target(window: Window, focus: Option<Window>, jumped_from: Option<Window>) -> (r: (Window, Option<Window>))
    ensures
        r == jump_spec(window, focus, jumped_from),
{
    match focus {
        Some(f) => {
            let mut target = window;
            if window == f {
                match jumped_from {
                    Some(j) => if j != f {
                        target = j;
                    },
                    None => {},
                }
            }
            (target, Some(f))
        },
        None => (window, jumped_from),
    }
}

/// How a jump picks the client it goes to among the managed ones: by name, class or instance.
#[derive(Debug, Copy, Clone)]
pub enum JumpCriterium<'a> {
    ByName(MatchMethod<&'a str>),
    ByClass(MatchMethod<&'a str>),
    ByInstance(MatchMethod<&'a str>),
}

/// Whether a client of view `v` is one that a jump by `criterium` may go to.
pub open spec fn jump_matches(criterium: JumpCriterium, v: ClientView) -> bool {
    v.managed && match criterium {
        JumpCriterium::ByName(m) => text_matches(v.name, method_view(m)),
        JumpCriterium::ByClass(m) => text_matches(v.class, method_view(m)),
        JumpCriterium::ByInstance(m) => text_matches(v.instance, method_view(m)),
    }
}

/// The candidate a jump by `criterium` goes to among `candidates` (windows of `client_map`,
/// each with the rank of when it was last focused, in the order the clients are walked): of
/// those that match, one of the highest rank, the last such where several share it.
pub open spec fn jump_best(
    client_map: Map<Window, Client>,
    criterium: JumpCriterium,
    candidates: Seq<(Window, u64)>,
) -> Option<(Window, u64)>
    decreases candidates.len(),
{
    if candidates.len() == 0 {
        None
    } else {
        let prev = jump_best(client_map, criterium, candidates.drop_last());
        let last = candidates.last();
        if !jump_matches(criterium, client_map[last.0]@) {
            prev
        } else {
            match prev {
                Some(p) => if last.1 >= p.1 {
                    Some(last)
                } else {
                    prev
                },
                None => Some(last),
            }
        }
    }
}

/// Whether the client `client` matches `criterium`.
fn jump_matches_client(criterium: &JumpCriterium, client: &Client) -> (r: bool)
    ensures
        r == jump_matches(*criterium, client@),
{
    client.is_managed() && match *criterium {
        JumpCriterium::ByName(m) => client.name_matches(m),
        JumpCriterium::ByClass(m) => client.class_matches(m),
        JumpCriterium::ByInstance(m) => client.instance_matches(m),
    }
}

/// The window a jump by `criterium` goes to among `candidates`: the windows of `client_map`,
/// each with the rank of when it was last focused, in the order the clients are walked. Of the
/// managed clients that match, the one focused last (the last one walked among equals); none
/// where no client matches.
pub fn jump_choice(
    criterium: &JumpCriterium,
    client_map: &std::collections::HashMap<Window, Client>,
    candidates: &Vec<(Window, u64)>,
) -> (r: Option<Window>)
    requires
        forall|i: int| 0 <= i < candidates@.len() ==> client_map@.contains_key(#[trigger] candidates@[i].0),
    ensures
        r == (match jump_best(client_map@, *criterium, candidates@) {
            Some(p) => Some(p.0),
            None => None,
        }),
{
    let mut best: Option<(Window, u64)> = None;
    let mut i: usize = 0;
    while i < candidates.len()
        invariant
            forall|i: int| 0 <= i < candidates@.len() ==> client_map@.contains_key(#[trigger] candidates@[i].0),
            i <= candidates@.len(),
            best == jump_best(client_map@, *criterium, candidates@.take(i as int)),
        decreases candidates@.len() - i,
    {
        let (w, rank) = candidates[i];
        proof {
            assert(client_map@.contains_key(candidates@[i as int].0));
            assert(candidates@.take(i + 1).drop_last() =~= candidates@.take(i as int));
            assert(candidates@.take(i + 1).last() == (w, rank));
        }
        let client = client_map.get(&w).unwrap();
        if jump_matches_client(criterium, client) {
            best = match best {
                Some(p) => if rank >= p.1 {
                    Some((w, rank))
                } else {
                    Some(p)
                },
                None => Some((w, rank)),
            };
        }
        i = i + 1;
    }
    proof {
        assert(candidates@.take(candidates@.len() as int) =~= candidates@);
    }
    match best {
        Some(p) => Some(p.0),
        None => None,
    }
}

/// The candidate a jump to a managed client meeting `cond` goes to among `candidates`, as
/// `jump_best` picks by a criterium.
pub open spec fn jump_best_for<C: Criterion<Client>>(
    client_map: Map<Window, Client>,
    cond: C,
    candidates: Seq<(Window, u64)>,
) -> Option<(Window, u64)>
    decreases candidates.len(),
{
    if candidates.len() == 0 {
        None
    } else {
        let prev = jump_best_for(client_map, cond, candidates.drop_last());
        let last = candidates.last();
        if !(client_map[last.0]@.managed && cond.holds(&client_map[last.0])) {
            prev
        } else {
            match prev {
                Some(p) => if last.1 >= p.1 {
                    Some(last)
                } else {
                    prev
                },
                None => Some(last),
            }
        }
    }
}

/// The window a jump to a managed client meeting `cond` goes to among `candidates` (as
/// `jump_choice` has them): the one focused last, the last one walked among equals; none where
/// no client qualifies.
pub fn jump_choice_for<C: Criterion<Client>>(
    cond: &C,
    client_map: &std::collections::HashMap<Window, Client>,
    candidates: &Vec<(Window, u64)>,
) -> (r: Option<Window>)
    requires
        forall|i: int| 0 <= i < candidates@.len() ==> client_map@.contains_key(#[trigger] candidates@[i].0),
    ensures
        r == (match jump_best_for(client_map@, *cond, candidates@) {
            Some(p) => Some(p.0),
            None => None,
        }),
{
    let mut best: Option<(Window, u64)> = None;
    let mut i: usize = 0;
    while i < candidates.len()
        invariant
            forall|i: int| 0 <= i < candidates@.len() ==> client_map@.contains_key(#[trigger] candidates@[i].0),
            i <= candidates@.len(),
            best == jump_best_for(client_map@, *cond, candidates@.take(i as int)),
        decreases candidates@.len() - i,
    {
        let (w, rank) = candidates[i];
        proof {
            assert(client_map@.contains_key(candidates@[i as int].0));
            assert(candidates@.take(i + 1).drop_last() =~= candidates@.take(i as int));
            assert(candidates@.take(i + 1).last() == (w, rank));
        }
        let client = client_map.get(&w).unwrap();
        if client.is_managed() && cond.check(client) {
            best = match best {
                Some(p) => if rank >= p.1 {
                    Some((w, rank))
                } else {
                    Some(p)
                },
                None => Some((w, rank)),
            };
        }
        i = i + 1;
    }
    proof {
        assert(candidates@.take(candidates@.len() as int) =~= candidates@);
    }
    match best {
        Some(p) => Some(p.0),
        None => None,
    }
}

/// Jumping from the focused window `a` to another window `b`, and then jumping to `b` again
/// once it has the focus, lands back on `a`: repeated jumps toggle between the two.
pub proof fn law_jump_toggles(a: Window, b: Window, jumped_from: Option<Window>)
    requires
        a != b,
    ensures
        jump_spec(b, Some(a), jumped_from) == (b, Some(a)),
        jump_spec(b, Some(b), Some(a)) == (a, Some(b)),
{
}

/// Whether a client is laid out by its workspace's layouts: it is managed, neither floating nor
/// disowned, and not fullscreen unless contained.
pub fn is_applyable(client: &crate::client::Client) -> (r: bool)
    ensures
        r == (!client@.floating && !client@.disowned && client@.managed && (!client@.fullscreen
            || client@.contained)),
{
    !client.is_floating() && !client.is_disowned() && client.is_managed() && (
    !client.is_fullscreen() || client.is_contained())
}

/// Whether a client can take the focus: it is neither disowned nor iconified.
pub fn is_focusable(client: &crate::client::Client) -> (r: bool)
    ensures
        r == (!client@.disowned && !client@.iconified),
{
    !client.is_disowned() && !client.is_iconified()
}

/// Whether a client is placed freely: it is free itself, or its zone is placed freely.
pub fn is_free<D>(client: &crate::client::Client, zone_manager: &crate::zone::ZoneManager<D>) -> (r: bool)
    requires
        zone_manager.zones().contains_key(client@.zone),
    ensures
        r == (crate::client::Client::free_spec(client@) || zone_manager.zones()[client@.zone].placement()
            == crate::placement::PlacementMethod::Free),
{
    client.is_free() || zone_manager.zone(client.zone()).method() == crate::placement::PlacementMethod::Free
}

/// The region a placement gives a client: its floating region, a new region, or none (the
/// placement then changes nothing).
pub open spec fn placement_target_region(placement: crate::placement::Placement, free: Region) -> Option<Region> {
    match placement.region {
        crate::placement::PlacementRegion::FreeRegion => Some(free),
        crate::placement::PlacementRegion::NewRegion(r) => Some(r),
        crate::placement::PlacementRegion::NoRegion => None,
    }
}

/// Records a placement of a client: where the placement gives it a region, the client's zone
/// takes the placement's method, the client its decoration and the region (as its floating
/// region, which its zone takes too, or as its tiled region).
pub fn update_client_placement<D>(
    client: &mut crate::client::Client,
    zone_manager: &mut crate::zone::ZoneManager<D>,
    placement: &crate::placement::Placement,
)
    requires
        old(zone_manager).wf(),
        placement_target_region(*placement, old(client)@.free_region) matches Some(r)
            ==> crate::client::inner_fits(
            r,
            crate::client::frame_extents_of(placement.decoration),
        ),
    ensures
        final(zone_manager).wf(),
        match placement_target_region(*placement, old(client)@.free_region) {
            None => *final(client) == *old(client) && *final(zone_manager) == *old(zone_manager),
            Some(r) => {
                let z = old(client)@.zone;
                let zones = old(zone_manager).zones();
                let with_method = if zones.contains_key(z) {
                    zones.insert(z, zones[z].changed(crate::zone::ZoneChange::Method(placement.method)))
                } else {
                    zones
                };
                &&& final(zone_manager).fresh() == old(zone_manager).fresh()
                &&& final(zone_manager).copies_data() == old(zone_manager).copies_data()
                &&& final(zone_manager).zones() == match placement.method {
                    crate::placement::PlacementMethod::Free => if with_method.contains_key(z) {
                        with_method.insert(z, with_method[z].changed(crate::zone::ZoneChange::Region(r)))
                    } else {
                        with_method
                    },
                    crate::placement::PlacementMethod::Tile => with_method,
                }
                &&& final(client)@ == crate::client::Client::placed(
                    decorated(old(client)@, placement.decoration),
                    match placement.method {
                        crate::placement::PlacementMethod::Free => crate::placement::PlacementClass::Free(r),
                        crate::placement::PlacementMethod::Tile => crate::placement::PlacementClass::Tile(r),
                    },
                )
            },
        },
{
    let region = match placement.region {
        crate::placement::PlacementRegion::FreeRegion => client.free_region(),
        crate::placement::PlacementRegion::NewRegion(region) => region,
        crate::placement::PlacementRegion::NoRegion => {
            return;
        },
    };
    let zone = client.zone();
    zone_manager.change_zone(zone, crate::zone::ZoneChange::Method(placement.method));
    match placement.method {
        crate::placement::PlacementMethod::Free => {
            zone_manager.change_zone(zone, crate::zone::ZoneChange::Region(region));
            place_with(client, placement.decoration, crate::placement::PlacementClass::Free(region));
        },
        crate::placement::PlacementMethod::Tile => {
            place_with(client, placement.decoration, crate::placement::PlacementClass::Tile(region));
        },
    }
}

/// A client's state with decoration `d`.
pub open spec fn decorated(v: crate::client::ClientView, d: crate::decoration::Decoration) -> crate::client::ClientView {
    crate::client::ClientView { decoration: d, ..v }
}

/// Gives `client` decoration `decoration` and then region `class`.
fn place_with(
    client: &mut crate::client::Client,
    decoration: crate::decoration::Decoration,
    class: crate::placement::PlacementClass<Region>,
)
    requires
        match class {
            crate::placement::PlacementClass::Free(r) => crate::client::inner_fits(
                r,
                crate::client::frame_extents_of(decoration),
            ),
            crate::placement::PlacementClass::Tile(r) => crate::client::inner_fits(
                r,
                crate::client::frame_extents_of(decoration),
            ),
        },
    ensures
        final(client)@ == crate::client::Client::placed(decorated(old(client)@, decoration), class),
{
    client.set_decoration(decoration);
    client.set_region(class);
}

} // verus!
