use vstd::prelude::*;

use crate::client::min_client;
use crate::client::Client;
use crate::winsys::geometry::fits_i32;
use crate::winsys::geometry::Dim;
use crate::winsys::geometry::Edge;
use crate::winsys::geometry::Extents;
use crate::winsys::geometry::Pos;
use crate::winsys::geometry::Region;
use crate::winsys::input::Grip;
use crate::winsys::hints::Hints;
use crate::rule::flag;
use crate::rule::Rules;
use crate::winsys::window::Window;

verus! {

/// `v`, or zero where it is negative.
pub open spec fn at_least_zero(v: int) -> int {
    if v > 0 {
        v
    } else {
        0
    }
}

/// A floating region snapped against `edge` of the placeable region; snapped to the right or
/// the bottom, it never goes past the left or top of the screen.
pub open spec fn snapped(region: Region, placeable: Region, edge: Edge) -> Region {
    match edge {
        Edge::Left => Region { pos: Pos { x: placeable.pos.x, y: region.pos.y }, dim: region.dim },
        Edge::Right => Region {
            pos: Pos {
                x: at_least_zero(placeable.dim.w + placeable.pos.x - region.dim.w) as i32,
                y: region.pos.y,
            },
            dim: region.dim,
        },
        Edge::Top => Region { pos: Pos { x: region.pos.x, y: placeable.pos.y }, dim: region.dim },
        Edge::Bottom => Region {
            pos: Pos {
                x: region.pos.x,
                y: at_least_zero(placeable.dim.h + placeable.pos.y - region.dim.h) as i32,
            },
            dim: region.dim,
        },
    }
}

/// Snapping against `edge` stays representable.
pub open spec fn snap_fits(region: Region, placeable: Region, edge: Edge) -> bool {
    match edge {
        Edge::Right => fits_i32(placeable.dim.w + placeable.pos.x) && fits_i32(
            placeable.dim.w + placeable.pos.x - region.dim.w,
        ),
        Edge::Bottom => fits_i32(placeable.dim.h + placeable.pos.y) && fits_i32(
            placeable.dim.h + placeable.pos.y - region.dim.h,
        ),
        _ => true,
    }
}

/// `region` snapped against `edge` of `placeable`.
pub fn snap_region(region: Region, placeable: Region, edge: Edge) -> (r: Region)
    requires
        snap_fits(region, placeable, edge),
    ensures
        r == snapped(region, placeable, edge),
{
    let mut r = region;
    match edge {
        Edge::Left => r.pos.x = placeable.pos.x,
        Edge::Right => {
            let x: i32 = placeable.dim.w + placeable.pos.x;
            let d: i32 = x - region.dim.w;
            r.pos.x = if d > 0 {
                d
            } else {
                0
            };
        },
        Edge::Top => r.pos.y = placeable.pos.y,
        Edge::Bottom => {
            let y: i32 = placeable.dim.h + placeable.pos.y;
            let d: i32 = y - region.dim.h;
            r.pos.y = if d > 0 {
                d
            } else {
                0
            };
        },
    }
    r
}

/// A floating region nudged `step` pixels toward `edge`.
pub open spec fn nudged(region: Region, edge: Edge, step: int) -> Region {
    match edge {
        Edge::Left => Region { pos: Pos { x: (region.pos.x - step) as i32, y: region.pos.y }, ..region },
        Edge::Right => Region { pos: Pos { x: (region.pos.x + step) as i32, y: region.pos.y }, ..region },
        Edge::Top => Region { pos: Pos { x: region.pos.x, y: (region.pos.y - step) as i32 }, ..region },
        Edge::Bottom => Region { pos: Pos { x: region.pos.x, y: (region.pos.y + step) as i32 }, ..region },
    }
}

/// Nudging toward `edge` stays representable.
pub open spec fn nudge_fits(region: Region, edge: Edge, step: int) -> bool {
    match edge {
        Edge::Left => fits_i32(region.pos.x - step),
        Edge::Right => fits_i32(region.pos.x + step),
        Edge::Top => fits_i32(region.pos.y - step),
        Edge::Bottom => fits_i32(region.pos.y + step),
    }
}

/// `region` nudged `step` pixels toward `edge`.
pub fn nudge_region(region: Region, edge: Edge, step: i32) -> (r: Region)
    requires
        nudge_fits(region, edge, step as int),
    ensures
        r == nudged(region, edge, step as int),
{
    let mut r = region;
    match edge {
        Edge::Left => r.pos.x = r.pos.x - step,
        Edge::Right => r.pos.x = r.pos.x + step,
        Edge::Top => r.pos.y = r.pos.y - step,
        Edge::Bottom => r.pos.y = r.pos.y + step,
    }
    r
}

/// The inner region of a floating client stretched `step` pixels at `edge` (shrunk where
/// `step` is negative), but to no less than `min`; `None` where it is left alone: where a
/// negative step would take the whole width (at the left or right) or height (at the top) away,
/// and at the bottom unless the step is non-negative and at least as large as minus the height.
pub open spec fn stretched_inner(r: Region, edge: Edge, step: int, min: Dim) -> Option<Region> {
    match edge {
        Edge::Left => if !(step < 0 && -step >= r.dim.w) {
            Some(
                if r.dim.w + step <= min.w {
                    Region {
                        pos: Pos { x: (r.pos.x - (min.w - r.dim.w)) as i32, y: r.pos.y },
                        dim: Dim { w: min.w, h: r.dim.h },
                    }
                } else {
                    Region {
                        pos: Pos { x: (r.pos.x - step) as i32, y: r.pos.y },
                        dim: Dim { w: (r.dim.w + step) as i32, h: r.dim.h },
                    }
                },
            )
        } else {
            None
        },
        Edge::Right => if !(step < 0 && -step >= r.dim.w) {
            Some(
                if r.dim.w + step <= min.w {
                    Region { pos: r.pos, dim: Dim { w: min.w, h: r.dim.h } }
                } else {
                    Region { pos: r.pos, dim: Dim { w: (r.dim.w + step) as i32, h: r.dim.h } }
                },
            )
        } else {
            None
        },
        Edge::Top => if !(step < 0 && -step >= r.dim.h) {
            Some(
                if r.dim.h + step <= min.h {
                    Region {
                        pos: Pos { x: r.pos.x, y: (r.pos.y - (min.h - r.dim.h)) as i32 },
                        dim: Dim { w: r.dim.w, h: min.h },
                    }
                } else {
                    Region {
                        pos: Pos { x: r.pos.x, y: (r.pos.y - step) as i32 },
                        dim: Dim { w: r.dim.w, h: (r.dim.h + step) as i32 },
                    }
                },
            )
        } else {
            None
        },
        Edge::Bottom => if step >= 0 && -step >= r.dim.h {
            Some(
                if r.dim.h + step <= min.h {
                    Region { pos: r.pos, dim: Dim { w: r.dim.w, h: min.h } }
                } else {
                    Region { pos: r.pos, dim: Dim { w: r.dim.w, h: (r.dim.h + step) as i32 } }
                },
            )
        } else {
            None
        },
    }
}

/// Stretching the inner region stays representable: the step can be negated, and where the
/// region is changed, each sum along the way fits.
pub open spec fn stretch_inner_fits(r: Region, edge: Edge, step: int, min: Dim) -> bool {
    &&& (edge != Edge::Bottom ==> step != i32::MIN)
    &&& stretched_inner(r, edge, step, min) is Some ==> match edge {
        Edge::Left => fits_i32(r.dim.w + step) && if r.dim.w + step <= min.w {
            fits_i32(min.w - r.dim.w) && fits_i32(r.pos.x - (min.w - r.dim.w))
        } else {
            fits_i32(r.pos.x - step)
        },
        Edge::Right => fits_i32(r.dim.w + step),
        Edge::Top => fits_i32(r.dim.h + step) && if r.dim.h + step <= min.h {
            fits_i32(min.h - r.dim.h) && fits_i32(r.pos.y - (min.h - r.dim.h))
        } else {
            fits_i32(r.pos.y - step)
        },
        Edge::Bottom => fits_i32(r.dim.h + step),
    }
}

/// A floating client's region stretched at `edge`: its frame's extents are taken off, the
/// inside is stretched, and the extents are put back; `None` where it is left alone.
pub open spec fn stretched(free: Region, extents: Extents, edge: Edge, step: int) -> Option<Region> {
    match stretched_inner(free.without_extents_spec(extents), edge, step, min_client()) {
        Some(inner) => Some(inner.with_extents_spec(extents)),
        None => None,
    }
}

/// Stretching the floating region stays representable.
pub open spec fn stretch_fits(free: Region, extents: Extents, edge: Edge, step: int) -> bool {
    &&& free.without_extents_fits(extents)
    &&& stretch_inner_fits(free.without_extents_spec(extents), edge, step, min_client())
    &&& stretched_inner(free.without_extents_spec(extents), edge, step, min_client()) matches Some(
        inner,
    ) ==> inner.with_extents_fits(extents)
}

/// The inner region stretched at `edge` by `step`, to no less than `min`.
fn stretch_inner(r: Region, edge: Edge, step: i32, min: Dim) -> (res: Option<Region>)
    requires
        stretch_inner_fits(r, edge, step as int, min),
    ensures
        res == stretched_inner(r, edge, step as int, min),
{
    let mut region = r;
    match edge {
        Edge::Left => {
            if step < 0 && -step >= region.dim.w {
                return None;
            }
            if region.dim.w + step <= min.w {
                region.pos.x = region.pos.x - (min.w - region.dim.w);
                region.dim.w = min.w;
            } else {
                region.pos.x = region.pos.x - step;
                region.dim.w = region.dim.w + step;
            }
        },
        Edge::Right => {
            if step < 0 && -step >= region.dim.w {
                return None;
            }
            if region.dim.w + step <= min.w {
                region.dim.w = min.w;
            } else {
                region.dim.w = region.dim.w + step;
            }
        },
        Edge::Top => {
            if step < 0 && -step >= region.dim.h {
                return None;
            }
            if region.dim.h + step <= min.h {
                region.pos.y = region.pos.y - (min.h - region.dim.h);
                region.dim.h = min.h;
            } else {
                region.pos.y = region.pos.y - step;
                region.dim.h = region.dim.h + step;
            }
        },
        Edge::Bottom => {
            if !(step >= 0 && -step >= region.dim.h) {
                return None;
            }
            if region.dim.h + step <= min.h {
                region.dim.h = min.h;
            } else {
                region.dim.h = region.dim.h + step;
            }
        },
    }
    Some(region)
}

/// A floating client's region, framed by `extents`, stretched `step` pixels at `edge`; `None`
/// where it is left alone.
pub fn stretch_region(free: Region, extents: Extents, edge: Edge, step: i32) -> (r: Option<Region>)
    requires
        stretch_fits(free, extents, edge, step as int),
    ensures
        r == stretched(free, extents, edge, step as int),
{
    let inner = free.without_extents(extents);
    match stretch_inner(inner, edge, step, Client::min_client_dim()) {
        Some(region) => Some(region.with_extents(extents)),
        None => None,
    }
}

/// The region of a client being moved: the region it had when grabbed, moved by as much as
/// the pointer has moved since, with dimensions `dim`.
pub open spec fn moved(grabbed: Region, grip_pos: Pos, pos: Pos, dim: Dim) -> Region {
    Region {
        pos: Pos {
            x: (grabbed.pos.x + (pos.x - grip_pos.x)) as i32,
            y: (grabbed.pos.y + (pos.y - grip_pos.y)) as i32,
        },
        dim,
    }
}

/// Moving stays representable.
pub open spec fn move_fits(grabbed: Region, grip_pos: Pos, pos: Pos) -> bool {
    &&& grip_pos.dist_fits(pos)
    &&& fits_i32(grabbed.pos.x + (pos.x - grip_pos.x))
    &&& fits_i32(grabbed.pos.y + (pos.y - grip_pos.y))
}

/// Where a client grabbed with region `grabbed` while the pointer was at `grip_pos` goes when
/// the pointer is at `pos`; it keeps dimensions `dim`.
pub fn move_region(grabbed: Region, grip_pos: Pos, pos: Pos, dim: Dim) -> (r: Region)
    requires
        move_fits(grabbed, grip_pos, pos),
    ensures
        r == moved(grabbed, grip_pos, pos, dim),
{
    Region { pos: grabbed.pos + grip_pos.dist(pos), dim }
}

/// The dimensions a client being resized by `grip` is pulled to: those it had when grabbed,
/// grown by how far the pointer has moved away from the grabbed side (shrunk where it moved
/// toward it), and never negative.
pub open spec fn resize_target(grabbed: Region, grip: Grip, grip_pos: Pos, pos: Pos) -> Dim {
    let dx = pos.x - grip_pos.x;
    let dy = pos.y - grip_pos.y;
    let w = if grip.at_left() {
        grabbed.dim.w - dx
    } else {
        grabbed.dim.w + dx
    };
    let h = if grip.at_top() {
        grabbed.dim.h - dy
    } else {
        grabbed.dim.h + dy
    };
    Dim { w: at_least_zero(w) as i32, h: at_least_zero(h) as i32 }
}

/// Working out the resize target stays representable.
pub open spec fn resize_target_fits(grabbed: Region, grip: Grip, grip_pos: Pos, pos: Pos) -> bool {
    let dx = pos.x - grip_pos.x;
    let dy = pos.y - grip_pos.y;
    &&& grip_pos.dist_fits(pos)
    &&& fits_i32(if grip.at_left() { grabbed.dim.w - dx } else { grabbed.dim.w + dx })
    &&& fits_i32(if grip.at_top() { grabbed.dim.h - dy } else { grabbed.dim.h + dy })
}

/// The dimensions a client grabbed by `grip` with region `grabbed`, while the pointer was at
/// `grip_pos`, is pulled to when the pointer is at `pos`.
pub fn resize_dim(grabbed: Region, grip: Grip, grip_pos: Pos, pos: Pos) -> (r: Dim)
    requires
        resize_target_fits(grabbed, grip, grip_pos, pos),
    ensures
        r == resize_target(grabbed, grip, grip_pos, pos),
{
    let top_grip = grip.is_top_grip();
    let left_grip = grip.is_left_grip();
    let delta = grip_pos.dist(pos);
    let dest_w: i32 = if left_grip {
        grabbed.dim.w - delta.dx
    } else {
        grabbed.dim.w + delta.dx
    };
    let dest_h: i32 = if top_grip {
        grabbed.dim.h - delta.dy
    } else {
        grabbed.dim.h + delta.dy
    };
    Dim {
        w: if dest_w > 0 {
            dest_w
        } else {
            0
        },
        h: if dest_h > 0 {
            dest_h
        } else {
            0
        },
    }
}

/// The region of a client resized to inner dimensions `dim`: the inner region at `inner_pos`
/// with its frame's extents put back round it, then moved so that the sides opposite the grip
/// stay where they were when the client was grabbed.
pub open spec fn resized(inner_pos: Pos, dim: Dim, extents: Extents, grabbed: Region, grip: Grip) -> Region {
    let framed = (Region { pos: inner_pos, dim }).with_extents_spec(extents);
    Region {
        pos: Pos {
            x: if grip.at_left() {
                (grabbed.pos.x + (grabbed.dim.w - framed.dim.w)) as i32
            } else {
                framed.pos.x
            },
            y: if grip.at_top() {
                (grabbed.pos.y + (grabbed.dim.h - framed.dim.h)) as i32
            } else {
                framed.pos.y
            },
        },
        dim: framed.dim,
    }
}

/// Resizing stays representable.
pub open spec fn resized_fits(inner_pos: Pos, dim: Dim, extents: Extents, grabbed: Region, grip: Grip) -> bool {
    let framed = (Region { pos: inner_pos, dim }).with_extents_spec(extents);
    &&& (Region { pos: inner_pos, dim }).with_extents_fits(extents)
    &&& grip.at_top() ==> fits_i32(grabbed.dim.h - framed.dim.h) && fits_i32(
        grabbed.pos.y + (grabbed.dim.h - framed.dim.h),
    )
    &&& grip.at_left() ==> fits_i32(grabbed.dim.w - framed.dim.w) && fits_i32(
        grabbed.pos.x + (grabbed.dim.w - framed.dim.w),
    )
}

/// The region of a client grabbed by `grip` with region `grabbed`, once its inside, at
/// `inner_pos`, is given dimensions `dim`.
pub fn resize_region(inner_pos: Pos, dim: Dim, extents: Extents, grabbed: Region, grip: Grip) -> (r: Region)
    requires
        resized_fits(inner_pos, dim, extents, grabbed, grip),
    ensures
        r == resized(inner_pos, dim, extents, grabbed, grip),
{
    let mut region = (Region { pos: inner_pos, dim }).with_extents(extents);
    if grip.is_top_grip() {
        region.pos.y = grabbed.pos.y + (grabbed.dim.h - region.dim.h);
    }
    if grip.is_left_grip() {
        region.pos.x = grabbed.pos.x + (grabbed.dim.w - region.dim.w);
    }
    region
}

/// The region a window asks to be placed in. For a client's own window the position and
/// dimensions asked for are those of its inside, so its frame's extents are added to them;
/// anything not asked for stays as in the client's floating region.
pub open spec fn requested(own: bool, pos: Option<Pos>, dim: Option<Dim>, extents: Extents, free: Region) -> Region {
    if own {
        Region {
            pos: match pos {
                Some(p) => Pos { x: (p.x - extents.left) as i32, y: (p.y - extents.top) as i32 },
                None => free.pos,
            },
            dim: match dim {
                Some(d) => Dim {
                    w: (d.w + extents.left + extents.right) as i32,
                    h: (d.h + extents.top + extents.bottom) as i32,
                },
                None => free.dim,
            },
        }
    } else {
        Region {
            pos: match pos {
                Some(p) => p,
                None => free.pos,
            },
            dim: match dim {
                Some(d) => d,
                None => free.dim,
            },
        }
    }
}

/// Working out the requested region stays representable.
pub open spec fn requested_fits(own: bool, pos: Option<Pos>, dim: Option<Dim>, extents: Extents) -> bool {
    own ==> {
        &&& pos matches Some(p) ==> fits_i32(p.x - extents.left) && fits_i32(p.y - extents.top)
        &&& dim matches Some(d) ==> {
            &&& fits_i32(d.w + extents.left) && fits_i32(d.w + extents.left + extents.right)
            &&& fits_i32(d.h + extents.top) && fits_i32(d.h + extents.top + extents.bottom)
        }
    }
}

/// The region a window asks for with `pos` and `dim`, where `own` tells whether it is the
/// client's own window (rather than its frame), framed by `extents`, with floating region `free`.
pub fn request_region(own: bool, pos: Option<Pos>, dim: Option<Dim>, extents: Extents, free: Region) -> (r: Region)
    requires
        requested_fits(own, pos, dim, extents),
    ensures
        r == requested(own, pos, dim, extents, free),
{
    if own {
        Region {
            pos: match pos {
                Some(p) => Pos { x: p.x - extents.left, y: p.y - extents.top },
                None => free.pos,
            },
            dim: match dim {
                Some(d) => Dim {
                    w: d.w + extents.left + extents.right,
                    h: d.h + extents.top + extents.bottom,
                },
                None => free.dim,
            },
        }
    } else {
        Region {
            pos: match pos {
                Some(p) => p,
                None => free.pos,
            },
            dim: match dim {
                Some(d) => d,
                None => free.dim,
            },
        }
    }
}

/// The workspace a newly managed window goes to: the one its rules name; else the one it asked
/// for, where that exists; else the active one.
pub open spec fn managed_workspace_spec(rule: Option<usize>, asked: Option<usize>, n_workspaces: usize, active: usize) -> usize {
    match rule {
        Some(w) => w,
        None => match asked {
            Some(w) => if w < n_workspaces {
                w
            } else {
                active
            },
            None => active,
        },
    }
}

/// The workspace a newly managed window goes to, given the workspace its rules name, the one it
/// asked for, the number of workspaces and the active one.
pub fn managed_workspace(rule: Option<usize>, asked: Option<usize>, n_workspaces: usize, active: usize) -> (r: usize)
    ensures
        r == managed_workspace_spec(rule, asked, n_workspaces, active),
{
    match rule {
        Some(w) => w,
        None => match asked {
            Some(w) => if w < n_workspaces {
                w
            } else {
                active
            },
            None => active,
        },
    }
}

/// What managing a new window decides of its client from what the window says of itself.
#[derive(Debug, Copy, Clone, PartialEq, Eq, Structural)]
pub struct ManageFlags {
    /// Whether the client floats.
    pub floating: bool,
    /// The window it is transient for, if any.
    pub parent: Option<Window>,
    /// The managed window that leads its group, where that is another window.
    pub leader: Option<Window>,
    /// Whether it is urgent, where its hints say.
    pub urgent: Option<bool>,
}

/// The decisions on a new client `window`: it floats where the window must be free, where a
/// rule says so, where it is transient for another window, or where another managed window
/// leads its group; it is urgent as its hints say.
pub open spec fn manage_flags_spec(
    window: Window,
    must_free: bool,
    rule_float: bool,
    parent: Option<Window>,
    leader: Option<Window>,
    hints: Option<Hints>,
) -> ManageFlags {
    let other_leader = match leader {
        Some(l) => if l != window {
            Some(l)
        } else {
            None
        },
        None => None,
    };
    ManageFlags {
        floating: must_free || rule_float || parent is Some || other_leader is Some,
        parent,
        leader: other_leader,
        urgent: match hints {
            Some(h) => Some(h.urgent),
            None => None,
        },
    }
}

/// The decisions on a new client `window`, given whether the window must be free, whether a
/// rule makes it float, the window it is transient for, the managed window that leads its
/// group, and its hints.
pub fn manage_flags(
    window: Window,
    must_free: bool,
    rule_float: bool,
    parent: Option<Window>,
    leader: Option<Window>,
    hints: Option<Hints>,
) -> (r: ManageFlags)
    ensures
        r == manage_flags_spec(window, must_free, rule_float, parent, leader, hints),
{
    let mut floating = must_free || rule_float;
    if parent.is_some() {
        floating = true;
    }
    let mut other_leader = None;
    if let Some(l) = leader {
        if l != window {
            floating = true;
            other_leader = Some(l);
        }
    }
    let urgent = match hints {
        Some(h) => Some(h.urgent),
        None => None,
    };
    ManageFlags { floating, parent, leader: other_leader, urgent }
}

/// What the window manager reads of a window it is about to manage: its geometry, already
/// brought within its size hints and given the free frame's extents; whether it sat at the
/// origin; whether the user chose its position (where it gave size hints); the workspace it
/// asked for; whether it must be free, is fullscreen or sticky; the window it is transient for;
/// the managed window that leads its group; its hints; whether it demands attention.
#[derive(Debug, Copy, Clone, PartialEq, Eq, Structural)]
pub struct ManageInfo {
    pub geometry: Region,
    pub at_origin: bool,
    pub by_user: Option<bool>,
    pub desktop: Option<usize>,
    pub must_free: bool,
    pub fullscreen: bool,
    pub sticky: bool,
    pub parent: Option<Window>,
    pub leader: Option<Window>,
    pub hints: Option<Hints>,
    pub demands_attention: bool,
}

/// How a new client is set up: its workspace, its free region, its flags, and whether it goes
/// fullscreen, sticks, and demands attention once managed.
#[derive(Debug, Copy, Clone, PartialEq, Eq, Structural)]
pub struct ManagePlan {
    pub workspace: usize,
    pub region: Region,
    pub flags: ManageFlags,
    pub fullscreen: bool,
    pub sticky: bool,
    pub demands_attention: bool,
}

/// Whether a newly managed window is centered, as a formula.
pub open spec fn centered_spec(rule_center: bool, by_user: Option<bool>, at_origin: bool) -> bool {
    rule_center || (match by_user {
        Some(b) => !b,
        None => true,
    }) && at_origin
}

/// How managing `window` sets it up, given what was read of it, its rules, the number of
/// workspaces, the active one, and the full region of the active screen.
pub open spec fn manage_plan_spec(
    window: Window,
    info: ManageInfo,
    rules: Rules,
    n_workspaces: usize,
    active: usize,
    screen_region: Region,
) -> ManagePlan {
    ManagePlan {
        workspace: managed_workspace_spec(rules.workspace, info.desktop, n_workspaces, active),
        region: if centered_spec(flag(rules.center), info.by_user, info.at_origin) {
            Region {
                pos: screen_region.inner_center_pos(info.geometry.dim),
                dim: info.geometry.dim,
            }
        } else {
            info.geometry
        },
        flags: manage_flags_spec(
            window,
            info.must_free,
            flag(rules.float),
            info.parent,
            info.leader,
            info.hints,
        ),
        fullscreen: info.fullscreen || flag(rules.fullscreen),
        sticky: info.sticky,
        demands_attention: info.demands_attention,
    }
}

/// Centering the window on the screen, where it is centered, stays representable.
pub open spec fn manage_plan_fits(info: ManageInfo, rules: Rules, screen_region: Region) -> bool {
    centered_spec(flag(rules.center), info.by_user, info.at_origin)
        ==> screen_region.inner_center_fits(info.geometry.dim)
}

/// How managing `window` sets it up: the decisions of managing a window, from what was read of
/// it, its rules, the number of workspaces, the active workspace and the full region of the
/// active screen.
pub fn plan_manage(
    window: Window,
    info: &ManageInfo,
    rules: &Rules,
    n_workspaces: usize,
    active: usize,
    screen_region: Region,
) -> (r: ManagePlan)
    requires
        manage_plan_fits(*info, *rules, screen_region),
    ensures
        r == manage_plan_spec(window, *info, *rules, n_workspaces, active, screen_region),
{
    let workspace = managed_workspace(rules.workspace, info.desktop, n_workspaces, active);
    let region = if centered_on_manage(rules.center(), info.by_user, info.at_origin) {
        screen_region.from_absolute_inner_center(info.geometry.dim)
    } else {
        info.geometry
    };
    let flags = manage_flags(
        window,
        info.must_free,
        rules.float(),
        info.parent,
        info.leader,
        info.hints,
    );
    ManagePlan {
        workspace,
        region,
        flags,
        fullscreen: info.fullscreen || rules.fullscreen(),
        sticky: info.sticky,
        demands_attention: info.demands_attention,
    }
}

/// Whether a newly managed window is centered: where its rules say so, or where it sits at the
/// origin and its position was not chosen by the user (or it gave no size hints).
pub fn centered_on_manage(rule_center: bool, by_user: Option<bool>, at_origin: bool) -> (r: bool)
    ensures
        r == (rule_center || (match by_user {
            Some(b) => !b,
            None => true,
        }) && at_origin),
{
    let chosen_elsewhere = match by_user {
        Some(b) => !b,
        None => true,
    };
    rule_center || chosen_elsewhere && at_origin
}

/// The edge across from `edge`.
pub open spec fn across(edge: Edge) -> Edge {
    match edge {
        Edge::Left => Edge::Right,
        Edge::Right => Edge::Left,
        Edge::Top => Edge::Bottom,
        Edge::Bottom => Edge::Top,
    }
}

/// Snapping a region against an edge a second time leaves it where the first snap put it.
pub proof fn law_snap_idempotent(region: Region, placeable: Region, edge: Edge)
    requires
        snap_fits(region, placeable, edge),
    ensures
        snap_fits(snapped(region, placeable, edge), placeable, edge),
        snapped(snapped(region, placeable, edge), placeable, edge) == snapped(region, placeable, edge),
{
}

/// Nudging a region toward an edge and then as far toward the edge across from it puts it back.
pub proof fn law_nudge_undone(region: Region, edge: Edge, step: i32)
    requires
        nudge_fits(region, edge, step as int),
    ensures
        nudge_fits(nudged(region, edge, step as int), across(edge), step as int),
        nudged(nudged(region, edge, step as int), across(edge), step as int) == region,
{
}

/// A client whose pointer is back where it was grabbed is back where it was.
pub proof fn law_move_without_motion(grabbed: Region, grip_pos: Pos)
    ensures
        move_fits(grabbed, grip_pos, grip_pos),
        moved(grabbed, grip_pos, grip_pos, grabbed.dim) == grabbed,
{
}

/// Resizing keeps the sides across from the grip where they were when the client was grabbed:
/// the right side for a grip on the left, the bottom for a grip on the top.
pub proof fn law_resize_keeps_far_sides(inner_pos: Pos, dim: Dim, extents: Extents, grabbed: Region, grip: Grip)
    requires
        resized_fits(inner_pos, dim, extents, grabbed, grip),
    ensures
        grip.at_left() ==> resized(inner_pos, dim, extents, grabbed, grip).right() == grabbed.right(),
        grip.at_top() ==> resized(inner_pos, dim, extents, grabbed, grip).bottom() == grabbed.bottom(),
{
}

/// A stretched inside is never smaller than the minimum along the stretched axis, and keeps the
/// side across from the stretched one where it was.
pub proof fn law_stretch_keeps_minimum_and_far_side(r: Region, edge: Edge, step: i32, min: Dim)
    requires
        stretch_inner_fits(r, edge, step as int, min),
    ensures
        stretched_inner(r, edge, step as int, min) matches Some(s) ==> match edge {
            Edge::Left => s.dim.w >= min.w && s.right() == r.right() && s.pos.y == r.pos.y && s.dim.h == r.dim.h,
            Edge::Right => s.dim.w >= min.w && s.pos == r.pos && s.dim.h == r.dim.h,
            Edge::Top => s.dim.h >= min.h && s.bottom() == r.bottom() && s.pos.x == r.pos.x && s.dim.w == r.dim.w,
            Edge::Bottom => s.dim.h >= min.h && s.pos == r.pos && s.dim.w == r.dim.w,
        },
{
}

} // verus!
