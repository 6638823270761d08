use vstd::prelude::*;

use crate::change::toggle_of;
use crate::change::Toggle;
use crate::compare::MatchMethod;
use crate::decoration::padding_with;
use crate::decoration::padding_with_fits;
use crate::decoration::add_decoration;
use crate::decoration::Color;
use crate::decoration::Decoration;
use crate::identify::Ident;
use crate::identify::Identify;
use crate::placement::PlacementClass;
use crate::placement::ZoneId;
use crate::winsys::geometry::fits_i32;
use crate::winsys::geometry::Dim;
use crate::winsys::geometry::Extents;
use crate::winsys::geometry::Padding;
use crate::winsys::geometry::Pos;
use crate::winsys::geometry::Region;
use crate::winsys::window::Pid;
use crate::winsys::window::Window;
use crate::winsys::window::WindowType;
use crate::winsys::hints::SizeLimits;

use std::time::SystemTime;

verus! {

/// How a client looks from outside: focused or not, and whether disowned, sticky or urgent.
#[derive(Debug, Copy, Clone, PartialEq, Eq, Structural)]
pub enum OutsideState {
    Focused,
    FocusedDisowned,
    FocusedSticky,
    Unfocused,
    UnfocusedDisowned,
    UnfocusedSticky,
    Urgent,
}

/// The state with the focus flipped; urgency is left as it is.
pub open spec fn flipped(state: OutsideState) -> OutsideState {
    match state {
        OutsideState::Focused => OutsideState::Unfocused,
        OutsideState::FocusedDisowned => OutsideState::UnfocusedDisowned,
        OutsideState::FocusedSticky => OutsideState::UnfocusedSticky,
        OutsideState::Unfocused => OutsideState::Focused,
        OutsideState::UnfocusedDisowned => OutsideState::FocusedDisowned,
        OutsideState::UnfocusedSticky => OutsideState::FocusedSticky,
        OutsideState::Urgent => OutsideState::Urgent,
    }
}

impl std::ops::Not for OutsideState {
    type Output = Self;

    /// The state with the focus flipped; urgency is left as it is.
    fn not(self) -> (r: Self)
        ensures
            r == flipped(self),
    {
        match self {
            OutsideState::Focused => OutsideState::Unfocused,
            OutsideState::FocusedDisowned => OutsideState::UnfocusedDisowned,
            OutsideState::FocusedSticky => OutsideState::UnfocusedSticky,
            OutsideState::Unfocused => OutsideState::Focused,
            OutsideState::UnfocusedDisowned => OutsideState::FocusedDisowned,
            OutsideState::UnfocusedSticky => OutsideState::FocusedSticky,
            other => other,
        }
    }
}

impl vstd::std_specs::ops::NotSpecImpl for OutsideState {
    open spec fn obeys_not_spec() -> bool {
        true
    }

    open spec fn not_req(self) -> bool {
        true
    }

    open spec fn not_spec(self) -> OutsideState {
        flipped(self)
    }
}

/// The outside state once the client becomes sticky (or stops being sticky).
pub open spec fn with_stickiness(state: OutsideState, sticky: bool) -> OutsideState {
    if sticky && state == OutsideState::Focused {
        OutsideState::FocusedSticky
    } else if sticky && state == OutsideState::Unfocused {
        OutsideState::UnfocusedSticky
    } else if !sticky && state == OutsideState::FocusedSticky {
        OutsideState::Focused
    } else if !sticky && state == OutsideState::UnfocusedSticky {
        OutsideState::Unfocused
    } else {
        state
    }
}

/// The outside state once the client becomes disowned (or stops being disowned).
pub open spec fn with_disownment(state: OutsideState, disowned: bool) -> OutsideState {
    if disowned && state == OutsideState::Focused {
        OutsideState::FocusedDisowned
    } else if disowned && state == OutsideState::Unfocused {
        OutsideState::UnfocusedDisowned
    } else if !disowned && state == OutsideState::FocusedDisowned {
        OutsideState::Focused
    } else if !disowned && state == OutsideState::UnfocusedDisowned {
        OutsideState::Unfocused
    } else {
        state
    }
}

/// The region at the origin with no dimensions.
pub open spec fn zero_region() -> Region {
    Region { pos: Pos { x: 0, y: 0 }, dim: crate::winsys::geometry::Dim { w: 0, h: 0 } }
}

/// The outside state once the client becomes sticky (or stops being sticky).
fn stickiness(state: OutsideState, sticky: bool) -> (r: OutsideState)
    ensures
        r == with_stickiness(state, sticky),
{
    if sticky && state == OutsideState::Focused {
        OutsideState::FocusedSticky
    } else if sticky && state == OutsideState::Unfocused {
        OutsideState::UnfocusedSticky
    } else if !sticky && state == OutsideState::FocusedSticky {
        OutsideState::Focused
    } else if !sticky && state == OutsideState::UnfocusedSticky {
        OutsideState::Unfocused
    } else {
        state
    }
}

/// The outside state once the client becomes disowned (or stops being disowned).
fn disownment(state: OutsideState, disowned: bool) -> (r: OutsideState)
    ensures
        r == with_disownment(state, disowned),
{
    if disowned && state == OutsideState::Focused {
        OutsideState::FocusedDisowned
    } else if disowned && state == OutsideState::Unfocused {
        OutsideState::UnfocusedDisowned
    } else if !disowned && state == OutsideState::FocusedDisowned {
        OutsideState::Focused
    } else if !disowned && state == OutsideState::UnfocusedDisowned {
        OutsideState::Unfocused
    } else {
        state
    }
}

/// The current time, as the system clock gives it.
#[verifier::external_type_specification]
#[verifier::external_body]
pub struct ExSystemTime(SystemTime);

/// Reads the system clock (`SystemTime::now`); nothing is claimed of the time it gives.
#[verifier::external_body]
fn clock_now() -> (r: SystemTime) {
    SystemTime::now()
}

/// Everything a client records, as values.
pub ghost struct ClientView {
    pub zone: ZoneId,
    pub window: Window,
    pub frame: Window,
    pub name: Seq<char>,
    pub class: Seq<char>,
    pub instance: Seq<char>,
    pub context: usize,
    pub workspace: usize,
    pub window_type: WindowType,
    pub active_region: Region,
    pub previous_region: Region,
    pub inner_region: Region,
    pub free_region: Region,
    pub tile_region: Region,
    pub decoration: Decoration,
    pub warp_pos: Option<Pos>,
    pub parent: Option<Window>,
    pub children: Seq<Window>,
    pub leader: Option<Window>,
    pub producer: Option<Window>,
    pub consumers: Seq<Window>,
    pub focused: bool,
    pub mapped: bool,
    pub managed: bool,
    pub urgent: bool,
    pub floating: bool,
    pub fullscreen: bool,
    pub contained: bool,
    pub invincible: bool,
    pub sticky: bool,
    pub iconifyable: bool,
    pub iconified: bool,
    pub disowned: bool,
    pub consuming: bool,
    pub producing: bool,
    pub outside_state: OutsideState,
    pub pid: Option<Pid>,
    pub ppid: Option<Pid>,
    pub last_focused: SystemTime,
    pub managed_since: SystemTime,
    pub expected_unmap_count: u8,
    pub size_hints: Option<SizeLimits>,
}

/// A managed window: its identity, names, regions, decoration, relations to other windows, and
/// the flags that say how it is to be treated and shown.
pub struct Client {
    zone: ZoneId,
    window: Window,
    frame: Window,
    name: String,
    class: String,
    instance: String,
    context: usize,
    workspace: usize,
    window_type: WindowType,
    active_region: Region,
    previous_region: Region,
    inner_region: Region,
    free_region: Region,
    tile_region: Region,
    decoration: Decoration,
    warp_pos: Option<Pos>,
    parent: Option<Window>,
    children: Vec<Window>,
    leader: Option<Window>,
    producer: Option<Window>,
    consumers: Vec<Window>,
    focused: bool,
    mapped: bool,
    managed: bool,
    urgent: bool,
    floating: bool,
    fullscreen: bool,
    contained: bool,
    invincible: bool,
    sticky: bool,
    iconifyable: bool,
    iconified: bool,
    disowned: bool,
    consuming: bool,
    producing: bool,
    outside_state: OutsideState,
    pid: Option<Pid>,
    ppid: Option<Pid>,
    last_focused: SystemTime,
    managed_since: SystemTime,
    expected_unmap_count: u8,
    size_hints: Option<SizeLimits>,
}

/// `needle` occurs in `haystack` as a run of consecutive characters.
pub open spec fn occurs_in(needle: Seq<char>, haystack: Seq<char>) -> bool {
    exists|i: int| 0 <= i <= haystack.len() - needle.len() && #[trigger] haystack.subrange(i, i + needle.len()) == needle
}

/// Whether `text` matches `pattern` by `method`.
pub open spec fn text_matches(text: Seq<char>, method: MatchMethod<Seq<char>>) -> bool {
    match method {
        MatchMethod::Equals(p) => text == p,
        MatchMethod::Contains(p) => occurs_in(p, text),
    }
}

/// The view of a match method over a string slice.
pub open spec fn method_view(method: MatchMethod<&str>) -> MatchMethod<Seq<char>> {
    match method {
        MatchMethod::Equals(p) => MatchMethod::Equals(p@),
        MatchMethod::Contains(p) => MatchMethod::Contains(p@),
    }
}

/// Whether the characters of `text` from position `at` on begin with `needle`.
fn occurs_at(text: &str, needle: &str, at: usize, text_len: usize, needle_len: usize) -> (r: bool)
    requires
        text_len == text@.len(),
        needle_len == needle@.len(),
        at + needle_len <= text_len,
    ensures
        r == (text@.subrange(at as int, at + needle_len) == needle@),
{
    let mut k: usize = 0;
    while k < needle_len
        invariant
            text_len == text@.len(),
            needle_len == needle@.len(),
            at + needle_len <= text_len,
            k <= needle_len,
            forall|j: int| 0 <= j < k ==> text@[at + j] == needle@[j],
        decreases needle_len - k,
    {
        if text.get_char(at + k) != needle.get_char(k) {
            assert(text@.subrange(at as int, at + needle_len)[k as int] != needle@[k as int]);
            return false;
        }
        k = k + 1;
    }
    assert(text@.subrange(at as int, at + needle_len) =~= needle@);
    true
}

/// Whether `text` matches by `method`: in full, or as containing the pattern.
pub fn string_matches(text: &str, method: MatchMethod<&str>) -> (r: bool)
    ensures
        r == text_matches(text@, method_view(method)),
{
    match method {
        MatchMethod::Equals(comp) => crate::winsys::input::str_is(text, comp),
        MatchMethod::Contains(comp) => {
            let n: usize = text.unicode_len();
            let m: usize = comp.unicode_len();
            if m > n {
                assert(!occurs_in(comp@, text@));
                return false;
            }
            let mut i: usize = 0;
            loop
                invariant
                    method == MatchMethod::Contains(comp),
                    n == text@.len(),
                    m == comp@.len(),
                    m <= n,
                    i <= n - m,
                    forall|j: int| 0 <= j < i ==> #[trigger] text@.subrange(j, j + m) != comp@,
                decreases n - m - i,
            {
                if occurs_at(text, comp, i, n, m) {
                    assert(text@.subrange(i as int, i + comp@.len()) == comp@);
                    return true;
                }
                if i == n - m {
                    assert forall|j: int| 0 <= j <= text@.len() - comp@.len() implies #[trigger] text@.subrange(
                        j,
                        j + comp@.len(),
                    ) != comp@ by {
                        assert(text@.subrange(j, j + m) != comp@);
                    }
                    return false;
                }
                i = i + 1;
            }
        },
    }
}

/// The last position at which `x` occurs in `s`, if it does.
pub open spec fn last_position(s: Seq<Window>, x: Window) -> Option<int> {
    if exists|i: int| 0 <= i < s.len() && s[i] == x {
        Some(choose|i: int| 0 <= i < s.len() && s[i] == x && forall|j: int| i < j < s.len() ==> s[j] != x)
    } else {
        None
    }
}

/// `s` without the last occurrence of `x`, if it occurs.
pub open spec fn without_last_window(s: Seq<Window>, x: Window) -> Seq<Window> {
    match last_position(s, x) {
        Some(i) => s.remove(i),
        None => s,
    }
}

/// Takes the last occurrence of `x` out of `v`.
fn remove_last(v: &mut Vec<Window>, x: Window)
    ensures
        final(v)@ == without_last_window(old(v)@, x),
{
    let mut i: usize = v.len();
    while i > 0
        invariant
            v@ == old(v)@,
            i <= v.len(),
            forall|j: int| i <= j < v.len() ==> v@[j] != x,
        decreases i,
    {
        if v[i - 1] == x {
            let ghost s = v@;
            let ghost p = (i - 1) as int;
            proof {
                assert(exists|k: int| 0 <= k < s.len() && s[k] == x) by {
                    assert(s[p] == x);
                }
                let q = choose|k: int| 0 <= k < s.len() && s[k] == x && forall|j: int| k < j < s.len() ==> s[j] != x;
                assert(0 <= q < s.len() && s[q] == x && forall|j: int| q < j < s.len() ==> s[j] != x) by {
                    assert(s[p] == x && forall|j: int| p < j < s.len() ==> s[j] != x);
                }
                if q < p {
                    assert(s[p] != x);
                }
                if q > p {
                    assert(s[q] != x);
                }
            }
            v.remove(i - 1);
            return;
        }
        i = i - 1;
    }
    proof {
        if exists|k: int| 0 <= k < v@.len() && v@[k] == x {
            let k = choose|k: int| 0 <= k < v@.len() && v@[k] == x;
            assert(v@[k] != x);
        }
    }
}

/// The region inside the client's frame, relative to the frame, for a frame of `frame_extents`
/// (if any) round `active`.
pub open spec fn inner_of(active: Region, frame_extents: Option<Extents>) -> Region {
    match frame_extents {
        Some(e) => Region {
            pos: Pos { x: e.left, y: e.top },
            dim: crate::winsys::geometry::Dim {
                w: (active.dim.w - e.left - e.right) as i32,
                h: (active.dim.h - e.top - e.bottom) as i32,
            },
        },
        None => Region { pos: Pos { x: 0, y: 0 }, dim: active.dim },
    }
}

/// Taking the frame off `active` stays representable at every step.
pub open spec fn inner_fits(active: Region, frame_extents: Option<Extents>) -> bool {
    match frame_extents {
        Some(e) => {
            &&& fits_i32(active.pos.x + e.left)
            &&& fits_i32(active.pos.y + e.top)
            &&& fits_i32(active.dim.w - e.left)
            &&& fits_i32(active.dim.w - e.left - e.right)
            &&& fits_i32(active.dim.h - e.top)
            &&& fits_i32(active.dim.h - e.top - e.bottom)
        },
        None => true,
    }
}

/// The extents of a decoration's frame, if it has one.
pub open spec fn frame_extents_of(decoration: Decoration) -> Option<Extents> {
    match decoration.frame {
        Some(f) => Some(f.extents),
        None => None,
    }
}

/// The colour of `colors` for outside state `state` (the regular ones for unfocused states).
pub open spec fn color_for(colors: crate::decoration::ColorScheme, state: OutsideState) -> Color {
    match state {
        OutsideState::Focused => colors.focused,
        OutsideState::FocusedDisowned => colors.fdisowned,
        OutsideState::FocusedSticky => colors.fsticky,
        OutsideState::Unfocused => colors.regular,
        OutsideState::UnfocusedDisowned => colors.rdisowned,
        OutsideState::UnfocusedSticky => colors.rsticky,
        OutsideState::Urgent => colors.urgent,
    }
}

/// The colours a client's border (with its width) and frame take in outside state `state`.
pub open spec fn colors_for(decoration: Decoration, state: OutsideState) -> (Option<(u32, Color)>, Option<Color>) {
    (
        match decoration.border {
            Some(b) => Some((b.width, color_for(b.colors, state))),
            None => None,
        },
        match decoration.frame {
            Some(f) => Some(color_for(f.colors, state)),
            None => None,
        },
    )
}

/// The colour of `colors` for outside state `state`.
fn pick_color(colors: crate::decoration::ColorScheme, state: OutsideState) -> (r: Color)
    ensures
        r == color_for(colors, state),
{
    match state {
        OutsideState::Focused => colors.focused,
        OutsideState::FocusedDisowned => colors.fdisowned,
        OutsideState::FocusedSticky => colors.fsticky,
        OutsideState::Unfocused => colors.regular,
        OutsideState::UnfocusedDisowned => colors.rdisowned,
        OutsideState::UnfocusedSticky => colors.rsticky,
        OutsideState::Urgent => colors.urgent,
    }
}

impl View for Client {
    type V = ClientView;

    closed spec fn view(&self) -> ClientView {
        ClientView {
            zone: self.zone,
            window: self.window,
            frame: self.frame,
            name: self.name@,
            class: self.class@,
            instance: self.instance@,
            context: self.context,
            workspace: self.workspace,
            window_type: self.window_type,
            active_region: self.active_region,
            previous_region: self.previous_region,
            inner_region: self.inner_region,
            free_region: self.free_region,
            tile_region: self.tile_region,
            decoration: self.decoration,
            warp_pos: self.warp_pos,
            parent: self.parent,
            children: self.children@,
            leader: self.leader,
            producer: self.producer,
            consumers: self.consumers@,
            focused: self.focused,
            mapped: self.mapped,
            managed: self.managed,
            urgent: self.urgent,
            floating: self.floating,
            fullscreen: self.fullscreen,
            contained: self.contained,
            invincible: self.invincible,
            sticky: self.sticky,
            iconifyable: self.iconifyable,
            iconified: self.iconified,
            disowned: self.disowned,
            consuming: self.consuming,
            producing: self.producing,
            outside_state: self.outside_state,
            pid: self.pid,
            ppid: self.ppid,
            last_focused: self.last_focused,
            managed_since: self.managed_since,
            expected_unmap_count: self.expected_unmap_count,
            size_hints: self.size_hints,
        }
    }
}

impl Toggle {
    /// The value of a property once the toggle is applied to `current`.
    pub open spec fn eval_spec(self, current: bool) -> bool {
        match self {
            Toggle::On => true,
            Toggle::Off => false,
            Toggle::Reverse => !current,
        }
    }
}

/// The smallest dimensions a client is given.
pub open spec fn min_client() -> Dim {
    Dim { w: 75, h: 50 }
}

impl Client {
    /// The smallest dimensions a client is given.
    pub fn min_client_dim() -> (r: Dim)
        ensures
            r == min_client(),
    {
        Dim { w: 75, h: 50 }
    }

    /// The dimensions a client is given when it asks for none.
    pub fn preferred_client_dim() -> (r: Dim)
        ensures
            r == (Dim { w: 480, h: 260 }),
    {
        Dim { w: 480, h: 260 }
    }

    /// The outside state as shown: urgent whenever the client is urgent.
    pub open spec fn shown_state(v: ClientView) -> OutsideState {
        if v.urgent {
            OutsideState::Urgent
        } else {
            v.outside_state
        }
    }

    /// Whether a client is free: floating (unless fullscreen and not contained), disowned, or
    /// not managed.
    pub open spec fn free_spec(v: ClientView) -> bool {
        v.floating && (!v.fullscreen || v.contained) || v.disowned || !v.managed
    }

    /// A client for `window`, framed by `frame`, in zone `zone`: unfocused, unmapped, managed,
    /// producing and iconifyable, with no other flag set, at the origin with no dimensions, on
    /// workspace and context 0.
    pub fn new(
        zone: ZoneId,
        window: Window,
        frame: Window,
        name: String,
        class: String,
        instance: String,
        window_type: WindowType,
        pid: Option<Pid>,
        ppid: Option<Pid>,
    ) -> (r: Self)
        ensures
            r@.zone == zone && r@.window == window && r@.frame == frame,
            r@.name == name@ && r@.class == class@ && r@.instance == instance@,
            r@.window_type == window_type && r@.pid == pid && r@.ppid == ppid,
            r@.context == 0 && r@.workspace == 0,
            r@.active_region == zero_region() && r@.previous_region == zero_region(),
            r@.inner_region == zero_region() && r@.free_region == zero_region(),
            r@.tile_region == zero_region(),
            r@.decoration == crate::decoration::bare(),
            r@.warp_pos is None && r@.parent is None && r@.leader is None && r@.producer is None,
            r@.children == Seq::<Window>::empty() && r@.consumers == Seq::<Window>::empty(),
            !r@.focused && !r@.mapped && r@.managed && !r@.urgent && !r@.floating,
            !r@.fullscreen && !r@.contained && !r@.invincible && !r@.sticky,
            r@.iconifyable && !r@.iconified && !r@.disowned && !r@.consuming && r@.producing,
            r@.outside_state == OutsideState::Unfocused,
            r@.expected_unmap_count == 0,
            r@.size_hints is None,
    {
        let origin = Region::new(0, 0, 0, 0);
        Client {
            zone,
            window,
            frame,
            name,
            class,
            instance,
            context: 0,
            workspace: 0,
            window_type,
            active_region: origin,
            previous_region: origin,
            inner_region: origin,
            free_region: origin,
            tile_region: origin,
            decoration: Decoration::no_decoration(),
            warp_pos: None,
            parent: None,
            children: Vec::new(),
            leader: None,
            producer: None,
            consumers: Vec::new(),
            focused: false,
            mapped: false,
            managed: true,
            urgent: false,
            floating: false,
            fullscreen: false,
            contained: false,
            invincible: false,
            sticky: false,
            iconifyable: true,
            iconified: false,
            disowned: false,
            consuming: false,
            producing: true,
            outside_state: OutsideState::Unfocused,
            pid,
            ppid,
            last_focused: clock_now(),
            managed_since: clock_now(),
            expected_unmap_count: 0,
            size_hints: None,
        }
    }

    /// Records the size hints the window gives, made sense of.
    pub fn set_size_hints(&mut self, size_hints: Option<SizeLimits>)
        ensures
            final(self)@ == (ClientView { size_hints, ..old(self)@ }),
    {
        self.size_hints = size_hints;
    }

    /// The size hints the window gives, made sense of, where it gives any.
    pub fn size_hints(&self) -> (r: Option<SizeLimits>)
        ensures
            r == self@.size_hints,
    {
        self.size_hints
    }

    /// The zone the client sits in.
    pub fn zone(&self) -> (r: ZoneId)
        ensures
            r == self@.zone,
    {
        self.zone
    }

    /// The client's window and its frame.
    pub fn windows(&self) -> (r: (Window, Window))
        ensures
            r == (self@.window, self@.frame),
    {
        (self.window, self.frame)
    }

    /// The view once the client takes `active`: the region it had becomes the previous one,
    /// and the region inside its frame follows.
    pub open spec fn activated_view(v: ClientView, active: Region) -> ClientView {
        ClientView {
            active_region: active,
            previous_region: v.active_region,
            inner_region: inner_of(active, frame_extents_of(v.decoration)),
            ..v
        }
    }

    /// The view once the client is given a floating or a tiled region.
    pub open spec fn placed(v: ClientView, region: PlacementClass<Region>) -> ClientView {
        match region {
            PlacementClass::Free(r) => Client::activated_view(ClientView { free_region: r, ..v }, r),
            PlacementClass::Tile(r) => Client::activated_view(ClientView { tile_region: r, ..v }, r),
        }
    }

    /// The client's window.
    pub fn window(&self) -> (r: Window)
        ensures
            r == self@.window,
    {
        self.window
    }

    /// The window that frames the client.
    pub fn frame(&self) -> (r: Window)
        ensures
            r == self@.frame,
    {
        self.frame
    }

    /// Renames the client.
    pub fn set_name(&mut self, name: String)
        ensures
            final(self)@ == (ClientView { name: name@, ..old(self)@ }),
    {
        self.name = name;
    }

    /// The client's name.
    pub fn name(&self) -> (r: String)
        ensures
            r@ == self@.name,
    {
        self.name.clone()
    }

    /// Whether the client's name matches by `match_method`.
    pub fn name_matches(&self, match_method: MatchMethod<&str>) -> (r: bool)
        ensures
            r == text_matches(self@.name, method_view(match_method)),
    {
        string_matches(self.name.as_str(), match_method)
    }

    /// Sets the client's class.
    pub fn set_class(&mut self, class: String)
        ensures
            final(self)@ == (ClientView { class: class@, ..old(self)@ }),
    {
        self.class = class;
    }

    /// The client's class.
    pub fn class(&self) -> (r: String)
        ensures
            r@ == self@.class,
    {
        self.class.clone()
    }

    /// Whether the client's class matches by `match_method`.
    pub fn class_matches(&self, match_method: MatchMethod<&str>) -> (r: bool)
        ensures
            r == text_matches(self@.class, method_view(match_method)),
    {
        string_matches(self.class.as_str(), match_method)
    }

    /// Sets the client's instance name.
    pub fn set_instance(&mut self, instance: String)
        ensures
            final(self)@ == (ClientView { instance: instance@, ..old(self)@ }),
    {
        self.instance = instance;
    }

    /// The client's instance name.
    pub fn instance(&self) -> (r: String)
        ensures
            r@ == self@.instance,
    {
        self.instance.clone()
    }

    /// Whether the client's instance name matches by `match_method`.
    pub fn instance_matches(&self, match_method: MatchMethod<&str>) -> (r: bool)
        ensures
            r == text_matches(self@.instance, method_view(match_method)),
    {
        string_matches(self.instance.as_str(), match_method)
    }

    /// Moves the client to context `context`.
    pub fn set_context(&mut self, context: usize)
        ensures
            final(self)@ == (ClientView { context, ..old(self)@ }),
    {
        self.context = context;
    }

    /// The client's context.
    pub fn context(&self) -> (r: usize)
        ensures
            r == self@.context,
    {
        self.context
    }

    /// Moves the client to workspace `workspace`.
    pub fn set_workspace(&mut self, workspace: usize)
        ensures
            final(self)@ == (ClientView { workspace, ..old(self)@ }),
    {
        self.workspace = workspace;
    }

    /// The client's workspace.
    pub fn workspace(&self) -> (r: usize)
        ensures
            r == self@.workspace,
    {
        self.workspace
    }

    /// The client's window type.
    pub fn window_type(&self) -> (r: WindowType)
        ensures
            r == self@.window_type,
    {
        self.window_type
    }

    /// Makes `active_region` the client's region, recording the one it had and the region
    /// inside its frame.
    fn set_active_region(&mut self, active_region: Region)
        requires
            inner_fits(active_region, frame_extents_of(old(self)@.decoration)),
        ensures
            final(self)@ == Client::activated_view(old(self)@, active_region),
    {
        self.set_inner_region(active_region);
        self.previous_region = self.active_region;
        self.active_region = active_region;
    }

    /// The region the client takes.
    pub fn active_region(&self) -> (r: Region)
        ensures
            r == self@.active_region,
    {
        self.active_region
    }

    /// The region the client took before.
    pub fn previous_region(&self) -> (r: Region)
        ensures
            r == self@.previous_region,
    {
        self.previous_region
    }

    /// Records the region inside the client's frame for a client region of `active_region`.
    #[verifier::rlimit(40)]
    fn set_inner_region(&mut self, active_region: Region)
        requires
            inner_fits(active_region, frame_extents_of(old(self)@.decoration)),
        ensures
            final(self)@ == (ClientView {
                inner_region: inner_of(active_region, frame_extents_of(old(self)@.decoration)),
                ..old(self)@
            }),
    {
        self.inner_region = match self.decoration.frame {
            Some(frame) => {
                let e = frame.extents;
                Region::new(
                    e.left,
                    e.top,
                    active_region.dim.w - e.left - e.right,
                    active_region.dim.h - e.top - e.bottom,
                )
            },
            None => Region { pos: Pos { x: 0, y: 0 }, dim: active_region.dim },
        };
    }

    /// Gives the client a floating or a tiled region, which it then takes.
    #[verifier::rlimit(40)]
    pub fn set_region(&mut self, region: PlacementClass<Region>)
        requires
            match region {
                PlacementClass::Free(r) => inner_fits(r, frame_extents_of(old(self)@.decoration)),
                PlacementClass::Tile(r) => inner_fits(r, frame_extents_of(old(self)@.decoration)),
            },
        ensures
            final(self)@ == Client::placed(old(self)@, region),
    {
        match region {
            PlacementClass::Free(region) => {
                self.free_region = region;
                self.set_active_region(region);
            },
            PlacementClass::Tile(region) => {
                self.tile_region = region;
                self.set_active_region(region);
            },
        }
    }

    /// The region the client takes when floating.
    pub fn free_region(&self) -> (r: Region)
        ensures
            r == self@.free_region,
    {
        self.free_region
    }

    /// The region the client takes when tiled.
    pub fn tile_region(&self) -> (r: Region)
        ensures
            r == self@.tile_region,
    {
        self.tile_region
    }

    /// The region inside the client's frame, relative to the frame.
    pub fn inner_region(&self) -> (r: Region)
        ensures
            r == self@.inner_region,
    {
        self.inner_region
    }

    /// Sets the client's decoration.
    pub fn set_decoration(&mut self, decoration: Decoration)
        ensures
            final(self)@ == (ClientView { decoration, ..old(self)@ }),
    {
        self.decoration = decoration;
    }

    /// The client's decoration.
    pub fn decoration(&self) -> (r: Decoration)
        ensures
            r == self@.decoration,
    {
        self.decoration
    }

    /// The colours the client's border (with its width) and frame take in its current outside
    /// state.
    pub fn decoration_colors(&self) -> (r: (Option<(u32, Color)>, Option<Color>))
        ensures
            r == colors_for(self@.decoration, Client::shown_state(self@)),
    {
        let state = self.outside_state();
        let border = match self.decoration.border {
            Some(border) => Some((border.width, pick_color(border.colors, state))),
            None => None,
        };
        let frame = match self.decoration.frame {
            Some(frame) => Some(pick_color(frame.colors, state)),
            None => None,
        };
        (border, frame)
    }

    /// The space the client's decoration takes up on each side.
    pub fn frame_extents(&self) -> (r: Extents)
        requires
            padding_with_fits(Padding { left: 0, right: 0, top: 0, bottom: 0 }, self@.decoration),
        ensures
            r == padding_with(Padding { left: 0, right: 0, top: 0, bottom: 0 }, self@.decoration),
    {
        add_decoration(Padding { left: 0, right: 0, top: 0, bottom: 0 }, self.decoration)
    }

    /// Records where the pointer is to be warped to when the client takes the focus.
    pub fn set_warp_pos(&mut self, pointer_pos: Pos)
        ensures
            final(self)@ == (ClientView { warp_pos: Some(pointer_pos), ..old(self)@ }),
    {
        self.warp_pos = Some(pointer_pos);
    }

    /// Forgets where the pointer was to be warped to.
    pub fn unset_warp_pos(&mut self)
        ensures
            final(self)@ == (ClientView { warp_pos: None, ..old(self)@ }),
    {
        self.warp_pos = None;
    }

    /// Where the pointer is to be warped to when the client takes the focus.
    pub fn warp_pos(&self) -> (r: Option<Pos>)
        ensures
            r == self@.warp_pos,
    {
        self.warp_pos
    }

    /// Records the client's parent window.
    pub fn set_parent(&mut self, parent: Window)
        ensures
            final(self)@ == (ClientView { parent: Some(parent), ..old(self)@ }),
    {
        self.parent = Some(parent);
    }

    /// The client's parent window.
    pub fn parent(&self) -> (r: Option<Window>)
        ensures
            r == self@.parent,
    {
        self.parent
    }

    /// Records a child window.
    pub fn add_child(&mut self, child: Window)
        ensures
            final(self)@ == (ClientView { children: old(self)@.children.push(child), ..old(self)@ }),
    {
        self.children.push(child);
    }

    /// Forgets the last record of child window `child`, if there is one.
    pub fn remove_child(&mut self, child: Window)
        ensures
            final(self)@ == (ClientView {
                children: without_last_window(old(self)@.children, child),
                ..old(self)@
            }),
    {
        remove_last(&mut self.children, child);
    }

    /// Records the leader of the client's group.
    pub fn set_leader(&mut self, leader: Window)
        ensures
            final(self)@ == (ClientView { leader: Some(leader), ..old(self)@ }),
    {
        self.leader = Some(leader);
    }

    /// The leader of the client's group.
    pub fn leader(&self) -> (r: Option<Window>)
        ensures
            r == self@.leader,
    {
        self.leader
    }

    /// Records the client that this one was consumed into.
    pub fn set_producer(&mut self, producer: Window)
        ensures
            final(self)@ == (ClientView { producer: Some(producer), ..old(self)@ }),
    {
        self.producer = Some(producer);
    }

    /// Forgets the client that this one was consumed into.
    pub fn unset_producer(&mut self)
        ensures
            final(self)@ == (ClientView { producer: None, ..old(self)@ }),
    {
        self.producer = None;
    }

    /// The client that this one was consumed into.
    pub fn producer(&self) -> (r: Option<Window>)
        ensures
            r == self@.producer,
    {
        self.producer
    }

    /// Records a client consumed into this one.
    pub fn add_consumer(&mut self, consumer: Window)
        ensures
            final(self)@ == (ClientView { consumers: old(self)@.consumers.push(consumer), ..old(self)@ }),
    {
        self.consumers.push(consumer);
    }

    /// Forgets the last record of consumed client `consumer`, if there is one.
    pub fn remove_consumer(&mut self, consumer: Window)
        ensures
            final(self)@ == (ClientView {
                consumers: without_last_window(old(self)@.consumers, consumer),
                ..old(self)@
            }),
    {
        remove_last(&mut self.consumers, consumer);
    }

    /// How many clients are consumed into this one.
    pub fn consumer_len(&self) -> (r: usize)
        ensures
            r == self@.consumers.len(),
    {
        self.consumers.len()
    }

    /// Whether the client was consumed into another.
    pub fn is_consuming(&self) -> (r: bool)
        ensures
            r == self@.producer is Some,
    {
        self.producer.is_some()
    }

    /// Sets, clears or flips the focus; when the focus changes, so does the outside state.
    #[verifier::rlimit(40)]
    pub fn set_focused(&mut self, toggle: Toggle)
        ensures
            toggle_of(old(self)@.focused) != toggle ==> final(self)@ == (ClientView {
                focused: toggle.eval_spec(old(self)@.focused),
                outside_state: flipped(old(self)@.outside_state),
                ..old(self)@
            }),
            toggle_of(old(self)@.focused) == toggle ==> final(self)@ == old(self)@,
    {
        if Toggle::from(self.focused) != toggle {
            self.focused = toggle.eval(self.focused);
            self.outside_state = std::ops::Not::not(self.outside_state);
        }
    }

    /// Whether the client has the focus.
    pub fn is_focused(&self) -> (r: bool)
        ensures
            r == self@.focused,
    {
        self.focused
    }

    /// Sets, clears or flips urgency; a client that becomes urgent takes the urgent outside
    /// state.
    #[verifier::rlimit(40)]
    pub fn set_urgent(&mut self, toggle: Toggle)
        ensures
            final(self)@ == (ClientView {
                urgent: toggle.eval_spec(old(self)@.urgent),
                outside_state: if toggle.eval_spec(old(self)@.urgent) {
                    OutsideState::Urgent
                } else {
                    old(self)@.outside_state
                },
                ..old(self)@
            }),
    {
        let urgent = toggle.eval(self.urgent);
        self.urgent = urgent;
        if urgent {
            self.outside_state = OutsideState::Urgent;
        }
    }

    /// Whether the client is urgent.
    pub fn is_urgent(&self) -> (r: bool)
        ensures
            r == self@.urgent,
    {
        self.urgent
    }

    /// Whether the client is free: floating (unless fullscreen and not contained), disowned, or
    /// not managed.
    pub fn is_free(&self) -> (r: bool)
        ensures
            r == Client::free_spec(self@),
    {
        self.floating && (!self.fullscreen || self.contained) || self.disowned || !self.managed
    }

    /// Sets, clears or flips whether the client is mapped.
    pub fn set_mapped(&mut self, toggle: Toggle)
        ensures
            final(self)@ == (ClientView { mapped: toggle.eval_spec(old(self)@.mapped), ..old(self)@ }),
    {
        self.mapped = toggle.eval(self.mapped);
    }

    /// Whether the client is mapped.
    pub fn is_mapped(&self) -> (r: bool)
        ensures
            r == self@.mapped,
    {
        self.mapped
    }

    /// Sets, clears or flips whether the client is managed by the window manager.
    pub fn set_managed(&mut self, toggle: Toggle)
        ensures
            final(self)@ == (ClientView { managed: toggle.eval_spec(old(self)@.managed), ..old(self)@ }),
    {
        self.managed = toggle.eval(self.managed);
    }

    /// Whether the client is managed by the window manager.
    pub fn is_managed(&self) -> (r: bool)
        ensures
            r == self@.managed,
    {
        self.managed
    }

    /// Sets, clears or flips whether the client is floating.
    pub fn set_floating(&mut self, toggle: Toggle)
        ensures
            final(self)@ == (ClientView { floating: toggle.eval_spec(old(self)@.floating), ..old(self)@ }),
    {
        self.floating = toggle.eval(self.floating);
    }

    /// Whether the client is floating.
    pub fn is_floating(&self) -> (r: bool)
        ensures
            r == self@.floating,
    {
        self.floating
    }

    /// Sets, clears or flips whether the client is fullscreen.
    pub fn set_fullscreen(&mut self, toggle: Toggle)
        ensures
            final(self)@ == (ClientView { fullscreen: toggle.eval_spec(old(self)@.fullscreen), ..old(self)@ }),
    {
        self.fullscreen = toggle.eval(self.fullscreen);
    }

    /// Whether the client is fullscreen.
    pub fn is_fullscreen(&self) -> (r: bool)
        ensures
            r == self@.fullscreen,
    {
        self.fullscreen
    }

    /// Sets, clears or flips whether the client is contained (fullscreen within its tile).
    pub fn set_contained(&mut self, toggle: Toggle)
        ensures
            final(self)@ == (ClientView { contained: toggle.eval_spec(old(self)@.contained), ..old(self)@ }),
    {
        self.contained = toggle.eval(self.contained);
    }

    /// Whether the client is contained (fullscreen within its tile).
    pub fn is_contained(&self) -> (r: bool)
        ensures
            r == self@.contained,
    {
        self.contained
    }

    /// Sets, clears or flips whether the client is invincible (never killed).
    pub fn set_invincible(&mut self, toggle: Toggle)
        ensures
            final(self)@ == (ClientView { invincible: toggle.eval_spec(old(self)@.invincible), ..old(self)@ }),
    {
        self.invincible = toggle.eval(self.invincible);
    }

    /// Whether the client is invincible (never killed).
    pub fn is_invincible(&self) -> (r: bool)
        ensures
            r == self@.invincible,
    {
        self.invincible
    }

    /// Sets, clears or flips whether the client is allowed to be iconified.
    pub fn set_iconifyable(&mut self, toggle: Toggle)
        ensures
            final(self)@ == (ClientView { iconifyable: toggle.eval_spec(old(self)@.iconifyable), ..old(self)@ }),
    {
        self.iconifyable = toggle.eval(self.iconifyable);
    }

    /// Whether the client is allowed to be iconified.
    pub fn is_iconifyable(&self) -> (r: bool)
        ensures
            r == self@.iconifyable,
    {
        self.iconifyable
    }

    /// Sets, clears or flips whether the client is allowed to produce (be consumed into) other clients.
    pub fn set_producing(&mut self, toggle: Toggle)
        ensures
            final(self)@ == (ClientView { producing: toggle.eval_spec(old(self)@.producing), ..old(self)@ }),
    {
        self.producing = toggle.eval(self.producing);
    }

    /// Whether the client is allowed to produce (be consumed into) other clients.
    pub fn is_producing(&self) -> (r: bool)
        ensures
            r == self@.producing,
    {
        self.producing
    }

    /// Sets, clears or flips whether the client is iconified.
    pub fn set_iconified(&mut self, toggle: Toggle)
        ensures
            final(self)@ == (ClientView { iconified: toggle.eval_spec(old(self)@.iconified), ..old(self)@ }),
    {
        self.iconified = toggle.eval(self.iconified);
    }

    /// Whether the client is iconified.
    pub fn is_iconified(&self) -> (r: bool)
        ensures
            r == self@.iconified,
    {
        self.iconified
    }

    /// Sets, clears or flips stickiness, and the outside state with it.
    #[verifier::rlimit(40)]
    pub fn set_sticky(&mut self, toggle: Toggle)
        ensures
            final(self)@ == (ClientView {
                sticky: toggle.eval_spec(old(self)@.sticky),
                outside_state: with_stickiness(old(self)@.outside_state, toggle.eval_spec(old(self)@.sticky)),
                ..old(self)@
            }),
    {
        let sticky = toggle.eval(self.sticky);
        let state = stickiness(self.outside_state, sticky);
        self.sticky = sticky;
        self.outside_state = state;
    }

    /// Whether the client is sticky.
    pub fn is_sticky(&self) -> (r: bool)
        ensures
            r == self@.sticky,
    {
        self.sticky
    }

    /// Sets, clears or flips disownment, and the outside state with it.
    #[verifier::rlimit(40)]
    pub fn set_disowned(&mut self, toggle: Toggle)
        ensures
            final(self)@ == (ClientView {
                disowned: toggle.eval_spec(old(self)@.disowned),
                outside_state: with_disownment(old(self)@.outside_state, toggle.eval_spec(old(self)@.disowned)),
                ..old(self)@
            }),
    {
        let disowned = toggle.eval(self.disowned);
        let state = disownment(self.outside_state, disowned);
        self.disowned = disowned;
        self.outside_state = state;
    }

    /// Whether the client is disowned.
    pub fn is_disowned(&self) -> (r: bool)
        ensures
            r == self@.disowned,
    {
        self.disowned
    }

    /// The outside state as shown: urgent whenever the client is urgent.
    pub fn outside_state(&self) -> (r: OutsideState)
        ensures
            r == Client::shown_state(self@),
    {
        if self.urgent {
            OutsideState::Urgent
        } else {
            self.outside_state
        }
    }

    /// The client's process identifier.
    pub fn pid(&self) -> (r: Option<Pid>)
        ensures
            r == self@.pid,
    {
        self.pid
    }

    /// The client's parent process identifier.
    pub fn ppid(&self) -> (r: Option<Pid>)
        ensures
            r == self@.ppid,
    {
        self.ppid
    }

    /// When the client last had the focus.
    pub fn last_focused(&self) -> (r: SystemTime)
        ensures
            r == self@.last_focused,
    {
        self.last_focused
    }

    /// Since when the client has been managed.
    pub fn managed_since(&self) -> (r: SystemTime)
        ensures
            r == self@.managed_since,
    {
        self.managed_since
    }

    /// Records that one more unmap of the client is to be expected (and ignored).
    pub fn expect_unmap(&mut self)
        requires
            old(self)@.expected_unmap_count < u8::MAX,
        ensures
            final(self)@ == unmap_expected(old(self)@),
    {
        self.expected_unmap_count = self.expected_unmap_count + 1;
    }

    /// Whether an unmap is expected; if so, one fewer is expected afterwards.
    pub fn consume_unmap_if_expecting(&mut self) -> (r: bool)
        ensures
            r == (old(self)@.expected_unmap_count > 0),
            final(self)@ == unmap_consumed(old(self)@),
    {
        let expected_unmap_count = self.expected_unmap_count;
        let expecting = expected_unmap_count > 0;
        if expecting {
            self.expected_unmap_count = expected_unmap_count - 1;
        }
        expecting
    }

    /// Whether an unmap of the client is expected.
    pub fn is_expecting_unmap(&self) -> (r: bool)
        ensures
            r == (self@.expected_unmap_count > 0),
    {
        self.expected_unmap_count > 0
    }
}

impl PartialEq for Client {
    /// Clients are the same when they manage the same window.
    fn eq(&self, other: &Self) -> (r: bool) {
        self.window == other.window
    }
}

impl vstd::std_specs::cmp::PartialEqSpecImpl for Client {
    open spec fn obeys_eq_spec() -> bool {
        true
    }

    open spec fn eq_spec(&self, other: &Self) -> bool {
        self@.window == other@.window
    }
}

impl Identify for Client {
    open spec fn ident(&self) -> Ident {
        self@.window
    }

    /// The client's window.
    fn id(&self) -> (r: Ident) {
        self.window
    }
}

/// Flipping the focus twice gives the state back.
pub proof fn law_flip_involutive(state: OutsideState)
    ensures
        flipped(flipped(state)) == state,
{
}

/// Becoming sticky and then ceasing to be gives a focused or unfocused state back, and likewise
/// for disownment.
pub proof fn law_sticky_and_disowned_undone(state: OutsideState)
    requires
        state == OutsideState::Focused || state == OutsideState::Unfocused,
    ensures
        with_stickiness(with_stickiness(state, true), false) == state,
        with_disownment(with_disownment(state, true), false) == state,
{
}

/// The client of view `v` once one more unmap is expected of it.
pub open spec fn unmap_expected(v: ClientView) -> ClientView {
    ClientView { expected_unmap_count: (v.expected_unmap_count + 1) as u8, ..v }
}

/// The client of view `v` once an expected unmap is consumed: one fewer expected, where any is.
pub open spec fn unmap_consumed(v: ClientView) -> ClientView {
    ClientView {
        expected_unmap_count: if v.expected_unmap_count > 0 {
            (v.expected_unmap_count - 1) as u8
        } else {
            0u8
        },
        ..v
    }
}

/// The client of view `v` once `k` more unmaps are expected of it, one after the other.
pub open spec fn unmaps_expected(v: ClientView, k: nat) -> ClientView
    decreases k,
{
    if k == 0 {
        v
    } else {
        unmap_expected(unmaps_expected(v, (k - 1) as nat))
    }
}

/// What `m` consumptions of expected unmaps give, one after the other, starting from the client
/// of view `v`: each whether an unmap was expected just before it (which is also what
/// `is_expecting_unmap` says then).
pub open spec fn unmaps_consumed(v: ClientView, m: nat) -> Seq<bool>
    decreases m,
{
    if m == 0 {
        Seq::empty()
    } else {
        seq![v.expected_unmap_count > 0] + unmaps_consumed(unmap_consumed(v), (m - 1) as nat)
    }
}

proof fn lemma_unmaps_expected_count(v: ClientView, k: nat)
    requires
        v.expected_unmap_count + k <= u8::MAX,
    ensures
        unmaps_expected(v, k).expected_unmap_count == v.expected_unmap_count + k,
    decreases k,
{
    if k > 0 {
        lemma_unmaps_expected_count(v, (k - 1) as nat);
    }
}

proof fn lemma_unmaps_consumed(v: ClientView)
    ensures
        unmaps_consumed(v, v.expected_unmap_count as nat + 1) == Seq::new(v.expected_unmap_count as nat, |i: int| true).push(false),
    decreases v.expected_unmap_count,
{
    let n = v.expected_unmap_count;
    if n == 0 {
        assert(unmaps_consumed(unmap_consumed(v), 0) =~= Seq::<bool>::empty());
        assert(unmaps_consumed(v, 1) =~= seq![false]);
        assert(Seq::new(0, |i: int| true).push(false) =~= seq![false]);
    } else {
        let next = unmap_consumed(v);
        lemma_unmaps_consumed(next);
        assert(unmaps_consumed(v, n as nat + 1) =~= seq![true] + unmaps_consumed(next, n as nat));
        assert(Seq::new(n as nat, |i: int| true).push(false) =~= seq![true] + Seq::new(
            (n - 1) as nat,
            |i: int| true,
        ).push(false));
    }
}

/// After `k` unmaps are expected (by `Client::expect_unmap`) of a client that expected none,
/// the next `k` consumptions (by `Client::consume_unmap_if_expecting`) succeed and the one after
/// fails; before each, `Client::is_expecting_unmap` says what it gives, and the count never goes
/// below zero.
pub proof fn law_expected_unmaps_consumed(v: ClientView, k: nat)
    requires
        v.expected_unmap_count == 0,
        k < u8::MAX,
    ensures
        unmaps_consumed(unmaps_expected(v, k), k + 1) == Seq::new(k, |i: int| true).push(false),
{
    lemma_unmaps_expected_count(v, k);
    lemma_unmaps_consumed(unmaps_expected(v, k));
}


/// Each outside state colours the border (keeping its width) and the frame with its own colour
/// of their schemes: focused, focused and disowned, focused and sticky, regular, unfocused and
/// disowned, unfocused and sticky, urgent.
pub proof fn law_colors_follow_state(decoration: Decoration)
    ensures
        forall|state: OutsideState| {
            let (border, frame) = #[trigger] colors_for(decoration, state);
            &&& (decoration.border is None ==> border is None)
            &&& (decoration.frame is None ==> frame is None)
            &&& decoration.border matches Some(b) ==> border matches Some((w, c)) && w == b.width && c == match state {
                OutsideState::Focused => b.colors.focused,
                OutsideState::FocusedDisowned => b.colors.fdisowned,
                OutsideState::FocusedSticky => b.colors.fsticky,
                OutsideState::Unfocused => b.colors.regular,
                OutsideState::UnfocusedDisowned => b.colors.rdisowned,
                OutsideState::UnfocusedSticky => b.colors.rsticky,
                OutsideState::Urgent => b.colors.urgent,
            }
            &&& decoration.frame matches Some(f) ==> frame matches Some(c) && c == match state {
                OutsideState::Focused => f.colors.focused,
                OutsideState::FocusedDisowned => f.colors.fdisowned,
                OutsideState::FocusedSticky => f.colors.fsticky,
                OutsideState::Unfocused => f.colors.regular,
                OutsideState::UnfocusedDisowned => f.colors.rdisowned,
                OutsideState::UnfocusedSticky => f.colors.rsticky,
                OutsideState::Urgent => f.colors.urgent,
            }
        },
{
}


/// An urgent client shows the urgent colours whatever its outside state; any other shows those
/// of its outside state.
pub proof fn law_urgency_shows(v: ClientView)
    ensures
        v.urgent ==> colors_for(v.decoration, Client::shown_state(v)) == colors_for(v.decoration, OutsideState::Urgent),
        !v.urgent ==> colors_for(v.decoration, Client::shown_state(v)) == colors_for(v.decoration, v.outside_state),
{
}

} // verus!
