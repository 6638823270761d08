use vstd::prelude::*;

use crate::change::Change;
use crate::change::Direction;
use crate::error::StateChangeError;
use crate::layout::max_margin;
use crate::layout::LayoutData;
use crate::layout::MAX_GAP_SIZE;
use crate::layout::MAX_MAIN_COUNT;
use crate::winsys::geometry::fits_i32;
use crate::winsys::geometry::Edge;
use crate::winsys::geometry::Padding;
use crate::zone::active_layout_data;
use crate::zone::active_layout_prev_data;
use crate::zone::data_replaced;
use crate::zone::nearest_cycle_of;
use crate::zone::ZoneManager;
use crate::cycle::active_in_range;
use crate::cycle::activated;
use crate::cycle::can_insert;
use crate::cycle::cycle_step;
use crate::cycle::deref_opt;
use crate::cycle::ids_of;
use crate::cycle::inserted;
use crate::cycle::law_insertion_keeps_active_in_range;
use crate::cycle::law_removal_keeps_active_in_range;
use crate::cycle::removed;
use crate::cycle::without_last;
use crate::cycle::Cycle;
use crate::cycle::InsertPos;
use crate::cycle::Selector;
use crate::identify::Ident;
use crate::identify::Identify;
use crate::identify::Index;
use crate::placement::ZoneId;
use crate::winsys::geometry::Pos;
use crate::winsys::geometry::Region;
use crate::winsys::input::Grip;
use crate::winsys::window::Window;

use std::collections::HashMap;
use std::collections::VecDeque;

verus! {

broadcast use vstd::std_specs::hash::group_hash_axioms;

/// Which client of a workspace an operation applies to.
#[derive(Clone, Copy, PartialEq, Eq, Structural)]
pub enum ClientSelector {
    AtActive,
    AtMaster,
    AtIndex(Index),
    AtIdent(Window),
    First,
    Last,
}

/// What a move/resize buffer is used for.
#[derive(Debug, Clone, Copy, Hash, PartialEq, Eq, Structural)]
pub enum BufferKind {
    Move,
    Resize,
}

/// The state of an ongoing move or resize of a window with the mouse: the window, the grip it
/// is held by, where the pointer was and what region the window had.
#[derive(Debug, Clone, PartialEq, Eq, Structural)]
pub struct Buffer {
    kind: BufferKind,
    handle: Window,
    window: Option<Window>,
    grip: Option<Grip>,
    grip_pos: Option<Pos>,
    window_region: Option<Region>,
}

impl Buffer {
    /// What the buffer is used for.
    pub closed spec fn kind_spec(&self) -> BufferKind {
        self.kind
    }

    /// The window that stands for the buffer.
    pub closed spec fn handle_spec(&self) -> Window {
        self.handle
    }

    /// The window being moved or resized.
    pub closed spec fn window_spec(&self) -> Option<Window> {
        self.window
    }

    /// The grip the window is held by.
    pub closed spec fn grip_spec(&self) -> Option<Grip> {
        self.grip
    }

    /// Where the pointer held the window last.
    pub closed spec fn grip_pos_spec(&self) -> Option<Pos> {
        self.grip_pos
    }

    /// The region the window had.
    pub closed spec fn window_region_spec(&self) -> Option<Region> {
        self.window_region
    }

    /// An empty buffer of the given kind, standing for `handle`.
    pub fn new(kind: BufferKind, handle: Window) -> (r: Self)
        ensures
            r.kind_spec() == kind,
            r.handle_spec() == handle,
            r.window_spec() is None,
            r.grip_spec() is None,
            r.grip_pos_spec() is None,
            r.window_region_spec() is None,
    {
        Buffer { kind, handle, window: None, grip: None, grip_pos: None, window_region: None }
    }

    /// Starts a move or resize of `window`, held by `grip` at `pos`, from `region`.
    pub fn set(&mut self, window: Window, grip: Grip, pos: Pos, region: Region)
        ensures
            final(self).kind_spec() == old(self).kind_spec(),
            final(self).handle_spec() == old(self).handle_spec(),
            final(self).window_spec() == Some(window),
            final(self).grip_spec() == Some(grip),
            final(self).grip_pos_spec() == Some(pos),
            final(self).window_region_spec() == Some(region),
    {
        self.window = Some(window);
        self.grip = Some(grip);
        self.grip_pos = Some(pos);
        self.window_region = Some(region);
    }

    /// Ends the move or resize.
    pub fn unset(&mut self)
        ensures
            final(self).kind_spec() == old(self).kind_spec(),
            final(self).handle_spec() == old(self).handle_spec(),
            final(self).window_spec() is None,
            final(self).grip_spec() is None,
            final(self).grip_pos_spec() is None,
            final(self).window_region_spec() is None,
    {
        self.window = None;
        self.grip = None;
        self.grip_pos = None;
        self.window_region = None;
    }

    /// Whether a move or resize is under way.
    pub fn is_occupied(&self) -> (r: bool)
        ensures
            r == self.window_spec() is Some,
    {
        self.window.is_some()
    }

    /// The window that stands for the buffer.
    pub fn handle(&self) -> (r: Window)
        ensures
            r == self.handle_spec(),
    {
        self.handle
    }

    /// The window being moved or resized.
    pub fn window(&self) -> (r: Option<Window>)
        ensures
            r == self.window_spec(),
    {
        self.window
    }

    /// The grip the window is held by.
    pub fn grip(&self) -> (r: Option<Grip>)
        ensures
            r == self.grip_spec(),
    {
        self.grip
    }

    /// Where the pointer held the window last.
    pub fn grip_pos(&self) -> (r: Option<Pos>)
        ensures
            r == self.grip_pos_spec(),
    {
        self.grip_pos
    }

    /// Records where the pointer holds the window now.
    pub fn set_grip_pos(&mut self, pos: Pos)
        ensures
            final(self).grip_pos_spec() == Some(pos),
            final(self).kind_spec() == old(self).kind_spec(),
            final(self).handle_spec() == old(self).handle_spec(),
            final(self).window_spec() == old(self).window_spec(),
            final(self).grip_spec() == old(self).grip_spec(),
            final(self).window_region_spec() == old(self).window_region_spec(),
    {
        self.grip_pos = Some(pos);
    }

    /// The region the window had.
    pub fn window_region(&self) -> (r: Option<Region>)
        ensures
            r == self.window_region_spec(),
    {
        self.window_region
    }

    /// Records the region the window has now.
    pub fn set_window_region(&mut self, region: Region)
        ensures
            final(self).window_region_spec() == Some(region),
            final(self).kind_spec() == old(self).kind_spec(),
            final(self).handle_spec() == old(self).handle_spec(),
            final(self).window_spec() == old(self).window_spec(),
            final(self).grip_spec() == old(self).grip_spec(),
            final(self).grip_pos_spec() == old(self).grip_pos_spec(),
    {
        self.window_region = Some(region);
    }
}

/// A scratchpad: a command whose client is shown and hidden on demand.
#[derive(Debug, Clone)]
pub struct Scratchpad {
    pub command: String,
    pub client: Option<Window>,
    pub active: bool,
}

/// A workspace: its zones (the ones that take focus and the ones that new clients spawn in),
/// its clients in order with the focus among them, and its iconified clients.
#[derive(Debug, Clone)]
pub struct Workspace {
    number: Ident,
    name: String,
    root_zone: ZoneId,
    focus_zones: Cycle<ZoneId>,
    spawn_zones: Cycle<ZoneId>,
    clients: Cycle<Window>,
    icons: Cycle<Window>,
}

/// The identifiers of windows and zones are the values themselves.
proof fn lemma_ids_are_values(s: Seq<u32>)
    ensures
        ids_of(s) == s,
{
    assert(ids_of(s) =~= s);
}

/// The value an optional reference points at, copied out.
fn copied(o: Option<&u32>) -> (r: Option<u32>)
    ensures
        r == deref_opt(o),
{
    match o {
        Some(v) => Some(*v),
        None => None,
    }
}

impl Workspace {
    /// The number of the workspace.
    pub closed spec fn number_spec(&self) -> Ident {
        self.number
    }

    /// The name of the workspace.
    pub closed spec fn name_spec(&self) -> Seq<char> {
        self.name@
    }

    /// The zone at the root of the workspace's layout tree.
    pub closed spec fn root(&self) -> ZoneId {
        self.root_zone
    }

    /// The zones that take focus, in order.
    pub closed spec fn focus_zone_cycle(&self) -> Cycle<ZoneId> {
        self.focus_zones
    }

    /// The zones that new clients spawn in, in order.
    pub closed spec fn spawn_zone_cycle(&self) -> Cycle<ZoneId> {
        self.spawn_zones
    }

    /// The clients, in order, with the focus among them.
    pub closed spec fn client_cycle(&self) -> Cycle<Window> {
        self.clients
    }

    /// The iconified clients.
    pub closed spec fn icon_cycle(&self) -> Cycle<Window> {
        self.icons
    }

    /// Every cycle of the workspace keeps a focus history, is well formed, and has its active
    /// position designate an element (or 0 when it is empty).
    pub open spec fn wf(&self) -> bool {
        &&& self.focus_zone_cycle().unwinds() && self.spawn_zone_cycle().unwinds()
        &&& self.client_cycle().unwinds() && self.icon_cycle().unwinds()
        &&& self.focus_zone_cycle().wf() && active_in_range(self.focus_zone_cycle())
        &&& self.spawn_zone_cycle().wf() && active_in_range(self.spawn_zone_cycle())
        &&& self.client_cycle().wf() && active_in_range(self.client_cycle())
        &&& self.icon_cycle().wf() && active_in_range(self.icon_cycle())
    }

    /// A workspace named `name`, numbered `number`, whose layout tree is rooted at `root_zone`,
    /// with no clients.
    pub fn new(name: String, number: Ident, root_zone: ZoneId) -> (r: Self)
        ensures
            r.wf(),
            r.number_spec() == number,
            r.name_spec() == name@,
            r.root() == root_zone,
            r.focus_zone_cycle().elems() == seq![root_zone],
            r.spawn_zone_cycle().elems() == seq![root_zone],
            r.focus_zone_cycle().unwinds() && r.spawn_zone_cycle().unwinds(),
            r.client_cycle().elems() == Seq::<Window>::empty(),
            r.icon_cycle().elems() == Seq::<Window>::empty(),
            r.client_cycle().unwinds() && r.icon_cycle().unwinds(),
            r.focus_zone_cycle().history() == Seq::<Ident>::empty(),
            r.spawn_zone_cycle().history() == Seq::<Ident>::empty(),
            r.client_cycle().history() == Seq::<Ident>::empty(),
            r.icon_cycle().history() == Seq::<Ident>::empty(),
            r.focus_zone_cycle().active() == 0 && r.spawn_zone_cycle().active() == 0,
            r.client_cycle().active() == 0 && r.icon_cycle().active() == 0,
    {
        proof {
            lemma_ids_are_values(seq![root_zone]);
            lemma_ids_are_values(Seq::<u32>::empty());
        }
        Workspace {
            number,
            name,
            root_zone,
            focus_zones: Cycle::new(vec![root_zone], true),
            spawn_zones: Cycle::new(vec![root_zone], true),
            clients: Cycle::new(Vec::new(), true),
            icons: Cycle::new(Vec::new(), true),
        }
    }

    /// The number of the workspace.
    pub fn number(&self) -> (r: Ident)
        ensures
            r == self.number_spec(),
    {
        self.number
    }

    /// The name of the workspace.
    pub fn name(&self) -> (r: &str)
        ensures
            r@ == self.name_spec(),
    {
        self.name.as_str()
    }

    /// The zone at the root of the workspace's layout tree.
    pub fn root_zone(&self) -> (r: ZoneId)
        ensures
            r == self.root(),
    {
        self.root_zone
    }

    /// How many clients the workspace holds.
    pub fn len(&self) -> (r: usize)
        ensures
            r == self.client_cycle().elems().len(),
    {
        self.clients.len()
    }

    /// Whether `window` is a client of the workspace.
    pub fn contains(&self, window: Window) -> (r: bool)
        ensures
            r == self.client_cycle().elems().contains(window),
    {
        self.clients.contains(&window)
    }

    /// Whether the workspace holds no clients.
    pub fn is_empty(&self) -> (r: bool)
        ensures
            r == (self.client_cycle().elems().len() == 0),
    {
        self.clients.is_empty()
    }

    /// The clients, in order.
    pub fn clients(&self) -> (r: Vec<Window>)
        ensures
            r@ == self.client_cycle().elems(),
    {
        let r = self.clients.as_vec();
        assert(r@ =~= self.client_cycle().elems());
        r
    }

    /// The focus history of the clients, oldest first.
    pub fn stack(&self) -> (r: VecDeque<Window>)
        ensures
            r@ == self.client_cycle().history(),
    {
        self.clients.stack()
    }

    /// The focus history with the focused client last.
    pub fn stack_after_focus(&self) -> (r: Vec<Window>)
        ensures
            r@ == (if self.client_cycle().active() < self.client_cycle().elems().len() {
                without_last(
                    self.client_cycle().history(),
                    self.client_cycle().ids()[self.client_cycle().active() as int],
                ).push(self.client_cycle().ids()[self.client_cycle().active() as int])
            } else {
                self.client_cycle().history()
            }),
    {
        self.clients.stack_after_focus()
    }

    /// The zone that has the focus.
    pub fn active_focus_zone(&self) -> (r: Option<ZoneId>)
        ensures
            r == self.focus_zone_cycle().at(self.focus_zone_cycle().active() as int),
    {
        copied(self.focus_zones.active_element())
    }

    /// The zone that new clients spawn in.
    pub fn active_spawn_zone(&self) -> (r: Option<ZoneId>)
        ensures
            r == self.spawn_zone_cycle().at(self.spawn_zone_cycle().active() as int),
    {
        copied(self.spawn_zones.active_element())
    }

    /// The focused client.
    pub fn focused_client(&self) -> (r: Option<Window>)
        ensures
            r == self.client_cycle().at(self.client_cycle().active() as int),
    {
        copied(self.clients.active_element())
    }

    /// The iconified clients, in order.
    pub fn icons(&self) -> (r: Vec<Window>)
        ensures
            r@ == self.icon_cycle().elems(),
    {
        let v = self.icons.as_vec();
        assert(v@ =~= self.icon_cycle().elems());
        v
    }

    /// The client next to the focused one in direction `dir`, wrapping round.
    pub fn next_client(&self, dir: Direction) -> (r: Option<Window>)
        requires
            self.wf(),
        ensures
            r == self.client_cycle().at(
                cycle_step(
                    self.client_cycle().elems().len() as int,
                    self.client_cycle().active() as int,
                    dir,
                ),
            ),
    {
        proof {
            self.clients.lemma_len_fits();
        }
        copied(self.clients.next_element(dir))
    }

    /// Adds zone `id` to the zones that take focus and to those that clients spawn in, at
    /// `insert`, and activates it in both.
    pub fn add_zone(&mut self, id: ZoneId, insert: &InsertPos)
        requires
            old(self).wf(),
            can_insert(old(self).focus_zone_cycle(), *insert, id),
            can_insert(old(self).spawn_zone_cycle(), *insert, id),
        ensures
            final(self).wf(),
            inserted(old(self).focus_zone_cycle(), final(self).focus_zone_cycle(), *insert, id),
            inserted(old(self).spawn_zone_cycle(), final(self).spawn_zone_cycle(), *insert, id),
            final(self).client_cycle() == old(self).client_cycle(),
            final(self).icon_cycle() == old(self).icon_cycle(),
            final(self).number_spec() == old(self).number_spec(),
            final(self).name_spec() == old(self).name_spec(),
            final(self).root() == old(self).root(),
    {
        let ghost f0 = self.focus_zones;
        let ghost s0 = self.spawn_zones;
        self.focus_zones.insert_at(insert, id);
        self.spawn_zones.insert_at(insert, id);
        proof {
            law_insertion_keeps_active_in_range(f0, self.focus_zones, *insert, id);
            law_insertion_keeps_active_in_range(s0, self.spawn_zones, *insert, id);
        }
    }

    /// Adds `window` to the clients at `insert` and focuses it.
    pub fn add_client(&mut self, window: Window, insert: &InsertPos)
        requires
            old(self).wf(),
            can_insert(old(self).client_cycle(), *insert, window),
        ensures
            final(self).wf(),
            inserted(old(self).client_cycle(), final(self).client_cycle(), *insert, window),
            final(self).focus_zone_cycle() == old(self).focus_zone_cycle(),
            final(self).spawn_zone_cycle() == old(self).spawn_zone_cycle(),
            final(self).icon_cycle() == old(self).icon_cycle(),
            final(self).number_spec() == old(self).number_spec(),
            final(self).name_spec() == old(self).name_spec(),
            final(self).root() == old(self).root(),
    {
        let ghost c0 = self.clients;
        self.clients.insert_at(insert, window);
        proof {
            law_insertion_keeps_active_in_range(c0, self.clients, *insert, window);
        }
    }

    /// Removes the client that `sel` designates from a well-formed client cycle.
    fn remove_from_clients(&mut self, sel: &Selector<Window>) -> (r: Option<Window>)
        requires
            old(self).wf(),
        ensures
            final(self).wf(),
            r == old(self).client_cycle().selected(*sel),
            removed(old(self).client_cycle(), final(self).client_cycle(), *sel),
            final(self).focus_zone_cycle() == old(self).focus_zone_cycle(),
            final(self).spawn_zone_cycle() == old(self).spawn_zone_cycle(),
            final(self).icon_cycle() == old(self).icon_cycle(),
            final(self).number_spec() == old(self).number_spec(),
            final(self).name_spec() == old(self).name_spec(),
            final(self).root() == old(self).root(),
    {
        let ghost c0 = self.clients;
        let r = self.clients.remove_for(sel);
        proof {
            if c0.selected(*sel) is Some {
                law_removal_keeps_active_in_range(c0, c0.target(*sel)->0);
            }
        }
        r
    }

    /// Removes the icon that `sel` designates from a well-formed icon cycle.
    fn remove_from_icons(&mut self, sel: &Selector<Window>) -> (r: Option<Window>)
        requires
            old(self).wf(),
        ensures
            final(self).wf(),
            r == old(self).icon_cycle().selected(*sel),
            removed(old(self).icon_cycle(), final(self).icon_cycle(), *sel),
            final(self).focus_zone_cycle() == old(self).focus_zone_cycle(),
            final(self).spawn_zone_cycle() == old(self).spawn_zone_cycle(),
            final(self).client_cycle() == old(self).client_cycle(),
            final(self).number_spec() == old(self).number_spec(),
            final(self).name_spec() == old(self).name_spec(),
            final(self).root() == old(self).root(),
    {
        let ghost c0 = self.icons;
        let r = self.icons.remove_for(sel);
        proof {
            if c0.selected(*sel) is Some {
                law_removal_keeps_active_in_range(c0, c0.target(*sel)->0);
            }
        }
        r
    }

    /// Puts `replacement` where `window` is among the clients: `replacement` leaves its own
    /// place, goes in before `window`, and `window` leaves.
    pub fn replace_client(&mut self, window: Window, replacement: Window)
        requires
            old(self).wf(),
            old(self).client_cycle().elems().len() < usize::MAX,
        ensures
            final(self).wf(),
            exists|c1: Cycle<Window>, c2: Cycle<Window>|
                removed(old(self).client_cycle(), c1, Selector::AtIdent(replacement)) && inserted(
                    c1,
                    c2,
                    InsertPos::BeforeIdent(window),
                    replacement,
                ) && removed(c2, final(self).client_cycle(), Selector::AtIdent(window)),
            final(self).focus_zone_cycle() == old(self).focus_zone_cycle(),
            final(self).spawn_zone_cycle() == old(self).spawn_zone_cycle(),
            final(self).icon_cycle() == old(self).icon_cycle(),
            final(self).number_spec() == old(self).number_spec(),
            final(self).name_spec() == old(self).name_spec(),
            final(self).root() == old(self).root(),
    {
        let ghost c0 = self.clients;
        self.remove_from_clients(&Selector::AtIdent(replacement));
        let ghost c1 = self.clients;
        proof {
            c0.lemma_removed_id_absent(c1, replacement);
        }
        self.add_client(replacement, &InsertPos::BeforeIdent(window));
        let ghost c2 = self.clients;
        self.remove_from_clients(&Selector::AtIdent(window));
        assert(removed(c0, c1, Selector::AtIdent(replacement)) && inserted(
            c1,
            c2,
            InsertPos::BeforeIdent(window),
            replacement,
        ) && removed(c2, self.clients, Selector::AtIdent(window)));
    }

    /// Focuses zone `id` and gives back the zone that had the focus; nothing happens, and
    /// `None` comes back, when no zone has the focus.
    pub fn activate_zone(&mut self, id: ZoneId) -> (r: Option<ZoneId>)
        requires
            old(self).wf(),
        ensures
            final(self).wf(),
            r == old(self).focus_zone_cycle().at(old(self).focus_zone_cycle().active() as int),
            r is Some ==> activated(
                old(self).focus_zone_cycle(),
                final(self).focus_zone_cycle(),
                Selector::AtIdent(id),
            ),
            r is None ==> final(self).focus_zone_cycle() == old(self).focus_zone_cycle(),
            final(self).spawn_zone_cycle() == old(self).spawn_zone_cycle(),
            final(self).client_cycle() == old(self).client_cycle(),
            final(self).icon_cycle() == old(self).icon_cycle(),
            final(self).number_spec() == old(self).number_spec(),
            final(self).name_spec() == old(self).name_spec(),
            final(self).root() == old(self).root(),
    {
        let prev_active = match copied(self.focus_zones.active_element()) {
            Some(prev) => prev,
            None => return None,
        };
        self.focus_zones.activate_for(&Selector::AtIdent(id));
        Some(prev_active)
    }

    /// Focuses client `window` and gives back the client that had the focus; nothing happens,
    /// and `None` comes back, when no client has the focus.
    pub fn focus_client(&mut self, window: Window) -> (r: Option<Window>)
        requires
            old(self).wf(),
        ensures
            final(self).wf(),
            r == old(self).client_cycle().at(old(self).client_cycle().active() as int),
            r is Some ==> activated(
                old(self).client_cycle(),
                final(self).client_cycle(),
                Selector::AtIdent(window),
            ),
            r is None ==> final(self).client_cycle() == old(self).client_cycle(),
            final(self).focus_zone_cycle() == old(self).focus_zone_cycle(),
            final(self).spawn_zone_cycle() == old(self).spawn_zone_cycle(),
            final(self).icon_cycle() == old(self).icon_cycle(),
            final(self).number_spec() == old(self).number_spec(),
            final(self).name_spec() == old(self).name_spec(),
            final(self).root() == old(self).root(),
    {
        let prev_active = match copied(self.clients.active_element()) {
            Some(prev) => prev,
            None => return None,
        };
        self.clients.activate_for(&Selector::AtIdent(window));
        Some(prev_active)
    }

    /// Removes zone `id` from the zones that take focus and from those that clients spawn in.
    pub fn remove_zone(&mut self, id: ZoneId)
        requires
            old(self).wf(),
        ensures
            final(self).wf(),
            removed(old(self).focus_zone_cycle(), final(self).focus_zone_cycle(), Selector::AtIdent(id)),
            removed(old(self).spawn_zone_cycle(), final(self).spawn_zone_cycle(), Selector::AtIdent(id)),
            final(self).client_cycle() == old(self).client_cycle(),
            final(self).icon_cycle() == old(self).icon_cycle(),
            final(self).number_spec() == old(self).number_spec(),
            final(self).name_spec() == old(self).name_spec(),
            final(self).root() == old(self).root(),
    {
        let ghost f0 = self.focus_zones;
        let ghost s0 = self.spawn_zones;
        self.focus_zones.remove_for(&Selector::AtIdent(id));
        self.spawn_zones.remove_for(&Selector::AtIdent(id));
        proof {
            if f0.selected(Selector::AtIdent(id)) is Some {
                law_removal_keeps_active_in_range(f0, f0.target(Selector::AtIdent(id))->0);
            }
            if s0.selected(Selector::AtIdent(id)) is Some {
                law_removal_keeps_active_in_range(s0, s0.target(Selector::AtIdent(id))->0);
            }
        }
    }

    /// Removes client `window`, if it is one, and gives it back.
    pub fn remove_client(&mut self, window: Window) -> (r: Option<Window>)
        requires
            old(self).wf(),
        ensures
            final(self).wf(),
            r == old(self).client_cycle().selected(Selector::AtIdent(window)),
            removed(old(self).client_cycle(), final(self).client_cycle(), Selector::AtIdent(window)),
            final(self).focus_zone_cycle() == old(self).focus_zone_cycle(),
            final(self).spawn_zone_cycle() == old(self).spawn_zone_cycle(),
            final(self).icon_cycle() == old(self).icon_cycle(),
            final(self).number_spec() == old(self).number_spec(),
            final(self).name_spec() == old(self).name_spec(),
            final(self).root() == old(self).root(),
    {
        self.remove_from_clients(&Selector::AtIdent(window))
    }

    /// Removes the focused client, if there is one, and gives it back.
    pub fn remove_focused_client(&mut self) -> (r: Option<Window>)
        requires
            old(self).wf(),
        ensures
            final(self).wf(),
            r == old(self).client_cycle().at(old(self).client_cycle().active() as int),
            removed(old(self).client_cycle(), final(self).client_cycle(), Selector::AtActive),
            final(self).focus_zone_cycle() == old(self).focus_zone_cycle(),
            final(self).spawn_zone_cycle() == old(self).spawn_zone_cycle(),
            final(self).icon_cycle() == old(self).icon_cycle(),
            final(self).number_spec() == old(self).number_spec(),
            final(self).name_spec() == old(self).name_spec(),
            final(self).root() == old(self).root(),
    {
        self.remove_from_clients(&Selector::AtActive)
    }

    /// Moves the focused client one place in direction `dir` (round the ends) and gives back
    /// the client now focused.
    pub fn drag_focus(&mut self, dir: Direction) -> (r: Option<Window>)
        requires
            old(self).wf(),
        ensures
            final(self).wf(),
            final(self).client_cycle().elems() == old(self).client_cycle().dragged(dir),
            final(self).client_cycle().active() == cycle_step(
                old(self).client_cycle().elems().len() as int,
                old(self).client_cycle().active() as int,
                dir,
            ),
            r == final(self).client_cycle().at(final(self).client_cycle().active() as int),
            final(self).focus_zone_cycle() == old(self).focus_zone_cycle(),
            final(self).spawn_zone_cycle() == old(self).spawn_zone_cycle(),
            final(self).icon_cycle() == old(self).icon_cycle(),
            final(self).number_spec() == old(self).number_spec(),
            final(self).name_spec() == old(self).name_spec(),
            final(self).root() == old(self).root(),
    {
        copied(self.clients.drag_active(dir))
    }

    /// Rotates the clients one place in direction `dir` and, when the focused client changed,
    /// gives back the clients focused before and after; `None` with fewer than two clients.
    pub fn rotate_clients(&mut self, dir: Direction) -> (r: Option<(Window, Window)>)
        requires
            old(self).wf(),
        ensures
            final(self).wf(),
            old(self).client_cycle().elems().len() < 2 ==> r is None && final(self).client_cycle()
                == old(self).client_cycle(),
            old(self).client_cycle().elems().len() >= 2 ==> {
                let before = old(self).client_cycle().at(old(self).client_cycle().active() as int);
                let after = final(self).client_cycle().at(final(self).client_cycle().active() as int);
                &&& final(self).client_cycle().elems() == crate::cycle::rotated(
                    old(self).client_cycle().elems(),
                    dir,
                )
                &&& final(self).client_cycle().active() == old(self).client_cycle().active()
                &&& final(self).client_cycle().history() == old(self).client_cycle().history()
                &&& r == if before is Some && after is Some && before != after {
                    Some((before->0, after->0))
                } else {
                    None
                }
            },
            final(self).focus_zone_cycle() == old(self).focus_zone_cycle(),
            final(self).spawn_zone_cycle() == old(self).spawn_zone_cycle(),
            final(self).icon_cycle() == old(self).icon_cycle(),
            final(self).number_spec() == old(self).number_spec(),
            final(self).name_spec() == old(self).name_spec(),
            final(self).root() == old(self).root(),
    {
        if self.clients.len() < 2 {
            return None;
        }
        let prev_active = copied(self.clients.active_element());
        self.clients.rotate(dir);
        let now_active = copied(self.clients.active_element());
        match (prev_active, now_active) {
            (Some(prev), Some(now)) => {
                if prev != now {
                    Some((prev, now))
                } else {
                    None
                }
            },
            _ => None,
        }
    }

    /// The focused icon.
    pub fn focused_icon(&self) -> (r: Option<Window>)
        ensures
            r == self.icon_cycle().at(self.icon_cycle().active() as int),
    {
        copied(self.icons.active_element())
    }

    /// Adds `window` to the icons, at the back, and focuses it there.
    pub fn add_icon(&mut self, window: Window)
        requires
            old(self).wf(),
            can_insert(old(self).icon_cycle(), InsertPos::Back, window),
        ensures
            final(self).wf(),
            inserted(old(self).icon_cycle(), final(self).icon_cycle(), InsertPos::Back, window),
            final(self).focus_zone_cycle() == old(self).focus_zone_cycle(),
            final(self).spawn_zone_cycle() == old(self).spawn_zone_cycle(),
            final(self).client_cycle() == old(self).client_cycle(),
            final(self).number_spec() == old(self).number_spec(),
            final(self).name_spec() == old(self).name_spec(),
            final(self).root() == old(self).root(),
    {
        let ghost c0 = self.icons;
        self.icons.insert_at(&InsertPos::Back, window);
        proof {
            law_insertion_keeps_active_in_range(c0, self.icons, InsertPos::Back, window);
        }
    }

    /// Removes icon `window`, if it is one, and gives it back.
    pub fn remove_icon(&mut self, window: Window) -> (r: Option<Window>)
        requires
            old(self).wf(),
        ensures
            final(self).wf(),
            r == old(self).icon_cycle().selected(Selector::AtIdent(window)),
            removed(old(self).icon_cycle(), final(self).icon_cycle(), Selector::AtIdent(window)),
            final(self).focus_zone_cycle() == old(self).focus_zone_cycle(),
            final(self).spawn_zone_cycle() == old(self).spawn_zone_cycle(),
            final(self).client_cycle() == old(self).client_cycle(),
            final(self).number_spec() == old(self).number_spec(),
            final(self).name_spec() == old(self).name_spec(),
            final(self).root() == old(self).root(),
    {
        self.remove_from_icons(&Selector::AtIdent(window))
    }

    /// Turns icon `window`, if it is one, back into a client at the back of the clients.
    pub fn icon_to_client(&mut self, window: Window)
        requires
            old(self).wf(),
            old(self).icon_cycle().ids().contains(window) ==> can_insert(
                old(self).client_cycle(),
                InsertPos::Back,
                window,
            ),
        ensures
            final(self).wf(),
            removed(old(self).icon_cycle(), final(self).icon_cycle(), Selector::AtIdent(window)),
            old(self).icon_cycle().ids().contains(window) ==> inserted(
                old(self).client_cycle(),
                final(self).client_cycle(),
                InsertPos::Back,
                window,
            ),
            !old(self).icon_cycle().ids().contains(window) ==> final(self).client_cycle() == old(
                self,
            ).client_cycle(),
            final(self).focus_zone_cycle() == old(self).focus_zone_cycle(),
            final(self).spawn_zone_cycle() == old(self).spawn_zone_cycle(),
            final(self).number_spec() == old(self).number_spec(),
            final(self).name_spec() == old(self).name_spec(),
            final(self).root() == old(self).root(),
    {
        let ghost c0 = self.icons;
        proof {
            c0.lemma_selected_ident(window);
        }
        if let Some(icon) = self.remove_icon(window) {
            self.add_client(icon, &InsertPos::Back);
        }
    }

    /// Turns client `window`, if it is one, into an icon at the back of the icons.
    pub fn client_to_icon(&mut self, window: Window)
        requires
            old(self).wf(),
            old(self).client_cycle().ids().contains(window) ==> can_insert(
                old(self).icon_cycle(),
                InsertPos::Back,
                window,
            ),
        ensures
            final(self).wf(),
            removed(old(self).client_cycle(), final(self).client_cycle(), Selector::AtIdent(window)),
            old(self).client_cycle().ids().contains(window) ==> inserted(
                old(self).icon_cycle(),
                final(self).icon_cycle(),
                InsertPos::Back,
                window,
            ),
            !old(self).client_cycle().ids().contains(window) ==> final(self).icon_cycle() == old(
                self,
            ).icon_cycle(),
            final(self).focus_zone_cycle() == old(self).focus_zone_cycle(),
            final(self).spawn_zone_cycle() == old(self).spawn_zone_cycle(),
            final(self).number_spec() == old(self).number_spec(),
            final(self).name_spec() == old(self).name_spec(),
            final(self).root() == old(self).root(),
    {
        let ghost c0 = self.clients;
        proof {
            c0.lemma_selected_ident(window);
        }
        if let Some(client) = self.remove_client(window) {
            self.add_icon(client);
        }
    }
}

impl PartialEq for Workspace {
    /// Workspaces are the same when they have the same number.
    fn eq(&self, other: &Self) -> (r: bool) {
        self.number == other.number
    }
}

impl vstd::std_specs::cmp::PartialEqSpecImpl for Workspace {
    open spec fn obeys_eq_spec() -> bool {
        true
    }

    open spec fn eq_spec(&self, other: &Self) -> bool {
        self.number_spec() == other.number_spec()
    }
}

impl Identify for Workspace {
    open spec fn ident(&self) -> Ident {
        self.number_spec()
    }

    /// The number of the workspace.
    fn id(&self) -> (r: Ident) {
        self.number
    }
}

/// Iconifying a client and bringing it back leaves the icons as they were and puts the client
/// at the back of the clients, focused.
pub proof fn law_iconify_round_trip(
    clients: Cycle<Window>,
    clients_without: Cycle<Window>,
    clients_back: Cycle<Window>,
    icons: Cycle<Window>,
    icons_with: Cycle<Window>,
    icons_back: Cycle<Window>,
    window: Window,
)
    requires
        clients.wf(),
        icons.wf(),
        clients.ids().contains(window),
        !icons.ids().contains(window),
        removed(clients, clients_without, Selector::AtIdent(window)),
        inserted(icons, icons_with, InsertPos::Back, window),
        removed(icons_with, icons_back, Selector::AtIdent(window)),
        inserted(clients_without, clients_back, InsertPos::Back, window),
    ensures
        icons_back.elems() == icons.elems(),
        clients_back.elems() == clients_without.elems().push(window),
        clients_back.at(clients_back.active() as int) == Some(window),
{
    let n = icons.elems().len() as int;
    assert(icons_with.elems() =~= icons.elems().push(window));
    assert(icons_with.ids()[n] == window);
    icons_with.lemma_position_of_index(n);
    assert(icons_with.elems().remove(n) =~= icons.elems());
    assert(clients_back.elems() =~= clients_without.elems().push(window));
}

/// The gap size `change` makes of `gap`: grown, up to the widest gap; or shrunk, the two taken
/// as signed integers, down to zero.
pub open spec fn changed_gap_size(gap: u32, change: Change<u32>) -> u32 {
    match change {
        Change::Inc(d) => if gap + d < MAX_GAP_SIZE {
            (gap + d) as u32
        } else {
            MAX_GAP_SIZE
        },
        Change::Dec(d) => if (gap as i32) - (d as i32) > 0 {
            ((gap as i32) - (d as i32)) as u32
        } else {
            0
        },
    }
}

/// Changing the gap size stays representable.
pub open spec fn gap_change_fits(gap: u32, change: Change<u32>) -> bool {
    match change {
        Change::Inc(d) => gap + d <= u32::MAX,
        Change::Dec(d) => fits_i32((gap as i32) - (d as i32)),
    }
}

/// The number of main clients `change` makes of `count`: grown, up to the most a layout keeps
/// in its main area; or shrunk.
pub open spec fn changed_main_count(count: u32, change: Change<u32>) -> u32 {
    match change {
        Change::Inc(d) => if count + d < MAX_MAIN_COUNT {
            (count + d) as u32
        } else {
            MAX_MAIN_COUNT
        },
        Change::Dec(d) => (count - d) as u32,
    }
}

/// Changing the number of main clients stays representable.
pub open spec fn main_count_change_fits(count: u32, change: Change<u32>) -> bool {
    match change {
        Change::Inc(d) => count + d <= u32::MAX,
        Change::Dec(d) => d <= count,
    }
}

/// The margin at `edge`.
pub open spec fn margin_at(margin: Padding, edge: Edge) -> i32 {
    match edge {
        Edge::Left => margin.left,
        Edge::Right => margin.right,
        Edge::Top => margin.top,
        Edge::Bottom => margin.bottom,
    }
}

/// `margin` with the margin at `edge` set to `v`.
pub open spec fn margin_with(margin: Padding, edge: Edge, v: i32) -> Padding {
    match edge {
        Edge::Left => Padding { left: v, ..margin },
        Edge::Right => Padding { right: v, ..margin },
        Edge::Top => Padding { top: v, ..margin },
        Edge::Bottom => Padding { bottom: v, ..margin },
    }
}

/// The margin `change` makes of `v` at `edge`: moved by the change, kept between zero and the
/// widest margin at that edge.
pub open spec fn changed_margin(v: i32, edge: Edge, change: Change<i32>) -> i32 {
    let delta: int = match change {
        Change::Inc(d) => d as int,
        Change::Dec(d) => -d,
    };
    let m = margin_at(max_margin(), edge);
    if v + delta < 0 {
        if 0 < m {
            0
        } else {
            m
        }
    } else if v + delta < m {
        (v + delta) as i32
    } else {
        m
    }
}

/// Changing a margin stays representable.
pub open spec fn margin_change_fits(v: i32, change: Change<i32>) -> bool {
    match change {
        Change::Inc(d) => fits_i32(v + d),
        Change::Dec(d) => d != i32::MIN && fits_i32(v - d),
    }
}

impl Workspace {
    /// The zone that has the focus, if any.
    pub open spec fn focused_zone(&self) -> Option<ZoneId> {
        self.focus_zone_cycle().at(self.focus_zone_cycle().active() as int)
    }

    /// Gives the layout of the focused zone the data of the kind it was in before. An early
    /// stop, changing nothing, where no zone has the focus or its nearest zone holding subzones
    /// is a tab.
    pub fn copy_prev_layout_data<F: Copy>(&self, zone_manager: &mut ZoneManager<LayoutData<F>>) -> (r: Result<(), StateChangeError>)
        requires
            old(zone_manager).wf(),
            self.focused_zone() matches Some(id) ==> nearest_cycle_of(old(zone_manager).zones(), id) is Some,
        ensures
            match self.focused_zone() {
                Some(id) => match active_layout_prev_data(old(zone_manager).zones(), id) {
                    Some(d) => r == Ok::<(), StateChangeError>(()) && data_replaced(
                        *old(zone_manager),
                        *final(zone_manager),
                        id,
                        d,
                    ),
                    None => r == Err::<(), StateChangeError>(StateChangeError::EarlyStop)
                        && *final(zone_manager) == *old(zone_manager),
                },
                None => r == Err::<(), StateChangeError>(StateChangeError::EarlyStop)
                    && *final(zone_manager) == *old(zone_manager),
            },
    {
        let id = match self.active_focus_zone() {
            Some(id) => id,
            None => {
                return Err(StateChangeError::EarlyStop);
            },
        };
        let prev_data = match zone_manager.active_prev_data(id) {
            Some(d) => *d,
            None => {
                return Err(StateChangeError::EarlyStop);
            },
        };
        zone_manager.set_active_data(id, prev_data);
        Ok(())
    }

    /// Changes the gap size of the layout of the focused zone. A limit reached, changing
    /// nothing, where the gap size stays as it was; an early stop, changing nothing, where no
    /// zone has the focus or its nearest zone holding subzones is a tab.
    pub fn change_gap_size<F: Copy>(&self, change: Change<u32>, zone_manager: &mut ZoneManager<LayoutData<F>>) -> (r: Result<(), StateChangeError>)
        requires
            old(zone_manager).wf(),
            self.focused_zone() matches Some(id) ==> nearest_cycle_of(old(zone_manager).zones(), id) is Some
                && (active_layout_data(old(zone_manager).zones(), id) matches Some(d)
                ==> gap_change_fits(d.gap_size, change)),
        ensures
            match self.focused_zone() {
                Some(id) => match active_layout_data(old(zone_manager).zones(), id) {
                    Some(d) => {
                        let n = changed_gap_size(d.gap_size, change);
                        if n == d.gap_size {
                            r == Err::<(), StateChangeError>(StateChangeError::LimitReached)
                                && *final(zone_manager) == *old(zone_manager)
                        } else {
                            r == Ok::<(), StateChangeError>(()) && data_replaced(
                                *old(zone_manager),
                                *final(zone_manager),
                                id,
                                LayoutData { gap_size: n, ..d },
                            )
                        }
                    },
                    None => r == Err::<(), StateChangeError>(StateChangeError::EarlyStop)
                        && *final(zone_manager) == *old(zone_manager),
                },
                None => r == Err::<(), StateChangeError>(StateChangeError::EarlyStop)
                    && *final(zone_manager) == *old(zone_manager),
            },
    {
        let id = match self.active_focus_zone() {
            Some(id) => id,
            None => {
                return Err(StateChangeError::EarlyStop);
            },
        };
        let data = match zone_manager.active_data(id) {
            Some(d) => *d,
            None => {
                return Err(StateChangeError::EarlyStop);
            },
        };
        let new_gap_size: u32 = match change {
            Change::Inc(delta) => if data.gap_size + delta < MAX_GAP_SIZE {
                data.gap_size + delta
            } else {
                MAX_GAP_SIZE
            },
            Change::Dec(delta) => {
                let v: i32 = (data.gap_size as i32) - (delta as i32);
                if v > 0 {
                    v as u32
                } else {
                    0
                }
            },
        };
        if new_gap_size == data.gap_size {
            return Err(StateChangeError::LimitReached);
        }
        zone_manager.set_active_data(id, LayoutData { gap_size: new_gap_size, ..data });
        Ok(())
    }

    /// Puts the gap size of the layout of the focused zone back to that of its kind's
    /// defaults, none. An early stop, changing nothing, where no zone has the focus or its
    /// nearest zone holding subzones is a tab.
    pub fn reset_gap_size<F: Copy>(&self, zone_manager: &mut ZoneManager<LayoutData<F>>) -> (r: Result<(), StateChangeError>)
        requires
            old(zone_manager).wf(),
            self.focused_zone() matches Some(id) ==> nearest_cycle_of(old(zone_manager).zones(), id) is Some,
        ensures
            match self.focused_zone() {
                Some(id) => match active_layout_data(old(zone_manager).zones(), id) {
                    Some(d) => r == Ok::<(), StateChangeError>(()) && data_replaced(
                        *old(zone_manager),
                        *final(zone_manager),
                        id,
                        LayoutData { gap_size: 0, ..d },
                    ),
                    None => r == Err::<(), StateChangeError>(StateChangeError::EarlyStop)
                        && *final(zone_manager) == *old(zone_manager),
                },
                None => r == Err::<(), StateChangeError>(StateChangeError::EarlyStop)
                    && *final(zone_manager) == *old(zone_manager),
            },
    {
        let id = match self.active_focus_zone() {
            Some(id) => id,
            None => {
                return Err(StateChangeError::EarlyStop);
            },
        };
        let data = match zone_manager.active_data(id) {
            Some(d) => *d,
            None => {
                return Err(StateChangeError::EarlyStop);
            },
        };
        zone_manager.set_active_data(id, LayoutData { gap_size: 0, ..data });
        Ok(())
    }

    /// Changes the number of clients in the main area of the layout of the focused zone. A
    /// limit reached, changing nothing, where the number stays as it was; an early stop,
    /// changing nothing, where no zone has the focus or its nearest zone holding subzones is a
    /// tab.
    pub fn change_main_count<F: Copy>(&self, change: Change<u32>, zone_manager: &mut ZoneManager<LayoutData<F>>) -> (r: Result<(), StateChangeError>)
        requires
            old(zone_manager).wf(),
            self.focused_zone() matches Some(id) ==> nearest_cycle_of(old(zone_manager).zones(), id) is Some
                && (active_layout_data(old(zone_manager).zones(), id) matches Some(d)
                ==> main_count_change_fits(d.main_count, change)),
        ensures
            match self.focused_zone() {
                Some(id) => match active_layout_data(old(zone_manager).zones(), id) {
                    Some(d) => {
                        let n = changed_main_count(d.main_count, change);
                        if n == d.main_count {
                            r == Err::<(), StateChangeError>(StateChangeError::LimitReached)
                                && *final(zone_manager) == *old(zone_manager)
                        } else {
                            r == Ok::<(), StateChangeError>(()) && data_replaced(
                                *old(zone_manager),
                                *final(zone_manager),
                                id,
                                LayoutData { main_count: n, ..d },
                            )
                        }
                    },
                    None => r == Err::<(), StateChangeError>(StateChangeError::EarlyStop)
                        && *final(zone_manager) == *old(zone_manager),
                },
                None => r == Err::<(), StateChangeError>(StateChangeError::EarlyStop)
                    && *final(zone_manager) == *old(zone_manager),
            },
    {
        let id = match self.active_focus_zone() {
            Some(id) => id,
            None => {
                return Err(StateChangeError::EarlyStop);
            },
        };
        let data = match zone_manager.active_data(id) {
            Some(d) => *d,
            None => {
                return Err(StateChangeError::EarlyStop);
            },
        };
        let new_main_count: u32 = match change {
            Change::Inc(delta) => if data.main_count + delta < MAX_MAIN_COUNT {
                data.main_count + delta
            } else {
                MAX_MAIN_COUNT
            },
            Change::Dec(delta) => data.main_count - delta,
        };
        if data.main_count == new_main_count {
            return Err(StateChangeError::LimitReached);
        }
        zone_manager.set_active_data(id, LayoutData { main_count: new_main_count, ..data });
        Ok(())
    }

    /// Changes the margin at `edge` of the layout of the focused zone. A limit reached,
    /// changing nothing, where the margin stays as it was; an early stop, changing nothing,
    /// where no zone has the focus or its nearest zone holding subzones is a tab.
    pub fn change_margin<F: Copy>(&self, edge: Edge, change: Change<i32>, zone_manager: &mut ZoneManager<LayoutData<F>>) -> (r: Result<(), StateChangeError>)
        requires
            old(zone_manager).wf(),
            self.focused_zone() matches Some(id) ==> nearest_cycle_of(old(zone_manager).zones(), id) is Some
                && (active_layout_data(old(zone_manager).zones(), id) matches Some(d)
                ==> margin_change_fits(margin_at(d.margin, edge), change)),
        ensures
            match self.focused_zone() {
                Some(id) => match active_layout_data(old(zone_manager).zones(), id) {
                    Some(d) => {
                        let v = margin_at(d.margin, edge);
                        let n = changed_margin(v, edge, change);
                        if n == v {
                            r == Err::<(), StateChangeError>(StateChangeError::LimitReached)
                                && *final(zone_manager) == *old(zone_manager)
                        } else {
                            r == Ok::<(), StateChangeError>(()) && data_replaced(
                                *old(zone_manager),
                                *final(zone_manager),
                                id,
                                LayoutData { margin: margin_with(d.margin, edge, n), ..d },
                            )
                        }
                    },
                    None => r == Err::<(), StateChangeError>(StateChangeError::EarlyStop)
                        && *final(zone_manager) == *old(zone_manager),
                },
                None => r == Err::<(), StateChangeError>(StateChangeError::EarlyStop)
                    && *final(zone_manager) == *old(zone_manager),
            },
    {
        let id = match self.active_focus_zone() {
            Some(id) => id,
            None => {
                return Err(StateChangeError::EarlyStop);
            },
        };
        let data = match zone_manager.active_data(id) {
            Some(d) => *d,
            None => {
                return Err(StateChangeError::EarlyStop);
            },
        };
        let delta_change: i32 = match change {
            Change::Inc(delta) => delta,
            Change::Dec(delta) => -delta,
        };
        let max = crate::layout::max_margin_padding();
        let (edge_value, edge_max): (i32, i32) = match edge {
            Edge::Left => (data.margin.left, max.left),
            Edge::Right => (data.margin.right, max.right),
            Edge::Top => (data.margin.top, max.top),
            Edge::Bottom => (data.margin.bottom, max.bottom),
        };
        let edge_changed: i32 = edge_value + delta_change;
        let edge_changed: i32 = if edge_changed > 0 {
            edge_changed
        } else {
            0
        };
        let edge_changed: i32 = if edge_changed < edge_max {
            edge_changed
        } else {
            edge_max
        };
        if edge_value == edge_changed {
            return Err(StateChangeError::LimitReached);
        }
        let mut margin = data.margin;
        match edge {
            Edge::Left => margin.left = edge_changed,
            Edge::Right => margin.right = edge_changed,
            Edge::Top => margin.top = edge_changed,
            Edge::Bottom => margin.bottom = edge_changed,
        }
        zone_manager.set_active_data(id, LayoutData { margin, ..data });
        Ok(())
    }

    /// Puts the margins of the layout of the focused zone back to those of its kind's
    /// defaults, none. An early stop, changing nothing, where no zone has the focus or its
    /// nearest zone holding subzones is a tab.
    pub fn reset_margin<F: Copy>(&self, zone_manager: &mut ZoneManager<LayoutData<F>>) -> (r: Result<(), StateChangeError>)
        requires
            old(zone_manager).wf(),
            self.focused_zone() matches Some(id) ==> nearest_cycle_of(old(zone_manager).zones(), id) is Some,
        ensures
            match self.focused_zone() {
                Some(id) => match active_layout_data(old(zone_manager).zones(), id) {
                    Some(d) => r == Ok::<(), StateChangeError>(()) && data_replaced(
                        *old(zone_manager),
                        *final(zone_manager),
                        id,
                        LayoutData { margin: Padding { left: 0, right: 0, top: 0, bottom: 0 }, ..d },
                    ),
                    None => r == Err::<(), StateChangeError>(StateChangeError::EarlyStop)
                        && *final(zone_manager) == *old(zone_manager),
                },
                None => r == Err::<(), StateChangeError>(StateChangeError::EarlyStop)
                    && *final(zone_manager) == *old(zone_manager),
            },
    {
        let id = match self.active_focus_zone() {
            Some(id) => id,
            None => {
                return Err(StateChangeError::EarlyStop);
            },
        };
        let data = match zone_manager.active_data(id) {
            Some(d) => *d,
            None => {
                return Err(StateChangeError::EarlyStop);
            },
        };
        zone_manager.set_active_data(
            id,
            LayoutData { margin: Padding { left: 0, right: 0, top: 0, bottom: 0 }, ..data },
        );
        Ok(())
    }
}

impl Workspace {
    /// The position of the last client of the main area of the layout of the focused zone,
    /// one past it: the layout's number of main clients, but no more than there are clients.
    pub open spec fn master_index<F>(&self, zones: Map<ZoneId, crate::zone::Zone<LayoutData<F>>>, id: ZoneId) -> usize {
        let n = active_layout_data(zones, id)->0.main_count as usize;
        if n < self.client_cycle().elems().len() {
            n
        } else {
            self.client_cycle().elems().len() as usize
        }
    }

    /// The client `sel` designates, the master client being the one just past the main area of
    /// the layout of the focused zone; none where no zone has the focus.
    pub fn get_client_for<F>(&self, sel: ClientSelector, zone_manager: &ZoneManager<LayoutData<F>>) -> (r: Option<Window>)
        requires
            self.wf(),
            zone_manager.wf(),
            sel == ClientSelector::AtMaster ==> (self.focused_zone() matches Some(id) ==> (
            nearest_cycle_of(zone_manager.zones(), id) is Some && active_layout_data(
                zone_manager.zones(),
                id,
            ) is Some)),
        ensures
            r == match sel {
                ClientSelector::AtActive => self.client_cycle().selected(Selector::AtActive),
                ClientSelector::AtMaster => match self.focused_zone() {
                    Some(id) => self.client_cycle().selected(
                        Selector::AtIndex(self.master_index(zone_manager.zones(), id)),
                    ),
                    None => None,
                },
                ClientSelector::AtIndex(i) => self.client_cycle().selected(Selector::AtIndex(i)),
                ClientSelector::AtIdent(w) => self.client_cycle().selected(Selector::AtIdent(w)),
                ClientSelector::First => self.client_cycle().selected(Selector::First),
                ClientSelector::Last => self.client_cycle().selected(Selector::Last),
            },
    {
        let selector = match sel {
            ClientSelector::AtActive => Selector::AtActive,
            ClientSelector::AtMaster => {
                let id = match self.active_focus_zone() {
                    Some(id) => id,
                    None => {
                        return None;
                    },
                };
                let main_count = zone_manager.active_data(id).unwrap().main_count as usize;
                let len = self.clients.len();
                Selector::AtIndex(
                    if main_count < len {
                        main_count
                    } else {
                        len
                    },
                )
            },
            ClientSelector::AtIndex(index) => Selector::AtIndex(index),
            ClientSelector::AtIdent(window) => Selector::AtIdent(window),
            ClientSelector::First => Selector::First,
            ClientSelector::Last => Selector::Last,
        };
        copied(self.clients.get_for(&selector))
    }
}

impl Workspace {
    /// Moves the focus to the next client in direction `dir`, unless the layout of the
    /// focused client's zone does not wrap and the focus would wrap round; gives back the
    /// clients focused before and after, where they differ. Nothing happens with fewer than two
    /// clients.
    pub fn cycle_focus<F>(
        &mut self,
        dir: Direction,
        client_map: &HashMap<Window, crate::client::Client>,
        zone_manager: &ZoneManager<LayoutData<F>>,
    ) -> (r: Option<(Window, Window)>)
        requires
            old(self).wf(),
            zone_manager.wf(),
            old(self).client_cycle().elems().len() >= 2 ==> (old(self).client_cycle().at(
                old(self).client_cycle().active() as int,
            ) matches Some(w) ==> client_map@.contains_key(w) && nearest_cycle_of(
                zone_manager.zones(),
                client_map@[w]@.zone,
            ) is Some),
        ensures
            final(self).wf(),
            final(self).focus_zone_cycle() == old(self).focus_zone_cycle(),
            final(self).spawn_zone_cycle() == old(self).spawn_zone_cycle(),
            final(self).icon_cycle() == old(self).icon_cycle(),
            final(self).number_spec() == old(self).number_spec(),
            final(self).name_spec() == old(self).name_spec(),
            final(self).root() == old(self).root(),
            ({
                let c = old(self).client_cycle();
                let prev = c.at(c.active() as int);
                let step = cycle_step(c.elems().len() as int, c.active() as int, dir);
                let stays = c.elems().len() < 2 || prev is None || ({
                    let zones = zone_manager.zones();
                    let z = nearest_cycle_of(zones, client_map@[prev->0]@.zone)->0;
                    zones[z].holds() matches crate::zone::ZoneContent::Layout(l, _)
                        && !crate::layout::config_of(l.current()).wraps && (c.active()
                        == crate::util::spec_last_index(c.elems().len() as int) && dir
                        == Direction::Forward || c.active() == 0 && dir == Direction::Backward)
                });
                if stays {
                    r is None && final(self).client_cycle() == c
                } else {
                    &&& final(self).client_cycle().elems() == c.elems()
                    &&& final(self).client_cycle().active() == step
                    &&& final(self).client_cycle().history() == c.pushed_history()
                    &&& r == match c.at(step) {
                        Some(now) => if now != prev->0 {
                            Some((prev->0, now))
                        } else {
                            None
                        },
                        None => None,
                    }
                }
            }),
    {
        if self.clients.len() < 2 {
            return None;
        }
        let prev_active = match copied(self.clients.active_element()) {
            Some(w) => w,
            None => {
                return None;
            },
        };
        let id = client_map.get(&prev_active).unwrap().zone();
        let config = zone_manager.active_layoutconfig(id);
        if let Some(config) = config {
            if !config.wraps && self.clients.next_will_wrap(dir) {
                return None;
            }
        }
        proof {
            self.clients.lemma_len_fits();
        }
        let now_active = match copied(self.clients.cycle_active(dir)) {
            Some(w) => w,
            None => {
                return None;
            },
        };
        if prev_active != now_active {
            Some((prev_active, now_active))
        } else {
            None
        }
    }
}

/// How many steps in direction `dir` lead from position `from` to position `to` among `len`
/// positions, wrapping round: between one and `len` (a full round back to `from`).
pub open spec fn steps_between(len: int, from: int, to: int, dir: Direction) -> int {
    match dir {
        Direction::Forward => if to > from {
            to - from
        } else {
            to + len - from
        },
        Direction::Backward => if from > to {
            from - to
        } else {
            from + len - to
        },
    }
}

/// One more step in direction `dir` is one more step from where the steps started.
proof fn lemma_step_further(len: int, start: int, cur: int, dir: Direction)
    requires
        0 <= start < len,
        0 <= cur < len,
        steps_between(len, start, cur, dir) < len,
    ensures
        0 <= cycle_step(len, cur, dir) < len,
        steps_between(len, start, cycle_step(len, cur, dir), dir) == steps_between(
            len,
            start,
            cur,
            dir,
        ) + 1,
{
}

/// The first step in direction `dir` from a position is one step from it.
proof fn lemma_first_step(len: int, start: int, dir: Direction)
    requires
        2 <= len,
        0 <= start < len,
    ensures
        0 <= cycle_step(len, start, dir) < len,
        steps_between(len, start, cycle_step(len, start, dir), dir) == 1,
{
}

impl Workspace {
    /// Moves the zone that clients spawn in to the next one in direction `dir` that holds
    /// subzones, going round as far as it takes, and gives back the zones before and after;
    /// nothing happens with fewer than two such zones to move among.
    pub fn cycle_zones<D>(&mut self, dir: Direction, zone_manager: &ZoneManager<D>) -> (r: Option<(ZoneId, ZoneId)>)
        requires
            old(self).wf(),
            zone_manager.wf(),
            forall|i: int|
                0 <= i < old(self).spawn_zone_cycle().elems().len() ==> zone_manager.zones().contains_key(
                    #[trigger] old(self).spawn_zone_cycle().elems()[i],
                ),
            old(self).spawn_zone_cycle().elems().len() >= 2 ==> exists|i: int|
                0 <= i < old(self).spawn_zone_cycle().elems().len() && crate::zone::is_cycle_zone(
                    zone_manager.zones()[#[trigger] old(self).spawn_zone_cycle().elems()[i]],
                ),
        ensures
            final(self).wf(),
            final(self).focus_zone_cycle() == old(self).focus_zone_cycle(),
            final(self).client_cycle() == old(self).client_cycle(),
            final(self).icon_cycle() == old(self).icon_cycle(),
            final(self).number_spec() == old(self).number_spec(),
            final(self).name_spec() == old(self).name_spec(),
            final(self).root() == old(self).root(),
            ({
                let c = old(self).spawn_zone_cycle();
                let c2 = final(self).spawn_zone_cycle();
                let len = c.elems().len() as int;
                if len < 2 {
                    r is None && c2 == c
                } else {
                    let start = c.active() as int;
                    let end = c2.active() as int;
                    let zones = zone_manager.zones();
                    &&& c2.elems() == c.elems()
                    &&& 0 <= end < len
                    &&& crate::zone::is_cycle_zone(zones[c.elems()[end]])
                    &&& forall|p: int|
                        0 <= p < len && steps_between(len, start, p, dir) < steps_between(
                            len,
                            start,
                            end,
                            dir,
                        ) ==> !crate::zone::is_cycle_zone(zones[#[trigger] c.elems()[p]])
                    &&& r == Some((c.elems()[start], c.elems()[end]))
                }
            }),
    {
        if self.spawn_zones.len() < 2 {
            return None;
        }
        let ghost c = self.spawn_zones;
        let ghost len = c.elems().len() as int;
        let ghost start = c.active() as int;
        let ghost zones = zone_manager.zones();
        proof {
            self.spawn_zones.lemma_len_fits();
        }
        let prev_active = copied(self.spawn_zones.active_element()).unwrap();
        let mut now_active = copied(self.spawn_zones.cycle_active(dir)).unwrap();
        proof {
            lemma_first_step(len, start, dir);
        }
        let ghost witness = choose|i: int| 0 <= i < len && crate::zone::is_cycle_zone(zones[c.elems()[i]]);
        loop
            invariant
                self.wf(),
                self.focus_zone_cycle() == old(self).focus_zone_cycle(),
                self.client_cycle() == old(self).client_cycle(),
                self.icon_cycle() == old(self).icon_cycle(),
                self.number_spec() == old(self).number_spec(),
                self.name_spec() == old(self).name_spec(),
                self.root() == old(self).root(),
                zone_manager.wf(),
                zones == zone_manager.zones(),
                c == old(self).spawn_zone_cycle(),
                len == c.elems().len(),
                len >= 2,
                start == c.active(),
                0 <= start < len,
                prev_active == c.elems()[start],
                self.spawn_zone_cycle().elems() == c.elems(),
                0 <= self.spawn_zone_cycle().active() < len,
                now_active == c.elems()[self.spawn_zone_cycle().active() as int],
                1 <= steps_between(len, start, self.spawn_zone_cycle().active() as int, dir) <= len,
                0 <= witness < len,
                crate::zone::is_cycle_zone(zones[c.elems()[witness]]),
                steps_between(len, start, witness, dir) >= steps_between(
                    len,
                    start,
                    self.spawn_zone_cycle().active() as int,
                    dir,
                ),
                forall|i: int| 0 <= i < len ==> zones.contains_key(#[trigger] c.elems()[i]),
                forall|p: int|
                    0 <= p < len && steps_between(len, start, p, dir) < steps_between(
                        len,
                        start,
                        self.spawn_zone_cycle().active() as int,
                        dir,
                    ) ==> !crate::zone::is_cycle_zone(zones[#[trigger] c.elems()[p]]),
            decreases len - steps_between(len, start, self.spawn_zone_cycle().active() as int, dir),
        {
            let ghost cur = self.spawn_zone_cycle().active() as int;
            if zone_manager.is_cycle(now_active) {
                return Some((prev_active, now_active));
            }
            proof {
                if steps_between(len, start, cur, dir) == len {
                    assert(cur == start);
                    assert(steps_between(len, start, witness, dir) == len);
                    assert(witness == start);
                }
                lemma_step_further(len, start, cur, dir);
                self.spawn_zones.lemma_len_fits();
            }
            now_active = copied(self.spawn_zones.cycle_active(dir)).unwrap();
        }
    }
}

impl Workspace {
    /// Hands each client of the workspace, in order, to `func`.
    pub fn on_each_client<F: Fn(&crate::client::Client)>(&self, client_map: &HashMap<Window, crate::client::Client>, func: F)
        requires
            self.wf(),
            forall|i: int|
                0 <= i < self.client_cycle().elems().len() ==> client_map@.contains_key(
                    #[trigger] self.client_cycle().elems()[i],
                ) && func.requires((&client_map@[self.client_cycle().elems()[i]],)),
    {
        let windows = self.clients.as_vec();
        let mut i: usize = 0;
        while i < windows.len()
            invariant
                windows@ == self.client_cycle().elems(),
                i <= windows@.len(),
                forall|i: int|
                    0 <= i < self.client_cycle().elems().len() ==> client_map@.contains_key(
                        #[trigger] self.client_cycle().elems()[i],
                    ) && func.requires((&client_map@[self.client_cycle().elems()[i]],)),
            decreases windows@.len() - i,
        {
            let client = client_map.get(&windows[i]).unwrap();
            func(client);
            i = i + 1;
        }
    }
}

/// Iconifying a client of a workspace and bringing it back takes it out of its place among the
/// clients and puts it at the back, focused, with as many clients as before; the icons are as
/// they were, and the window is no longer among them.
pub proof fn law_client_icon_round_trip(before: Workspace, middle: Workspace, after: Workspace, window: Window)
    requires
        before.wf(),
        middle.wf(),
        after.wf(),
        before.client_cycle().ids().contains(window),
        !before.icon_cycle().ids().contains(window),
        removed(before.client_cycle(), middle.client_cycle(), Selector::AtIdent(window)),
        inserted(before.icon_cycle(), middle.icon_cycle(), InsertPos::Back, window),
        removed(middle.icon_cycle(), after.icon_cycle(), Selector::AtIdent(window)),
        inserted(middle.client_cycle(), after.client_cycle(), InsertPos::Back, window),
    ensures
        ({
            let c = before.client_cycle();
            let p = c.target(Selector::AtIdent(window))->0;
            &&& after.client_cycle().elems() == c.elems().remove(p).push(window)
            &&& after.client_cycle().elems().len() == c.elems().len()
            &&& after.client_cycle().at(after.client_cycle().active() as int) == Some(window)
            &&& after.icon_cycle().elems() == before.icon_cycle().elems()
            &&& !after.icon_cycle().ids().contains(window)
        }),
{
    before.client_cycle().lemma_selected_ident(window);
    law_iconify_round_trip(
        before.client_cycle(),
        middle.client_cycle(),
        after.client_cycle(),
        before.icon_cycle(),
        middle.icon_cycle(),
        after.icon_cycle(),
        window,
    );
    middle.icon_cycle().lemma_removed_id_absent(after.icon_cycle(), window);
}


/// Raising the number of main clients by `d` gives `count + d` below the most a layout keeps in
/// its main area and that most otherwise; lowering it by `d` (no more than there are) gives
/// `count - d`; and lowering by `d` what was raised by `d` below that most gives `count` back.
pub proof fn law_main_count_steps(count: u32, d: u32)
    ensures
        count + d < MAX_MAIN_COUNT ==> changed_main_count(count, Change::Inc(d)) == count + d,
        count + d >= MAX_MAIN_COUNT ==> changed_main_count(count, Change::Inc(d)) == MAX_MAIN_COUNT,
        d <= count ==> changed_main_count(count, Change::Dec(d)) == count - d,
        count + d < MAX_MAIN_COUNT ==> changed_main_count(
            changed_main_count(count, Change::Inc(d)),
            Change::Dec(d),
        ) == count,
{
}

} // verus!
