use vstd::prelude::*;

use crate::winsys::event::Event;
use crate::winsys::event::ToggleAction;
use crate::winsys::geometry::Corner;
use crate::winsys::geometry::Dim;
use crate::winsys::geometry::Edge;
use crate::winsys::geometry::Pos;
use crate::winsys::input::Grip;
use crate::winsys::window::Atom;
use crate::winsys::window::Window;
use crate::winsys::window::WindowState;

verus! {

/// The atoms by which clients name the requests they send the window manager.
#[derive(Debug, Copy, Clone, PartialEq, Eq, Structural)]
pub struct RequestAtoms {
    pub net_wm_state: Atom,
    pub net_moveresize_window: Atom,
    pub net_wm_moveresize: Atom,
    pub net_request_frame_extents: Atom,
    pub net_current_desktop: Atom,
    pub net_close_window: Atom,
    pub net_active_window: Atom,
}

/// The window state that `atom` names in `states`: the first entry with that atom.
pub open spec fn state_named(states: Seq<(Atom, WindowState)>, atom: Atom) -> Option<WindowState>
    decreases states.len(),
{
    if states.len() == 0 {
        None
    } else if states[0].0 == atom {
        Some(states[0].1)
    } else {
        state_named(states.drop_first(), atom)
    }
}

/// The state that a state request names: the first of its two atoms that is not zero and names
/// a state.
pub open spec fn requested_state(states: Seq<(Atom, WindowState)>, data: Seq<usize>) -> Option<
    WindowState,
> {
    let first = if data[1] != 0 {
        state_named(states, data[1] as Atom)
    } else {
        None
    };
    if first is Some {
        first
    } else if data[2] != 0 {
        state_named(states, data[2] as Atom)
    } else {
        None
    }
}

/// The action that a state request's first word names.
pub open spec fn toggle_action(word: usize) -> Option<ToggleAction> {
    if word == 0 {
        Some(ToggleAction::Remove)
    } else if word == 1 {
        Some(ToggleAction::Add)
    } else if word == 2 {
        Some(ToggleAction::Toggle)
    } else {
        None
    }
}

/// The grip that a move-resize request's direction names: `Some(None)` for a move by keyboard,
/// `None` for a direction that names nothing.
pub open spec fn direction_grip(direction: usize) -> Option<Option<Grip>> {
    if direction == 0 {
        Some(Some(Grip::Corner(Corner::TopLeft)))
    } else if direction == 1 {
        Some(Some(Grip::Edge(Edge::Top)))
    } else if direction == 2 {
        Some(Some(Grip::Corner(Corner::TopRight)))
    } else if direction == 3 {
        Some(Some(Grip::Edge(Edge::Right)))
    } else if direction == 4 {
        Some(Some(Grip::Corner(Corner::BottomRight)))
    } else if direction == 5 {
        Some(Some(Grip::Edge(Edge::Bottom)))
    } else if direction == 6 {
        Some(Some(Grip::Corner(Corner::BottomLeft)))
    } else if direction == 7 {
        Some(Some(Grip::Edge(Edge::Left)))
    } else if direction == 8 {
        Some(None)
    } else {
        None
    }
}

/// The event that a client message of type `type_`, in words of `format` bits holding `data`,
/// sent about `window`, stands for, where `root` is the root window; the message types are
/// tried in the order of the fields of `atoms`.
pub open spec fn client_message_spec(
    type_: Atom,
    format: u8,
    data: Seq<usize>,
    window: Window,
    root: Window,
    atoms: RequestAtoms,
    states: Seq<(Atom, WindowState)>,
) -> Option<Event> {
    let on_root = window == root;
    if type_ == atoms.net_wm_state {
        if format != 32 || data.len() < 3 {
            None
        } else {
            match requested_state(states, data) {
                Some(state) => match toggle_action(data[0]) {
                    Some(action) => Some(Event::StateRequest { window, state, action, on_root }),
                    None => None,
                },
                None => None,
            }
        }
    } else if type_ == atoms.net_moveresize_window {
        if data.len() < 5 {
            None
        } else {
            Some(
                Event::PlacementRequest {
                    window,
                    pos: Some(Pos { x: data[1] as i32, y: data[2] as i32 }),
                    dim: Some(Dim { w: data[3] as i32, h: data[4] as i32 }),
                    on_root,
                },
            )
        }
    } else if type_ == atoms.net_wm_moveresize {
        if data.len() < 3 {
            None
        } else {
            match direction_grip(data[2]) {
                Some(grip) => Some(
                    Event::GripRequest {
                        window,
                        pos: Pos { x: data[0] as i32, y: data[1] as i32 },
                        grip,
                        on_root,
                    },
                ),
                None => None,
            }
        }
    } else if type_ == atoms.net_request_frame_extents {
        Some(Event::FrameExtentsRequest { window, on_root })
    } else if type_ == atoms.net_current_desktop {
        if data.len() < 1 {
            None
        } else {
            Some(Event::WorkspaceRequest { window: None, index: data[0], on_root })
        }
    } else if type_ == atoms.net_close_window {
        Some(Event::CloseRequest { window, on_root })
    } else if type_ == atoms.net_active_window {
        if data.len() >= 1 && data[0] <= 2 {
            Some(Event::FocusRequest { window, on_root })
        } else {
            None
        }
    } else {
        None
    }
}

/// The window state that `atom` names in `states`, looked up from the front.
pub fn state_of_atom(states: &Vec<(Atom, WindowState)>, atom: Atom) -> (r: Option<WindowState>)
    ensures
        r == state_named(states@, atom),
{
    let mut i: usize = 0;
    assert(states@.skip(0) =~= states@);
    while i < states.len()
        invariant
            i <= states.len(),
            state_named(states@, atom) == state_named(states@.skip(i as int), atom),
        decreases states.len() - i,
    {
        assert(states@.skip(i as int).drop_first() =~= states@.skip(i as int + 1));
        if states[i].0 == atom {
            return Some(states[i].1);
        }
        i += 1;
    }
    None
}

fn action_of(word: usize) -> (r: Option<ToggleAction>)
    ensures
        r == toggle_action(word),
{
    if word == 0 {
        Some(ToggleAction::Remove)
    } else if word == 1 {
        Some(ToggleAction::Add)
    } else if word == 2 {
        Some(ToggleAction::Toggle)
    } else {
        None
    }
}

fn grip_of(direction: usize) -> (r: Option<Option<Grip>>)
    ensures
        r == direction_grip(direction),
{
    if direction == 0 {
        Some(Some(Grip::Corner(Corner::TopLeft)))
    } else if direction == 1 {
        Some(Some(Grip::Edge(Edge::Top)))
    } else if direction == 2 {
        Some(Some(Grip::Corner(Corner::TopRight)))
    } else if direction == 3 {
        Some(Some(Grip::Edge(Edge::Right)))
    } else if direction == 4 {
        Some(Some(Grip::Corner(Corner::BottomRight)))
    } else if direction == 5 {
        Some(Some(Grip::Edge(Edge::Bottom)))
    } else if direction == 6 {
        Some(Some(Grip::Corner(Corner::BottomLeft)))
    } else if direction == 7 {
        Some(Some(Grip::Edge(Edge::Left)))
    } else if direction == 8 {
        Some(None)
    } else {
        None
    }
}

/// The event that a client message stands for: its type `type_`, the bit width `format` of its
/// words, the words `data`, the window it is about, the root window, the atoms that name the
/// requests, and the atoms that name window states.
pub fn decode_client_message(
    type_: Atom,
    format: u8,
    data: &Vec<usize>,
    window: Window,
    root: Window,
    atoms: &RequestAtoms,
    states: &Vec<(Atom, WindowState)>,
) -> (r: Option<Event>)
    ensures
        r == client_message_spec(type_, format, data@, window, root, *atoms, states@),
{
    let on_root = window == root;
    if type_ == atoms.net_wm_state {
        if format != 32 || data.len() < 3 {
            return None;
        }
        let mut state = None;
        if data[1] != 0 {
            state = state_of_atom(states, data[1] as Atom);
        }
        if state.is_none() && data[2] != 0 {
            state = state_of_atom(states, data[2] as Atom);
        }
        match state {
            Some(state) => match action_of(data[0]) {
                Some(action) => Some(Event::StateRequest { window, state, action, on_root }),
                None => None,
            },
            None => None,
        }
    } else if type_ == atoms.net_moveresize_window {
        if data.len() < 5 {
            return None;
        }
        Some(
            Event::PlacementRequest {
                window,
                pos: Some(Pos { x: data[1] as i32, y: data[2] as i32 }),
                dim: Some(Dim { w: data[3] as i32, h: data[4] as i32 }),
                on_root,
            },
        )
    } else if type_ == atoms.net_wm_moveresize {
        if data.len() < 3 {
            return None;
        }
        match grip_of(data[2]) {
            Some(grip) => Some(
                Event::GripRequest {
                    window,
                    pos: Pos { x: data[0] as i32, y: data[1] as i32 },
                    grip,
                    on_root,
                },
            ),
            None => None,
        }
    } else if type_ == atoms.net_request_frame_extents {
        Some(Event::FrameExtentsRequest { window, on_root })
    } else if type_ == atoms.net_current_desktop {
        if data.len() < 1 {
            return None;
        }
        Some(Event::WorkspaceRequest { window: None, index: data[0], on_root })
    } else if type_ == atoms.net_close_window {
        Some(Event::CloseRequest { window, on_root })
    } else if type_ == atoms.net_active_window {
        if data.len() >= 1 && data[0] <= 2 {
            Some(Event::FocusRequest { window, on_root })
        } else {
            None
        }
    } else {
        None
    }
}

} // verus!
