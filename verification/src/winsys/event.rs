use vstd::prelude::*;

use crate::winsys::geometry::Dim;
use crate::winsys::geometry::Pos;
use crate::winsys::geometry::Region;
use crate::winsys::input::Grip;
use crate::winsys::input::KeyCode;
use crate::winsys::input::MouseEvent;
use crate::winsys::window::Window;
use crate::winsys::window::WindowState;

verus! {

/// An event that the window manager reacts to.
#[derive(Debug, Clone)]
pub enum Event {
    Mouse {
        event: MouseEvent,
    },
    Key {
        key_code: KeyCode,
    },
    MapRequest {
        window: Window,
        ignore: bool,
    },
    MapNotify {
        window: Window,
        ignore: bool,
    },
    Enter {
        window: Window,
        root_rpos: Pos,
        window_rpos: Pos,
    },
    Leave {
        window: Window,
        root_rpos: Pos,
        window_rpos: Pos,
    },
    Destroy {
        window: Window,
    },
    Expose {
        window: Window,
    },
    Unmap {
        window: Window,
        ignore: bool,
    },
    StateRequest {
        window: Window,
        state: WindowState,
        action: ToggleAction,
        on_root: bool,
    },
    FocusRequest {
        window: Window,
        on_root: bool,
    },
    CloseRequest {
        window: Window,
        on_root: bool,
    },
    WorkspaceRequest {
        window: Option<Window>,
        index: usize,
        on_root: bool,
    },
    PlacementRequest {
        window: Window,
        pos: Option<Pos>,
        dim: Option<Dim>,
        on_root: bool,
    },
    GripRequest {
        window: Window,
        pos: Pos,
        grip: Option<Grip>,
        on_root: bool,
    },
    RestackRequest {
        window: Window,
        sibling: Window,
        mode: StackMode,
        on_root: bool,
    },
    Configure {
        window: Window,
        region: Region,
        on_root: bool,
    },
    Property {
        window: Window,
        kind: PropertyKind,
        on_root: bool,
    },
    FrameExtentsRequest {
        window: Window,
        on_root: bool,
    },
    Mapping {
        request: u8,
    },
    ScreenChange,
    Randr,
}

/// Where a window asks to be restacked relative to a sibling.
#[derive(Debug, Copy, Clone, PartialOrd, Ord, PartialEq, Eq, Structural)]
pub enum StackMode {
    Above,
    Below,
}

/// How a requested window state is to change.
#[derive(Debug, Copy, Clone, PartialOrd, Ord, PartialEq, Eq, Structural)]
pub enum ToggleAction {
    Toggle,
    Add,
    Remove,
}

/// Which property of a window changed.
#[derive(Debug, Copy, Clone, PartialOrd, Ord, PartialEq, Eq, Structural)]
pub enum PropertyKind {
    Name,
    Class,
    Size,
    Strut,
}

} // verus!
