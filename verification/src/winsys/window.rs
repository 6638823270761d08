use vstd::prelude::*;

verus! {

/// The identifier of an X window.
pub type Window = u32;

/// The identifier of an X atom.
pub type Atom = u32;

/// A process identifier.
pub type Pid = u32;

/// A 32-bit value that reads best in hexadecimal (window and atom identifiers).
#[derive(Copy, Clone, PartialEq, Eq, Structural)]
pub struct Hex32(pub u32);

/// The ICCCM state of a top-level window.
#[derive(Debug, Copy, Clone, PartialOrd, Ord, PartialEq, Eq, Structural)]
pub enum IcccmWindowState {
    Withdrawn,
    Normal,
    Iconic,
}

/// An EWMH window state.
#[derive(Debug, Copy, Clone, PartialOrd, Ord, PartialEq, Eq, Structural)]
pub enum WindowState {
    Modal,
    Sticky,
    MaximizedVert,
    MaximizedHorz,
    Shaded,
    SkipTaskbar,
    SkipPager,
    Hidden,
    Fullscreen,
    Above,
    Below,
    DemandsAttention,
}

/// An EWMH window type.
#[derive(Debug, Copy, Clone, PartialOrd, Ord, PartialEq, Eq, Structural)]
pub enum WindowType {
    Desktop,
    Dock,
    Toolbar,
    Menu,
    Utility,
    Splash,
    Dialog,
    DropdownMenu,
    PopupMenu,
    Tooltip,
    Notification,
    Combo,
    Dnd,
    Normal,
}

} // verus!
