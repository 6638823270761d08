use vstd::prelude::*;

use crate::winsys::geometry::fits_i32;
use crate::winsys::geometry::Extents;
use crate::winsys::geometry::Padding;

verus! {

/// A colour, as 0xRRGGBB.
pub type Color = u32;

/// The colours of a window's decoration in each of its states.
#[derive(Debug, Copy, Clone, PartialEq, Eq, Structural)]
pub struct ColorScheme {
    pub regular: Color,
    pub focused: Color,
    pub urgent: Color,
    pub rdisowned: Color,
    pub fdisowned: Color,
    pub rsticky: Color,
    pub fsticky: Color,
}

/// The built-in colour scheme.
pub open spec fn default_colors() -> ColorScheme {
    ColorScheme {
        regular: 0x333333,
        focused: 0xe78a53,
        urgent: 0xfbcb97,
        rdisowned: 0x999999,
        fdisowned: 0xc1c1c1,
        rsticky: 0x444444,
        fsticky: 0x5f8787,
    }
}

impl ColorScheme {
    /// The built-in colour scheme.
    pub fn default_scheme() -> (r: Self)
        ensures
            r == default_colors(),
    {
        ColorScheme {
            regular: 0x333333,
            focused: 0xe78a53,
            urgent: 0xfbcb97,
            rdisowned: 0x999999,
            fdisowned: 0xc1c1c1,
            rsticky: 0x444444,
            fsticky: 0x5f8787,
        }
    }
}

impl Default for ColorScheme {
    fn default() -> (r: Self)
        ensures
            r == default_colors(),
    {
        ColorScheme::default_scheme()
    }
}

/// The state a window's border is drawn in.
#[derive(Debug, Copy, Clone, PartialEq, Eq, Structural)]
pub enum BorderState {
    Urgent,
    Focused,
    Unfocused,
    Disowned,
    Sticky,
}

/// The width of a border on each side.
#[derive(Debug, Copy, Clone, PartialEq, Eq, Structural)]
pub struct BorderSize {
    pub left: u32,
    pub right: u32,
    pub top: u32,
    pub bottom: u32,
}

/// A border round a window.
#[derive(Debug, Copy, Clone, PartialEq, Eq, Structural)]
pub struct Border {
    pub width: u32,
    pub colors: ColorScheme,
}

/// A frame round a window, of the given extents.
#[derive(Debug, Copy, Clone, PartialEq, Eq, Structural)]
pub struct Frame {
    pub extents: Extents,
    pub colors: ColorScheme,
}

/// What a window is decorated with: a border, a frame, both or neither.
#[derive(Debug, Copy, Clone, PartialEq, Eq, Structural)]
pub struct Decoration {
    pub border: Option<Border>,
    pub frame: Option<Frame>,
}

/// The decoration of nothing at all.
pub open spec fn bare() -> Decoration {
    Decoration { border: None, frame: None }
}

/// The decoration of a floating window: a frame three pixels wide on the left, one elsewhere.
pub open spec fn free_frame() -> Decoration {
    Decoration {
        border: None,
        frame: Some(
            Frame {
                extents: Padding { left: 3, right: 1, top: 1, bottom: 1 },
                colors: default_colors(),
            },
        ),
    }
}

/// `padding` once the decoration is added round it: a border adds one pixel on every side
/// (whatever its width), a frame adds its extents.
pub open spec fn padding_with(padding: Padding, decoration: Decoration) -> Padding {
    let b: int = if decoration.border is Some { 1 } else { 0 };
    let (l, r, t, bt): (int, int, int, int) = match decoration.frame {
        Some(f) => (
            f.extents.left as int,
            f.extents.right as int,
            f.extents.top as int,
            f.extents.bottom as int,
        ),
        None => (0, 0, 0, 0),
    };
    Padding {
        left: (padding.left + b + l) as i32,
        right: (padding.right + b + r) as i32,
        top: (padding.top + b + t) as i32,
        bottom: (padding.bottom + b + bt) as i32,
    }
}

/// Adding the decoration round `padding` stays representable.
pub open spec fn padding_with_fits(padding: Padding, decoration: Decoration) -> bool {
    let b: int = if decoration.border is Some { 1 } else { 0 };
    &&& fits_i32(padding.left + b) && fits_i32(padding.right + b)
    &&& fits_i32(padding.top + b) && fits_i32(padding.bottom + b)
    &&& decoration.frame matches Some(f) ==> {
        &&& fits_i32(padding.left + b + f.extents.left)
        &&& fits_i32(padding.right + b + f.extents.right)
        &&& fits_i32(padding.top + b + f.extents.top)
        &&& fits_i32(padding.bottom + b + f.extents.bottom)
    }
}

/// `padding` once `decoration` is added round it.
pub fn add_decoration(padding: Padding, decoration: Decoration) -> (r: Padding)
    requires
        padding_with_fits(padding, decoration),
    ensures
        r == padding_with(padding, decoration),
{
    let mut p = padding;
    if decoration.border.is_some() {
        p = Padding { left: p.left + 1, right: p.right + 1, top: p.top + 1, bottom: p.bottom + 1 };
    }
    if let Some(frame) = decoration.frame {
        p = Padding {
            left: p.left + frame.extents.left,
            right: p.right + frame.extents.right,
            top: p.top + frame.extents.top,
            bottom: p.bottom + frame.extents.bottom,
        };
    }
    p
}

impl core::ops::Add<Border> for Padding {
    type Output = Padding;

    /// The padding one pixel wider on every side, whatever the border's width.
    fn add(self, rhs: Border) -> (r: Padding) {
        Padding {
            left: self.left + 1,
            right: self.right + 1,
            top: self.top + 1,
            bottom: self.bottom + 1,
        }
    }
}

impl vstd::std_specs::ops::AddSpecImpl<Border> for Padding {
    open spec fn obeys_add_spec() -> bool {
        true
    }

    open spec fn add_req(self, rhs: Border) -> bool {
        fits_i32(self.left + 1) && fits_i32(self.right + 1) && fits_i32(self.top + 1)
            && fits_i32(self.bottom + 1)
    }

    open spec fn add_spec(self, rhs: Border) -> Padding {
        padding_with(self, Decoration { border: Some(rhs), frame: None })
    }
}

impl core::ops::Add<Frame> for Padding {
    type Output = Padding;

    /// The padding grown by the frame's extents.
    fn add(self, rhs: Frame) -> (r: Padding) {
        Padding {
            left: self.left + rhs.extents.left,
            right: self.right + rhs.extents.right,
            top: self.top + rhs.extents.top,
            bottom: self.bottom + rhs.extents.bottom,
        }
    }
}

impl vstd::std_specs::ops::AddSpecImpl<Frame> for Padding {
    open spec fn obeys_add_spec() -> bool {
        true
    }

    open spec fn add_req(self, rhs: Frame) -> bool {
        padding_with_fits(self, Decoration { border: None, frame: Some(rhs) })
    }

    open spec fn add_spec(self, rhs: Frame) -> Padding {
        padding_with(self, Decoration { border: None, frame: Some(rhs) })
    }
}

impl core::ops::Add<Decoration> for Padding {
    type Output = Padding;

    /// The padding with the decoration added round it.
    fn add(self, rhs: Decoration) -> (r: Padding) {
        add_decoration(self, rhs)
    }
}

impl vstd::std_specs::ops::AddSpecImpl<Decoration> for Padding {
    open spec fn obeys_add_spec() -> bool {
        true
    }

    open spec fn add_req(self, rhs: Decoration) -> bool {
        padding_with_fits(self, rhs)
    }

    open spec fn add_spec(self, rhs: Decoration) -> Padding {
        padding_with(self, rhs)
    }
}

impl Default for Decoration {
    fn default() -> (r: Self)
        ensures
            r == bare(),
    {
        Decoration { border: None, frame: None }
    }
}

impl Decoration {
    /// No decoration at all.
    pub fn no_decoration() -> (r: Self)
        ensures
            r == bare(),
    {
        Decoration { border: None, frame: None }
    }

    /// The decoration of a floating window.
    pub fn free_decoration() -> (r: Self)
        ensures
            r == free_frame(),
    {
        Decoration {
            border: None,
            frame: Some(
                Frame {
                    extents: Padding { left: 3, right: 1, top: 1, bottom: 1 },
                    colors: ColorScheme::default_scheme(),
                },
            ),
        }
    }

    /// The space the decoration takes up on each side of a window.
    pub open spec fn extents_spec(self) -> Extents {
        padding_with(Padding { left: 0, right: 0, top: 0, bottom: 0 }, self)
    }

    /// Working out the extents stays representable.
    pub open spec fn extents_fit(self) -> bool {
        padding_with_fits(Padding { left: 0, right: 0, top: 0, bottom: 0 }, self)
    }

    /// The space the decoration takes up on each side of a window.
    pub fn extents(&self) -> (r: Extents)
        requires
            self.extents_fit(),
        ensures
            r == self.extents_spec(),
    {
        add_decoration(Padding { left: 0, right: 0, top: 0, bottom: 0 }, *self)
    }
}

/// The extents of a decoration are its frame's extents, one pixel wider on every side when it
/// has a border; an undecorated window has none.
pub proof fn law_extents_of_decoration(decoration: Decoration)
    requires
        decoration.extents_fit(),
    ensures
        decoration.border is None && decoration.frame is None ==> decoration.extents_spec() == (
        Padding { left: 0, right: 0, top: 0, bottom: 0 }),
        decoration.frame matches Some(f) ==> decoration.extents_spec().left == f.extents.left + (
        if decoration.border is Some {
            1int
        } else {
            0
        }),
        free_frame().extents_spec() == (Padding { left: 3, right: 1, top: 1, bottom: 1 }),
{
}

} // verus!
