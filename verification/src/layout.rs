use vstd::prelude::*;

use crate::change::Disposition;
use crate::decoration::bare;
use crate::decoration::default_colors;
use crate::decoration::free_frame;
use crate::decoration::ColorScheme;
use crate::decoration::Decoration;
use crate::decoration::Frame;
use crate::error::StateChangeError;
use crate::placement::PlacementMethod;
use crate::winsys::geometry::fits_i32;
use crate::winsys::geometry::halved;
use crate::winsys::geometry::trunc_half;
use crate::winsys::geometry::Dim;
use crate::winsys::geometry::Extents;
use crate::winsys::geometry::Padding;
use crate::winsys::geometry::Pos;
use crate::winsys::geometry::Region;

verus! {

/// How a layout places and decorates the clients of a zone.
#[non_exhaustive]
#[derive(Debug, PartialEq, Eq, Clone, Copy, Structural)]
pub struct LayoutConfig {
    pub method: PlacementMethod,
    pub decoration: Decoration,
    pub root_only: bool,
    pub margin: bool,
    pub gap: bool,
    pub persistent: bool,
    pub single: bool,
    pub wraps: bool,
}

impl Default for LayoutConfig {
    fn default() -> (r: Self)
        ensures
            r == (LayoutConfig {
                method: PlacementMethod::Free,
                decoration: bare(),
                root_only: true,
                margin: false,
                gap: false,
                persistent: false,
                single: false,
                wraps: true,
            }),
    {
        LayoutConfig {
            method: PlacementMethod::Free,
            decoration: Decoration::no_decoration(),
            root_only: true,
            margin: false,
            gap: false,
            persistent: false,
            single: false,
            wraps: true,
        }
    }
}

/// The kinds of layout: floating ones first, then tiled ones.
#[non_exhaustive]
#[derive(Debug, Hash, PartialEq, Eq, Clone, Copy, Structural)]
pub enum LayoutKind {
    Float,
    BLFloat,
    SingleFloat,
    BLSingleFloat,
    Center,
    Monocle,
    Paper,
    SPaper,
    Stack,
    SStack,
    BStack,
    SBStack,
    Horz,
    SHorz,
    Vert,
    SVert,
}

/// The number of layout kinds.
pub const LAYOUT_KIND_COUNT: usize = 16;

/// The frame of the paper layouts: one pixel on either side.
pub open spec fn side_frame() -> Decoration {
    Decoration {
        frame: Some(Frame { extents: Padding { left: 1, right: 1, top: 0, bottom: 0 }, colors: default_colors() }),
        border: None,
    }
}

/// The frame of the stacking layouts: three pixels along the top.
pub open spec fn top_frame() -> Decoration {
    Decoration {
        frame: Some(Frame { extents: Padding { left: 0, right: 0, top: 3, bottom: 0 }, colors: default_colors() }),
        border: None,
    }
}

fn side_frame_decoration() -> (r: Decoration)
    ensures
        r == side_frame(),
{
    Decoration {
        frame: Some(Frame { extents: Padding { left: 1, right: 1, top: 0, bottom: 0 }, colors: ColorScheme::default_scheme() }),
        border: None,
    }
}

fn top_frame_decoration() -> (r: Decoration)
    ensures
        r == top_frame(),
{
    Decoration {
        frame: Some(Frame { extents: Padding { left: 0, right: 0, top: 3, bottom: 0 }, colors: ColorScheme::default_scheme() }),
        border: None,
    }
}

/// The configuration of each kind of layout.
pub open spec fn config_of(kind: LayoutKind) -> LayoutConfig {
    match kind {
        LayoutKind::Float => LayoutConfig {
                method: PlacementMethod::Free,
                decoration: free_frame(),
                root_only: true,
                margin: false,
                gap: false,
                persistent: false,
                single: false,
                wraps: true,
            },
        LayoutKind::BLFloat => LayoutConfig {
                method: PlacementMethod::Free,
                decoration: bare(),
                root_only: true,
                margin: false,
                gap: false,
                persistent: false,
                single: false,
                wraps: true,
            },
        LayoutKind::SingleFloat => LayoutConfig {
                method: PlacementMethod::Free,
                decoration: free_frame(),
                root_only: true,
                margin: false,
                gap: false,
                persistent: true,
                single: true,
                wraps: true,
            },
        LayoutKind::BLSingleFloat => LayoutConfig {
                method: PlacementMethod::Free,
                decoration: bare(),
                root_only: true,
                margin: false,
                gap: false,
                persistent: true,
                single: true,
                wraps: true,
            },
        LayoutKind::Center => LayoutConfig {
                method: PlacementMethod::Tile,
                decoration: bare(),
                root_only: false,
                margin: true,
                gap: true,
                persistent: false,
                single: false,
                wraps: true,
            },
        LayoutKind::Monocle => LayoutConfig {
                method: PlacementMethod::Tile,
                decoration: bare(),
                root_only: false,
                margin: true,
                gap: true,
                persistent: false,
                single: false,
                wraps: true,
            },
        LayoutKind::Paper => LayoutConfig {
                method: PlacementMethod::Tile,
                decoration: side_frame(),
                root_only: false,
                margin: true,
                gap: true,
                persistent: true,
                single: false,
                wraps: false,
            },
        LayoutKind::SPaper => LayoutConfig {
                method: PlacementMethod::Tile,
                decoration: side_frame(),
                root_only: false,
                margin: true,
                gap: false,
                persistent: true,
                single: false,
                wraps: false,
            },
        LayoutKind::Stack => LayoutConfig {
                method: PlacementMethod::Tile,
                decoration: top_frame(),
                root_only: false,
                margin: true,
                gap: true,
                persistent: false,
                single: false,
                wraps: true,
            },
        LayoutKind::SStack => LayoutConfig {
                method: PlacementMethod::Tile,
                decoration: top_frame(),
                root_only: false,
                margin: true,
                gap: false,
                persistent: false,
                single: false,
                wraps: true,
            },
        LayoutKind::BStack => LayoutConfig {
                method: PlacementMethod::Tile,
                decoration: top_frame(),
                root_only: false,
                margin: true,
                gap: true,
                persistent: false,
                single: false,
                wraps: true,
            },
        LayoutKind::SBStack => LayoutConfig {
                method: PlacementMethod::Tile,
                decoration: top_frame(),
                root_only: false,
                margin: true,
                gap: false,
                persistent: false,
                single: false,
                wraps: true,
            },
        LayoutKind::Horz => LayoutConfig {
                method: PlacementMethod::Tile,
                decoration: top_frame(),
                root_only: false,
                margin: true,
                gap: true,
                persistent: false,
                single: false,
                wraps: true,
            },
        LayoutKind::SHorz => LayoutConfig {
                method: PlacementMethod::Tile,
                decoration: top_frame(),
                root_only: false,
                margin: true,
                gap: false,
                persistent: false,
                single: false,
                wraps: true,
            },
        LayoutKind::Vert => LayoutConfig {
                method: PlacementMethod::Tile,
                decoration: top_frame(),
                root_only: false,
                margin: true,
                gap: true,
                persistent: false,
                single: false,
                wraps: true,
            },
        LayoutKind::SVert => LayoutConfig {
                method: PlacementMethod::Tile,
                decoration: top_frame(),
                root_only: false,
                margin: true,
                gap: false,
                persistent: false,
                single: false,
                wraps: true,
            },
    }
}

/// The character that stands for each kind of layout.
pub open spec fn symbol_of(kind: LayoutKind) -> char {
    match kind {
        LayoutKind::Float => 'f',
        LayoutKind::BLFloat => 'F',
        LayoutKind::SingleFloat => 'z',
        LayoutKind::BLSingleFloat => 'Z',
        LayoutKind::Center => ';',
        LayoutKind::Monocle => '%',
        LayoutKind::Paper => 'p',
        LayoutKind::SPaper => 'P',
        LayoutKind::Stack => 's',
        LayoutKind::SStack => 'S',
        LayoutKind::BStack => 'b',
        LayoutKind::SBStack => 'B',
        LayoutKind::Horz => 'h',
        LayoutKind::SHorz => 'H',
        LayoutKind::Vert => 'v',
        LayoutKind::SVert => 'V',
    }
}

/// The name of each kind of layout.
pub open spec fn name_of(kind: LayoutKind) -> Seq<char> {
    match kind {
        LayoutKind::Float => "Float"@,
        LayoutKind::BLFloat => "BLFloat"@,
        LayoutKind::SingleFloat => "SingleFloat"@,
        LayoutKind::BLSingleFloat => "BLSingleFloat"@,
        LayoutKind::Center => "Center"@,
        LayoutKind::Monocle => "Monocle"@,
        LayoutKind::Paper => "Paper"@,
        LayoutKind::SPaper => "SPaper"@,
        LayoutKind::Stack => "Stack"@,
        LayoutKind::SStack => "SStack"@,
        LayoutKind::BStack => "BStack"@,
        LayoutKind::SBStack => "SBStack"@,
        LayoutKind::Horz => "Horz"@,
        LayoutKind::SHorz => "SHorz"@,
        LayoutKind::Vert => "Vert"@,
        LayoutKind::SVert => "SVert"@,
    }
}

impl LayoutKind {
    /// The character that stands for the layout.
    pub fn symbol(&self) -> (r: char)
        ensures
            r == symbol_of(*self),
    {
        match self {
            LayoutKind::Float => 'f',
            LayoutKind::BLFloat => 'F',
            LayoutKind::SingleFloat => 'z',
            LayoutKind::BLSingleFloat => 'Z',
            LayoutKind::Center => ';',
            LayoutKind::Monocle => '%',
            LayoutKind::Paper => 'p',
            LayoutKind::SPaper => 'P',
            LayoutKind::Stack => 's',
            LayoutKind::SStack => 'S',
            LayoutKind::BStack => 'b',
            LayoutKind::SBStack => 'B',
            LayoutKind::Horz => 'h',
            LayoutKind::SHorz => 'H',
            LayoutKind::Vert => 'v',
            LayoutKind::SVert => 'V',
        }
    }

    /// The name of the layout.
    pub fn name(&self) -> (r: String)
        ensures
            r@ == name_of(*self),
    {
        let name: &str = match self {
            LayoutKind::Float => "Float",
            LayoutKind::BLFloat => "BLFloat",
            LayoutKind::SingleFloat => "SingleFloat",
            LayoutKind::BLSingleFloat => "BLSingleFloat",
            LayoutKind::Center => "Center",
            LayoutKind::Monocle => "Monocle",
            LayoutKind::Paper => "Paper",
            LayoutKind::SPaper => "SPaper",
            LayoutKind::Stack => "Stack",
            LayoutKind::SStack => "SStack",
            LayoutKind::BStack => "BStack",
            LayoutKind::SBStack => "SBStack",
            LayoutKind::Horz => "Horz",
            LayoutKind::SHorz => "SHorz",
            LayoutKind::Vert => "Vert",
            LayoutKind::SVert => "SVert",
        };
        name.to_owned()
    }

    /// The configuration of the layout.
    pub fn config(&self) -> (r: LayoutConfig)
        ensures
            r == config_of(*self),
    {
        match self {
            LayoutKind::Float => LayoutConfig {
                method: PlacementMethod::Free,
                decoration: Decoration::free_decoration(),
                root_only: true,
                margin: false,
                gap: false,
                persistent: false,
                single: false,
                wraps: true,
            },
            LayoutKind::BLFloat => LayoutConfig {
                method: PlacementMethod::Free,
                decoration: Decoration::no_decoration(),
                root_only: true,
                margin: false,
                gap: false,
                persistent: false,
                single: false,
                wraps: true,
            },
            LayoutKind::SingleFloat => LayoutConfig {
                method: PlacementMethod::Free,
                decoration: Decoration::free_decoration(),
                root_only: true,
                margin: false,
                gap: false,
                persistent: true,
                single: true,
                wraps: true,
            },
            LayoutKind::BLSingleFloat => LayoutConfig {
                method: PlacementMethod::Free,
                decoration: Decoration::no_decoration(),
                root_only: true,
                margin: false,
                gap: false,
                persistent: true,
                single: true,
                wraps: true,
            },
            LayoutKind::Center => LayoutConfig {
                method: PlacementMethod::Tile,
                decoration: Decoration::no_decoration(),
                root_only: false,
                margin: true,
                gap: true,
                persistent: false,
                single: false,
                wraps: true,
            },
            LayoutKind::Monocle => LayoutConfig {
                method: PlacementMethod::Tile,
                decoration: Decoration::no_decoration(),
                root_only: false,
                margin: true,
                gap: true,
                persistent: false,
                single: false,
                wraps: true,
            },
            LayoutKind::Paper => LayoutConfig {
                method: PlacementMethod::Tile,
                decoration: side_frame_decoration(),
                root_only: false,
                margin: true,
                gap: true,
                persistent: true,
                single: false,
                wraps: false,
            },
            LayoutKind::SPaper => LayoutConfig {
                method: PlacementMethod::Tile,
                decoration: side_frame_decoration(),
                root_only: false,
                margin: true,
                gap: false,
                persistent: true,
                single: false,
                wraps: false,
            },
            LayoutKind::Stack => LayoutConfig {
                method: PlacementMethod::Tile,
                decoration: top_frame_decoration(),
                root_only: false,
                margin: true,
                gap: true,
                persistent: false,
                single: false,
                wraps: true,
            },
            LayoutKind::SStack => LayoutConfig {
                method: PlacementMethod::Tile,
                decoration: top_frame_decoration(),
                root_only: false,
                margin: true,
                gap: false,
                persistent: false,
                single: false,
                wraps: true,
            },
            LayoutKind::BStack => LayoutConfig {
                method: PlacementMethod::Tile,
                decoration: top_frame_decoration(),
                root_only: false,
                margin: true,
                gap: true,
                persistent: false,
                single: false,
                wraps: true,
            },
            LayoutKind::SBStack => LayoutConfig {
                method: PlacementMethod::Tile,
                decoration: top_frame_decoration(),
                root_only: false,
                margin: true,
                gap: false,
                persistent: false,
                single: false,
                wraps: true,
            },
            LayoutKind::Horz => LayoutConfig {
                method: PlacementMethod::Tile,
                decoration: top_frame_decoration(),
                root_only: false,
                margin: true,
                gap: true,
                persistent: false,
                single: false,
                wraps: true,
            },
            LayoutKind::SHorz => LayoutConfig {
                method: PlacementMethod::Tile,
                decoration: top_frame_decoration(),
                root_only: false,
                margin: true,
                gap: false,
                persistent: false,
                single: false,
                wraps: true,
            },
            LayoutKind::Vert => LayoutConfig {
                method: PlacementMethod::Tile,
                decoration: top_frame_decoration(),
                root_only: false,
                margin: true,
                gap: true,
                persistent: false,
                single: false,
                wraps: true,
            },
            LayoutKind::SVert => LayoutConfig {
                method: PlacementMethod::Tile,
                decoration: top_frame_decoration(),
                root_only: false,
                margin: true,
                gap: false,
                persistent: false,
                single: false,
                wraps: true,
            },
        }
    }

    /// Every kind of layout, in declaration order.
    pub fn all() -> (r: Vec<LayoutKind>)
        ensures
            r@ == seq![LayoutKind::Float, LayoutKind::BLFloat, LayoutKind::SingleFloat, LayoutKind::BLSingleFloat, LayoutKind::Center, LayoutKind::Monocle, LayoutKind::Paper, LayoutKind::SPaper, LayoutKind::Stack, LayoutKind::SStack, LayoutKind::BStack, LayoutKind::SBStack, LayoutKind::Horz, LayoutKind::SHorz, LayoutKind::Vert, LayoutKind::SVert],
    {
        vec![LayoutKind::Float, LayoutKind::BLFloat, LayoutKind::SingleFloat, LayoutKind::BLSingleFloat, LayoutKind::Center, LayoutKind::Monocle, LayoutKind::Paper, LayoutKind::SPaper, LayoutKind::Stack, LayoutKind::SStack, LayoutKind::BStack, LayoutKind::SBStack, LayoutKind::Horz, LayoutKind::SHorz, LayoutKind::Vert, LayoutKind::SVert]
    }
}

/// The adjustable data of a layout: its margins, the gap round each client, the number of
/// clients in the main area, and the main factor, of a type of the caller's choosing.
#[derive(Debug, Clone, Copy, PartialEq)]
pub struct LayoutData<F> {
    pub margin: Padding,
    pub gap_size: u32,
    pub main_count: u32,
    pub main_factor: F,
}

/// The number of clients a layout of kind `kind` starts with in its main area: five for the
/// centered layout, one for the others.
pub open spec fn default_main_count(kind: LayoutKind) -> u32 {
    if kind == LayoutKind::Center {
        5
    } else {
        1
    }
}

impl LayoutKind {
    /// The data a layout of this kind starts with, given its main factor: no margins, no gap,
    /// and the kind's number of clients in the main area.
    pub fn default_data_with<F>(&self, main_factor: F) -> (r: LayoutData<F>)
        ensures
            r == (LayoutData {
                margin: Padding { left: 0, right: 0, top: 0, bottom: 0 },
                gap_size: 0,
                main_count: default_main_count(*self),
                main_factor,
            }),
    {
        LayoutData {
            margin: Padding { left: 0, right: 0, top: 0, bottom: 0 },
            gap_size: 0,
            main_count: match self {
                LayoutKind::Center => 5,
                _ => 1,
            },
            main_factor,
        }
    }
}

/// The position of a layout kind among all kinds, in declaration order.
pub open spec fn kind_position(kind: LayoutKind) -> int {
    match kind {
        LayoutKind::Float => 0,
        LayoutKind::BLFloat => 1,
        LayoutKind::SingleFloat => 2,
        LayoutKind::BLSingleFloat => 3,
        LayoutKind::Center => 4,
        LayoutKind::Monocle => 5,
        LayoutKind::Paper => 6,
        LayoutKind::SPaper => 7,
        LayoutKind::Stack => 8,
        LayoutKind::SStack => 9,
        LayoutKind::BStack => 10,
        LayoutKind::SBStack => 11,
        LayoutKind::Horz => 12,
        LayoutKind::SHorz => 13,
        LayoutKind::Vert => 14,
        LayoutKind::SVert => 15,
    }
}

/// The position of `kind` among all kinds, in declaration order.
fn kind_index(kind: LayoutKind) -> (r: usize)
    ensures
        r == kind_position(kind),
        r < LAYOUT_KIND_COUNT,
{
    match kind {
        LayoutKind::Float => 0,
        LayoutKind::BLFloat => 1,
        LayoutKind::SingleFloat => 2,
        LayoutKind::BLSingleFloat => 3,
        LayoutKind::Center => 4,
        LayoutKind::Monocle => 5,
        LayoutKind::Paper => 6,
        LayoutKind::SPaper => 7,
        LayoutKind::Stack => 8,
        LayoutKind::SStack => 9,
        LayoutKind::BStack => 10,
        LayoutKind::SBStack => 11,
        LayoutKind::Horz => 12,
        LayoutKind::SHorz => 13,
        LayoutKind::Vert => 14,
        LayoutKind::SVert => 15,
    }
}

/// A layout: the kind in use, the kind in use before it, and the data of every kind (of a type
/// `D` of the caller's choosing), kept apart so that each kind keeps its own.
#[derive(Debug, Clone)]
pub struct Layout<D> {
    kind: LayoutKind,
    prev_kind: LayoutKind,
    data: Vec<D>,
}

impl<D> Layout<D> {
    /// The kind in use.
    pub closed spec fn current(&self) -> LayoutKind {
        self.kind
    }

    /// The kind in use before the current one.
    pub closed spec fn previous(&self) -> LayoutKind {
        self.prev_kind
    }

    /// The data of every kind, in declaration order of the kinds.
    pub closed spec fn all_data(&self) -> Seq<D> {
        self.data@
    }

    /// The data of kind `kind`.
    pub open spec fn data_of(&self, kind: LayoutKind) -> D {
        self.all_data()[kind_position(kind)]
    }

    /// Every kind has its data.
    pub open spec fn wf(&self) -> bool {
        self.all_data().len() == LAYOUT_KIND_COUNT
    }

    /// A layout of kind `kind`, which is also its previous kind, each kind starting with the
    /// data `defaults` gives it in declaration order of the kinds.
    pub fn with_kind(kind: LayoutKind, defaults: Vec<D>) -> (r: Self)
        requires
            defaults@.len() == LAYOUT_KIND_COUNT,
        ensures
            r.wf(),
            r.current() == kind && r.previous() == kind,
            r.all_data() == defaults@,
    {
        Layout { kind, prev_kind: kind, data: defaults }
    }

    /// A stacking layout, each kind starting with the data `defaults` gives it.
    pub fn new(defaults: Vec<D>) -> (r: Self)
        requires
            defaults@.len() == LAYOUT_KIND_COUNT,
        ensures
            r.wf(),
            r.current() == LayoutKind::Stack && r.previous() == LayoutKind::Stack,
            r.all_data() == defaults@,
    {
        Self::with_kind(LayoutKind::Stack, defaults)
    }

    /// The kind in use.
    pub fn kind(&self) -> (r: LayoutKind)
        ensures
            r == self.current(),
    {
        self.kind
    }

    /// The kind in use before the current one.
    pub fn prev_kind(&self) -> (r: LayoutKind)
        ensures
            r == self.previous(),
    {
        self.prev_kind
    }

    /// The configuration of the kind in use.
    pub fn config(&self) -> (r: LayoutConfig)
        ensures
            r == config_of(self.current()),
    {
        self.kind.config()
    }

    /// The data of the kind in use.
    pub fn data(&self) -> (r: &D)
        requires
            self.wf(),
        ensures
            *r == self.data_of(self.current()),
    {
        &self.data[kind_index(self.kind)]
    }

    /// The data of the previous kind.
    pub fn prev_data(&self) -> (r: &D)
        requires
            self.wf(),
        ensures
            *r == self.data_of(self.previous()),
    {
        &self.data[kind_index(self.prev_kind)]
    }

    /// The data of the kind in use, to be changed in place.
    pub fn data_mut(&mut self) -> (r: &mut D)
        requires
            old(self).wf(),
        ensures
            *r == old(self).data_of(old(self).current()),
            final(self).current() == old(self).current(),
            final(self).previous() == old(self).previous(),
            final(self).all_data() == old(self).all_data().update(
                kind_position(old(self).current()),
                *final(r),
            ),
    {
        let i = kind_index(self.kind);
        &mut self.data[i]
    }

    /// Switches to kind `kind` and gives back the kind left, which becomes the previous kind;
    /// an early stop, changing nothing, when `kind` is in use already.
    pub fn set_kind(&mut self, kind: LayoutKind) -> (r: Result<LayoutKind, StateChangeError>)
        ensures
            final(self).all_data() == old(self).all_data(),
            kind == old(self).current() ==> r == Err::<LayoutKind, StateChangeError>(
                StateChangeError::EarlyStop,
            ) && final(self).current() == old(self).current() && final(self).previous() == old(
                self,
            ).previous(),
            kind != old(self).current() ==> r == Ok::<LayoutKind, StateChangeError>(
                old(self).current(),
            ) && final(self).current() == kind && final(self).previous() == old(self).current(),
    {
        if kind == self.kind {
            return Err(StateChangeError::EarlyStop);
        }
        self.prev_kind = self.kind;
        self.kind = kind;
        Ok(self.prev_kind)
    }
}

impl<D> Default for Layout<D> {
    /// A stacking layout that holds no data yet.
    fn default() -> (r: Self)
        ensures
            r.current() == LayoutKind::Stack && r.previous() == LayoutKind::Stack,
            r.all_data() == Seq::<D>::empty(),
    {
        Layout { kind: LayoutKind::Stack, prev_kind: LayoutKind::Stack, data: Vec::new() }
    }
}

/// Something that lays out the clients of a zone within a region: it gives the placement
/// method and, for each client (whether active or not), how it is disposed and whether it is
/// visible.
pub trait Apply {
    fn apply(&self, region: Region, active_map: Vec<bool>) -> (PlacementMethod, Vec<(Disposition, bool)>);
}

/// The most clients a layout keeps in its main area.
pub const MAX_MAIN_COUNT: u32 = 15;

/// The widest gap between clients.
pub const MAX_GAP_SIZE: u32 = 300;

/// The widest margins round a layout.
pub open spec fn max_margin() -> Padding {
    Padding { left: 700, right: 700, top: 400, bottom: 400 }
}

/// The widest margins round a layout.
pub fn max_margin_padding() -> (r: Padding)
    ensures
        r == max_margin(),
{
    Padding { left: 700, right: 700, top: 400, bottom: 400 }
}

/// The smallest dimensions of a zone.
pub open spec fn min_zone_dim() -> Dim {
    Dim { w: 25, h: 25 }
}

/// The smallest dimensions of a zone.
pub fn min_zone_dimensions() -> (r: Dim)
    ensures
        r == min_zone_dim(),
{
    Dim { w: 25, h: 25 }
}

/// How `n` clients split between a main area of `n_main` and the stack, both counts taken as
/// `i32` (so wrapped when out of its range).
pub open spec fn split_counts(n: usize, n_main: u32) -> (i32, i32) {
    let m = n_main as i32;
    let k = n as i32;
    if k <= m {
        (k, 0i32)
    } else {
        (m, (k - m) as i32)
    }
}

/// How `n` clients split between a main area of `n_main` and the stack.
pub fn stack_split(n: usize, n_main: u32) -> (r: (i32, i32))
    requires
        (n as i32) > (n_main as i32) ==> fits_i32((n as i32) - (n_main as i32)),
    ensures
        r == split_counts(n, n_main),
{
    let n_main: i32 = n_main as i32;
    let n: i32 = n as i32;
    if n <= n_main {
        (n, 0i32)
    } else {
        (n_main, n - n_main)
    }
}

/// `region` shrunk by `extents` on each side.
pub open spec fn within_margin(region: Region, extents: Extents) -> Region {
    Region {
        pos: Pos {
            x: (region.pos.x + extents.left) as i32,
            y: (region.pos.y + extents.top) as i32,
        },
        dim: Dim {
            w: (region.dim.w - extents.left - extents.right) as i32,
            h: (region.dim.h - extents.top - extents.bottom) as i32,
        },
    }
}

/// Shrinking `region` by `extents` stays representable at every step.
pub open spec fn margin_fits(region: Region, extents: Extents) -> bool {
    &&& fits_i32(region.pos.x + extents.left)
    &&& fits_i32(region.pos.y + extents.top)
    &&& fits_i32(region.dim.w - extents.left)
    &&& fits_i32(region.dim.w - extents.left - extents.right)
    &&& fits_i32(region.dim.h - extents.top)
    &&& fits_i32(region.dim.h - extents.top - extents.bottom)
}

/// `region` shrunk by `extents` on each side.
pub fn adjust_for_margin(region: Region, extents: &Extents) -> (r: Region)
    requires
        margin_fits(region, *extents),
    ensures
        r == within_margin(region, *extents),
{
    Region {
        pos: Pos { x: region.pos.x + extents.left, y: region.pos.y + extents.top },
        dim: Dim {
            w: region.dim.w - extents.left - extents.right,
            h: region.dim.h - extents.top - extents.bottom,
        },
    }
}

/// One axis of a region (its start and its length) with a gap of `gap` taken off both ends,
/// or, where that would leave less than `min`, `min` centered on it.
pub open spec fn gapped_axis(start: int, len: int, gap: int, min: int) -> (int, int) {
    if len - 2 * gap < min {
        (start + trunc_half(len - min), min)
    } else {
        (start + gap, len - 2 * gap)
    }
}

/// Taking the gap off one axis stays representable at every step.
pub open spec fn gapped_axis_fits(start: int, len: int, gap: int, min: int) -> bool {
    &&& fits_i32(len - 2 * gap)
    &&& len - 2 * gap < min ==> fits_i32(len - min) && fits_i32(start + trunc_half(len - min))
    &&& len - 2 * gap >= min ==> fits_i32(start + gap)
}

/// `region` with a gap of `gap_size` taken off every side, each axis kept at least as long as
/// `min_dim` asks.
pub open spec fn within_gap(region: Region, gap_size: u32, min_dim: Dim) -> Region {
    let g = gap_size as i32 as int;
    let (x, w) = gapped_axis(region.pos.x as int, region.dim.w as int, g, min_dim.w as int);
    let (y, h) = gapped_axis(region.pos.y as int, region.dim.h as int, g, min_dim.h as int);
    Region { pos: Pos { x: x as i32, y: y as i32 }, dim: Dim { w: w as i32, h: h as i32 } }
}

/// Taking a gap of `gap_size` off `region` stays representable at every step.
pub open spec fn gap_fits(region: Region, gap_size: u32, min_dim: Dim) -> bool {
    let g = gap_size as i32 as int;
    &&& fits_i32(2 * g)
    &&& gapped_axis_fits(region.pos.x as int, region.dim.w as int, g, min_dim.w as int)
    &&& gapped_axis_fits(region.pos.y as int, region.dim.h as int, g, min_dim.h as int)
}

/// Takes a gap of `gap_size` off every side of `region`; along an axis where less than
/// `min_dim` would be left, the region takes the minimal length, centered where it was.
pub fn adjust_for_gap_size(region: &mut Region, gap_size: u32, min_dim: &Dim)
    requires
        gap_fits(*old(region), gap_size, *min_dim),
    ensures
        *final(region) == within_gap(*old(region), gap_size, *min_dim),
{
    let gap_size: i32 = gap_size as i32;
    let dim_gap: i32 = 2 * gap_size;
    let new_w: i32 = region.dim.w - dim_gap;
    if new_w < min_dim.w {
        region.pos.x = region.pos.x + halved(region.dim.w - min_dim.w);
        region.dim.w = min_dim.w;
    } else {
        region.dim.w = new_w;
        region.pos.x = region.pos.x + gap_size;
    }
    let new_h: i32 = region.dim.h - dim_gap;
    if new_h < min_dim.h {
        region.pos.y = region.pos.y + halved(region.dim.h - min_dim.h);
        region.dim.h = min_dim.h;
    } else {
        region.dim.h = new_h;
        region.pos.y = region.pos.y + gap_size;
    }
}

/// `region` shrunk by a border of `border_width` on either side of each axis, each axis kept at
/// least as long as `min_dim` asks; its position stays.
pub open spec fn within_border(region: Region, border_width: u32, min_dim: Dim) -> Region {
    let b = 2 * (border_width as i32 as int);
    Region {
        pos: region.pos,
        dim: Dim {
            w: if region.dim.w - b > min_dim.w { (region.dim.w - b) as i32 } else { min_dim.w },
            h: if region.dim.h - b > min_dim.h { (region.dim.h - b) as i32 } else { min_dim.h },
        },
    }
}

/// Shrinks `region` by a border of `border_width` on either side of each axis, keeping each
/// axis at least as long as `min_dim` asks.
pub fn adjust_for_border(region: &mut Region, border_width: u32, min_dim: &Dim)
    requires
        fits_i32(2 * (border_width as i32 as int)),
        fits_i32(old(region).dim.w - 2 * (border_width as i32 as int)),
        fits_i32(old(region).dim.h - 2 * (border_width as i32 as int)),
    ensures
        *final(region) == within_border(*old(region), border_width, *min_dim),
{
    let border_padding: i32 = 2 * (border_width as i32);
    let new_w: i32 = region.dim.w - border_padding;
    region.dim.w = if min_dim.w >= new_w {
        min_dim.w
    } else {
        new_w
    };
    let new_h: i32 = region.dim.h - border_padding;
    region.dim.h = if min_dim.h >= new_h {
        min_dim.h
    } else {
        new_h
    };
}

/// Taking a gap or a border off a region never leaves an axis shorter than the minimum asked
/// for.
pub proof fn law_adjustments_keep_minimum(region: Region, size: u32, min_dim: Dim)
    requires
        gap_fits(region, size, min_dim),
    ensures
        within_gap(region, size, min_dim).dim.w >= min_dim.w,
        within_gap(region, size, min_dim).dim.h >= min_dim.h,
        within_border(region, size, min_dim).dim.w >= min_dim.w,
        within_border(region, size, min_dim).dim.h >= min_dim.h,
{
}

/// The quotient of `a` by a positive `b`, truncated toward zero.
pub open spec fn trunc_quot(a: int, b: int) -> int {
    if a >= 0 {
        a / b
    } else {
        -((-a) / b)
    }
}

/// The quotient of `a` by a positive `b`, truncated toward zero.
fn quot(a: i32, b: i32) -> (r: i32)
    requires
        b > 0,
    ensures
        r == trunc_quot(a as int, b as int),
{
    if a >= 0 {
        a / b
    } else {
        let m: i64 = -(a as i64);
        let q: i64 = -(m / (b as i64));
        q as i32
    }
}

/// Every client keeps its place, decorated with `decoration`, and is shown.
pub open spec fn free_arrangement_spec(decoration: Decoration, n: nat) -> Seq<(Disposition, bool)> {
    Seq::new(n, |i: int| (Disposition::Unchanged(decoration), true))
}

/// How a floating layout disposes of `n` clients: each keeps its place and is shown.
pub fn free_arrangement(decoration: Decoration, n: usize) -> (r: Vec<(Disposition, bool)>)
    ensures
        r@ == free_arrangement_spec(decoration, n as nat),
{
    let mut r: Vec<(Disposition, bool)> = Vec::new();
    let mut i: usize = 0;
    while i < n
        invariant
            i <= n,
            r@ == free_arrangement_spec(decoration, i as nat),
        decreases n - i,
    {
        r.push((Disposition::Unchanged(decoration), true));
        i = i + 1;
        assert(r@ =~= free_arrangement_spec(decoration, i as nat));
    }
    r
}

/// Every client keeps its place, decorated with `decoration`; only the active ones are shown.
pub open spec fn single_free_arrangement_spec(decoration: Decoration, active_map: Seq<bool>) -> Seq<
    (Disposition, bool),
> {
    Seq::new(active_map.len(), |i: int| (Disposition::Unchanged(decoration), active_map[i]))
}

/// How a single-window floating layout disposes of its clients: each keeps its place, and
/// only the active ones are shown.
pub fn single_free_arrangement(decoration: Decoration, active_map: &Vec<bool>) -> (r: Vec<
    (Disposition, bool),
>)
    ensures
        r@ == single_free_arrangement_spec(decoration, active_map@),
{
    let mut r: Vec<(Disposition, bool)> = Vec::new();
    let mut i: usize = 0;
    while i < active_map.len()
        invariant
            i <= active_map.len(),
            r@ == single_free_arrangement_spec(decoration, active_map@.take(i as int)),
        decreases active_map.len() - i,
    {
        r.push((Disposition::Unchanged(decoration), active_map[i]));
        i = i + 1;
        assert(r@ =~= single_free_arrangement_spec(decoration, active_map@.take(i as int)));
    }
    assert(active_map@.take(active_map.len() as int) =~= active_map@);
    r
}

/// Every client takes `region`, decorated with `decoration`, and is shown.
pub open spec fn filled_arrangement_spec(region: Region, decoration: Decoration, n: nat) -> Seq<
    (Disposition, bool),
> {
    Seq::new(n, |i: int| (Disposition::Changed(region, decoration), true))
}

/// Every one of `n` clients takes `region`, decorated with `decoration`, and is shown.
fn filled_arrangement(region: Region, decoration: Decoration, n: usize) -> (r: Vec<
    (Disposition, bool),
>)
    ensures
        r@ == filled_arrangement_spec(region, decoration, n as nat),
{
    let mut r: Vec<(Disposition, bool)> = Vec::new();
    let mut i: usize = 0;
    while i < n
        invariant
            i <= n,
            r@ == filled_arrangement_spec(region, decoration, i as nat),
        decreases n - i,
    {
        r.push((Disposition::Changed(region, decoration), true));
        i = i + 1;
        assert(r@ =~= filled_arrangement_spec(region, decoration, i as nat));
    }
    r
}

/// How the monocle layout disposes of `n` clients: each takes the whole region.
pub fn monocle_arrangement(region: Region, n: usize) -> (r: Vec<(Disposition, bool)>)
    ensures
        r@ == filled_arrangement_spec(region, bare(), n as nat),
{
    filled_arrangement(region, Decoration::no_decoration(), n)
}

/// How the center layout disposes of `n` clients: each takes a rectangle of dimensions `inner`
/// centered in the region.
pub fn center_arrangement(region: Region, inner: Dim, n: usize) -> (r: Vec<(Disposition, bool)>)
    requires
        region.inner_center_fits(inner),
    ensures
        r@ == filled_arrangement_spec(
            Region { pos: region.inner_center_pos(inner), dim: inner },
            bare(),
            n as nat,
        ),
{
    let centered = region.from_absolute_inner_center(inner);
    filled_arrangement(centered, Decoration::no_decoration(), n)
}

/// The width of each inactive column of the paper layout: what the active column of width `cw`
/// leaves of the region, shared among the other `n - 1` clients (the difference taken as a
/// `usize`, the share as an `i32`).
pub open spec fn paper_column_width(region: Region, cw: i32, n: int) -> i32 {
    (((region.dim.w - cw) as usize) / ((n - 1) as usize)) as i32
}

/// The region of the `i`-th client of the paper layout: active columns are `cw` wide, the rest
/// `w` wide, and inactive columns after an active one are pushed right by the difference.
pub open spec fn paper_region(region: Region, cw: i32, w: i32, active_map: Seq<bool>, i: int) -> Region {
    let x = region.pos.x + (i as i32) * w;
    if active_map[i] {
        Region { pos: Pos { x: x as i32, y: region.pos.y }, dim: Dim { w: cw, h: region.dim.h } }
    } else if exists|j: int| 0 <= j < i && active_map[j] {
        Region {
            pos: Pos { x: (x + (cw - w)) as i32, y: region.pos.y },
            dim: Dim { w, h: region.dim.h },
        }
    } else {
        Region { pos: Pos { x: x as i32, y: region.pos.y }, dim: Dim { w, h: region.dim.h } }
    }
}

/// The `i`-th region of the paper layout is representable.
pub open spec fn paper_region_fits(region: Region, cw: i32, w: i32, active_map: Seq<bool>, i: int) -> bool {
    let x = region.pos.x + (i as i32) * w;
    &&& fits_i32((i as i32) * w)
    &&& fits_i32(x)
    &&& !active_map[i] && (exists|j: int| 0 <= j < i && active_map[j]) ==> fits_i32(cw - w)
        && fits_i32(x + (cw - w))
}

/// How the paper layout disposes of its clients, given the width `cw` of the active column.
pub open spec fn paper_arrangement_spec(region: Region, cw: i32, active_map: Seq<bool>) -> Seq<
    (Disposition, bool),
> {
    if active_map.len() == 1 {
        seq![(Disposition::Changed(region, bare()), true)]
    } else {
        let w = paper_column_width(region, cw, active_map.len() as int);
        Seq::new(
            active_map.len(),
            |i: int| (Disposition::Changed(paper_region(region, cw, w, active_map, i), side_frame()), true),
        )
    }
}

/// The paper layout can be computed without overflow.
pub open spec fn paper_arrangement_fits(region: Region, cw: i32, active_map: Seq<bool>) -> bool {
    active_map.len() != 1 ==> {
        let w = paper_column_width(region, cw, active_map.len() as int);
        &&& fits_i32(region.dim.w - cw)
        &&& forall|i: int| 0 <= i < active_map.len() ==> #[trigger] paper_region_fits(region, cw, w, active_map, i)
    }
}

/// How the paper layout disposes of its clients (at least one): the active ones take columns
/// `cw` wide, the others share the rest of the width.
pub fn paper_arrangement(region: Region, cw: i32, active_map: &Vec<bool>) -> (r: Vec<(Disposition, bool)>)
    requires
        active_map.len() >= 1,
        paper_arrangement_fits(region, cw, active_map@),
    ensures
        r@ == paper_arrangement_spec(region, cw, active_map@),
{
    let n = active_map.len();
    if n == 1 {
        return vec![(Disposition::Changed(region, Decoration::no_decoration()), true)];
    }
    let w: i32 = (((region.dim.w - cw) as usize) / (n - 1)) as i32;
    let decoration = side_frame_decoration();
    let mut after_active = false;
    let mut r: Vec<(Disposition, bool)> = Vec::new();
    let mut i: usize = 0;
    while i < n
        invariant
            n == active_map.len(),
            n != 1,
            i <= n,
            w == paper_column_width(region, cw, n as int),
            decoration == side_frame(),
            paper_arrangement_fits(region, cw, active_map@),
            after_active == exists|j: int| 0 <= j < i && active_map@[j],
            r@.len() == i,
            forall|k: int|
                0 <= k < i ==> r@[k] == (
                    Disposition::Changed(paper_region(region, cw, w, active_map@, k), side_frame()),
                    true,
                ),
        decreases n - i,
    {
        assert(paper_region_fits(region, cw, w, active_map@, i as int));
        let ii: i32 = i as i32;
        let x: i32 = region.pos.x + ii * w;
        let placed = if active_map[i] {
            Region::new(x, region.pos.y, cw, region.dim.h)
        } else {
            let mut x = x;
            if after_active {
                x = x + (cw - w);
            }
            Region::new(x, region.pos.y, w, region.dim.h)
        };
        assert(placed == paper_region(region, cw, w, active_map@, i as int));
        r.push((Disposition::Changed(placed, decoration), true));
        if active_map[i] {
            after_active = true;
        }
        i = i + 1;
    }
    assert(r@ =~= paper_arrangement_spec(region, cw, active_map@));
    r
}

/// The extent of the main area: `scaled` when there is a main area at all, 0 otherwise.
pub open spec fn main_div(main_count: u32, scaled: i32) -> i32 {
    if main_count > 0 {
        scaled
    } else {
        0i32
    }
}

/// The region of the `i`-th of `n` clients in the stack layout: the main clients one above the
/// other on the left (`div` wide, or the whole width with no stack), the rest one above the
/// other on the right.
pub open spec fn stack_region(region: Region, n: usize, main_count: u32, div: i32, i: int) -> Region {
    let (n_main, n_stack) = split_counts(n, main_count);
    let h_stack = if n_stack > 0 { trunc_quot(region.dim.h as int, n_stack as int) } else { 0 };
    let h_main = if n_main > 0 { trunc_quot(region.dim.h as int, n_main as int) } else { 0 };
    let mc = main_count as i32;
    let k = i as i32;
    if k < mc {
        Region {
            pos: Pos { x: region.pos.x, y: (region.pos.y + k * h_main) as i32 },
            dim: Dim { w: if n_stack == 0 { region.dim.w } else { div }, h: h_main as i32 },
        }
    } else {
        Region {
            pos: Pos { x: (region.pos.x + div) as i32, y: (region.pos.y + (k - mc) * h_stack) as i32 },
            dim: Dim { w: (region.dim.w - div) as i32, h: h_stack as i32 },
        }
    }
}

/// The `i`-th region of the stack layout is representable.
pub open spec fn stack_region_fits(region: Region, n: usize, main_count: u32, div: i32, i: int) -> bool {
    let (n_main, n_stack) = split_counts(n, main_count);
    let h_stack = if n_stack > 0 { trunc_quot(region.dim.h as int, n_stack as int) } else { 0 };
    let h_main = if n_main > 0 { trunc_quot(region.dim.h as int, n_main as int) } else { 0 };
    let mc = main_count as i32;
    let k = i as i32;
    if k < mc {
        fits_i32(k * h_main) && fits_i32(region.pos.y + k * h_main)
    } else {
        &&& fits_i32(region.pos.x + div)
        &&& fits_i32(k - mc)
        &&& fits_i32((k - mc) * h_stack)
        &&& fits_i32(region.pos.y + (k - mc) * h_stack)
        &&& fits_i32(region.dim.w - div)
    }
}

/// How the stack layout disposes of `n` clients, given the width `scaled_w` of the main area
/// (used when there is a main area at all).
pub open spec fn stack_arrangement_spec(region: Region, n: usize, main_count: u32, scaled_w: i32) -> Seq<
    (Disposition, bool),
> {
    if n == 1 {
        seq![(Disposition::Changed(region, bare()), true)]
    } else {
        let div = main_div(main_count, scaled_w);
        Seq::new(
            n as nat,
            |i: int| (Disposition::Changed(stack_region(region, n, main_count, div, i), top_frame()), true),
        )
    }
}

/// The stack layout can be computed without overflow.
pub open spec fn stack_arrangement_fits(region: Region, n: usize, main_count: u32, scaled_w: i32) -> bool {
    n != 1 ==> {
        &&& (n as i32) > (main_count as i32) ==> fits_i32((n as i32) - (main_count as i32))
        &&& forall|i: int|
            0 <= i < n ==> #[trigger] stack_region_fits(region, n, main_count, main_div(main_count, scaled_w), i)
    }
}

/// How the stack layout disposes of `n` clients: `main_count` main clients on the left, the
/// rest stacked on the right; `scaled_w` is the width of the main area.
pub fn stack_arrangement(region: Region, n: usize, main_count: u32, scaled_w: i32) -> (r: Vec<
    (Disposition, bool),
>)
    requires
        stack_arrangement_fits(region, n, main_count, scaled_w),
    ensures
        r@ == stack_arrangement_spec(region, n, main_count, scaled_w),
{
    if n == 1 {
        return vec![(Disposition::Changed(region, Decoration::no_decoration()), true)];
    }
    let (n_main, n_stack) = stack_split(n, main_count);
    let h_stack: i32 = if n_stack > 0 { quot(region.dim.h, n_stack) } else { 0 };
    let h_main: i32 = if n_main > 0 { quot(region.dim.h, n_main) } else { 0 };
    let div: i32 = if main_count > 0 { scaled_w } else { 0 };
    let decoration = top_frame_decoration();
    let mc: i32 = main_count as i32;
    let mut r: Vec<(Disposition, bool)> = Vec::new();
    let mut i: usize = 0;
    while i < n
        invariant
            n != 1,
            i <= n,
            (n_main, n_stack) == split_counts(n, main_count),
            h_stack == (if n_stack > 0 { trunc_quot(region.dim.h as int, n_stack as int) } else { 0 }),
            h_main == (if n_main > 0 { trunc_quot(region.dim.h as int, n_main as int) } else { 0 }),
            div == main_div(main_count, scaled_w),
            mc == main_count as i32,
            decoration == top_frame(),
            stack_arrangement_fits(region, n, main_count, scaled_w),
            r@.len() == i,
            forall|k: int|
                0 <= k < i ==> r@[k] == (
                    Disposition::Changed(stack_region(region, n, main_count, div, k), top_frame()),
                    true,
                ),
        decreases n - i,
    {
        assert(stack_region_fits(region, n, main_count, div, i as int));
        let k: i32 = i as i32;
        let placed = if k < mc {
            Region::new(
                region.pos.x,
                region.pos.y + k * h_main,
                if n_stack == 0 { region.dim.w } else { div },
                h_main,
            )
        } else {
            Region::new(region.pos.x + div, region.pos.y + (k - mc) * h_stack, region.dim.w - div, h_stack)
        };
        assert(placed == stack_region(region, n, main_count, div, i as int));
        r.push((Disposition::Changed(placed, decoration), true));
        i = i + 1;
    }
    assert(r@ =~= stack_arrangement_spec(region, n, main_count, scaled_w));
    r
}

/// The region of the `i`-th of `n` clients in the bottom-stack layout: the main clients one
/// above the other at the top, `div` high in all, the rest side by side below.
pub open spec fn bstack_region(region: Region, n: usize, main_count: u32, div: i32, i: int) -> Region {
    let (n_main, n_stack) = split_counts(n, main_count);
    let main_h: int = if n_stack > 0 { div as int } else { region.dim.h as int };
    let h_main = if n_main > 0 { trunc_quot(main_h, n_main as int) } else { 0 };
    let w_stack = if n_stack > 0 { trunc_quot(region.dim.w as int, n_stack as int) } else { 0 };
    let mc = main_count as i32;
    let k = i as i32;
    if k < mc {
        Region {
            pos: Pos { x: region.pos.x, y: (region.pos.y + k * h_main) as i32 },
            dim: Dim { w: region.dim.w, h: h_main as i32 },
        }
    } else {
        Region {
            pos: Pos { x: (region.pos.x + (k - mc) * w_stack) as i32, y: (region.pos.y + div) as i32 },
            dim: Dim { w: w_stack as i32, h: (region.dim.h - div) as i32 },
        }
    }
}

/// The `i`-th region of the bottom-stack layout is representable.
pub open spec fn bstack_region_fits(region: Region, n: usize, main_count: u32, div: i32, i: int) -> bool {
    let (n_main, n_stack) = split_counts(n, main_count);
    let main_h: int = if n_stack > 0 { div as int } else { region.dim.h as int };
    let h_main = if n_main > 0 { trunc_quot(main_h, n_main as int) } else { 0 };
    let w_stack = if n_stack > 0 { trunc_quot(region.dim.w as int, n_stack as int) } else { 0 };
    let mc = main_count as i32;
    let k = i as i32;
    if k < mc {
        fits_i32(k * h_main) && fits_i32(region.pos.y + k * h_main)
    } else {
        &&& fits_i32(k - mc)
        &&& fits_i32((k - mc) * w_stack)
        &&& fits_i32(region.pos.x + (k - mc) * w_stack)
        &&& fits_i32(region.pos.y + div)
        &&& fits_i32(region.dim.h - div)
    }
}

/// How the bottom-stack layout disposes of `n` clients, given the height `scaled` of the main
/// area (used when there is a main area at all).
pub open spec fn bstack_arrangement_spec(region: Region, n: usize, main_count: u32, scaled: i32) -> Seq<
    (Disposition, bool),
> {
    if n == 1 {
        seq![(Disposition::Changed(region, bare()), true)]
    } else {
        let div = main_div(main_count, scaled);
        Seq::new(
            n as nat,
            |i: int| (Disposition::Changed(bstack_region(region, n, main_count, div, i), top_frame()), true),
        )
    }
}

/// The bottom-stack layout can be computed without overflow.
pub open spec fn bstack_arrangement_fits(region: Region, n: usize, main_count: u32, scaled: i32) -> bool {
    n != 1 ==> {
        &&& (n as i32) > (main_count as i32) ==> fits_i32((n as i32) - (main_count as i32))
        &&& forall|i: int|
            0 <= i < n ==> #[trigger] bstack_region_fits(region, n, main_count, main_div(main_count, scaled), i)
    }
}

/// How the bottom-stack layout disposes of `n` clients: `main_count` main clients at the top,
/// the rest side by side below; `scaled` is the height of the main area.
pub fn bstack_arrangement(region: Region, n: usize, main_count: u32, scaled: i32) -> (r: Vec<
    (Disposition, bool),
>)
    requires
        bstack_arrangement_fits(region, n, main_count, scaled),
    ensures
        r@ == bstack_arrangement_spec(region, n, main_count, scaled),
{
    if n == 1 {
        return vec![(Disposition::Changed(region, Decoration::no_decoration()), true)];
    }
    let (n_main, n_stack) = stack_split(n, main_count);
    let div: i32 = if main_count > 0 { scaled } else { 0 };
    let h_main: i32 = if n_main > 0 {
        quot(if n_stack > 0 { div } else { region.dim.h }, n_main)
    } else {
        0
    };
    let w_stack: i32 = if n_stack > 0 { quot(region.dim.w, n_stack) } else { 0 };
    let decoration = top_frame_decoration();
    let mc: i32 = main_count as i32;
    let mut r: Vec<(Disposition, bool)> = Vec::new();
    let mut i: usize = 0;
    while i < n
        invariant
            n != 1,
            i <= n,
            (n_main, n_stack) == split_counts(n, main_count),
            div == main_div(main_count, scaled),
            h_main == (if n_main > 0 {
                trunc_quot(if n_stack > 0 { div as int } else { region.dim.h as int }, n_main as int)
            } else {
                0
            }),
            w_stack == (if n_stack > 0 { trunc_quot(region.dim.w as int, n_stack as int) } else { 0 }),
            mc == main_count as i32,
            decoration == top_frame(),
            bstack_arrangement_fits(region, n, main_count, scaled),
            r@.len() == i,
            forall|k: int|
                0 <= k < i ==> r@[k] == (
                    Disposition::Changed(bstack_region(region, n, main_count, div, k), top_frame()),
                    true,
                ),
        decreases n - i,
    {
        assert(bstack_region_fits(region, n, main_count, div, i as int));
        let k: i32 = i as i32;
        let placed = if k < mc {
            Region::new(region.pos.x, region.pos.y + k * h_main, region.dim.w, h_main)
        } else {
            Region::new(region.pos.x + (k - mc) * w_stack, region.pos.y + div, w_stack, region.dim.h - div)
        };
        assert(placed == bstack_region(region, n, main_count, div, i as int));
        r.push((Disposition::Changed(placed, decoration), true));
        i = i + 1;
    }
    assert(r@ =~= bstack_arrangement_spec(region, n, main_count, scaled));
    r
}

/// Whether `v` is an `i32`.
fn is_i32(v: i128) -> (r: bool)
    ensures
        r == fits_i32(v as int),
{
    -0x8000_0000i128 <= v && v <= 0x7fff_ffffi128
}

/// Whether `region` can be shrunk by `extents` without overflow.
pub fn can_take_margin(region: Region, extents: &Extents) -> (r: bool)
    ensures
        r == margin_fits(region, *extents),
{
    let l = extents.left as i128;
    let rt = extents.right as i128;
    let t = extents.top as i128;
    let b = extents.bottom as i128;
    is_i32(region.pos.x as i128 + l) && is_i32(region.pos.y as i128 + t) && is_i32(
        region.dim.w as i128 - l,
    ) && is_i32(region.dim.w as i128 - l - rt) && is_i32(region.dim.h as i128 - t) && is_i32(
        region.dim.h as i128 - t - b,
    )
}

fn can_take_gap_along(start: i32, len: i32, gap: i32, min: i32) -> (r: bool)
    ensures
        r == gapped_axis_fits(start as int, len as int, gap as int, min as int),
{
    let left: i128 = len as i128 - 2 * (gap as i128);
    if !is_i32(left) {
        return false;
    }
    if left < min as i128 {
        let d: i128 = len as i128 - min as i128;
        is_i32(d) && is_i32(start as i128 + halved(d as i32) as i128)
    } else {
        is_i32(start as i128 + gap as i128)
    }
}

/// Whether a gap of `gap_size` can be taken off every side of `region` without overflow.
pub fn can_take_gap(region: Region, gap_size: u32, min_dim: &Dim) -> (r: bool)
    ensures
        r == gap_fits(region, gap_size, *min_dim),
{
    let g: i32 = gap_size as i32;
    is_i32(2 * (g as i128)) && can_take_gap_along(region.pos.x, region.dim.w, g, min_dim.w)
        && can_take_gap_along(region.pos.y, region.dim.h, g, min_dim.h)
}

/// Whether the gaps can be applied to each of `items` without overflow.
pub fn can_apply_gaps(items: &Vec<(Disposition, bool)>, gap: bool, gap_size: u32) -> (r: bool)
    ensures
        r == (forall|i: int|
            0 <= i < items.len() ==> #[trigger] gapped_disposition_fits(items@[i].0, gap, gap_size)),
{
    let min = min_zone_dimensions();
    let mut i: usize = 0;
    while i < items.len()
        invariant
            i <= items.len(),
            min == min_zone_dim(),
            forall|j: int| 0 <= j < i ==> #[trigger] gapped_disposition_fits(items@[j].0, gap, gap_size),
        decreases items.len() - i,
    {
        let ok = match items[i].0 {
            Disposition::Unchanged(_) => true,
            Disposition::Changed(region, deco) => {
                let (border_ok, bordered) = match deco.border {
                    Some(b) => if can_take_gap(region, b.width, &min) {
                        let mut inner = region;
                        adjust_for_gap_size(&mut inner, b.width, &min);
                        (true, inner)
                    } else {
                        (false, region)
                    },
                    None => (true, region),
                };
                border_ok && (!gap || can_take_gap(bordered, gap_size, &min))
            },
        };
        assert(ok == gapped_disposition_fits(items@[i as int].0, gap, gap_size));
        if !ok {
            return false;
        }
        i += 1;
    }
    true
}

proof fn lemma_product_bound(k: int, h: int)
    requires
        0 <= k <= 0x7fff_ffff,
        -0x8000_0000 <= h <= 0x7fff_ffff,
    ensures
        -0x4000_0000_0000_0000 <= k * h <= 0x4000_0000_0000_0000,
{
    assert(-0x4000_0000_0000_0000 <= k * h <= 0x4000_0000_0000_0000) by (nonlinear_arith)
        requires
            0 <= k <= 0x7fff_ffff,
            -0x8000_0000 <= h <= 0x7fff_ffff,
    ;
}

/// Whether a region of dimensions `inner` can be centered within `region` without overflow.
pub fn can_center(region: Region, inner: Dim) -> (r: bool)
    ensures
        r == region.inner_center_fits(inner),
{
    let w_ok = if inner.w <= region.dim.w {
        let d: i128 = region.dim.w as i128 - inner.w as i128;
        is_i32(d) && is_i32(region.pos.x as i128 + halved(d as i32) as i128)
    } else {
        true
    };
    let h_ok = if inner.h <= region.dim.h {
        let d: i128 = region.dim.h as i128 - inner.h as i128;
        is_i32(d) && is_i32(region.pos.y as i128 + halved(d as i32) as i128)
    } else {
        true
    };
    w_ok && h_ok
}

/// Whether the stack layout can dispose of `n` clients without overflow (for counts that are
/// `i32` values).
pub fn can_arrange_stack(region: Region, n: usize, main_count: u32, scaled_w: i32) -> (r: bool)
    requires
        n <= 0x7fff_ffff,
        main_count <= 0x7fff_ffff,
    ensures
        r == stack_arrangement_fits(region, n, main_count, scaled_w),
{
    if n == 1 {
        return true;
    }
    let (n_main, n_stack) = stack_split(n, main_count);
    let h_stack: i32 = if n_stack > 0 { quot(region.dim.h, n_stack) } else { 0 };
    let h_main: i32 = if n_main > 0 { quot(region.dim.h, n_main) } else { 0 };
    let div: i32 = if main_count > 0 { scaled_w } else { 0 };
    let mc: i128 = main_count as i128;
    let mut i: usize = 0;
    while i < n
        invariant
            i <= n <= 0x7fff_ffff,
            main_count <= 0x7fff_ffff,
            n != 1,
            mc == main_count,
            (n_main, n_stack) == split_counts(n, main_count),
            h_stack == (if n_stack > 0 { trunc_quot(region.dim.h as int, n_stack as int) } else { 0 }),
            h_main == (if n_main > 0 { trunc_quot(region.dim.h as int, n_main as int) } else { 0 }),
            div == main_div(main_count, scaled_w),
            forall|j: int| 0 <= j < i ==> #[trigger] stack_region_fits(region, n, main_count, div, j),
        decreases n - i,
    {
        let k: i128 = i as i128;
        let ok = if k < mc {
            proof { lemma_product_bound(k as int, h_main as int); }
            is_i32(k * h_main as i128) && is_i32(region.pos.y as i128 + k * h_main as i128)
        } else {
            proof { lemma_product_bound((k - mc) as int, h_stack as int); }
            is_i32(region.pos.x as i128 + div as i128) && is_i32(k - mc) && is_i32(
                (k - mc) * h_stack as i128,
            ) && is_i32(region.pos.y as i128 + (k - mc) * h_stack as i128) && is_i32(
                region.dim.w as i128 - div as i128,
            )
        };
        assert(ok == stack_region_fits(region, n, main_count, div, i as int));
        if !ok {
            return false;
        }
        i += 1;
    }
    true
}

/// Whether the bottom-stack layout can dispose of `n` clients without overflow (for counts that
/// are `i32` values).
pub fn can_arrange_bstack(region: Region, n: usize, main_count: u32, scaled: i32) -> (r: bool)
    requires
        n <= 0x7fff_ffff,
        main_count <= 0x7fff_ffff,
    ensures
        r == bstack_arrangement_fits(region, n, main_count, scaled),
{
    if n == 1 {
        return true;
    }
    let (n_main, n_stack) = stack_split(n, main_count);
    let div: i32 = if main_count > 0 { scaled } else { 0 };
    let h_main: i32 = if n_main > 0 {
        quot(if n_stack > 0 { div } else { region.dim.h }, n_main)
    } else {
        0
    };
    let w_stack: i32 = if n_stack > 0 { quot(region.dim.w, n_stack) } else { 0 };
    let mc: i128 = main_count as i128;
    let mut i: usize = 0;
    while i < n
        invariant
            i <= n <= 0x7fff_ffff,
            main_count <= 0x7fff_ffff,
            n != 1,
            mc == main_count,
            (n_main, n_stack) == split_counts(n, main_count),
            div == main_div(main_count, scaled),
            h_main == (if n_main > 0 {
                trunc_quot(if n_stack > 0 { div as int } else { region.dim.h as int }, n_main as int)
            } else {
                0
            }),
            w_stack == (if n_stack > 0 { trunc_quot(region.dim.w as int, n_stack as int) } else { 0 }),
            forall|j: int| 0 <= j < i ==> #[trigger] bstack_region_fits(region, n, main_count, div, j),
        decreases n - i,
    {
        let k: i128 = i as i128;
        let ok = if k < mc {
            proof { lemma_product_bound(k as int, h_main as int); }
            is_i32(k * h_main as i128) && is_i32(region.pos.y as i128 + k * h_main as i128)
        } else {
            proof { lemma_product_bound((k - mc) as int, w_stack as int); }
            is_i32(k - mc) && is_i32((k - mc) * w_stack as i128) && is_i32(
                region.pos.x as i128 + (k - mc) * w_stack as i128,
            ) && is_i32(region.pos.y as i128 + div as i128) && is_i32(
                region.dim.h as i128 - div as i128,
            )
        };
        assert(ok == bstack_region_fits(region, n, main_count, div, i as int));
        if !ok {
            return false;
        }
        i += 1;
    }
    true
}

/// Whether the paper layout can dispose of the clients of `active_map` (at least one, and a
/// count that is an `i32` value) without overflow, given the width `cw` of the active column.
pub fn can_arrange_paper(region: Region, cw: i32, active_map: &Vec<bool>) -> (r: bool)
    requires
        1 <= active_map.len() <= 0x7fff_ffff,
    ensures
        r == paper_arrangement_fits(region, cw, active_map@),
{
    let n = active_map.len();
    if n == 1 {
        return true;
    }
    if !is_i32(region.dim.w as i128 - cw as i128) {
        return false;
    }
    let w: i32 = (((region.dim.w - cw) as usize) / (n - 1)) as i32;
    assert(w == paper_column_width(region, cw, n as int));
    let mut seen_active = false;
    let mut i: usize = 0;
    while i < n
        invariant
            i <= n <= 0x7fff_ffff,
            n == active_map.len(),
            n != 1,
            w == paper_column_width(region, cw, n as int),
            seen_active == (exists|j: int| 0 <= j < i && active_map@[j]),
            forall|j: int|
                0 <= j < i ==> #[trigger] paper_region_fits(region, cw, w, active_map@, j),
        decreases n - i,
    {
        let k: i128 = i as i128;
        proof { lemma_product_bound(k as int, w as int); }
        let x: i128 = region.pos.x as i128 + k * w as i128;
        let shifted = !active_map[i] && seen_active;
        let ok = is_i32(k * w as i128) && is_i32(x) && (!shifted || is_i32(cw as i128 - w as i128)
            && is_i32(x + (cw as i128 - w as i128)));
        assert(ok == paper_region_fits(region, cw, w, active_map@, i as int));
        if !ok {
            return false;
        }
        if active_map[i] {
            seen_active = true;
        }
        i += 1;
    }
    true
}


/// The region a layout arranges its clients in: `region` less `margin` when the layout keeps a
/// margin.
pub open spec fn arranged_region(config: LayoutConfig, region: Region, margin: Padding) -> Region {
    if config.margin {
        within_margin(region, margin)
    } else {
        region
    }
}

/// The region a layout arranges its clients in: `region` less `margin` when the layout keeps a
/// margin.
pub fn arrangement_region(config: &LayoutConfig, region: Region, margin: &Padding) -> (r: Region)
    requires
        config.margin ==> margin_fits(region, *margin),
    ensures
        r == arranged_region(*config, region, *margin),
{
    if config.margin {
        adjust_for_margin(region, margin)
    } else {
        region
    }
}

/// A disposition once the gaps are applied: a changed region loses a gap as wide as its border
/// (if it has one), then the layout's gap `gap_size` when the layout keeps gaps.
pub open spec fn gapped_disposition(d: Disposition, gap: bool, gap_size: u32) -> Disposition {
    match d {
        Disposition::Unchanged(deco) => Disposition::Unchanged(deco),
        Disposition::Changed(region, deco) => {
            let bordered = match deco.border {
                Some(b) => within_gap(region, b.width, min_zone_dim()),
                None => region,
            };
            Disposition::Changed(
                if gap {
                    within_gap(bordered, gap_size, min_zone_dim())
                } else {
                    bordered
                },
                deco,
            )
        },
    }
}

/// Applying the gaps to a disposition stays representable at every step.
pub open spec fn gapped_disposition_fits(d: Disposition, gap: bool, gap_size: u32) -> bool {
    match d {
        Disposition::Unchanged(_) => true,
        Disposition::Changed(region, deco) => {
            let bordered = match deco.border {
                Some(b) => within_gap(region, b.width, min_zone_dim()),
                None => region,
            };
            &&& deco.border matches Some(b) ==> gap_fits(region, b.width, min_zone_dim())
            &&& gap ==> gap_fits(bordered, gap_size, min_zone_dim())
        },
    }
}

/// The dispositions once the gaps are applied to each, visibility kept.
pub open spec fn gapped_dispositions(items: Seq<(Disposition, bool)>, gap: bool, gap_size: u32) -> Seq<
    (Disposition, bool),
> {
    Seq::new(items.len(), |i: int| (gapped_disposition(items[i].0, gap, gap_size), items[i].1))
}

/// Applies the gaps to each disposition: a changed region loses a gap as wide as its border (if
/// it has one), then the layout's gap when the layout keeps gaps.
pub fn apply_gaps(items: Vec<(Disposition, bool)>, gap: bool, gap_size: u32) -> (r: Vec<(Disposition, bool)>)
    requires
        forall|i: int| 0 <= i < items.len() ==> #[trigger] gapped_disposition_fits(items@[i].0, gap, gap_size),
    ensures
        r@ == gapped_dispositions(items@, gap, gap_size),
{
    let min = min_zone_dimensions();
    let mut r: Vec<(Disposition, bool)> = Vec::new();
    let mut i: usize = 0;
    while i < items.len()
        invariant
            i <= items.len(),
            min == min_zone_dim(),
            forall|k: int| 0 <= k < items.len() ==> #[trigger] gapped_disposition_fits(items@[k].0, gap, gap_size),
            r@ == gapped_dispositions(items@.take(i as int), gap, gap_size),
        decreases items.len() - i,
    {
        let (disposition, visible) = items[i];
        assert(gapped_disposition_fits(items@[i as int].0, gap, gap_size));
        let d = match disposition {
            Disposition::Unchanged(deco) => Disposition::Unchanged(deco),
            Disposition::Changed(region, deco) => {
                let mut region = region;
                if let Some(border) = deco.border {
                    adjust_for_gap_size(&mut region, border.width, &min);
                }
                if gap {
                    adjust_for_gap_size(&mut region, gap_size, &min);
                }
                Disposition::Changed(region, deco)
            },
        };
        r.push((d, visible));
        i = i + 1;
        assert(r@ =~= gapped_dispositions(items@.take(i as int), gap, gap_size));
    }
    assert(items@.take(items.len() as int) =~= items@);
    r
}


/// In the stack layout (two clients or more, with a main area and a region of non-negative
/// height), each of the `min(n, main_count)` main clients is as high as the region's height
/// divided among them (rounded down) and sits at the region's left edge, that many times its
/// position below the region's top: the main clients tile the left column from the top, one
/// after another, and none reaches below the region.
#[verifier::rlimit(30)]
pub proof fn law_stack_main_column_tiles(region: Region, n: usize, main_count: u32, scaled_w: i32, k: int)
    requires
        2 <= n <= i32::MAX,
        1 <= main_count <= i32::MAX,
        region.dim.h >= 0,
        stack_arrangement_fits(region, n, main_count, scaled_w),
        0 <= k < (if (n as int) < (main_count as int) { n as int } else { main_count as int }),
    ensures
        ({
            let n_main = if (n as int) < (main_count as int) { n as int } else { main_count as int };
            let h = (region.dim.h as int) / n_main;
            match stack_arrangement_spec(region, n, main_count, scaled_w)[k].0 {
                Disposition::Changed(r, _) => {
                    &&& r.pos.x == region.pos.x
                    &&& r.dim.h == h
                    &&& r.pos.y == region.pos.y + k * h
                    &&& r.pos.y + r.dim.h <= region.pos.y + region.dim.h
                },
                Disposition::Unchanged(_) => false,
            }
        }),
{
    let n_main = if (n as int) < (main_count as int) { n as int } else { main_count as int };
    let h = (region.dim.h as int) / n_main;
    let div = main_div(main_count, scaled_w);
    assert(split_counts(n, main_count).0 == n_main);
    assert(stack_region_fits(region, n, main_count, div, k));
    assert(stack_arrangement_spec(region, n, main_count, scaled_w)[k].0 == Disposition::Changed(
        stack_region(region, n, main_count, div, k),
        top_frame(),
    ));
    assert(trunc_quot(region.dim.h as int, n_main) == h);
    let hh = region.dim.h as int;
    vstd::arithmetic::div_mod::lemma_fundamental_div_mod(hh, n_main);
    assert(0 <= h) by (nonlinear_arith)
        requires
            hh >= 0,
            n_main > 0,
            h == hh / n_main,
    ;
    assert((k + 1) * h <= n_main * h) by (nonlinear_arith)
        requires
            0 <= k < n_main,
            h >= 0,
    ;
    assert(n_main * h <= hh) by (nonlinear_arith)
        requires
            hh == n_main * (hh / n_main) + hh % n_main,
            h == hh / n_main,
            n_main > 0,
    ;
    assert(k * h + h == (k + 1) * h) by (nonlinear_arith);
}


/// In the stack layout (more clients than `main_count`, a region of non-negative height), the
/// clients past the main ones share the right column: each starts where the main area ends, is
/// as wide as what the main area leaves, as high as the region's height divided among them
/// (rounded down), and sits that many times its place in the column below the region's top,
/// none reaching below the region.
#[verifier::rlimit(30)]
pub proof fn law_stack_side_column_tiles(region: Region, n: usize, main_count: u32, scaled_w: i32, k: int)
    requires
        2 <= n <= i32::MAX,
        main_count <= i32::MAX,
        (main_count as int) < (n as int),
        region.dim.h >= 0,
        stack_arrangement_fits(region, n, main_count, scaled_w),
        main_count <= k < n,
    ensures
        ({
            let n_stack = n - main_count;
            let div: int = if main_count > 0 { scaled_w as int } else { 0 };
            let h = (region.dim.h as int) / n_stack;
            match stack_arrangement_spec(region, n, main_count, scaled_w)[k].0 {
                Disposition::Changed(r, _) => {
                    &&& r.pos.x == region.pos.x + div
                    &&& r.dim.w == region.dim.w - div
                    &&& r.dim.h == h
                    &&& r.pos.y == region.pos.y + (k - main_count) * h
                    &&& r.pos.y + r.dim.h <= region.pos.y + region.dim.h
                },
                Disposition::Unchanged(_) => false,
            }
        }),
{
    let n_stack: int = n - main_count;
    let h = (region.dim.h as int) / n_stack;
    let div = main_div(main_count, scaled_w);
    assert(split_counts(n, main_count).1 == n_stack);
    assert(stack_region_fits(region, n, main_count, div, k));
    assert(stack_arrangement_spec(region, n, main_count, scaled_w)[k].0 == Disposition::Changed(
        stack_region(region, n, main_count, div, k),
        top_frame(),
    ));
    assert(trunc_quot(region.dim.h as int, n_stack) == h);
    let hh = region.dim.h as int;
    let j: int = k - main_count;
    vstd::arithmetic::div_mod::lemma_fundamental_div_mod(hh, n_stack);
    assert(0 <= h) by (nonlinear_arith)
        requires
            hh >= 0,
            n_stack > 0,
            h == hh / n_stack,
    ;
    assert((j + 1) * h <= n_stack * h) by (nonlinear_arith)
        requires
            0 <= j < n_stack,
            h >= 0,
    ;
    assert(n_stack * h <= hh) by (nonlinear_arith)
        requires
            hh == n_stack * (hh / n_stack) + hh % n_stack,
            h == hh / n_stack,
            n_stack > 0,
    ;
    assert(j * h + h == (j + 1) * h) by (nonlinear_arith);
}

/// In the bottom-stack layout (more clients than a positive `main_count`, a main area of
/// non-negative height `scaled`, a region of non-negative width), the main clients share the
/// main area's height from the region's top, each over the full width; the others share the
/// width of the row below the main area, each as wide as the width divided among them (rounded
/// down), that many times its place from the region's left edge, none reaching past the
/// region's right edge.
#[verifier::rlimit(30)]
pub proof fn law_bstack_rows_tile(region: Region, n: usize, main_count: u32, scaled: i32, k: int)
    requires
        2 <= n <= i32::MAX,
        1 <= main_count <= i32::MAX,
        (main_count as int) < (n as int),
        region.dim.w >= 0,
        scaled >= 0,
        bstack_arrangement_fits(region, n, main_count, scaled),
        0 <= k < n,
    ensures
        ({
            let h = (scaled as int) / (main_count as int);
            let w = (region.dim.w as int) / (n - main_count);
            match bstack_arrangement_spec(region, n, main_count, scaled)[k].0 {
                Disposition::Changed(r, _) => if k < main_count {
                    &&& r.pos.x == region.pos.x
                    &&& r.dim.w == region.dim.w
                    &&& r.dim.h == h
                    &&& r.pos.y == region.pos.y + k * h
                    &&& r.pos.y + r.dim.h <= region.pos.y + scaled
                } else {
                    &&& r.pos.y == region.pos.y + scaled
                    &&& r.dim.h == region.dim.h - scaled
                    &&& r.dim.w == w
                    &&& r.pos.x == region.pos.x + (k - main_count) * w
                    &&& r.pos.x + r.dim.w <= region.pos.x + region.dim.w
                },
                Disposition::Unchanged(_) => false,
            }
        }),
{
    let mc: int = main_count as int;
    let n_stack: int = n - mc;
    let div = main_div(main_count, scaled);
    assert(split_counts(n, main_count) == (mc as i32, n_stack as i32));
    assert(bstack_region_fits(region, n, main_count, div, k));
    assert(bstack_arrangement_spec(region, n, main_count, scaled)[k].0 == Disposition::Changed(
        bstack_region(region, n, main_count, div, k),
        top_frame(),
    ));
    let s = scaled as int;
    let ww = region.dim.w as int;
    let h = s / mc;
    let w = ww / n_stack;
    assert(trunc_quot(s, mc) == h);
    assert(trunc_quot(ww, n_stack) == w);
    vstd::arithmetic::div_mod::lemma_fundamental_div_mod(s, mc);
    vstd::arithmetic::div_mod::lemma_fundamental_div_mod(ww, n_stack);
    assert(0 <= h && mc * h <= s) by (nonlinear_arith)
        requires
            s >= 0,
            mc > 0,
            h == s / mc,
            s == mc * (s / mc) + s % mc,
            0 <= s % mc,
    ;
    assert(0 <= w && n_stack * w <= ww) by (nonlinear_arith)
        requires
            ww >= 0,
            n_stack > 0,
            w == ww / n_stack,
            ww == n_stack * (ww / n_stack) + ww % n_stack,
            0 <= ww % n_stack,
    ;
    if k < mc {
        assert((k + 1) * h <= mc * h) by (nonlinear_arith)
            requires
                0 <= k < mc,
                h >= 0,
        ;
        assert(k * h + h == (k + 1) * h) by (nonlinear_arith);
    } else {
        let j: int = k - mc;
        assert((j + 1) * w <= n_stack * w) by (nonlinear_arith)
            requires
                0 <= j < n_stack,
                w >= 0,
        ;
        assert(j * w + w == (j + 1) * w) by (nonlinear_arith);
    }
}

/// The monocle layout shows every client over the whole region, without decoration.
pub proof fn law_monocle_fills(region: Region, n: nat, k: int)
    requires
        0 <= k < n,
    ensures
        filled_arrangement_spec(region, bare(), n)[k] == (Disposition::Changed(region, bare()), true),
        filled_arrangement_spec(region, bare(), n).len() == n,
{
}

} // verus!
