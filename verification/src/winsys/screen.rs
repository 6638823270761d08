use vstd::prelude::*;

use crate::winsys::geometry::fits_i32;
use crate::winsys::geometry::Edge;
use crate::winsys::geometry::Pos;
use crate::winsys::geometry::Region;
use crate::winsys::geometry::Strut;
use crate::winsys::window::Window;

use std::collections::HashMap;

verus! {

broadcast use vstd::std_specs::hash::group_hash_axioms;

/// The struts of `s` are ordered by width, narrowest first.
pub open spec fn by_width(s: Seq<Strut>) -> bool {
    forall|i: int, j: int| 0 <= i <= j < s.len() ==> s[i].width <= s[j].width
}

/// Where a strut of width `width` goes in `s`: after every strut narrower than it that ends the
/// sequence, before the rest (for a sequence ordered by width, after exactly the narrower ones).
pub open spec fn insertion_point(s: Seq<Strut>, width: u32) -> int
    decreases s.len(),
{
    if s.len() == 0 {
        0
    } else if s.last().width < width {
        s.len() as int
    } else {
        insertion_point(s.drop_last(), width)
    }
}

/// `s` with `strut` put in its place by width.
pub open spec fn with_strut(s: Seq<Strut>, strut: Strut) -> Seq<Strut> {
    s.insert(insertion_point(s, strut.width), strut)
}

/// The struts of `s` that `window` does not reserve.
pub open spec fn without_window(s: Seq<Strut>, window: Window) -> Seq<Strut> {
    s.filter(|st: Strut| st.window != window)
}

/// In a sequence ordered by width, the insertion point splits the narrower struts from the rest.
proof fn lemma_insertion_point(s: Seq<Strut>, width: u32)
    requires
        by_width(s),
    ensures
        0 <= insertion_point(s, width) <= s.len(),
        forall|k: int| 0 <= k < insertion_point(s, width) ==> s[k].width < width,
        forall|k: int| insertion_point(s, width) <= k < s.len() ==> s[k].width >= width,
    decreases s.len(),
{
    if s.len() > 0 {
        let last = s.len() - 1;
        if s.last().width >= width {
            let init = s.drop_last();
            lemma_insertion_point(init, width);
            assert forall|k: int| insertion_point(s, width) <= k < s.len() implies s[k].width
                >= width by {
                if k < last {
                    assert(s[k] == init[k]);
                }
            }
            assert forall|k: int| 0 <= k < insertion_point(s, width) implies s[k].width
                < width by {
                assert(s[k] == init[k]);
            }
        } else {
            assert forall|k: int| 0 <= k < insertion_point(s, width) implies s[k].width
                < width by {
                assert(s[k].width <= s[last].width);
            }
        }
    }
}

/// Putting a strut in its place keeps a sequence ordered by width.
proof fn lemma_with_strut_by_width(s: Seq<Strut>, strut: Strut)
    requires
        by_width(s),
    ensures
        by_width(with_strut(s, strut)),
        with_strut(s, strut).len() == s.len() + 1,
{
    lemma_insertion_point(s, strut.width);
    let p = insertion_point(s, strut.width);
    let t = with_strut(s, strut);
    assert forall|i: int, j: int| 0 <= i <= j < t.len() implies t[i].width <= t[j].width by {
        if i < p && j > p {
            assert(t[i] == s[i] && t[j] == s[j - 1]);
        }
    }
}

/// Leaving out the struts of a window keeps a sequence ordered by width.
proof fn lemma_without_window_by_width(s: Seq<Strut>, window: Window)
    requires
        by_width(s),
    ensures
        by_width(without_window(s, window)),
        forall|k: int|
            0 <= k < without_window(s, window).len() ==> s.contains(
                #[trigger] without_window(s, window)[k],
            ),
    decreases s.len(),
{
    reveal(Seq::filter);
    if s.len() > 0 {
        let init = s.drop_last();
        assert(by_width(init));
        lemma_without_window_by_width(init, window);
        let f = without_window(init, window);
        assert forall|k: int| 0 <= k < f.len() implies (#[trigger] f[k]).width <= s.last().width by {
            assert(init.contains(f[k]));
            let m = choose|m: int| 0 <= m < init.len() && init[m] == f[k];
            assert(s[m] == init[m]);
        }
        assert forall|k: int| 0 <= k < f.len() implies s.contains(#[trigger] f[k]) by {
            assert(init.contains(f[k]));
            let m = choose|m: int| 0 <= m < init.len() && init[m] == f[k];
            assert(s[m] == init[m]);
        }
        assert(s.contains(s.last())) by {
            assert(s[s.len() - 1] == s.last());
        }
    }
}

/// The edges of each window with struts once `window` adds one at `edge`: appended to its
/// edges if it has struts already, else recorded twice.
pub open spec fn windows_with(
    windows: Map<Window, Seq<Edge>>,
    edge: Edge,
    window: Window,
) -> Map<Window, Seq<Edge>> {
    if windows.contains_key(window) {
        windows.insert(window, windows[window].push(edge))
    } else {
        windows.insert(window, seq![edge, edge])
    }
}

/// The edges of each window with struts once `strut`, if any, is added at `edge`.
pub open spec fn windows_with_opt(
    windows: Map<Window, Seq<Edge>>,
    edge: Edge,
    strut: Option<Strut>,
) -> Map<Window, Seq<Edge>> {
    match strut {
        Some(st) => windows_with(windows, edge, st.window),
        None => windows,
    }
}

/// `s` with `strut`, if any, put in its place by width.
pub open spec fn with_opt_strut(s: Seq<Strut>, strut: Option<Strut>) -> Seq<Strut> {
    match strut {
        Some(st) => with_strut(s, st),
        None => s,
    }
}

/// Puts `strut` into `v` in its place by width.
fn insert_by_width(v: &mut Vec<Strut>, strut: Strut)
    requires
        by_width(old(v)@),
    ensures
        final(v)@ == with_strut(old(v)@, strut),
        by_width(final(v)@),
{
    let mut i: usize = v.len();
    assert(v@.take(i as int) =~= v@);
    while i > 0 && v[i - 1].width >= strut.width
        invariant
            i <= v.len(),
            insertion_point(v@, strut.width) == insertion_point(v@.take(i as int), strut.width),
        decreases i,
    {
        assert(v@.take(i as int).drop_last() =~= v@.take(i - 1));
        i = i - 1;
    }
    assert(v@.take(v.len() as int) =~= v@);
    if i > 0 {
        assert(v@.take(i as int).drop_last() =~= v@.take(i - 1));
    }
    proof {
        lemma_with_strut_by_width(v@, strut);
    }
    v.insert(i, strut);
}

/// Leaves out of `v` the struts that `window` reserves.
fn remove_window_from(v: &mut Vec<Strut>, window: Window)
    requires
        by_width(old(v)@),
    ensures
        final(v)@ == without_window(old(v)@, window),
        by_width(final(v)@),
{
    let mut kept: Vec<Strut> = Vec::new();
    let mut i: usize = 0;
    while i < v.len()
        invariant
            i <= v.len(),
            kept@ == without_window(v@.take(i as int), window),
        decreases v.len() - i,
    {
        proof {
            reveal(Seq::filter);
            assert(v@.take(i + 1).drop_last() =~= v@.take(i as int));
        }
        if v[i].window != window {
            kept.push(v[i]);
        }
        i = i + 1;
    }
    assert(v@.take(v.len() as int) =~= v@);
    proof {
        lemma_without_window_by_width(v@, window);
    }
    *v = kept;
}

/// A screen: its region, the part of it that windows may be placed in, and the struts that
/// windows reserve along its edges.
#[derive(Clone)]
pub struct Screen {
    number: usize,
    full_region: Region,
    placeable_region: Region,
    windows: HashMap<Window, Vec<Edge>>,
    left: Vec<Strut>,
    right: Vec<Strut>,
    top: Vec<Strut>,
    bottom: Vec<Strut>,
    showing_struts: bool,
}

/// The part of `full` left to windows once the widest strut along each edge is taken off, if
/// struts are shown.
pub open spec fn placeable_within(
    full: Region,
    showing: bool,
    left: Seq<Strut>,
    right: Seq<Strut>,
    top: Seq<Strut>,
    bottom: Seq<Strut>,
) -> Region {
    if !showing {
        full
    } else {
        let l: int = if left.len() > 0 { left.last().width as i32 as int } else { 0 };
        let r: int = if right.len() > 0 { right.last().width as i32 as int } else { 0 };
        let t: int = if top.len() > 0 { top.last().width as i32 as int } else { 0 };
        let b: int = if bottom.len() > 0 { bottom.last().width as i32 as int } else { 0 };
        Region {
            pos: Pos { x: (full.pos.x + l) as i32, y: (full.pos.y + t) as i32 },
            dim: crate::winsys::geometry::Dim {
                w: (full.dim.w - l - r) as i32,
                h: (full.dim.h - t - b) as i32,
            },
        }
    }
}

/// Taking the struts off `full` stays representable at every step.
pub open spec fn placeable_fits(
    full: Region,
    showing: bool,
    left: Seq<Strut>,
    right: Seq<Strut>,
    top: Seq<Strut>,
    bottom: Seq<Strut>,
) -> bool {
    showing ==> {
        let l: int = if left.len() > 0 { left.last().width as i32 as int } else { 0 };
        let r: int = if right.len() > 0 { right.last().width as i32 as int } else { 0 };
        let t: int = if top.len() > 0 { top.last().width as i32 as int } else { 0 };
        let b: int = if bottom.len() > 0 { bottom.last().width as i32 as int } else { 0 };
        &&& fits_i32(full.pos.x + l)
        &&& fits_i32(full.dim.w - l)
        &&& fits_i32(full.dim.w - l - r)
        &&& fits_i32(full.pos.y + t)
        &&& fits_i32(full.dim.h - t)
        &&& fits_i32(full.dim.h - t - b)
    }
}

impl Screen {
    /// The number of the screen.
    pub closed spec fn number_spec(&self) -> usize {
        self.number
    }

    /// The whole region of the screen.
    pub closed spec fn full(&self) -> Region {
        self.full_region
    }

    /// The region that windows are placed in.
    pub closed spec fn placeable(&self) -> Region {
        self.placeable_region
    }

    /// Whether struts are kept clear.
    pub closed spec fn showing(&self) -> bool {
        self.showing_struts
    }

    /// The edges at which each window with struts reserves space.
    pub closed spec fn strut_windows(&self) -> Map<Window, Seq<Edge>> {
        self.windows@.map_values(|v: Vec<Edge>| v@)
    }

    /// The struts along `edge`, narrowest first.
    pub closed spec fn struts(&self, edge: Edge) -> Seq<Strut> {
        match edge {
            Edge::Left => self.left@,
            Edge::Right => self.right@,
            Edge::Top => self.top@,
            Edge::Bottom => self.bottom@,
        }
    }

    /// The struts along each edge are ordered by width.
    pub open spec fn wf(&self) -> bool {
        &&& by_width(self.struts(Edge::Left))
        &&& by_width(self.struts(Edge::Right))
        &&& by_width(self.struts(Edge::Top))
        &&& by_width(self.struts(Edge::Bottom))
    }

    /// The placeable region that the current struts give.
    pub open spec fn computed_placeable(&self, showing: bool) -> Region {
        placeable_within(
            self.full(),
            showing,
            self.struts(Edge::Left),
            self.struts(Edge::Right),
            self.struts(Edge::Top),
            self.struts(Edge::Bottom),
        )
    }

    /// Computing the placeable region from the current struts stays representable.
    pub open spec fn computed_placeable_fits(&self, showing: bool) -> bool {
        placeable_fits(
            self.full(),
            showing,
            self.struts(Edge::Left),
            self.struts(Edge::Right),
            self.struts(Edge::Top),
            self.struts(Edge::Bottom),
        )
    }


    /// The struts vector along `edge`.
    fn struts_mut(&mut self, edge: Edge) -> (r: &mut Vec<Strut>)
        ensures
            r@ == old(self).struts(edge),
            final(self).struts(edge) == final(r)@,
            forall|e: Edge| e != edge ==> final(self).struts(e) == old(self).struts(e),
            final(self).number_spec() == old(self).number_spec(),
            final(self).full() == old(self).full(),
            final(self).placeable() == old(self).placeable(),
            final(self).showing() == old(self).showing(),
            final(self).strut_windows() == old(self).strut_windows(),
    {
        match edge {
            Edge::Left => &mut self.left,
            Edge::Right => &mut self.right,
            Edge::Top => &mut self.top,
            Edge::Bottom => &mut self.bottom,
        }
    }

    /// A screen showing `region`, numbered `number`, with no struts.
    pub fn new(region: Region, number: usize) -> (r: Self)
        ensures
            r.wf(),
            r.number_spec() == number,
            r.full() == region,
            r.placeable() == region,
            r.showing(),
            r.strut_windows() == Map::<Window, Seq<Edge>>::empty(),
            forall|e: Edge| r.struts(e) == Seq::<Strut>::empty(),
    {
        let r = Screen {
            number,
            full_region: region,
            placeable_region: region,
            windows: HashMap::new(),
            left: Vec::with_capacity(1),
            right: Vec::with_capacity(1),
            top: Vec::with_capacity(1),
            bottom: Vec::with_capacity(1),
            showing_struts: true,
        };
        assert(r.strut_windows() =~= Map::<Window, Seq<Edge>>::empty());
        r
    }

    /// Whether struts are kept clear.
    pub fn showing_struts(&self) -> (r: bool)
        ensures
            r == self.showing(),
    {
        self.showing_struts
    }

    /// The number of the screen.
    pub fn number(&self) -> (r: usize)
        ensures
            r == self.number_spec(),
    {
        self.number
    }

    /// Renumbers the screen.
    pub fn set_number(&mut self, number: usize)
        ensures
            final(self).number_spec() == number,
            final(self).full() == old(self).full(),
            final(self).placeable() == old(self).placeable(),
            final(self).showing() == old(self).showing(),
            final(self).strut_windows() == old(self).strut_windows(),
            forall|e: Edge| final(self).struts(e) == old(self).struts(e),
    {
        self.number = number;
    }

    /// Recomputes the placeable region: the full region less the widest strut along each edge
    /// when struts are shown, the full region otherwise.
    pub fn compute_placeable_region(&mut self)
        requires
            old(self).computed_placeable_fits(old(self).showing()),
        ensures
            final(self).placeable() == old(self).computed_placeable(old(self).showing()),
            final(self).number_spec() == old(self).number_spec(),
            final(self).full() == old(self).full(),
            final(self).showing() == old(self).showing(),
            final(self).strut_windows() == old(self).strut_windows(),
            forall|e: Edge| final(self).struts(e) == old(self).struts(e),
    {
        let mut region = self.full_region;
        if self.showing_struts {
            if self.left.len() > 0 {
                let width: i32 = self.left[self.left.len() - 1].width as i32;
                region.pos.x = region.pos.x + width;
                region.dim.w = region.dim.w - width;
            }
            if self.right.len() > 0 {
                let width: i32 = self.right[self.right.len() - 1].width as i32;
                region.dim.w = region.dim.w - width;
            }
            if self.top.len() > 0 {
                let width: i32 = self.top[self.top.len() - 1].width as i32;
                region.pos.y = region.pos.y + width;
                region.dim.h = region.dim.h - width;
            }
            if self.bottom.len() > 0 {
                let width: i32 = self.bottom[self.bottom.len() - 1].width as i32;
                region.dim.h = region.dim.h - width;
            }
        }
        self.placeable_region = region;
    }

    /// Shows (or hides) the struts, recomputes the placeable region and gives back the windows
    /// that have struts.
    pub fn show_and_yield_struts(&mut self, show: bool) -> (r: Vec<Window>)
        requires
            old(self).computed_placeable_fits(show),
        ensures
            final(self).showing() == show,
            final(self).placeable() == old(self).computed_placeable(show),
            final(self).number_spec() == old(self).number_spec(),
            final(self).full() == old(self).full(),
            final(self).strut_windows() == old(self).strut_windows(),
            forall|e: Edge| final(self).struts(e) == old(self).struts(e),
            r@.to_set() == old(self).strut_windows().dom(),
            r@.no_duplicates(),
    {
        self.showing_struts = show;
        self.compute_placeable_region();
        let mut r: Vec<Window> = Vec::new();
        for k in it: self.windows.keys()
            invariant
                r@ == it.history().unref(),
                it.seq().unref().to_set() == self.windows@.dom(),
                it.seq().unref().no_duplicates(),
                it.index() == it.seq().len() ==> r@.to_set() == self.windows@.dom()
                    && r@.no_duplicates(),
        {
            r.push(*k);
            assert(it.index() + 1 == it.seq().len() ==> r@ =~= it.seq().unref());
        }
        assert(self.windows@.dom() =~= self.strut_windows().dom());
        r
    }

    /// The whole region of the screen.
    pub fn full_region(&self) -> (r: Region)
        ensures
            r == self.full(),
    {
        self.full_region
    }

    /// The region that windows are placed in.
    pub fn placeable_region(&self) -> (r: Region)
        ensures
            r == self.placeable(),
    {
        self.placeable_region
    }

    /// Whether `window` has struts on this screen.
    pub fn contains_window(&self, window: Window) -> (r: bool)
        ensures
            r == self.strut_windows().contains_key(window),
    {
        self.windows.contains_key(&window)
    }

    /// Whether `window` has struts on this screen.
    pub fn has_strut_window(&self, window: Window) -> (r: bool)
        ensures
            r == self.strut_windows().contains_key(window),
    {
        self.windows.contains_key(&window)
    }

    /// The width of the widest strut along `edge`, if there is one.
    pub fn max_strut_val(&self, edge: Edge) -> (r: Option<u32>)
        ensures
            r == if self.struts(edge).len() > 0 {
                Some(self.struts(edge).last().width)
            } else {
                None
            },
    {
        let struts = match edge {
            Edge::Left => &self.left,
            Edge::Right => &self.right,
            Edge::Top => &self.top,
            Edge::Bottom => &self.bottom,
        };
        if struts.len() > 0 {
            Some(struts[struts.len() - 1].width)
        } else {
            None
        }
    }

    /// Whether `pos` lies within the whole region of the screen.
    pub fn full_encompasses(&self, pos: Pos) -> (r: bool)
        ensures
            r == self.full().covers(pos.x as int, pos.y as int),
    {
        self.full_region.encompasses(pos)
    }

    /// Whether `pos` lies within the placeable region of the screen.
    pub fn placeable_encompasses(&self, pos: Pos) -> (r: bool)
        ensures
            r == self.placeable().covers(pos.x as int, pos.y as int),
    {
        self.placeable_region.encompasses(pos)
    }

    /// Whether `region` lies within the whole region of the screen.
    pub fn full_contains(&self, region: Region) -> (r: bool)
        ensures
            r == (self.full().covers(region.pos.x as int, region.pos.y as int) && self.full().covers(
                region.right(),
                region.bottom(),
            )),
    {
        self.full_region.contains(region)
    }

    /// Whether `region` lies within the placeable region of the screen.
    pub fn placeable_contains(&self, region: Region) -> (r: bool)
        ensures
            r == (self.placeable().covers(region.pos.x as int, region.pos.y as int)
                && self.placeable().covers(region.right(), region.bottom())),
    {
        self.placeable_region.contains(region)
    }

    /// Whether `region` and the whole region of the screen occlude one another.
    pub fn full_occludes(&self, region: Region) -> (r: bool)
        ensures
            r == (self.full().covers(region.pos.x as int, region.pos.y as int) || region.covers(
                self.full().pos.x as int,
                self.full().pos.y as int,
            )),
    {
        self.full_region.occludes(region)
    }

    /// Whether `region` and the placeable region of the screen occlude one another.
    pub fn placeable_occludes(&self, region: Region) -> (r: bool)
        ensures
            r == (self.placeable().covers(region.pos.x as int, region.pos.y as int)
                || region.covers(self.placeable().pos.x as int, self.placeable().pos.y as int)),
    {
        self.placeable_region.occludes(region)
    }

    /// Records a strut of `width` pixels that `window` reserves along `edge`.
    pub fn add_strut(&mut self, edge: Edge, window: Window, width: u32)
        requires
            old(self).wf(),
        ensures
            final(self).wf(),
            final(self).struts(edge) == with_strut(old(self).struts(edge), Strut { window, width }),
            forall|e: Edge| e != edge ==> final(self).struts(e) == old(self).struts(e),
            final(self).strut_windows() == windows_with(old(self).strut_windows(), edge, window),
            final(self).number_spec() == old(self).number_spec(),
            final(self).full() == old(self).full(),
            final(self).placeable() == old(self).placeable(),
            final(self).showing() == old(self).showing(),
    {
        let ghost before = *self;
        let struts = self.struts_mut(edge);
        insert_by_width(struts, Strut::new(window, width));
        let ghost middle = self.strut_windows();
        assert(middle == before.strut_windows());
        match self.windows.remove(&window) {
            Some(edges) => {
                let mut edges = edges;
                edges.push(edge);
                self.windows.insert(window, edges);
            },
            None => {
                self.windows.insert(window, vec![edge, edge]);
            },
        }
        assert(self.strut_windows() =~= windows_with(before.strut_windows(), edge, window));
    }

    /// Records the struts that windows reserve along the left, right, top and bottom edges, in
    /// that order.
    pub fn add_struts(&mut self, struts: Vec<Option<Strut>>)
        requires
            old(self).wf(),
            struts.len() >= 4,
        ensures
            final(self).wf(),
            final(self).struts(Edge::Left) == with_opt_strut(old(self).struts(Edge::Left), struts[0]),
            final(self).struts(Edge::Right) == with_opt_strut(
                old(self).struts(Edge::Right),
                struts[1],
            ),
            final(self).struts(Edge::Top) == with_opt_strut(old(self).struts(Edge::Top), struts[2]),
            final(self).struts(Edge::Bottom) == with_opt_strut(
                old(self).struts(Edge::Bottom),
                struts[3],
            ),
            final(self).strut_windows() == windows_with_opt(
                windows_with_opt(
                    windows_with_opt(
                        windows_with_opt(old(self).strut_windows(), Edge::Left, struts[0]),
                        Edge::Right,
                        struts[1],
                    ),
                    Edge::Top,
                    struts[2],
                ),
                Edge::Bottom,
                struts[3],
            ),
            final(self).number_spec() == old(self).number_spec(),
            final(self).full() == old(self).full(),
            final(self).placeable() == old(self).placeable(),
            final(self).showing() == old(self).showing(),
    {
        if let Some(left_strut) = struts[0] {
            self.add_strut(Edge::Left, left_strut.window, left_strut.width);
        }
        if let Some(right_strut) = struts[1] {
            self.add_strut(Edge::Right, right_strut.window, right_strut.width);
        }
        if let Some(top_strut) = struts[2] {
            self.add_strut(Edge::Top, top_strut.window, top_strut.width);
        }
        if let Some(bottom_strut) = struts[3] {
            self.add_strut(Edge::Bottom, bottom_strut.window, bottom_strut.width);
        }
    }

    /// Forgets every strut that `window` reserves, along whichever edges.
    pub fn remove_window_strut(&mut self, window: Window)
        requires
            old(self).wf(),
        ensures
            final(self).wf(),
            forall|e: Edge| final(self).struts(e) == without_window(old(self).struts(e), window),
            final(self).strut_windows() == old(self).strut_windows().remove(window),
            final(self).number_spec() == old(self).number_spec(),
            final(self).full() == old(self).full(),
            final(self).placeable() == old(self).placeable(),
            final(self).showing() == old(self).showing(),
    {
        let ghost before = *self;
        remove_window_from(&mut self.left, window);
        remove_window_from(&mut self.right, window);
        remove_window_from(&mut self.top, window);
        remove_window_from(&mut self.bottom, window);
        self.windows.remove(&window);
        assert(self.strut_windows() =~= before.strut_windows().remove(window));
        assert forall|e: Edge| self.struts(e) == without_window(before.struts(e), window) by {
            match e {
                Edge::Left => {},
                Edge::Right => {},
                Edge::Top => {},
                Edge::Bottom => {},
            }
        }
    }

    /// Replaces whatever struts `window` reserves by one of `width` pixels along `edge`.
    pub fn update_strut(&mut self, edge: Edge, window: Window, width: u32)
        requires
            old(self).wf(),
        ensures
            final(self).wf(),
            final(self).struts(edge) == with_strut(
                without_window(old(self).struts(edge), window),
                Strut { window, width },
            ),
            forall|e: Edge|
                e != edge ==> final(self).struts(e) == without_window(old(self).struts(e), window),
            final(self).strut_windows() == old(self).strut_windows().insert(
                window,
                seq![edge, edge],
            ),
            final(self).number_spec() == old(self).number_spec(),
            final(self).full() == old(self).full(),
            final(self).placeable() == old(self).placeable(),
            final(self).showing() == old(self).showing(),
    {
        let ghost before = *self;
        self.remove_window_strut(window);
        self.add_strut(edge, window, width);
        assert(self.strut_windows() =~= before.strut_windows().insert(window, seq![edge, edge]));
    }
}

/// Along an edge, the strut at the end (the one the placeable region gives way to) is the widest:
/// after a strut is added, it is at least as wide as the new one and as every earlier one.
pub proof fn law_widest_strut_last(s: Seq<Strut>, strut: Strut)
    requires
        by_width(s),
    ensures
        with_strut(s, strut).last().width >= strut.width,
        forall|k: int| 0 <= k < s.len() ==> with_strut(s, strut).last().width >= #[trigger] s[k].width,
        with_strut(s, strut).contains(strut),
{
    lemma_insertion_point(s, strut.width);
    lemma_with_strut_by_width(s, strut);
    let t = with_strut(s, strut);
    let p = insertion_point(s, strut.width);
    assert(t[p] == strut);
    assert forall|k: int| 0 <= k < s.len() implies t.last().width >= #[trigger] s[k].width by {
        if k < p {
            assert(t[k] == s[k]);
        } else {
            assert(t[k + 1] == s[k]);
        }
    }
}

/// Once a window's struts are removed, no strut along any edge belongs to it, and every strut
/// that is left was there before.
pub proof fn law_removed_window_keeps_no_strut(s: Seq<Strut>, window: Window)
    requires
        by_width(s),
    ensures
        forall|k: int|
            0 <= k < without_window(s, window).len() ==> (#[trigger] without_window(
                s,
                window,
            )[k]).window != window && s.contains(without_window(s, window)[k]),
{
    broadcast use vstd::seq_lib::group_filter_ensures;

    lemma_without_window_by_width(s, window);
}

} // verus!
