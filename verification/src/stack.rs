use vstd::prelude::*;

use crate::winsys::window::Window;

use std::collections::HashMap;

verus! {

broadcast use vstd::std_specs::hash::group_hash_axioms;

/// The layers that windows are stacked in, bottom first.
#[derive(Debug, Copy, Clone, PartialEq, Eq, Structural)]
pub enum StackLayer {
    Desktop,
    Below,
    Dock,
    Above,
    Notification,
}

/// Which windows sit in which stacking layer, in what order within each layer, and which
/// windows are to be stacked directly above or below another.
pub struct StackManager {
    window_layers: HashMap<Window, StackLayer>,
    desktop_windows: Vec<Window>,
    below_windows: Vec<Window>,
    dock_windows: Vec<Window>,
    above_windows: Vec<Window>,
    notification_windows: Vec<Window>,
    above_other: HashMap<Window, Window>,
    below_other: HashMap<Window, Window>,
}

/// Finds `window` in `v`.
fn position_of(v: &Vec<Window>, window: Window) -> (r: Option<usize>)
    ensures
        match r {
            Some(i) => i < v.len() && v@[i as int] == window,
            None => !v@.contains(window),
        },
{
    let mut i: usize = 0;
    while i < v.len()
        invariant
            i <= v.len(),
            forall|k: int| 0 <= k < i ==> v@[k] != window,
        decreases v.len() - i,
    {
        if v[i] == window {
            return Some(i);
        }
        i = i + 1;
    }
    None
}

/// In a sequence without duplicates, the only position of an element that occurs in it.
proof fn lemma_unique_position(s: Seq<Window>, i: int, window: Window)
    requires
        s.no_duplicates(),
        0 <= i < s.len(),
        s[i] == window,
    ensures
        s.index_of(window) == i,
{
    assert(s.contains(window)) by {
        assert(s[i] == window);
    }
    let j = s.index_of(window);
    assert(0 <= j < s.len() && s[j] == window);
}

/// Removing one element keeps a sequence free of duplicates and loses exactly that element.
proof fn lemma_remove_unique(s: Seq<Window>, i: int)
    requires
        s.no_duplicates(),
        0 <= i < s.len(),
    ensures
        s.remove(i).no_duplicates(),
        forall|w: Window| s.remove(i).contains(w) <==> (s.contains(w) && w != s[i]),
{
    let t = s.remove(i);
    assert forall|w: Window| t.contains(w) <==> (s.contains(w) && w != s[i]) by {
        if t.contains(w) {
            let k = choose|k: int| 0 <= k < t.len() && t[k] == w;
            if k < i {
                assert(s[k] == w);
            } else {
                assert(s[k + 1] == w);
            }
        }
        if s.contains(w) && w != s[i] {
            let k = choose|k: int| 0 <= k < s.len() && s[k] == w;
            if k < i {
                assert(t[k] == w);
            } else {
                assert(t[k - 1] == w);
            }
        }
    }
}

/// Changing nothing of the layers keeps a stack well formed.
proof fn lemma_wf_frame(a: StackManager, b: StackManager)
    requires
        a.wf(),
        a.layers() == b.layers(),
        forall|l: StackLayer| #[trigger] b.in_layer(l) == a.in_layer(l),
    ensures
        b.wf(),
{
    assert forall|l: StackLayer| (#[trigger] b.in_layer(l)).no_duplicates() by {
        assert(a.in_layer(l).no_duplicates());
    }
    assert forall|l: StackLayer, w: Window|
        (#[trigger] b.in_layer(l).contains(w)) <==> (b.layers().contains_key(w) && b.layers()[w]
            == l) by {
        assert(a.in_layer(l).contains(w) <==> (a.layers().contains_key(w) && a.layers()[w] == l));
    }
}

impl StackManager {
    /// The layer of each stacked window.
    pub closed spec fn layers(&self) -> Map<Window, StackLayer> {
        self.window_layers@
    }

    /// The windows in `layer`, lowest first.
    pub closed spec fn in_layer(&self, layer: StackLayer) -> Seq<Window> {
        match layer {
            StackLayer::Desktop => self.desktop_windows@,
            StackLayer::Below => self.below_windows@,
            StackLayer::Dock => self.dock_windows@,
            StackLayer::Above => self.above_windows@,
            StackLayer::Notification => self.notification_windows@,
        }
    }

    /// For each window, the window it is to be stacked directly above.
    pub closed spec fn above(&self) -> Map<Window, Window> {
        self.above_other@
    }

    /// For each window, the window it is to be stacked directly below.
    pub closed spec fn below(&self) -> Map<Window, Window> {
        self.below_other@
    }

    /// Every window sits once in exactly the layer recorded for it.
    pub open spec fn wf(&self) -> bool {
        &&& forall|l: StackLayer| (#[trigger] self.in_layer(l)).no_duplicates()
        &&& forall|l: StackLayer, w: Window|
            (#[trigger] self.in_layer(l).contains(w)) <==> (self.layers().contains_key(w)
                && self.layers()[w] == l)
    }

    /// The layers once `window` (if stacked) is taken out of its layer.
    pub open spec fn in_layer_without(&self, window: Window, layer: StackLayer) -> Seq<Window> {
        if self.layers().contains_key(window) && self.layers()[window] == layer {
            self.in_layer(layer).remove(self.in_layer(layer).index_of(window))
        } else {
            self.in_layer(layer)
        }
    }

    /// The windows vector of `layer`.
    fn layer_mut(&mut self, layer: StackLayer) -> (r: &mut Vec<Window>)
        ensures
            r@ == old(self).in_layer(layer),
            final(self).in_layer(layer) == final(r)@,
            forall|l: StackLayer| l != layer ==> final(self).in_layer(l) == old(self).in_layer(l),
            final(self).layers() == old(self).layers(),
            final(self).above() == old(self).above(),
            final(self).below() == old(self).below(),
    {
        match layer {
            StackLayer::Desktop => &mut self.desktop_windows,
            StackLayer::Below => &mut self.below_windows,
            StackLayer::Dock => &mut self.dock_windows,
            StackLayer::Above => &mut self.above_windows,
            StackLayer::Notification => &mut self.notification_windows,
        }
    }

    /// A stack with no windows.
    pub fn new() -> (r: Self)
        ensures
            r.wf(),
            r.layers() == Map::<Window, StackLayer>::empty(),
            forall|l: StackLayer| r.in_layer(l) == Seq::<Window>::empty(),
            r.above() == Map::<Window, Window>::empty(),
            r.below() == Map::<Window, Window>::empty(),
    {
        let r = StackManager {
            window_layers: HashMap::with_capacity(5),
            desktop_windows: Vec::with_capacity(10),
            below_windows: Vec::with_capacity(10),
            dock_windows: Vec::with_capacity(10),
            above_windows: Vec::with_capacity(10),
            notification_windows: Vec::with_capacity(10),
            above_other: HashMap::with_capacity(30),
            below_other: HashMap::with_capacity(30),
        };
        assert forall|l: StackLayer| r.in_layer(l) == Seq::<Window>::empty() by {
            match l {
                StackLayer::Desktop => {},
                StackLayer::Below => {},
                StackLayer::Dock => {},
                StackLayer::Above => {},
                StackLayer::Notification => {},
            }
        }
        r
    }

    /// Puts `window` on top of `layer`, unless it is stacked already.
    pub fn add_window(&mut self, window: Window, layer: StackLayer)
        requires
            old(self).wf(),
        ensures
            final(self).wf(),
            old(self).layers().contains_key(window) ==> final(self).layers() == old(self).layers()
                && forall|l: StackLayer| final(self).in_layer(l) == old(self).in_layer(l),
            !old(self).layers().contains_key(window) ==> final(self).layers() == old(
                self,
            ).layers().insert(window, layer) && final(self).in_layer(layer) == old(self).in_layer(
                layer,
            ).push(window) && forall|l: StackLayer|
                l != layer ==> final(self).in_layer(l) == old(self).in_layer(l),
            final(self).above() == old(self).above(),
            final(self).below() == old(self).below(),
    {
        if !self.window_layers.contains_key(&window) {
            let ghost before = *self;
            let layer_windows = self.layer_mut(layer);
            layer_windows.push(window);
            self.window_layers.insert(window, layer);
            assert forall|l: StackLayer| (#[trigger] self.in_layer(l)).no_duplicates() by {
                assert(before.in_layer(l).no_duplicates());
                if l == layer {
                    assert(!before.in_layer(layer).contains(window));
                    assert forall|i: int, j: int|
                        0 <= i < self.in_layer(l).len() && 0 <= j < self.in_layer(l).len() && i
                            != j implies self.in_layer(l)[i] != self.in_layer(l)[j] by {
                        if i < before.in_layer(l).len() && j < before.in_layer(l).len() {
                            assert(before.in_layer(l).no_duplicates());
                        } else if i < before.in_layer(l).len() {
                            assert(before.in_layer(l)[i] != window) by {
                                assert(before.in_layer(l).contains(before.in_layer(l)[i]));
                            }
                        } else if j < before.in_layer(l).len() {
                            assert(before.in_layer(l)[j] != window) by {
                                assert(before.in_layer(l).contains(before.in_layer(l)[j]));
                            }
                        }
                    }
                }
            }
            assert forall|l: StackLayer, w: Window|
                (#[trigger] self.in_layer(l).contains(w)) <==> (self.layers().contains_key(w)
                    && self.layers()[w] == l) by {
                assert(before.in_layer(l).contains(w) <==> (before.layers().contains_key(w)
                    && before.layers()[w] == l));
                if l == layer {
                    if self.in_layer(l).contains(w) && w != window {
                        let k = choose|k: int| 0 <= k < self.in_layer(l).len() && self.in_layer(l)[k] == w;
                        assert(before.in_layer(l)[k] == w);
                    }
                    if before.in_layer(l).contains(w) {
                        let k = choose|k: int| 0 <= k < before.in_layer(l).len() && before.in_layer(l)[k] == w;
                        assert(self.in_layer(l)[k] == w);
                    }
                    assert(self.in_layer(l)[before.in_layer(l).len() as int] == window);
                }
            }
        }
    }

    /// Records that `window` is to be stacked directly above `sibling`, unless something is
    /// recorded for it already.
    pub fn add_above_other(&mut self, window: Window, sibling: Window)
        requires
            old(self).wf(),
        ensures
            final(self).wf(),
            final(self).above() == if old(self).above().contains_key(window) {
                old(self).above()
            } else {
                old(self).above().insert(window, sibling)
            },
            final(self).below() == old(self).below(),
            final(self).layers() == old(self).layers(),
            forall|l: StackLayer| final(self).in_layer(l) == old(self).in_layer(l),
    {
        let ghost before = *self;
        if !self.above_other.contains_key(&window) {
            self.above_other.insert(window, sibling);
        }
        assert forall|l: StackLayer| #[trigger] self.in_layer(l) == before.in_layer(l) by {}
        proof {
            lemma_wf_frame(before, *self);
        }
    }

    /// Records that `window` is to be stacked directly below `sibling`, unless something is
    /// recorded for it already.
    pub fn add_below_other(&mut self, window: Window, sibling: Window)
        requires
            old(self).wf(),
        ensures
            final(self).wf(),
            final(self).below() == if old(self).below().contains_key(window) {
                old(self).below()
            } else {
                old(self).below().insert(window, sibling)
            },
            final(self).above() == old(self).above(),
            final(self).layers() == old(self).layers(),
            forall|l: StackLayer| final(self).in_layer(l) == old(self).in_layer(l),
    {
        let ghost before = *self;
        if !self.below_other.contains_key(&window) {
            self.below_other.insert(window, sibling);
        }
        assert forall|l: StackLayer| #[trigger] self.in_layer(l) == before.in_layer(l) by {}
        proof {
            lemma_wf_frame(before, *self);
        }
    }

    /// Takes `window` out of its layer, if it is stacked, and forgets what it was to be stacked
    /// above or below.
    pub fn remove_window(&mut self, window: Window)
        requires
            old(self).wf(),
        ensures
            final(self).wf(),
            final(self).layers() == old(self).layers().remove(window),
            forall|l: StackLayer| final(self).in_layer(l) == old(self).in_layer_without(window, l),
            final(self).above() == old(self).above().remove(window),
            final(self).below() == old(self).below().remove(window),
    {
        let ghost before = *self;
        let found = match self.window_layers.get(&window) {
            Some(layer) => Some(*layer),
            None => None,
        };
        if let Some(layer) = found {
            assert(before.in_layer(layer).contains(window));
            let layer_windows = self.layer_mut(layer);
            let index = position_of(layer_windows, window);
            let index: usize = match index {
                Some(i) => i,
                None => {
                    assert(false);
                    0
                },
            };
            proof {
                lemma_unique_position(before.in_layer(layer), index as int, window);
                lemma_remove_unique(before.in_layer(layer), index as int);
            }
            layer_windows.remove(index);
            self.window_layers.remove(&window);
            assert forall|l: StackLayer, w: Window|
                (#[trigger] self.in_layer(l).contains(w)) <==> (self.layers().contains_key(w)
                    && self.layers()[w] == l) by {
                assert(before.in_layer(l).contains(w) <==> (before.layers().contains_key(w)
                    && before.layers()[w] == l));
            }
            assert forall|l: StackLayer| (#[trigger] self.in_layer(l)).no_duplicates() by {
                assert(before.in_layer(l).no_duplicates());
            }
        } else {
            assert(self.layers() =~= before.layers().remove(window));
        }
        let ghost middle = *self;
        self.above_other.remove(&window);
        self.below_other.remove(&window);
        assert forall|l: StackLayer| #[trigger] self.in_layer(l) == middle.in_layer(l) by {}
        proof {
            lemma_wf_frame(middle, *self);
        }
    }

    /// Moves `window` to the top of `layer`, whatever layer it was in.
    pub fn relayer_window(&mut self, window: Window, layer: StackLayer)
        requires
            old(self).wf(),
        ensures
            final(self).wf(),
            final(self).layers() == old(self).layers().insert(window, layer),
            final(self).in_layer(layer) == old(self).in_layer_without(window, layer).push(window),
            forall|l: StackLayer|
                l != layer ==> final(self).in_layer(l) == old(self).in_layer_without(window, l),
            final(self).above() == old(self).above().remove(window),
            final(self).below() == old(self).below().remove(window),
    {
        self.remove_window(window);
        self.add_window(window, layer);
        assert(self.layers() =~= old(self).layers().insert(window, layer));
    }

    /// Moves `window`, if it is stacked, to the top of its layer.
    pub fn raise_window(&mut self, window: Window)
        requires
            old(self).wf(),
        ensures
            final(self).wf(),
            final(self).layers() == old(self).layers(),
            forall|l: StackLayer|
                final(self).in_layer(l) == if old(self).layers().contains_key(window)
                    && old(self).layers()[window] == l {
                    old(self).in_layer_without(window, l).push(window)
                } else {
                    old(self).in_layer(l)
                },
            final(self).above() == old(self).above(),
            final(self).below() == old(self).below(),
    {
        let ghost before = *self;
        let found = match self.window_layers.get(&window) {
            Some(layer) => Some(*layer),
            None => None,
        };
        if let Some(layer) = found {
            assert(before.in_layer(layer).contains(window));
            let layer_windows = self.layer_mut(layer);
            let index = position_of(layer_windows, window);
            let index: usize = match index {
                Some(i) => i,
                None => {
                    assert(false);
                    0
                },
            };
            proof {
                lemma_unique_position(before.in_layer(layer), index as int, window);
                lemma_remove_unique(before.in_layer(layer), index as int);
            }
            layer_windows.remove(index);
            layer_windows.push(window);
            let ghost removed = before.in_layer(layer).remove(index as int);
            assert forall|l: StackLayer, w: Window|
                (#[trigger] self.in_layer(l).contains(w)) <==> (self.layers().contains_key(w)
                    && self.layers()[w] == l) by {
                assert(before.in_layer(l).contains(w) <==> (before.layers().contains_key(w)
                    && before.layers()[w] == l));
                if l == layer {
                    assert(self.in_layer(l) == removed.push(window));
                    if self.in_layer(l).contains(w) && w != window {
                        let k = choose|k: int| 0 <= k < self.in_layer(l).len() && self.in_layer(l)[k] == w;
                        assert(removed[k] == w);
                    }
                    if removed.contains(w) {
                        let k = choose|k: int| 0 <= k < removed.len() && removed[k] == w;
                        assert(self.in_layer(l)[k] == w);
                    }
                    assert(self.in_layer(l)[removed.len() as int] == window);
                }
            }
            assert forall|l: StackLayer| (#[trigger] self.in_layer(l)).no_duplicates() by {
                assert(before.in_layer(l).no_duplicates());
                if l == layer {
                    assert forall|i: int, j: int|
                        0 <= i < self.in_layer(l).len() && 0 <= j < self.in_layer(l).len() && i
                            != j implies self.in_layer(l)[i] != self.in_layer(l)[j] by {
                        if i < removed.len() {
                            assert(removed.contains(removed[i]));
                        }
                        if j < removed.len() {
                            assert(removed.contains(removed[j]));
                        }
                    }
                }
            }
        }
    }

    /// The windows in `layer`, lowest first.
    pub fn layer_windows(&self, layer: StackLayer) -> (r: Vec<Window>)
        ensures
            r@ == self.in_layer(layer),
    {
        let v = match layer {
            StackLayer::Desktop => &self.desktop_windows,
            StackLayer::Below => &self.below_windows,
            StackLayer::Dock => &self.dock_windows,
            StackLayer::Above => &self.above_windows,
            StackLayer::Notification => &self.notification_windows,
        };
        let r = v.clone();
        assert(r@ =~= v@);
        r
    }

    /// For each window, the window it is to be stacked directly above.
    pub fn above_other(&self) -> (r: &HashMap<Window, Window>)
        ensures
            r@ == self.above(),
    {
        &self.above_other
    }

    /// For each window, the window it is to be stacked directly below.
    pub fn below_other(&self) -> (r: &HashMap<Window, Window>)
        ensures
            r@ == self.below(),
    {
        &self.below_other
    }
}

/// In a well-formed stack a window sits in one layer at most, and only once there.
pub proof fn law_one_layer_per_window(s: StackManager, window: Window, l1: StackLayer, l2: StackLayer)
    requires
        s.wf(),
        s.in_layer(l1).contains(window),
        s.in_layer(l2).contains(window),
    ensures
        l1 == l2,
        s.layers()[window] == l1,
        forall|i: int, j: int|
            0 <= i < s.in_layer(l1).len() && 0 <= j < s.in_layer(l1).len() && s.in_layer(l1)[i]
                == window && s.in_layer(l1)[j] == window ==> i == j,
{
    assert(s.in_layer(l1).no_duplicates());
}

/// A window of the focused workspace as stacking sees it: its frame, whether it is fullscreen
/// (and not contained in its tile), and whether it is free.
#[derive(Debug, Copy, Clone, PartialEq, Eq, Structural)]
pub struct StackEntry {
    pub frame: Window,
    pub fullscreen: bool,
    pub free: bool,
}

/// The three groups that the workspace's windows are stacked in.
#[derive(Debug, Copy, Clone, PartialEq, Eq, Structural)]
pub enum StackPart {
    Regular,
    Fullscreen,
    Free,
}

/// Whether an entry belongs to a group: fullscreen ones to the fullscreen group, the others to
/// the free or the regular group as they are free or not.
pub open spec fn in_part(e: StackEntry, part: StackPart) -> bool {
    match part {
        StackPart::Regular => !e.fullscreen && !e.free,
        StackPart::Fullscreen => e.fullscreen,
        StackPart::Free => !e.fullscreen && e.free,
    }
}

/// The frames of the entries in group `part`, in order.
pub open spec fn frames_in(entries: Seq<StackEntry>, part: StackPart) -> Seq<Window>
    decreases entries.len(),
{
    if entries.len() == 0 {
        Seq::empty()
    } else {
        let init = frames_in(entries.drop_last(), part);
        if in_part(entries.last(), part) {
            init.push(entries.last().frame)
        } else {
            init
        }
    }
}

/// The first position of `w` in `s`, if it occurs.
pub open spec fn first_position(s: Seq<Window>, w: Window) -> Option<int> {
    if exists|i: int| 0 <= i < s.len() && s[i] == w {
        Some(choose|i: int| 0 <= i < s.len() && s[i] == w && forall|j: int| 0 <= j < i ==> s[j] != w)
    } else {
        None
    }
}

/// `s` without the first occurrence of `w`, if it occurs.
pub open spec fn without_first(s: Seq<Window>, w: Window) -> Seq<Window> {
    match first_position(s, w) {
        Some(i) => s.remove(i),
        None => s,
    }
}

/// `s` without the first occurrence of each window of `ws`, taken in turn.
pub open spec fn without_each(s: Seq<Window>, ws: Seq<Window>) -> Seq<Window>
    decreases ws.len(),
{
    if ws.len() == 0 {
        s
    } else {
        without_first(without_each(s, ws.drop_last()), ws.last())
    }
}

/// `s` with each window of `pairs` put just above (after) its sibling, taken in turn; a window
/// whose sibling is not there is left out.
pub open spec fn with_each_above(s: Seq<Window>, pairs: Seq<(Window, Window)>) -> Seq<Window>
    decreases pairs.len(),
{
    if pairs.len() == 0 {
        s
    } else {
        let t = with_each_above(s, pairs.drop_last());
        match first_position(t, pairs.last().1) {
            Some(i) => t.insert(i + 1, pairs.last().0),
            None => t,
        }
    }
}

/// `s` with each window of `pairs` put just below (before) its sibling, taken in turn; a window
/// whose sibling is not there is left out.
pub open spec fn with_each_below(s: Seq<Window>, pairs: Seq<(Window, Window)>) -> Seq<Window>
    decreases pairs.len(),
{
    if pairs.len() == 0 {
        s
    } else {
        let t = with_each_below(s, pairs.drop_last());
        match first_position(t, pairs.last().1) {
            Some(i) => t.insert(i, pairs.last().0),
            None => t,
        }
    }
}

/// The windows of each pair, in order.
pub open spec fn firsts(pairs: Seq<(Window, Window)>) -> Seq<Window> {
    pairs.map_values(|p: (Window, Window)| p.0)
}

/// The stacking order, bottom first: the desktop, below and dock layers, then the workspace's
/// regular windows, its fullscreen ones and its free ones (each in focus order), then the above
/// and notification layers; the windows to be stacked next to a sibling are taken out and put
/// back above, then below, their siblings.
pub open spec fn stacking_order_spec(
    layers: (Seq<Window>, Seq<Window>, Seq<Window>, Seq<Window>, Seq<Window>),
    entries: Seq<StackEntry>,
    above_other: Seq<(Window, Window)>,
    below_other: Seq<(Window, Window)>,
) -> Seq<Window> {
    let (desktop, below, dock, above, notification) = layers;
    let regular = frames_in(entries, StackPart::Regular);
    let fullscreen = frames_in(entries, StackPart::Fullscreen);
    let free = frames_in(entries, StackPart::Free);
    let all = desktop + below + dock + regular + fullscreen + free + above + notification;
    let taken = without_each(all, firsts(above_other) + firsts(below_other));
    with_each_below(with_each_above(taken, above_other), below_other)
}

/// The first position of `w` in `v`, if it occurs.
fn find_first(v: &Vec<Window>, w: Window) -> (r: Option<usize>)
    ensures
        match r {
            Some(i) => i < v.len() && first_position(v@, w) == Some(i as int),
            None => first_position(v@, w) is None,
        },
{
    let mut i: usize = 0;
    while i < v.len()
        invariant
            i <= v.len(),
            forall|j: int| 0 <= j < i ==> v@[j] != w,
        decreases v.len() - i,
    {
        if v[i] == w {
            proof {
                let q = choose|k: int| 0 <= k < v@.len() && v@[k] == w && forall|j: int| 0 <= j < k ==> v@[j] != w;
                assert(0 <= q < v@.len() && v@[q] == w && forall|j: int| 0 <= j < q ==> v@[j] != w) by {
                    assert(v@[i as int] == w);
                }
                if q < i {
                    assert(v@[q] != w);
                }
                if q > i {
                    assert(v@[i as int] != w);
                }
            }
            return Some(i);
        }
        i = i + 1;
    }
    proof {
        if exists|k: int| 0 <= k < v@.len() && v@[k] == w {
            let k = choose|k: int| 0 <= k < v@.len() && v@[k] == w;
            assert(v@[k] != w);
        }
    }
    None
}

/// Appends to `out` the frames of the entries in group `part`.
fn push_frames(out: &mut Vec<Window>, entries: &Vec<StackEntry>, part: StackPart)
    ensures
        final(out)@ == old(out)@ + frames_in(entries@, part),
{
    let mut i: usize = 0;
    assert(old(out)@ =~= old(out)@ + frames_in(entries@.take(0), part));
    while i < entries.len()
        invariant
            i <= entries.len(),
            out@ == old(out)@ + frames_in(entries@.take(i as int), part),
        decreases entries.len() - i,
    {
        let e = entries[i];
        proof {
            assert(entries@.take(i + 1).drop_last() =~= entries@.take(i as int));
            assert(entries@.take(i + 1).last() == e);
        }
        let taken = match part {
            StackPart::Regular => !e.fullscreen && !e.free,
            StackPart::Fullscreen => e.fullscreen,
            StackPart::Free => !e.fullscreen && e.free,
        };
        if taken {
            out.push(e.frame);
            assert(out@ =~= old(out)@ + frames_in(entries@.take(i + 1), part));
        }
        i = i + 1;
    }
    assert(entries@.take(entries.len() as int) =~= entries@);
}

/// Appends `v` to `out`.
fn append(out: &mut Vec<Window>, v: &Vec<Window>)
    ensures
        final(out)@ == old(out)@ + v@,
{
    let mut i: usize = 0;
    while i < v.len()
        invariant
            i <= v.len(),
            out@ == old(out)@ + v@.take(i as int),
        decreases v.len() - i,
    {
        out.push(v[i]);
        i = i + 1;
        assert(out@ =~= old(out)@ + v@.take(i as int));
    }
    assert(v@.take(v.len() as int) =~= v@);
}

/// The order in which the windows are to be stacked, bottom first: the layers of `stack`, the
/// workspace's windows given by `entries` in focus order, and the windows that
/// `above_other` and `below_other` place next to a sibling (each taken in the order given).
pub fn stacking_order(
    stack: &StackManager,
    entries: &Vec<StackEntry>,
    above_other: &Vec<(Window, Window)>,
    below_other: &Vec<(Window, Window)>,
) -> (r: Vec<Window>)
    requires
        stack.wf(),
    ensures
        r@ == stacking_order_spec(
            (
                stack.in_layer(StackLayer::Desktop),
                stack.in_layer(StackLayer::Below),
                stack.in_layer(StackLayer::Dock),
                stack.in_layer(StackLayer::Above),
                stack.in_layer(StackLayer::Notification),
            ),
            entries@,
            above_other@,
            below_other@,
        ),
{
    let mut windows: Vec<Window> = Vec::new();
    append(&mut windows, &stack.layer_windows(StackLayer::Desktop));
    append(&mut windows, &stack.layer_windows(StackLayer::Below));
    append(&mut windows, &stack.layer_windows(StackLayer::Dock));
    push_frames(&mut windows, entries, StackPart::Regular);
    push_frames(&mut windows, entries, StackPart::Fullscreen);
    push_frames(&mut windows, entries, StackPart::Free);
    append(&mut windows, &stack.layer_windows(StackLayer::Above));
    append(&mut windows, &stack.layer_windows(StackLayer::Notification));
    let ghost all = windows@;
    proof {
        let regular = frames_in(entries@, StackPart::Regular);
        let fullscreen = frames_in(entries@, StackPart::Fullscreen);
        let free = frames_in(entries@, StackPart::Free);
        assert(all =~= stack.in_layer(StackLayer::Desktop) + stack.in_layer(StackLayer::Below)
            + stack.in_layer(StackLayer::Dock) + regular + fullscreen + free + stack.in_layer(
            StackLayer::Above,
        ) + stack.in_layer(StackLayer::Notification));
    }
    let ghost movers = firsts(above_other@) + firsts(below_other@);
    let mut k: usize = 0;
    while k < above_other.len()
        invariant
            k <= above_other.len(),
            movers == firsts(above_other@) + firsts(below_other@),
            windows@ == without_each(all, movers.take(k as int)),
        decreases above_other.len() - k,
    {
        let w = above_other[k].0;
        let ghost before = windows@;
        match find_first(&windows, w) {
            Some(i) => {
                windows.remove(i);
            },
            None => {},
        }
        proof {
            assert(windows@ == without_first(before, w));
            let t = movers.take(k + 1);
            assert(t.drop_last() =~= movers.take(k as int));
            assert(t.last() == w);
            assert(without_each(all, t) == without_first(without_each(all, t.drop_last()), t.last()));
        }
        k = k + 1;
    }
    let mut m: usize = 0;
    while m < below_other.len()
        invariant
            m <= below_other.len(),
            movers == firsts(above_other@) + firsts(below_other@),
            windows@ == without_each(all, movers.take(above_other.len() + m)),
        decreases below_other.len() - m,
    {
        let w = below_other[m].0;
        let ghost before = windows@;
        match find_first(&windows, w) {
            Some(i) => {
                windows.remove(i);
            },
            None => {},
        }
        proof {
            assert(windows@ == without_first(before, w));
            let t = movers.take(above_other.len() + m + 1);
            assert(t.drop_last() =~= movers.take(above_other.len() + m));
            assert(t.last() == w);
            assert(without_each(all, t) == without_first(without_each(all, t.drop_last()), t.last()));
        }
        m = m + 1;
    }
    assert(movers.take(movers.len() as int) =~= movers);
    let ghost taken = windows@;
    let mut a: usize = 0;
    while a < above_other.len()
        invariant
            a <= above_other.len(),
            windows@ == with_each_above(taken, above_other@.take(a as int)),
        decreases above_other.len() - a,
    {
        let (w, sibling) = above_other[a];
        proof {
            assert(above_other@.take(a + 1).drop_last() =~= above_other@.take(a as int));
            assert(above_other@.take(a + 1).last() == (w, sibling));
        }
        let ghost before = windows@;
        match find_first(&windows, sibling) {
            Some(i) => {
                windows.insert(i + 1, w);
            },
            None => {},
        }
        proof {
            let t = above_other@.take(a + 1);
            assert(t.drop_last() =~= above_other@.take(a as int));
            assert(with_each_above(taken, t) == (match first_position(before, sibling) {
                Some(i) => before.insert(i + 1, w),
                None => before,
            }));
        }
        a = a + 1;
    }
    assert(above_other@.take(above_other.len() as int) =~= above_other@);
    let ghost raised = windows@;
    let mut b: usize = 0;
    while b < below_other.len()
        invariant
            b <= below_other.len(),
            windows@ == with_each_below(raised, below_other@.take(b as int)),
        decreases below_other.len() - b,
    {
        let (w, sibling) = below_other[b];
        proof {
            assert(below_other@.take(b + 1).drop_last() =~= below_other@.take(b as int));
            assert(below_other@.take(b + 1).last() == (w, sibling));
        }
        let ghost before = windows@;
        match find_first(&windows, sibling) {
            Some(i) => {
                windows.insert(i, w);
            },
            None => {},
        }
        proof {
            let t = below_other@.take(b + 1);
            assert(t.drop_last() =~= below_other@.take(b as int));
            assert(with_each_below(raised, t) == (match first_position(before, sibling) {
                Some(i) => before.insert(i, w),
                None => before,
            }));
        }
        b = b + 1;
    }
    assert(below_other@.take(below_other.len() as int) =~= below_other@);
    assert(taken == without_each(all, movers));
    assert(raised == with_each_above(taken, above_other@));
    windows
}

/// Position `i` of `order` holds another window than it did in `previous`.
pub open spec fn differs_at(order: Seq<Window>, previous: Seq<Window>, i: int) -> bool {
    i >= previous.len() || previous[i] != order[i]
}

/// From which position on the windows of `order` must be restacked (each just above the one
/// before it) to turn `previous` into `order`: the first position after the bottom one at which
/// the two differ, if any.
pub open spec fn restack_from_spec(order: Seq<Window>, previous: Seq<Window>) -> Option<int> {
    if exists|i: int| 1 <= i < order.len() && #[trigger] differs_at(order, previous, i) {
        Some(
            choose|i: int|
                1 <= i < order.len() && #[trigger] differs_at(order, previous, i) && forall|j: int|
                    1 <= j < i ==> !differs_at(order, previous, j),
        )
    } else {
        None
    }
}

/// From which position on the windows of `order` must be restacked to turn `previous` into
/// `order`; `None` when nothing past the bottom window changed.
pub fn restack_from(order: &Vec<Window>, previous: &Vec<Window>) -> (r: Option<usize>)
    ensures
        match r {
            Some(i) => restack_from_spec(order@, previous@) == Some(i as int),
            None => restack_from_spec(order@, previous@) is None,
        },
{
    let mut i: usize = 1;
    while i < order.len()
        invariant
            1 <= i,
            forall|j: int| 1 <= j < i && j < order.len() ==> !#[trigger] differs_at(order@, previous@, j),
        decreases order.len() - i,
    {
        if i >= previous.len() || previous[i] != order[i] {
            proof {
                assert(differs_at(order@, previous@, i as int));
                let q = choose|j: int|
                    1 <= j < order@.len() && #[trigger] differs_at(order@, previous@, j) && forall|k: int|
                        1 <= k < j ==> !differs_at(order@, previous@, k);
                if q < i {
                    assert(!differs_at(order@, previous@, q));
                }
                if q > i {
                    assert(!differs_at(order@, previous@, i as int));
                }
            }
            return Some(i);
        }
        assert(!differs_at(order@, previous@, i as int));
        i = i + 1;
    }
    proof {
        if exists|j: int| 1 <= j < order@.len() && #[trigger] differs_at(order@, previous@, j) {
            let j = choose|j: int| 1 <= j < order@.len() && #[trigger] differs_at(order@, previous@, j);
            assert(!differs_at(order@, previous@, j));
        }
    }
    None
}


/// `sorted` with `entry` placed after every entry of a rank no higher than its own, from the
/// back.
pub open spec fn ranked_insert(sorted: Seq<(Window, u64)>, entry: (Window, u64)) -> Seq<(Window, u64)>
    decreases sorted.len(),
{
    if sorted.len() == 0 {
        seq![entry]
    } else if sorted.last().1 > entry.1 {
        ranked_insert(sorted.drop_last(), entry).push(sorted.last())
    } else {
        sorted.push(entry)
    }
}

/// `entries` sorted by rank, entries of equal rank kept in their order.
pub open spec fn ranked(entries: Seq<(Window, u64)>) -> Seq<(Window, u64)>
    decreases entries.len(),
{
    if entries.len() == 0 {
        Seq::empty()
    } else {
        ranked_insert(ranked(entries.drop_last()), entries.last())
    }
}

fn insert_ranked(sorted: Vec<(Window, u64)>, entry: (Window, u64)) -> (r: Vec<(Window, u64)>)
    ensures
        r@ == ranked_insert(sorted@, entry),
    decreases sorted@.len(),
{
    let mut sorted = sorted;
    let ghost s0 = sorted@;
    match sorted.pop() {
        None => vec![entry],
        Some(last) => {
            proof {
                assert(sorted@ =~= s0.drop_last());
            }
            if last.1 > entry.1 {
                let mut r = insert_ranked(sorted, entry);
                r.push(last);
                r
            } else {
                sorted.push(last);
                sorted.push(entry);
                proof {
                    assert(sorted@ =~= s0.push(entry));
                }
                sorted
            }
        },
    }
}

/// The managed windows, each given with the rank of when it came to be managed, in the order
/// they came to be managed (windows managed at once kept in the order given).
pub fn client_list(entries: &Vec<(Window, u64)>) -> (r: Vec<Window>)
    ensures
        r@ == ranked(entries@).map_values(|e: (Window, u64)| e.0),
{
    let mut sorted: Vec<(Window, u64)> = Vec::new();
    let mut i: usize = 0;
    while i < entries.len()
        invariant
            i <= entries@.len(),
            sorted@ == ranked(entries@.take(i as int)),
        decreases entries@.len() - i,
    {
        proof {
            assert(entries@.take(i + 1).drop_last() =~= entries@.take(i as int));
        }
        sorted = insert_ranked(sorted, entries[i]);
        i = i + 1;
    }
    proof {
        assert(entries@.take(entries@.len() as int) =~= entries@);
    }
    let mut r: Vec<Window> = Vec::new();
    let mut j: usize = 0;
    while j < sorted.len()
        invariant
            j <= sorted@.len(),
            r@ == sorted@.take(j as int).map_values(|e: (Window, u64)| e.0),
        decreases sorted@.len() - j,
    {
        r.push(sorted[j].0);
        proof {
            assert(r@ =~= sorted@.take(j + 1).map_values(|e: (Window, u64)| e.0));
        }
        j = j + 1;
    }
    proof {
        assert(sorted@.take(sorted@.len() as int) =~= sorted@);
    }
    r
}

/// The windows of `s` that are not among `t`, in order.
pub open spec fn without(s: Seq<Window>, t: Seq<Window>) -> Seq<Window>
    decreases s.len(),
{
    if s.len() == 0 {
        Seq::empty()
    } else if t.contains(s.last()) {
        without(s.drop_last(), t)
    } else {
        without(s.drop_last(), t).push(s.last())
    }
}

/// The managed windows in stacking order: those of `client_list` that are not stacked on the
/// workspace, in their order, then the workspace's stacked windows `stacked`, bottom first.
pub fn client_list_stacking(client_list: &Vec<Window>, stacked: &Vec<Window>) -> (r: Vec<Window>)
    ensures
        r@ == without(client_list@, stacked@) + stacked@,
{
    let mut r: Vec<Window> = Vec::new();
    let mut i: usize = 0;
    while i < client_list.len()
        invariant
            i <= client_list@.len(),
            r@ == without(client_list@.take(i as int), stacked@),
        decreases client_list@.len() - i,
    {
        let w = client_list[i];
        proof {
            assert(client_list@.take(i + 1).drop_last() =~= client_list@.take(i as int));
            assert(client_list@.take(i + 1).last() == w);
        }
        let mut found = false;
        let mut k: usize = 0;
        while k < stacked.len()
            invariant
                k <= stacked@.len(),
                found == (exists|m: int| 0 <= m < k && stacked@[m] == w),
            decreases stacked@.len() - k,
        {
            if stacked[k] == w {
                found = true;
            }
            k = k + 1;
        }
        proof {
            if stacked@.contains(w) {
                let m = choose|m: int| 0 <= m < stacked@.len() && stacked@[m] == w;
                assert(found);
            }
        }
        if !found {
            r.push(w);
        }
        i = i + 1;
    }
    proof {
        assert(client_list@.take(client_list@.len() as int) =~= client_list@);
    }
    let mut k: usize = 0;
    let ghost base = r@;
    while k < stacked.len()
        invariant
            k <= stacked@.len(),
            r@ == base + stacked@.take(k as int),
        decreases stacked@.len() - k,
    {
        r.push(stacked[k]);
        proof {
            assert(r@ =~= base + stacked@.take(k + 1));
        }
        k = k + 1;
    }
    proof {
        assert(stacked@.take(stacked@.len() as int) =~= stacked@);
    }
    r
}

} // verus!
