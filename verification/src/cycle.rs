use vstd::prelude::*;

use crate::change::Direction;
use crate::change::opposite;
use crate::identify::Ident;
use crate::identify::Identify;
use crate::identify::Index;
use crate::util::spec_last_index;
use crate::util::Util;

use vstd::std_specs::cmp::PartialEqSpec;
use vstd::std_specs::iter::IteratorSpec;

use std::collections::HashMap;
use std::collections::VecDeque;

verus! {

broadcast use vstd::std_specs::hash::group_hash_axioms;

/// Where a new element goes in a [`Cycle`].
#[derive(Debug, Copy, Clone, PartialEq, Eq, Structural)]
pub enum InsertPos {
    BeforeActive,
    AfterActive,
    BeforeIndex(Index),
    AfterIndex(Index),
    BeforeIdent(Ident),
    AfterIdent(Ident),
    Front,
    Back,
}

/// A condition on elements that a caller can hand to a [`Cycle`] to select by.
pub trait Criterion<T> {
    /// Whether `element` meets the condition.
    spec fn holds(&self, element: &T) -> bool;

    fn check(&self, element: &T) -> (r: bool)
        ensures
            r == self.holds(element),
    ;
}

/// Which element (or elements) of a [`Cycle`] an operation applies to.
#[verifier::reject_recursive_types(T)]
pub enum Selector<'a, T> {
    AtActive,
    AtIndex(Index),
    AtIdent(Ident),
    First,
    Last,
    ForCond(&'a dyn Criterion<T>),
}

#[derive(Clone, Copy, PartialEq, Eq, Structural)]
enum StackAction {
    Insert,
    Remove,
}

/// The identifiers of a sequence of elements, position by position.
pub open spec fn ids_of<T: Identify>(s: Seq<T>) -> Seq<Ident> {
    Seq::new(s.len(), |i: int| s[i].ident())
}

/// The position at which `id` occurs in `ids`, if it does.
pub open spec fn find_id(ids: Seq<Ident>, id: Ident) -> Option<int> {
    if exists|i: int| 0 <= i < ids.len() && ids[i] == id {
        Some(choose|i: int| 0 <= i < ids.len() && ids[i] == id)
    } else {
        None
    }
}

/// `j` is the last position of `id` in `s`.
pub open spec fn is_last_occurrence(s: Seq<Ident>, id: Ident, j: int) -> bool {
    &&& 0 <= j < s.len()
    &&& s[j] == id
    &&& forall|k: int| j < k < s.len() ==> s[k] != id
}

/// `s` with the last occurrence of `id` taken out (unchanged when `id` does not occur).
pub open spec fn without_last(s: Seq<Ident>, id: Ident) -> Seq<Ident> {
    if exists|j: int| is_last_occurrence(s, id, j) {
        s.remove(choose|j: int| is_last_occurrence(s, id, j))
    } else {
        s
    }
}

/// The focus history once `index` (of a cycle whose identifiers are `ids`) has been
/// recorded as most recently focused.
pub open spec fn history_pushed(history: Seq<Ident>, ids: Seq<Ident>, index: int, unwinds: bool) -> Seq<
    Ident,
> {
    if unwinds && 0 <= index < ids.len() {
        without_last(history, ids[index]).push(ids[index])
    } else {
        history
    }
}

/// The position one step from `index` in direction `dir`, wrapping round a cycle of `len`.
pub open spec fn cycle_step(len: int, index: int, dir: Direction) -> int {
    let end = spec_last_index(len);
    match dir {
        Direction::Forward => if index == end {
            0
        } else {
            index + 1
        },
        Direction::Backward => if index == 0 {
            end
        } else {
            index - 1
        },
    }
}

/// `s` rotated by one place: forward moves the last element to the front, backward the
/// first element to the back.
pub open spec fn rotated<T>(s: Seq<T>, dir: Direction) -> Seq<T> {
    if s.len() == 0 {
        s
    } else {
        match dir {
            Direction::Forward => seq![s.last()] + s.drop_last(),
            Direction::Backward => s.drop_first().push(s[0]),
        }
    }
}

/// The first position at or after `k` whose element of `s` meets `c`, if there is one.
pub open spec fn first_match_from<T, C: Criterion<T> + ?Sized>(s: Seq<T>, c: &C, k: int) -> Option<int>
    decreases s.len() - k,
{
    if k < 0 || k >= s.len() {
        None
    } else if c.holds(&s[k]) {
        Some(k)
    } else {
        first_match_from(s, c, k + 1)
    }
}

/// How the active position and the history come out of a removal at `pivot`, given the
/// active position before it, the history with the removed identifier taken out, and the
/// identifiers that remain.
pub open spec fn removal_outcome(
    old_index: int,
    unwinds: bool,
    h: Seq<Ident>,
    rest: Seq<Ident>,
    pivot: int,
    new_index: int,
    new_history: Seq<Ident>,
) -> bool {
    if pivot == old_index {
        if unwinds && h.len() > 0 {
            &&& new_history == h.drop_last()
            &&& new_index == match find_id(rest, h.last()) {
                Some(i) => i,
                None => spec_last_index(rest.len() as int),
            }
        } else {
            &&& new_history == h
            &&& new_index == spec_last_index(rest.len() as int)
        }
    } else {
        &&& new_history == h
        &&& new_index == (if pivot < old_index {
            old_index - 1
        } else {
            old_index
        })
    }
}

/// The elements of `s` that meet `c`, in order.
pub open spec fn select_all<T, C: Criterion<T> + ?Sized>(s: Seq<T>, c: &C) -> Seq<T>
    decreases s.len(),
{
    if s.len() == 0 {
        s
    } else {
        let rest = select_all(s.drop_last(), c);
        if c.holds(&s.last()) {
            rest.push(s.last())
        } else {
            rest
        }
    }
}

/// The values behind a sequence of references.
pub open spec fn deref_seq<T>(s: Seq<&T>) -> Seq<T> {
    s.map_values(|x: &T| *x)
}

/// The value behind an optional reference.
pub open spec fn deref_opt<T>(o: Option<&T>) -> Option<T> {
    match o {
        Some(x) => Some(*x),
        None => None,
    }
}

/// The identifier map agrees with `ids`: positions before `pivot` map to themselves,
/// positions in `[pivot, k)` are moved by `done` and the rest by `todo`; every key
/// is the identifier of some element.
spec fn map_zones(
    m: Map<Ident, Index>,
    ids: Seq<Ident>,
    pivot: int,
    k: int,
    done: int,
    todo: int,
) -> bool {
    &&& forall|j: int|
        #![trigger ids[j]]
        0 <= j < ids.len() ==> m.contains_key(ids[j]) && m[ids[j]] == (if j < pivot {
            j
        } else if j < k {
            j + done
        } else {
            j + todo
        })
    &&& forall|key: Ident| #[trigger]
        m.contains_key(key) ==> exists|j: int| 0 <= j < ids.len() && ids[j] == key
}

proof fn lemma_two_zones_distinct(m: Map<Ident, Index>, ids: Seq<Ident>, pivot: int, shift: int)
    requires
        map_zones(m, ids, pivot, pivot, 0, shift),
        shift == 0 || shift == 1,
    ensures
        ids.no_duplicates(),
{
    assert forall|i: int, j: int| 0 <= i < ids.len() && 0 <= j < ids.len() && i != j implies ids[i]
        != ids[j] by {
        if ids[i] == ids[j] {
            assert(m[ids[i]] == m[ids[j]]);
        }
    }
}

proof fn lemma_find_id_unique(ids: Seq<Ident>, id: Ident, j: int)
    requires
        ids.no_duplicates(),
        0 <= j < ids.len(),
        ids[j] == id,
    ensures
        find_id(ids, id) == Some(j),
{
    let k = choose|i: int| 0 <= i < ids.len() && ids[i] == id;
    assert(0 <= k < ids.len() && ids[k] == id);
}

proof fn lemma_find_id_absent(ids: Seq<Ident>, id: Ident)
    requires
        !ids.contains(id),
    ensures
        find_id(ids, id) is None,
{
    if exists|i: int| 0 <= i < ids.len() && ids[i] == id {
        let k = choose|i: int| 0 <= i < ids.len() && ids[i] == id;
        assert(ids.contains(id));
    }
}

proof fn lemma_without_last(s: Seq<Ident>, id: Ident)
    requires
        s.no_duplicates(),
    ensures
        without_last(s, id).no_duplicates(),
        !without_last(s, id).contains(id),
        forall|x: Ident| x != id ==> (without_last(s, id).contains(x) <==> s.contains(x)),
        s.contains(id) ==> without_last(s, id).len() == s.len() - 1,
        !s.contains(id) ==> without_last(s, id) == s,
{
    if s.contains(id) {
        let j = choose|j: int| 0 <= j < s.len() && s[j] == id;
        assert(is_last_occurrence(s, id, j));
        let c = choose|c: int| is_last_occurrence(s, id, c);
        assert(c == j);
        let r = s.remove(j);
        assert forall|x: Ident| x != id implies (r.contains(x) <==> s.contains(x)) by {
            if s.contains(x) {
                let i = choose|i: int| 0 <= i < s.len() && s[i] == x;
                if i < j {
                    assert(r[i] == x);
                } else {
                    assert(r[i - 1] == x);
                }
            }
            if r.contains(x) {
                let i = choose|i: int| 0 <= i < r.len() && r[i] == x;
                if i < j {
                    assert(s[i] == x);
                } else {
                    assert(s[i + 1] == x);
                }
            }
        }
        if r.contains(id) {
            let i = choose|i: int| 0 <= i < r.len() && r[i] == id;
            if i < j {
                assert(s[i] == id);
            } else {
                assert(s[i + 1] == id);
            }
        }
    } else {
        if exists|j: int| is_last_occurrence(s, id, j) {
            let j = choose|j: int| is_last_occurrence(s, id, j);
            assert(s[j] == id);
        }
    }
}

proof fn lemma_history_pushed(history: Seq<Ident>, ids: Seq<Ident>, index: int, unwinds: bool)
    requires
        history.no_duplicates(),
        forall|i: int| 0 <= i < history.len() ==> ids.contains(history[i]),
        !unwinds ==> history.len() == 0,
    ensures
        history_pushed(history, ids, index, unwinds).no_duplicates(),
        forall|i: int|
            0 <= i < history_pushed(history, ids, index, unwinds).len() ==> ids.contains(
                history_pushed(history, ids, index, unwinds)[i],
            ),
        !unwinds ==> history_pushed(history, ids, index, unwinds).len() == 0,
{
    if unwinds && 0 <= index < ids.len() {
        let id = ids[index];
        lemma_without_last(history, id);
        let w = without_last(history, id);
        let p = w.push(id);
        assert forall|i: int| 0 <= i < p.len() implies ids.contains(p[i]) by {
            if i < w.len() {
                assert(w.contains(w[i]));
                assert(history.contains(w[i]));
                let k = choose|k: int| 0 <= k < history.len() && history[k] == w[i];
                assert(ids.contains(history[k]));
            } else {
                assert(ids[index] == p[i]);
            }
        }
        assert forall|a: int, b: int| 0 <= a < p.len() && 0 <= b < p.len() && a != b implies p[a]
            != p[b] by {
            if a < w.len() && b == w.len() {
                assert(w.contains(w[a]));
            } else if b < w.len() && a == w.len() {
                assert(w.contains(w[b]));
            }
        }
    }
}

/// The most recently focused identifiers of a cycle, oldest first.
#[derive(Debug, Clone)]
struct HistoryStack {
    stack: VecDeque<Ident>,
}

impl HistoryStack {
    fn new() -> (r: Self)
        ensures
            r.stack@ == Seq::<Ident>::empty(),
    {
        HistoryStack { stack: VecDeque::with_capacity(30) }
    }

    fn clear(&mut self)
        ensures
            final(self).stack@ == Seq::<Ident>::empty(),
    {
        self.stack.clear();
    }

    fn push_back(&mut self, id: Ident)
        ensures
            final(self).stack@ == old(self).stack@.push(id),
    {
        self.stack.push_back(id);
    }

    fn pop_back(&mut self) -> (r: Option<Ident>)
        ensures
            old(self).stack@.len() > 0 ==> r == Some(old(self).stack@.last()) && final(self).stack@
                == old(self).stack@.drop_last(),
            old(self).stack@.len() == 0 ==> r is None && final(self).stack@ == old(self).stack@,
    {
        self.stack.pop_back()
    }

    fn remove_id(&mut self, id: Ident)
        ensures
            final(self).stack@ == without_last(old(self).stack@, id),
    {
        let mut i: usize = self.stack.len();
        while i > 0
            invariant
                i <= self.stack@.len(),
                self.stack@ == old(self).stack@,
                forall|k: int| i <= k < self.stack@.len() ==> self.stack@[k] != id,
            decreases i,
        {
            i = i - 1;
            if self.stack[i] == id {
                proof {
                    assert(is_last_occurrence(self.stack@, id, i as int));
                    let c = choose|c: int| is_last_occurrence(self.stack@, id, c);
                    assert(c == i);
                }
                self.stack.remove(i);
                return;
            }
        }
        proof {
            if exists|j: int| is_last_occurrence(self.stack@, id, j) {
                let j = choose|j: int| is_last_occurrence(self.stack@, id, j);
                assert(self.stack@[j] == id);
            }
        }
    }

    fn as_vecdeque(&self) -> (r: VecDeque<Ident>)
        ensures
            r@ == self.stack@,
    {
        let r = self.stack.clone();
        assert(r@ =~= self.stack@);
        r
    }

    fn as_vec(&self) -> (r: Vec<Ident>)
        ensures
            r@ == self.stack@,
    {
        let mut v: Vec<Ident> = Vec::new();
        let mut i: usize = 0;
        while i < self.stack.len()
            invariant
                i <= self.stack@.len(),
                v@ == self.stack@.take(i as int),
            decreases self.stack@.len() - i,
        {
            v.push(self.stack[i]);
            i = i + 1;
            assert(v@ =~= self.stack@.take(i as int));
        }
        assert(self.stack@.take(i as int) =~= self.stack@);
        v
    }
}

/// An ordered collection with a focus (the active position), a map from identifiers to
/// positions, and, when unwindable, a history of recently focused identifiers that
/// decides where the focus returns when the focused element leaves.
#[derive(Debug, Clone)]
pub struct Cycle<T> {
    index: Index,
    elements: Vec<T>,
    indices: HashMap<Ident, Index>,
    unwindable: bool,
    stack: HistoryStack,
}

impl<T: Identify> Cycle<T> {
    /// The elements, in order.
    pub closed spec fn elems(&self) -> Seq<T> {
        self.elements@
    }

    /// The active position (it may lie outside the elements).
    pub closed spec fn active(&self) -> usize {
        self.index
    }

    /// The focus history, oldest first.
    pub closed spec fn history(&self) -> Seq<Ident> {
        self.stack.stack@
    }

    /// Whether the cycle keeps a focus history.
    pub closed spec fn unwinds(&self) -> bool {
        self.unwindable
    }

    /// The identifiers of the elements, in order.
    pub open spec fn ids(&self) -> Seq<Ident> {
        ids_of(self.elems())
    }

    spec fn map_ok(&self) -> bool {
        map_zones(
            self.indices@,
            self.ids(),
            self.elems().len() as int,
            self.elems().len() as int,
            0,
            0,
        )
    }

    spec fn history_ok(&self) -> bool {
        &&& self.history().no_duplicates()
        &&& forall|i: int| 0 <= i < self.history().len() ==> self.ids().contains(self.history()[i])
        &&& !self.unwindable ==> self.history().len() == 0
    }

    /// The cycle is well formed: identifiers are distinct, the identifier map agrees with
    /// the elements, and the history holds distinct identifiers of present elements.
    pub closed spec fn wf(&self) -> bool {
        &&& self.map_ok()
        &&& self.history_ok()
    }

    /// The element at position `i`, if there is one.
    pub open spec fn at(&self, i: int) -> Option<T> {
        if 0 <= i < self.elems().len() {
            Some(self.elems()[i])
        } else {
            None
        }
    }

    /// The position of the element whose identifier is `id`, if there is one.
    pub open spec fn position(&self, id: Ident) -> Option<int> {
        find_id(self.ids(), id)
    }

    /// The first position whose element meets `c`, if there is one.
    pub open spec fn first_match<C: Criterion<T> + ?Sized>(&self, c: &C) -> Option<int> {
        first_match_from(self.elems(), c, 0)
    }

    /// The position a selector designates for reading, activating and removing.
    pub open spec fn target(&self, sel: Selector<T>) -> Option<int> {
        match sel {
            Selector::AtActive => Some(self.active() as int),
            Selector::AtIndex(i) => Some(i as int),
            Selector::AtIdent(id) => self.position(id),
            Selector::First => Some(0),
            Selector::Last => Some(spec_last_index(self.elems().len() as int)),
            Selector::ForCond(c) => self.first_match(c),
        }
    }

    /// The element a selector designates, if there is one.
    pub open spec fn selected(&self, sel: Selector<T>) -> Option<T> {
        match self.target(sel) {
            Some(i) => self.at(i),
            None => None,
        }
    }

    /// The position `index_for` reports for a selector.
    pub open spec fn index_for_spec(&self, sel: Selector<T>) -> Option<int> {
        match sel {
            Selector::AtActive => Some(self.active() as int),
            Selector::AtIndex(i) => if i < self.elems().len() {
                Some(i as int)
            } else {
                None
            },
            Selector::AtIdent(id) => self.position(id),
            Selector::First => Some(0),
            Selector::Last => Some(self.elems().len() - 1),
            Selector::ForCond(c) => self.first_match(c),
        }
    }

    /// The history once the active element has been recorded as most recently focused.
    pub open spec fn pushed_history(&self) -> Seq<Ident> {
        history_pushed(self.history(), self.ids(), self.active() as int, self.unwinds())
    }

    /// The history once the identifier of position `p` has been taken out of it.
    pub open spec fn history_without(&self, p: int) -> Seq<Ident> {
        if self.unwinds() {
            without_last(self.history(), self.ids()[p])
        } else {
            self.history()
        }
    }

    /// The active position after the element at position `p` has been removed: the most
    /// recently focused remaining element when the active one left and there is a history,
    /// the last position when there is none, shifted down when an earlier element left.
    pub open spec fn index_after_removal(&self, p: int) -> int {
        let h = self.history_without(p);
        let rest = self.ids().remove(p);
        if p == self.active() {
            if self.unwinds() && h.len() > 0 {
                match find_id(rest, h.last()) {
                    Some(i) => i,
                    None => spec_last_index(rest.len() as int),
                }
            } else {
                spec_last_index(rest.len() as int)
            }
        } else if p < self.active() {
            self.active() - 1
        } else {
            self.active() as int
        }
    }

    /// The history after the element at position `p` has been removed.
    pub open spec fn history_after_removal(&self, p: int) -> Seq<Ident> {
        let h = self.history_without(p);
        if p == self.active() && self.unwinds() && h.len() > 0 {
            h.drop_last()
        } else {
            h
        }
    }

    /// Where an element inserted at `pos` ends up, if it is inserted at all.
    pub open spec fn insert_target(&self, pos: InsertPos) -> Option<int> {
        let len = self.elems().len() as int;
        match pos {
            InsertPos::BeforeActive => Some(self.active() as int),
            InsertPos::AfterActive => if self.active() + 1 > len {
                Some(len)
            } else {
                Some(self.active() + 1)
            },
            InsertPos::BeforeIndex(i) => Some(i as int),
            InsertPos::AfterIndex(i) => if i + 1 > len {
                Some(len)
            } else {
                Some(i + 1)
            },
            InsertPos::BeforeIdent(id) => self.position(id),
            InsertPos::AfterIdent(id) => match self.position(id) {
                Some(p) => Some(p + 1),
                None => None,
            },
            InsertPos::Front => Some(0),
            InsertPos::Back => Some(len),
        }
    }

    /// Inserting at `pos` stays within bounds and free of overflow.
    pub open spec fn insert_allowed(&self, pos: InsertPos) -> bool {
        match pos {
            InsertPos::BeforeActive => self.active() <= self.elems().len(),
            InsertPos::AfterActive => self.active() < usize::MAX,
            InsertPos::BeforeIndex(i) => i <= self.elems().len(),
            InsertPos::AfterIndex(i) => i < usize::MAX,
            _ => true,
        }
    }

    /// The elements once the active one has been dragged one step in direction `dir`.
    pub open spec fn dragged(&self, dir: Direction) -> Seq<T> {
        let len = self.elems().len() as int;
        let i = self.active() as int;
        let n = cycle_step(len, i, dir);
        if (i == 0 && dir == Direction::Backward) || (n == 0 && dir == Direction::Forward) {
            rotated(self.elems(), dir)
        } else {
            self.elems().update(i, self.elems()[n]).update(n, self.elems()[i])
        }
    }

    proof fn lemma_distinct(&self)
        requires
            self.map_ok(),
        ensures
            self.ids().no_duplicates(),
    {
        lemma_two_zones_distinct(
            self.indices@,
            self.ids(),
            self.elems().len() as int,
            0,
        );
    }

    /// In a well-formed cycle the identifier of the element at position `i` designates `i`.
    pub proof fn lemma_position_of_index(&self, i: int)
        requires
            self.wf(),
            0 <= i < self.elems().len(),
        ensures
            self.position(self.ids()[i]) == Some(i),
    {
        self.lemma_distinct();
        lemma_find_id_unique(self.ids(), self.ids()[i], i);
    }

    /// A cycle holds at most as many elements as a `usize` counts.
    pub proof fn lemma_len_fits(&self)
        ensures
            self.elems().len() <= usize::MAX,
    {
        assert(self.elements.len() == self.elements@.len());
    }

    /// In a well-formed cycle an identifier designates an element exactly when some element
    /// carries it, and the element it designates carries it.
    pub proof fn lemma_selected_ident(&self, id: Ident)
        requires
            self.wf(),
        ensures
            self.selected(Selector::AtIdent(id)) is Some <==> self.ids().contains(id),
            self.selected(Selector::AtIdent(id)) matches Some(e) ==> e.ident() == id,
    {
        if self.ids().contains(id) {
            let j = choose|j: int| 0 <= j < self.ids().len() && self.ids()[j] == id;
            self.lemma_distinct();
            lemma_find_id_unique(self.ids(), id, j);
        } else {
            lemma_find_id_absent(self.ids(), id);
        }
    }

    /// Once the element of identifier `id` is removed from a well-formed cycle, no element
    /// carries `id`.
    pub proof fn lemma_removed_id_absent(&self, after: Cycle<T>, id: Ident)
        requires
            self.wf(),
            after.elems() == match self.selected(Selector::AtIdent(id)) {
                Some(e) => self.elems().remove(self.target(Selector::AtIdent(id))->0),
                None => self.elems(),
            },
        ensures
            !after.ids().contains(id),
    {
        self.lemma_selected_ident(id);
        self.lemma_distinct();
        if self.ids().contains(id) {
            let p = self.target(Selector::AtIdent(id))->0;
            assert(after.ids() =~= self.ids().remove(p));
            if after.ids().contains(id) {
                let k = choose|k: int| 0 <= k < after.ids().len() && after.ids()[k] == id;
                if k < p {
                    assert(self.ids()[k] == id);
                } else {
                    assert(self.ids()[k + 1] == id);
                }
            }
        }
    }

    /// Builds a cycle over `elements`, focused on the last of them.
    pub fn new(elements: Vec<T>, unwindable: bool) -> (r: Self)
        requires
            ids_of(elements@).no_duplicates(),
        ensures
            r.wf(),
            r.elems() == elements@,
            r.active() == spec_last_index(elements@.len() as int),
            r.history() == Seq::<Ident>::empty(),
            r.unwinds() == unwindable,
    {
        let mut indices: HashMap<Ident, Index> = HashMap::new();
        let ghost ids = ids_of(elements@);
        let mut i: usize = 0;
        while i < elements.len()
            invariant
                i <= elements@.len(),
                ids == ids_of(elements@),
                ids.no_duplicates(),
                forall|j: int|
                    #![trigger ids[j]]
                    0 <= j < i ==> indices@.contains_key(ids[j]) && indices@[ids[j]] == j,
                forall|key: Ident| #[trigger]
                    indices@.contains_key(key) ==> exists|j: int| 0 <= j < i && ids[j] == key,
            decreases elements@.len() - i,
        {
            let id = elements[i].id();
            indices.insert(id, i);
            proof {
                assert(ids[i as int] == id);
                assert forall|key: Ident| #[trigger]
                    indices@.contains_key(key) implies exists|j: int|
                    0 <= j < i + 1 && ids[j] == key by {
                    if key != id {
                        let j = choose|j: int| 0 <= j < i && ids[j] == key;
                        assert(0 <= j < i + 1 && ids[j] == key);
                    } else {
                        assert(ids[i as int] == key);
                    }
                }
            }
            i = i + 1;
        }
        let index = Util::last_index(elements.len());
        let r = Self { indices, index, elements, unwindable, stack: HistoryStack::new() };
        proof {
            assert(r.ids() == ids);
            assert forall|key: Ident| #[trigger]
                r.indices@.contains_key(key) implies exists|j: int|
                0 <= j < r.ids().len() && r.ids()[j] == key by {
                let j = choose|j: int| 0 <= j < i && ids[j] == key;
                assert(0 <= j < r.ids().len() && r.ids()[j] == key);
            }
        }
        r
    }

    fn index(&self) -> (r: Option<Index>)
        ensures
            r == (if self.active() < self.elems().len() {
                Some(self.active())
            } else {
                None
            }),
    {
        if self.index < self.elements.len() {
            Some(self.index)
        } else {
            None
        }
    }

    /// Removes every element and forgets the history.
    pub fn clear(&mut self)
        ensures
            final(self).wf(),
            final(self).elems() == Seq::<T>::empty(),
            final(self).active() == 0,
            final(self).history() == Seq::<Ident>::empty(),
            final(self).unwinds() == old(self).unwinds(),
    {
        self.index = 0;
        self.elements.clear();
        self.indices.clear();
        self.stack.clear();
    }

    /// Whether the next step in direction `dir` wraps round the cycle.
    pub fn next_will_wrap(&self, dir: Direction) -> (r: bool)
        ensures
            r == (self.active() == spec_last_index(self.elems().len() as int) && dir
                == Direction::Forward || self.active() == 0 && dir == Direction::Backward),
    {
        self.index == Util::last_index(self.elements.len()) && dir == Direction::Forward
            || self.index == 0 && dir == Direction::Backward
    }

    pub fn is_empty(&self) -> (r: bool)
        ensures
            r == (self.elems().len() == 0),
    {
        self.elements.len() == 0
    }

    pub fn active_index(&self) -> (r: Index)
        ensures
            r == self.active(),
    {
        self.index
    }

    pub fn len(&self) -> (r: usize)
        ensures
            r == self.elems().len(),
    {
        self.elements.len()
    }

    fn next_index_from(&self, index: Index, dir: Direction) -> (r: Index)
        requires
            dir == Direction::Forward ==> index < usize::MAX,
        ensures
            r == cycle_step(self.elems().len() as int, index as int, dir),
    {
        let end = Util::last_index(self.elements.len());
        match dir {
            Direction::Forward => {
                if index == end {
                    0
                } else {
                    index + 1
                }
            },
            Direction::Backward => {
                if index == 0 {
                    end
                } else {
                    index - 1
                }
            },
        }
    }

    /// The position one step from the active one in direction `dir`, wrapping round.
    pub fn next_index(&self, dir: Direction) -> (r: Index)
        requires
            dir == Direction::Forward ==> self.active() < usize::MAX,
        ensures
            r == cycle_step(self.elems().len() as int, self.active() as int, dir),
    {
        self.next_index_from(self.index, dir)
    }

    /// The element one step from the active one in direction `dir`, wrapping round.
    pub fn next_element(&self, dir: Direction) -> (r: Option<&T>)
        requires
            dir == Direction::Forward ==> self.active() < usize::MAX,
        ensures
            deref_opt(r) == self.at(cycle_step(self.elems().len() as int, self.active() as int, dir)),
    {
        let next_index = self.next_index(dir);
        self.get(next_index)
    }

    /// The element at `index`, if there is one.
    pub fn get(&self, index: Index) -> (r: Option<&T>)
        ensures
            deref_opt(r) == self.at(index as int),
    {
        if index < self.elements.len() {
            Some(&self.elements[index])
        } else {
            None
        }
    }

    /// The active element, if the active position holds one.
    pub fn active_element(&self) -> (r: Option<&T>)
        ensures
            deref_opt(r) == self.at(self.active() as int),
    {
        self.get(self.index)
    }

    fn index_to_id(&self, index: Index) -> (r: Option<Ident>)
        ensures
            r == (if index < self.elems().len() {
                Some(self.ids()[index as int])
            } else {
                None
            }),
    {
        if index < self.elements.len() {
            return Some(self.elements[index].id());
        }
        None
    }

    fn lookup_index(&self, id: Ident) -> (r: Option<Index>)
        requires
            self.map_ok(),
        ensures
            match r {
                Some(i) => self.position(id) == Some(i as int),
                None => self.position(id) is None,
            },
    {
        proof {
            self.lemma_distinct();
        }
        match self.indices.get(&id) {
            Some(index) => {
                proof {
                    let j = choose|j: int| 0 <= j < self.ids().len() && self.ids()[j] == id;
                    assert(self.indices@[self.ids()[j]] == j);
                    lemma_find_id_unique(self.ids(), id, j);
                }
                Some(*index)
            },
            None => {
                proof {
                    if self.ids().contains(id) {
                        let j = choose|j: int| 0 <= j < self.ids().len() && self.ids()[j] == id;
                        assert(self.indices@.contains_key(self.ids()[j]));
                    }
                    lemma_find_id_absent(self.ids(), id);
                }
                None
            },
        }
    }

    /// The position of the element whose identifier is `id`, if there is one.
    pub fn id_to_index(&self, id: Ident) -> (r: Option<Index>)
        requires
            self.wf(),
        ensures
            match r {
                Some(i) => self.position(id) == Some(i as int),
                None => self.position(id) is None,
            },
    {
        self.lookup_index(id)
    }

    fn by_cond<C: Criterion<T> + ?Sized>(&self, cond: &C) -> (r: Option<(Index, &T)>)
        ensures
            match r {
                Some((i, e)) => self.first_match(cond) == Some(i as int) && i < self.elems().len() && *e == self.elems()[i as int],
                None => self.first_match(cond) is None,
            },
    {
        let mut i: usize = 0;
        while i < self.elements.len()
            invariant
                i <= self.elems().len(),
                self.first_match(cond) == first_match_from(self.elems(), cond, i as int),
            decreases self.elems().len() - i,
        {
            let found = cond.check(&self.elements[i]);
            if found {
                return Some((i, &self.elements[i]));
            }
            i = i + 1;
        }
        None
    }

    /// The position a selector designates: for an identifier, the one the identifier map gives.
    pub fn index_for(&self, sel: &Selector<T>) -> (r: Option<Index>)
        requires
            self.wf(),
            *sel matches Selector::Last ==> self.elems().len() > 0,
        ensures
            match r {
                Some(i) => self.index_for_spec(*sel) == Some(i as int),
                None => self.index_for_spec(*sel) is None,
            },
    {
        match sel {
            Selector::AtActive => Some(self.index),
            Selector::AtIndex(index) => {
                if *index < self.len() {
                    return Some(*index);
                }
                None
            },
            Selector::AtIdent(id) => {
                if let Some(index) = self.lookup_index(*id) {
                    return Some(index);
                }
                None
            },
            Selector::First => Some(0),
            Selector::Last => Some(self.elements.len() - 1),
            Selector::ForCond(f) => match self.by_cond(*f) {
                Some((i, _)) => Some(i),
                None => None,
            },
        }
    }

    /// The element a selector designates, if there is one.
    pub fn get_for(&self, sel: &Selector<T>) -> (r: Option<&T>)
        requires
            self.wf(),
        ensures
            deref_opt(r) == self.selected(*sel),
    {
        match sel {
            Selector::AtActive => self.active_element(),
            Selector::AtIndex(index) => self.get(*index),
            Selector::First => self.get(0),
            Selector::Last => self.get(Util::last_index(self.elements.len())),
            Selector::ForCond(f) => match self.by_cond(*f) {
                Some((_, e)) => Some(e),
                None => None,
            },
            Selector::AtIdent(id) => {
                if let Some(index) = self.lookup_index(*id) {
                    return self.get(index);
                }
                None
            },
        }
    }

    /// Whether two selectors designate the same position.
    pub fn equivalent_selectors(&self, sel1: &Selector<T>, sel2: &Selector<T>) -> (r: bool)
        requires
            self.wf(),
            *sel1 matches Selector::Last ==> self.elems().len() > 0,
            *sel2 matches Selector::Last ==> self.elems().len() > 0,
        ensures
            r == match (self.index_for_spec(*sel1), self.index_for_spec(*sel2)) {
                (Some(e), Some(f)) => e == f,
                _ => false,
            },
    {
        match (self.index_for(sel1), self.index_for(sel2)) {
            (Some(e), Some(f)) => e == f,
            _ => false,
        }
    }

    /// The focus history, oldest first.
    pub fn stack(&self) -> (r: VecDeque<Ident>)
        ensures
            r@ == self.history(),
    {
        self.stack.as_vecdeque()
    }

    /// The focus history with the active element moved (or added) to its top.
    pub fn stack_after_focus(&self) -> (r: Vec<Ident>)
        ensures
            r@ == (if self.active() < self.elems().len() {
                without_last(self.history(), self.ids()[self.active() as int]).push(
                    self.ids()[self.active() as int],
                )
            } else {
                self.history()
            }),
    {
        let mut stack: Vec<Ident> = self.stack.as_vec();
        if let Some(index) = self.index() {
            if let Some(id) = self.index_to_id(index) {
                let mut i: usize = stack.len();
                let mut found: bool = false;
                while i > 0 && !found
                    invariant
                        i <= stack@.len(),
                        stack@ == self.history(),
                        found ==> i < stack@.len() && stack@[i as int] == id,
                        forall|k: int| i < k < stack@.len() ==> stack@[k] != id,
                        !found ==> forall|k: int| i <= k < stack@.len() ==> stack@[k] != id,
                    decreases i + (if found { 0int } else { 1int }),
                {
                    i = i - 1;
                    if stack[i] == id {
                        found = true;
                    }
                }
                proof {
                    if found {
                        assert(is_last_occurrence(stack@, id, i as int));
                        let c = choose|c: int| is_last_occurrence(stack@, id, c);
                        assert(c == i);
                    } else if exists|j: int| is_last_occurrence(stack@, id, j) {
                        let j = choose|j: int| is_last_occurrence(stack@, id, j);
                        assert(stack@[j] == id);
                    }
                }
                if found {
                    stack.remove(i);
                }
                stack.push(id);
            }
        }
        stack
    }

    proof fn lemma_history_kept(&self, other: &Self)
        requires
            self.history_ok(),
            other.history() == self.history(),
            other.unwinds() == self.unwinds(),
            forall|x: Ident| self.ids().contains(x) ==> other.ids().contains(x),
        ensures
            other.history_ok(),
    {
        assert forall|i: int| 0 <= i < other.history().len() implies other.ids().contains(
            other.history()[i],
        ) by {
            assert(self.ids().contains(self.history()[i]));
        }
    }

    fn push_index_to_stack(&mut self, index: Option<Index>)
        requires
            old(self).wf(),
        ensures
            final(self).wf(),
            final(self).elements@ == old(self).elements@,
            final(self).indices@ == old(self).indices@,
            final(self).index == old(self).index,
            final(self).unwindable == old(self).unwindable,
            final(self).history() == match index {
                Some(i) => history_pushed(old(self).history(), old(self).ids(), i as int, old(self).unwinds()),
                None => old(self).history(),
            },
    {
        proof {
            if let Some(i) = index {
                lemma_history_pushed(self.history(), self.ids(), i as int, self.unwindable);
            }
        }
        if !self.unwindable {
            return;
        }
        if let Some(index) = index {
            if let Some(id) = self.index_to_id(index) {
                self.stack.remove_id(id);
                self.stack.push_back(id);
            }
        }
    }

    fn push_active_to_stack(&mut self)
        requires
            old(self).wf(),
        ensures
            final(self).wf(),
            final(self).elements@ == old(self).elements@,
            final(self).indices@ == old(self).indices@,
            final(self).index == old(self).index,
            final(self).unwindable == old(self).unwindable,
            final(self).history() == old(self).pushed_history(),
    {
        if !self.unwindable {
            return;
        }
        let index = self.index();
        self.push_index_to_stack(index);
    }

    fn remove_from_stack(&mut self, id: Ident)
        ensures
            final(self).elements@ == old(self).elements@,
            final(self).indices@ == old(self).indices@,
            final(self).index == old(self).index,
            final(self).unwindable == old(self).unwindable,
            final(self).history() == (if old(self).unwindable {
                without_last(old(self).history(), id)
            } else {
                old(self).history()
            }),
    {
        if !self.unwindable {
            return;
        }
        self.stack.remove_id(id);
    }

    fn pop_from_stack(&mut self) -> (r: Option<Ident>)
        ensures
            final(self).elements@ == old(self).elements@,
            final(self).indices@ == old(self).indices@,
            final(self).index == old(self).index,
            final(self).unwindable == old(self).unwindable,
            old(self).unwindable && old(self).history().len() > 0 ==> r == Some(
                old(self).history().last(),
            ) && final(self).history() == old(self).history().drop_last(),
            !(old(self).unwindable && old(self).history().len() > 0) ==> r is None
                && final(self).history() == old(self).history(),
    {
        if !self.unwindable {
            return None;
        }
        self.stack.pop_back()
    }

    /// Moves the focus one step in direction `dir`, recording the element left behind in the
    /// history, and returns the newly active element.
    pub fn cycle_active(&mut self, dir: Direction) -> (r: Option<&T>)
        requires
            old(self).wf(),
            dir == Direction::Forward ==> old(self).active() < usize::MAX,
        ensures
            final(self).wf(),
            final(self).elems() == old(self).elems(),
            final(self).unwinds() == old(self).unwinds(),
            final(self).history() == old(self).pushed_history(),
            final(self).active() == cycle_step(
                old(self).elems().len() as int,
                old(self).active() as int,
                dir,
            ),
            deref_opt(r) == old(self).at(
                cycle_step(old(self).elems().len() as int, old(self).active() as int, dir),
            ),
    {
        self.push_active_to_stack();
        self.index = self.next_index(dir);
        self.active_element()
    }

    /// Moves the focus to the position a selector designates (recording the element left
    /// behind in the history) and returns the newly active element; the active selector, and
    /// a selector that designates nothing, change nothing.
    pub fn activate_for(&mut self, sel: &Selector<T>) -> (r: Option<&T>)
        requires
            old(self).wf(),
        ensures
            final(self).wf(),
            final(self).elems() == old(self).elems(),
            final(self).unwinds() == old(self).unwinds(),
            *sel matches Selector::AtActive ==> final(self).active() == old(self).active()
                && final(self).history() == old(self).history(),
            !(*sel matches Selector::AtActive) ==> match old(self).target(*sel) {
                Some(i) => final(self).active() == i && final(self).history()
                    == old(self).pushed_history(),
                None => final(self).active() == old(self).active() && final(self).history()
                    == old(self).history(),
            },
            deref_opt(r) == old(self).selected(*sel),
        decreases
            (if *sel matches Selector::AtIdent(_) {
                1int
            } else {
                0int
            }),
    {
        match sel {
            Selector::AtActive => self.active_element(),
            Selector::AtIndex(index) => {
                self.push_active_to_stack();
                self.index = *index;
                self.active_element()
            },
            Selector::AtIdent(id) => {
                if let Some(index) = self.lookup_index(*id) {
                    return self.activate_for(&Selector::AtIndex(index));
                }
                None
            },
            Selector::First => {
                self.push_active_to_stack();
                self.index = 0;
                self.active_element()
            },
            Selector::Last => {
                self.push_active_to_stack();
                self.index = Util::last_index(self.elements.len());
                self.active_element()
            },
            Selector::ForCond(f) => {
                if let Some((index, _)) = self.by_cond(*f) {
                    self.push_active_to_stack();
                    self.index = index;
                    Some(&self.elements[index])
                } else {
                    None
                }
            },
        }
    }

    fn sync_indices(&mut self, pivot_index: Index, action: StackAction)
        requires
            pivot_index <= old(self).elems().len(),
            action == StackAction::Insert ==> old(self).map_ok(),
            action == StackAction::Remove ==> map_zones(
                old(self).indices@,
                old(self).ids(),
                pivot_index as int,
                pivot_index as int,
                0,
                1,
            ),
        ensures
            final(self).elements@ == old(self).elements@,
            final(self).unwindable == old(self).unwindable,
            action == StackAction::Insert ==> map_zones(
                final(self).indices@,
                final(self).ids(),
                pivot_index as int,
                pivot_index as int,
                0,
                1,
            ) && final(self).index == old(self).index && final(self).history() == old(self).history(),
            action == StackAction::Remove ==> final(self).map_ok(),
            action == StackAction::Remove ==> removal_outcome(
                old(self).index as int,
                old(self).unwindable,
                old(self).history(),
                old(self).ids(),
                pivot_index as int,
                final(self).index as int,
                final(self).history(),
            ),
    {
        let ghost ids = self.ids();
        let ghost m0 = self.indices@;
        let ghost (done, todo) = if action == StackAction::Insert {
            (1int, 0int)
        } else {
            (0int, 1int)
        };
        proof {
            if action == StackAction::Insert {
                lemma_two_zones_distinct(m0, ids, ids.len() as int, 0);
            } else {
                lemma_two_zones_distinct(m0, ids, pivot_index as int, 1);
            }
            assert(map_zones(self.indices@, ids, pivot_index as int, pivot_index as int, done, todo));
        }
        let mut index: usize = pivot_index;
        while index < self.elements.len()
            invariant
                pivot_index <= index <= self.elems().len(),
                self.elements@ == old(self).elements@,
                self.index == old(self).index,
                self.unwindable == old(self).unwindable,
                self.stack == old(self).stack,
                ids == self.ids(),
                ids.no_duplicates(),
                done == 1 || done == 0,
                todo == 1 - done,
                action == StackAction::Insert ==> done == 1,
                action == StackAction::Remove ==> done == 0,
                map_zones(self.indices@, ids, pivot_index as int, index as int, done, todo),
            decreases self.elems().len() - index,
        {
            let id = self.elements[index].id();
            proof {
                assert(ids[index as int] == id);
                assert(self.indices@.contains_key(id));
            }
            let value: Index = *self.indices.get(&id).unwrap();
            match action {
                StackAction::Remove => {
                    self.indices.insert(id, value - 1);
                },
                StackAction::Insert => {
                    self.indices.insert(id, value + 1);
                },
            }
            proof {
                let m = self.indices@;
                assert forall|j: int|
                    #![trigger ids[j]]
                    0 <= j < ids.len() implies m.contains_key(ids[j]) && m[ids[j]] == (if j
                        < pivot_index {
                        j
                    } else if j < index + 1 {
                        j + done
                    } else {
                        j + todo
                    }) by {
                    if j != index {
                        assert(ids[j] != ids[index as int]);
                    }
                }
                assert forall|key: Ident| #[trigger] m.contains_key(key) implies exists|j: int|
                    0 <= j < ids.len() && ids[j] == key by {
                    if key == id {
                        assert(ids[index as int] == key);
                    }
                }
            }
            index = index + 1;
        }
        if action == StackAction::Remove {
            if pivot_index == self.index {
                if let Some(id) = self.pop_from_stack() {
                    if let Some(index) = self.lookup_index(id) {
                        self.index = index;
                        return;
                    }
                }
                self.index = Util::last_index(self.elements.len());
            } else if pivot_index < self.index {
                let index = self.index;
                if index > 0 {
                    self.index = index - 1;
                }
            }
        }
    }

    fn swap_elements(&mut self, a: Index, b: Index)
        requires
            a < old(self).elements@.len(),
            b < old(self).elements@.len(),
        ensures
            final(self).elements@ == old(self).elements@.update(a as int, old(self).elements@[b as int]).update(
                b as int,
                old(self).elements@[a as int],
            ),
            final(self).indices@ == old(self).indices@,
            final(self).index == old(self).index,
            final(self).stack == old(self).stack,
            final(self).unwindable == old(self).unwindable,
    {
        if a == b {
            assert(self.elements@ =~= self.elements@.update(a as int, self.elements@[b as int]).update(
                b as int,
                self.elements@[a as int],
            ));
            return;
        }
        let (lo, hi) = if a < b {
            (a, b)
        } else {
            (b, a)
        };
        let ghost s = self.elements@;
        let y = self.elements.remove(hi);
        let x = self.elements.remove(lo);
        self.elements.insert(lo, y);
        self.elements.insert(hi, x);
        assert(self.elements@ =~= s.update(a as int, s[b as int]).update(b as int, s[a as int]));
    }

    /// Inserts `element` at position `index` and makes it the active element, recording the
    /// element that was active in the history.
    pub fn insert(&mut self, index: Index, element: T)
        requires
            old(self).wf(),
            index <= old(self).elems().len(),
            old(self).elems().len() < usize::MAX,
            !old(self).ids().contains(element.ident()),
        ensures
            final(self).wf(),
            final(self).elems() == old(self).elems().insert(index as int, element),
            final(self).active() == index,
            final(self).history() == old(self).pushed_history(),
            final(self).unwinds() == old(self).unwinds(),
    {
        self.push_active_to_stack();
        self.sync_indices(index, StackAction::Insert);
        let id = element.id();
        let ghost ids = self.ids();
        self.indices.insert(id, index);
        self.elements.insert(index, element);
        self.index = index;
        proof {
            let nids = self.ids();
            assert(nids =~= ids.insert(index as int, id));
            let m = self.indices@;
            assert forall|j: int|
                #![trigger nids[j]]
                0 <= j < nids.len() implies m.contains_key(nids[j]) && m[nids[j]] == (if j
                    < nids.len() {
                    j
                } else if j < nids.len() {
                    j
                } else {
                    j
                }) by {
                if j < index {
                    assert(nids[j] == ids[j]);
                    assert(ids[j] != id);
                } else if j > index {
                    assert(nids[j] == ids[j - 1]);
                    assert(ids[j - 1] != id);
                }
            }
            assert forall|key: Ident| #[trigger] m.contains_key(key) implies exists|j: int|
                0 <= j < nids.len() && nids[j] == key by {
                if key == id {
                    assert(nids[index as int] == key);
                } else {
                    let j = choose|j: int| 0 <= j < ids.len() && ids[j] == key;
                    if j < index {
                        assert(nids[j] == key);
                    } else {
                        assert(nids[j + 1] == key);
                    }
                }
            }
            assert forall|i: int| 0 <= i < self.history().len() implies nids.contains(
                self.history()[i],
            ) by {
                let x = self.history()[i];
                assert(ids.contains(x));
                let j = choose|j: int| 0 <= j < ids.len() && ids[j] == x;
                if j < index {
                    assert(nids[j] == x);
                } else {
                    assert(nids[j + 1] == x);
                }
            }
        }
    }

    /// Inserts `element` at the front and makes it the active element.
    pub fn push_front(&mut self, element: T)
        requires
            old(self).wf(),
            old(self).elems().len() < usize::MAX,
            !old(self).ids().contains(element.ident()),
        ensures
            final(self).wf(),
            final(self).elems() == old(self).elems().insert(0, element),
            final(self).active() == 0,
            final(self).history() == old(self).pushed_history(),
            final(self).unwinds() == old(self).unwinds(),
    {
        self.insert(0, element);
    }

    /// Appends `element` and makes it the active element.
    pub fn push_back(&mut self, element: T)
        requires
            old(self).wf(),
            old(self).elems().len() < usize::MAX,
            !old(self).ids().contains(element.ident()),
        ensures
            final(self).wf(),
            final(self).elems() == old(self).elems().push(element),
            final(self).active() == old(self).elems().len(),
            final(self).history() == old(self).pushed_history(),
            final(self).unwinds() == old(self).unwinds(),
    {
        let end = self.elements.len();
        self.insert(end, element);
        assert(old(self).elems().insert(end as int, element) =~= old(self).elems().push(element));
    }

    /// Inserts `element` where `insert_pos` says and makes it the active element; an
    /// identifier position that names no element inserts nothing.
    pub fn insert_at(&mut self, insert_pos: &InsertPos, element: T)
        requires
            old(self).wf(),
            old(self).insert_allowed(*insert_pos),
            old(self).elems().len() < usize::MAX,
            old(self).insert_target(*insert_pos) is Some ==> !old(self).ids().contains(
                element.ident(),
            ),
        ensures
            final(self).wf(),
            final(self).unwinds() == old(self).unwinds(),
            match old(self).insert_target(*insert_pos) {
                Some(p) => final(self).elems() == old(self).elems().insert(p, element)
                    && final(self).active() == p && final(self).history()
                    == old(self).pushed_history(),
                None => final(self).elems() == old(self).elems() && final(self).active()
                    == old(self).active() && final(self).history() == old(self).history(),
            },
        decreases
            (match *insert_pos {
                InsertPos::AfterActive => 1int,
                InsertPos::BeforeIdent(_) => 1int,
                InsertPos::AfterIdent(_) => 1int,
                _ => 0int,
            }),
    {
        match insert_pos {
            InsertPos::BeforeActive => self.insert(self.index, element),
            InsertPos::AfterActive => {
                let index = self.index;
                self.insert_at(&InsertPos::AfterIndex(index), element)
            },
            InsertPos::BeforeIndex(index) => self.insert(*index, element),
            InsertPos::Front => self.push_front(element),
            InsertPos::Back => self.push_back(element),
            InsertPos::AfterIndex(index) => {
                let next_index = index + 1;
                if next_index > self.elements.len() {
                    self.push_back(element)
                } else {
                    self.insert(next_index, element)
                }
            },
            InsertPos::BeforeIdent(id) => {
                if let Some(index) = self.lookup_index(*id) {
                    self.insert_at(&InsertPos::BeforeIndex(index), element);
                }
            },
            InsertPos::AfterIdent(id) => {
                if let Some(index) = self.lookup_index(*id) {
                    self.insert_at(&InsertPos::AfterIndex(index), element);
                }
            },
        }
    }

    fn take_at(&mut self, index: Index) -> (r: Option<T>)
        ensures
            final(self).indices@ == old(self).indices@,
            final(self).index == old(self).index,
            final(self).stack == old(self).stack,
            final(self).unwindable == old(self).unwindable,
            index < old(self).elements@.len() ==> r == Some(old(self).elements@[index as int])
                && final(self).elements@ == old(self).elements@.remove(index as int),
            index >= old(self).elements@.len() ==> r is None && final(self).elements@ == old(self).elements@,
    {
        if index < self.elements.len() {
            Some(self.elements.remove(index))
        } else {
            None
        }
    }

    fn remove_element(&mut self, index: Index, element: &Option<T>)
        requires
            match *element {
                Some(e) => {
                    &&& index <= old(self).elems().len()
                    &&& !old(self).ids().contains(e.ident())
                    &&& map_zones(
                        old(self).indices@.remove(e.ident()),
                        old(self).ids(),
                        index as int,
                        index as int,
                        0,
                        1,
                    )
                    &&& old(self).history().no_duplicates()
                    &&& forall|i: int|
                        0 <= i < old(self).history().len() ==> old(self).ids().contains(
                            old(self).history()[i],
                        ) || old(self).history()[i] == e.ident()
                    &&& !old(self).unwindable ==> old(self).history().len() == 0
                },
                None => old(self).wf(),
            },
        ensures
            final(self).wf(),
            final(self).elements@ == old(self).elements@,
            final(self).unwindable == old(self).unwindable,
            match *element {
                Some(e) => removal_outcome(
                    old(self).index as int,
                    old(self).unwindable,
                    if old(self).unwindable {
                        without_last(old(self).history(), e.ident())
                    } else {
                        old(self).history()
                    },
                    old(self).ids(),
                    index as int,
                    final(self).index as int,
                    final(self).history(),
                ),
                None => final(self).index == old(self).index && final(self).history() == old(self).history(),
            },
    {
        if let Some(element) = element {
            let id = element.id();
            self.indices.remove(&id);
            self.remove_from_stack(id);
            let ghost h1 = self.history();
            proof {
                lemma_without_last(old(self).history(), id);
                assert forall|i: int| 0 <= i < h1.len() implies self.ids().contains(h1[i]) by {
                    assert(h1.contains(h1[i]));
                    if old(self).unwindable {
                        assert(old(self).history().contains(h1[i]));
                    }
                    let k = choose|k: int|
                        0 <= k < old(self).history().len() && old(self).history()[k] == h1[i];
                    assert(old(self).ids().contains(old(self).history()[k]) || old(self).history()[k] == id);
                }
            }
            self.sync_indices(index, StackAction::Remove);
            proof {
                let h2 = self.history();
                assert forall|i: int| 0 <= i < h2.len() implies self.ids().contains(h2[i]) by {
                    if h2.len() < h1.len() {
                        assert(h2[i] == h1[i]);
                    }
                }
                if h2.len() < h1.len() {
                    assert forall|a: int, b: int| 0 <= a < h2.len() && 0 <= b < h2.len() && a != b implies h2[a] != h2[b] by {
                        assert(h2[a] == h1[a] && h2[b] == h1[b]);
                    }
                }
            }
        }
    }

    /// Removes the element a selector designates and returns it; the focus follows the rules
    /// of [`Cycle::index_after_removal`] and the history those of
    /// [`Cycle::history_after_removal`]. A selector that designates nothing removes nothing.
    pub fn remove_for(&mut self, sel: &Selector<T>) -> (r: Option<T>)
        requires
            old(self).wf(),
        ensures
            final(self).wf(),
            final(self).unwinds() == old(self).unwinds(),
            r == old(self).selected(*sel),
            match old(self).selected(*sel) {
                Some(e) => {
                    let p = old(self).target(*sel)->0;
                    &&& final(self).elems() == old(self).elems().remove(p)
                    &&& final(self).active() == old(self).index_after_removal(p)
                    &&& final(self).history() == old(self).history_after_removal(p)
                },
                None => final(self).elems() == old(self).elems() && final(self).active() == old(self).active() && final(self).history() == old(self).history(),
            },
        decreases
            (if *sel matches Selector::AtIdent(_) {
                1int
            } else {
                0int
            }),
    {
        let ghost ids0 = self.ids();
        let (index, element) = match sel {
            Selector::AtActive => {
                let index = self.index;
                (index, self.take_at(index))
            },
            Selector::AtIndex(index) => (*index, self.take_at(*index)),
            Selector::AtIdent(id) => {
                if let Some(index) = self.lookup_index(*id) {
                    return self.remove_for(&Selector::AtIndex(index));
                }
                return None;
            },
            Selector::First => (0, self.take_at(0)),
            Selector::Last => {
                let end = Util::last_index(self.elements.len());
                (end, self.take_at(end))
            },
            Selector::ForCond(f) => {
                if let Some((index, _)) = self.by_cond(*f) {
                    (index, self.take_at(index))
                } else {
                    return None;
                }
            },
        };
        proof {
            if element is Some {
                let e = element->0;
                let p = index as int;
                let nids = self.ids();
                let m = self.indices@;
                let id = e.ident();
                old(self).lemma_distinct();
                assert(nids =~= ids0.remove(p));
                assert(ids0[p] == id);
                assert forall|j: int| 0 <= j < nids.len() implies nids[j] != id by {
                    if j < p {
                        assert(nids[j] == ids0[j]);
                    } else {
                        assert(nids[j] == ids0[j + 1]);
                    }
                }
                let mr = m.remove(id);
                assert forall|j: int|
                    #![trigger nids[j]]
                    0 <= j < nids.len() implies mr.contains_key(nids[j]) && mr[nids[j]] == (if j
                        < p {
                        j
                    } else if j < p {
                        j
                    } else {
                        j + 1
                    }) by {
                    if j < p {
                        assert(nids[j] == ids0[j]);
                    } else {
                        assert(nids[j] == ids0[j + 1]);
                    }
                }
                assert forall|key: Ident| #[trigger] mr.contains_key(key) implies exists|j: int|
                    0 <= j < nids.len() && nids[j] == key by {
                    let k = choose|k: int| 0 <= k < ids0.len() && ids0[k] == key;
                    if k < p {
                        assert(nids[k] == key);
                    } else {
                        assert(nids[k - 1] == key);
                    }
                }
                assert forall|i: int| 0 <= i < self.history().len() implies nids.contains(
                    self.history()[i],
                ) || self.history()[i] == id by {
                    let x = self.history()[i];
                    if x != id {
                        let k = choose|k: int| 0 <= k < ids0.len() && ids0[k] == x;
                        if k < p {
                            assert(nids[k] == x);
                        } else {
                            assert(nids[k - 1] == x);
                        }
                    }
                }
                assert(!nids.contains(id));
            }
        }
        self.remove_element(index, &element);
        element
    }

    proof fn lemma_rotation_ids(s: Seq<T>, dir: Direction)
        requires
            ids_of(s).no_duplicates(),
        ensures
            ids_of(rotated(s, dir)).no_duplicates(),
            rotated(s, dir).len() == s.len(),
            forall|x: Ident| ids_of(s).contains(x) ==> ids_of(rotated(s, dir)).contains(x),
    {
        let r = rotated(s, dir);
        let a = ids_of(s);
        let b = ids_of(r);
        if s.len() > 0 {
            let n = s.len() as int;
            assert forall|x: Ident| a.contains(x) implies b.contains(x) by {
                let j = choose|j: int| 0 <= j < n && a[j] == x;
                let k = match dir {
                    Direction::Forward => if j == n - 1 {
                        0
                    } else {
                        j + 1
                    },
                    Direction::Backward => if j == 0 {
                        n - 1
                    } else {
                        j - 1
                    },
                };
                assert(b[k] == x);
            }
            assert forall|i: int, k: int| 0 <= i < n && 0 <= k < n && i != k implies b[i] != b[k] by {
                let pi = match dir {
                    Direction::Forward => if i == 0 {
                        n - 1
                    } else {
                        i - 1
                    },
                    Direction::Backward => if i == n - 1 {
                        0
                    } else {
                        i + 1
                    },
                };
                let pk = match dir {
                    Direction::Forward => if k == 0 {
                        n - 1
                    } else {
                        k - 1
                    },
                    Direction::Backward => if k == n - 1 {
                        0
                    } else {
                        k + 1
                    },
                };
                assert(b[i] == a[pi]);
                assert(b[k] == a[pk]);
            }
        }
    }

    fn rebuild_indices(&mut self)
        requires
            old(self).ids().no_duplicates(),
        ensures
            final(self).map_ok(),
            final(self).elements@ == old(self).elements@,
            final(self).index == old(self).index,
            final(self).stack == old(self).stack,
            final(self).unwindable == old(self).unwindable,
    {
        self.indices.clear();
        let ghost ids = self.ids();
        let mut i: usize = 0;
        while i < self.elements.len()
            invariant
                i <= self.elems().len(),
                self.elements@ == old(self).elements@,
                self.index == old(self).index,
                self.stack == old(self).stack,
                self.unwindable == old(self).unwindable,
                ids == self.ids(),
                ids.no_duplicates(),
                forall|j: int|
                    #![trigger ids[j]]
                    0 <= j < i ==> self.indices@.contains_key(ids[j]) && self.indices@[ids[j]] == j,
                forall|key: Ident| #[trigger]
                    self.indices@.contains_key(key) ==> exists|j: int| 0 <= j < i && ids[j] == key,
            decreases self.elems().len() - i,
        {
            let id = self.elements[i].id();
            self.indices.insert(id, i);
            proof {
                assert(ids[i as int] == id);
                assert forall|key: Ident| #[trigger]
                    self.indices@.contains_key(key) implies exists|j: int|
                    0 <= j < i + 1 && ids[j] == key by {
                    if key != id {
                        let j = choose|j: int| 0 <= j < i && ids[j] == key;
                        assert(0 <= j < i + 1 && ids[j] == key);
                    } else {
                        assert(ids[i as int] == key);
                    }
                }
            }
            i = i + 1;
        }
        proof {
            assert forall|key: Ident| #[trigger]
                self.indices@.contains_key(key) implies exists|j: int|
                0 <= j < ids.len() && ids[j] == key by {
                let j = choose|j: int| 0 <= j < i && ids[j] == key;
                assert(0 <= j < ids.len() && ids[j] == key);
            }
        }
    }

    /// Rotates the elements by one place (forward moves the last to the front, backward the
    /// first to the back); the active position and the history stay as they are.
    pub fn rotate(&mut self, dir: Direction)
        requires
            old(self).wf(),
        ensures
            final(self).wf(),
            final(self).elems() == rotated(old(self).elems(), dir),
            final(self).active() == old(self).active(),
            final(self).history() == old(self).history(),
            final(self).unwinds() == old(self).unwinds(),
    {
        if self.elements.len() != 0 {
            proof {
                self.lemma_distinct();
                Self::lemma_rotation_ids(self.elems(), dir);
            }
            let ghost s = self.elements@;
            match dir {
                Direction::Forward => {
                    let last = self.elements.pop().unwrap();
                    self.elements.insert(0, last);
                },
                Direction::Backward => {
                    let first = self.elements.remove(0);
                    self.elements.push(first);
                },
            }
            assert(self.elements@ =~= rotated(s, dir));
            self.rebuild_indices();
            proof {
                old(self).lemma_history_kept(self);
            }
        }
    }

    /// Drags the active element one step in direction `dir` (swapping it with its neighbour,
    /// or rotating the whole cycle when it sits at the end it would leave), then moves the
    /// focus along with it.
    pub fn drag_active(&mut self, dir: Direction) -> (r: Option<&T>)
        requires
            old(self).wf(),
            old(self).active() < old(self).elems().len() || old(self).active() == 0,
        ensures
            final(self).wf(),
            final(self).elems() == old(self).dragged(dir),
            final(self).unwinds() == old(self).unwinds(),
            final(self).history() == history_pushed(
                old(self).history(),
                ids_of(old(self).dragged(dir)),
                old(self).active() as int,
                old(self).unwinds(),
            ),
            final(self).active() == cycle_step(
                old(self).elems().len() as int,
                old(self).active() as int,
                dir,
            ),
            deref_opt(r) == final(self).at(final(self).active() as int),
    {
        let active = self.index;
        let _len = self.elements.len();
        let next = self.next_index(dir);
        if (active == 0 && dir == Direction::Backward) || (next == 0 && dir == Direction::Forward) {
            self.rotate(dir);
        } else {
            let active_id = self.elements[active].id();
            let next_id = self.elements[next].id();
            let ghost ids0 = self.ids();
            proof {
                self.lemma_distinct();
            }
            self.swap_elements(active, next);
            self.indices.insert(active_id, next);
            self.indices.insert(next_id, active);
            proof {
                let nids = self.ids();
                assert(nids =~= ids0.update(active as int, ids0[next as int]).update(
                    next as int,
                    ids0[active as int],
                ));
                let m = self.indices@;
                assert forall|j: int|
                    #![trigger nids[j]]
                    0 <= j < nids.len() implies m.contains_key(nids[j]) && m[nids[j]] == (if j
                        < nids.len() {
                        j
                    } else if j < nids.len() {
                        j
                    } else {
                        j
                    }) by {
                    if j != active && j != next {
                        assert(nids[j] == ids0[j]);
                        assert(ids0[j] != active_id && ids0[j] != next_id);
                    }
                }
                assert forall|key: Ident| #[trigger] m.contains_key(key) implies exists|j: int|
                    0 <= j < nids.len() && nids[j] == key by {
                    if key == active_id {
                        assert(nids[next as int] == key);
                    } else if key == next_id {
                        assert(nids[active as int] == key);
                    } else {
                        let k = choose|k: int| 0 <= k < ids0.len() && ids0[k] == key;
                        assert(nids[k] == key);
                    }
                }
                assert forall|x: Ident| ids0.contains(x) implies nids.contains(x) by {
                    let k = choose|k: int| 0 <= k < ids0.len() && ids0[k] == x;
                    if k == active {
                        assert(nids[next as int] == x);
                    } else if k == next {
                        assert(nids[active as int] == x);
                    } else {
                        assert(nids[k] == x);
                    }
                }
                old(self).lemma_history_kept(self);
            }
        }
        self.cycle_active(dir)
    }

    /// Swaps the elements at the positions two selectors designate (nothing happens unless
    /// both designate a position); the identifier map follows the swap.
    pub fn swap(&mut self, sel1: &Selector<T>, sel2: &Selector<T>)
        requires
            old(self).wf(),
            *sel1 matches Selector::Last ==> old(self).elems().len() > 0,
            *sel2 matches Selector::Last ==> old(self).elems().len() > 0,
            old(self).index_for_spec(*sel1) matches Some(a) ==> (old(self).index_for_spec(*sel2) matches Some(b) ==> a < old(self).elems().len() && b < old(self).elems().len()),
        ensures
            final(self).wf(),
            final(self).active() == old(self).active(),
            final(self).history() == old(self).history(),
            final(self).unwinds() == old(self).unwinds(),
            final(self).elems() == match (old(self).index_for_spec(*sel1), old(self).index_for_spec(*sel2)) {
                (Some(a), Some(b)) => old(self).elems().update(a, old(self).elems()[b]).update(b, old(self).elems()[a]),
                _ => old(self).elems(),
            },
    {
        let index1 = self.index_for(sel1);
        if let Some(index1) = index1 {
            let index2 = self.index_for(sel2);
            if let Some(index2) = index2 {
                let id1 = self.elements[index1].id();
                let id2 = self.elements[index2].id();
                let ghost ids0 = self.ids();
                proof {
                    self.lemma_distinct();
                }
                self.swap_elements(index1, index2);
                self.indices.insert(id1, index2);
                self.indices.insert(id2, index1);
                proof {
                    let nids = self.ids();
                    assert(nids =~= ids0.update(index1 as int, ids0[index2 as int]).update(
                        index2 as int,
                        ids0[index1 as int],
                    ));
                    let m = self.indices@;
                    assert forall|j: int|
                        #![trigger nids[j]]
                        0 <= j < nids.len() implies m.contains_key(nids[j]) && m[nids[j]] == (if j
                            < nids.len() {
                            j
                        } else if j < nids.len() {
                            j
                        } else {
                            j
                        }) by {
                        if j != index1 && j != index2 {
                            assert(nids[j] == ids0[j]);
                            assert(ids0[j] != id1 && ids0[j] != id2);
                        }
                    }
                    assert forall|key: Ident| #[trigger] m.contains_key(key) implies exists|j: int|
                        0 <= j < nids.len() && nids[j] == key by {
                        if key == id1 {
                            assert(nids[index2 as int] == key);
                        } else if key == id2 {
                            assert(nids[index1 as int] == key);
                        } else {
                            let k = choose|k: int| 0 <= k < ids0.len() && ids0[k] == key;
                            assert(nids[k] == key);
                        }
                    }
                    assert forall|x: Ident| ids0.contains(x) implies nids.contains(x) by {
                        let k = choose|k: int| 0 <= k < ids0.len() && ids0[k] == x;
                        if k == index1 {
                            assert(nids[index2 as int] == x);
                        } else if k == index2 {
                            assert(nids[index1 as int] == x);
                        } else {
                            assert(nids[k] == x);
                        }
                    }
                    old(self).lemma_history_kept(self);
                }
            }
        }
    }

    /// A mutable reference to the element at `index`, if there is one. The cycle stays well
    /// formed as long as the element keeps its identifier.
    pub fn get_mut(&mut self, index: Index) -> (r: Option<&mut T>)
        requires
            old(self).wf(),
        ensures
            final(self).active() == old(self).active(),
            final(self).history() == old(self).history(),
            final(self).unwinds() == old(self).unwinds(),
            match r {
                Some(e) => {
                    &&& index < old(self).elems().len()
                    &&& *e == old(self).elems()[index as int]
                    &&& final(self).elems() == old(self).elems().update(index as int, *final(e))
                    &&& (*final(e)).ident() == old(self).elems()[index as int].ident() ==> final(self).wf()
                },
                None => index >= old(self).elems().len() && final(self).elems() == old(self).elems() && final(self).wf(),
            },
    {
        let ghost ids0 = self.ids();
        if index < self.elements.len() {
            let e = &mut self.elements[index];
            proof {
                assert forall|x: T| x.ident() == ids0[index as int] implies #[trigger] ids_of(
                    old(self).elements@.update(index as int, x),
                ) == ids0 by {
                    assert(ids_of(old(self).elements@.update(index as int, x)) =~= ids0);
                }
            }
            Some(e)
        } else {
            None
        }
    }

    /// A mutable reference to the active element, if the active position holds one.
    pub fn active_element_mut(&mut self) -> (r: Option<&mut T>)
        requires
            old(self).wf(),
        ensures
            final(self).active() == old(self).active(),
            final(self).history() == old(self).history(),
            final(self).unwinds() == old(self).unwinds(),
            match r {
                Some(e) => {
                    &&& old(self).active() < old(self).elems().len()
                    &&& *e == old(self).elems()[old(self).active() as int]
                    &&& final(self).elems() == old(self).elems().update(old(self).active() as int, *final(e))
                    &&& (*final(e)).ident() == old(self).elems()[old(self).active() as int].ident() ==> final(self).wf()
                },
                None => old(self).active() >= old(self).elems().len() && final(self).elems() == old(self).elems() && final(self).wf(),
            },
    {
        let index = self.index;
        self.get_mut(index)
    }

    fn by_mut<C: Criterion<T> + ?Sized>(&mut self, cond: &C) -> (r: Option<(Index, &mut T)>)
        requires
            old(self).wf(),
        ensures
            final(self).active() == old(self).active(),
            final(self).history() == old(self).history(),
            final(self).unwinds() == old(self).unwinds(),
            match r {
                Some((i, e)) => {
                    &&& old(self).first_match(cond) == Some(i as int)
                    &&& i < old(self).elems().len()
                    &&& *e == old(self).elems()[i as int]
                    &&& final(self).elems() == old(self).elems().update(i as int, *final(e))
                    &&& (*final(e)).ident() == old(self).elems()[i as int].ident() ==> final(self).wf()
                },
                None => old(self).first_match(cond) is None && final(self).elems() == old(self).elems() && final(self).wf(),
            },
    {
        let found = match self.by_cond(cond) {
            Some((i, _)) => Some(i),
            None => None,
        };
        match found {
            Some(i) => match self.get_mut(i) {
                Some(e) => Some((i, e)),
                None => None,
            },
            None => None,
        }
    }

    /// A mutable reference to the element a selector designates, if there is one. The cycle
    /// stays well formed as long as the element keeps its identifier.
    pub fn get_for_mut(&mut self, sel: &Selector<T>) -> (r: Option<&mut T>)
        requires
            old(self).wf(),
        ensures
            final(self).active() == old(self).active(),
            final(self).history() == old(self).history(),
            final(self).unwinds() == old(self).unwinds(),
            match r {
                Some(e) => {
                    let p = old(self).target(*sel)->0;
                    &&& old(self).selected(*sel) == Some(*e)
                    &&& final(self).elems() == old(self).elems().update(p, *final(e))
                    &&& (*final(e)).ident() == old(self).elems()[p].ident() ==> final(self).wf()
                },
                None => old(self).selected(*sel) is None && final(self).elems() == old(self).elems() && final(self).wf(),
            },
    {
        match sel {
            Selector::AtActive => self.active_element_mut(),
            Selector::AtIndex(index) => self.get_mut(*index),
            Selector::First => self.get_mut(0),
            Selector::Last => {
                let end = Util::last_index(self.elements.len());
                self.get_mut(end)
            },
            Selector::ForCond(f) => match self.by_mut(*f) {
                Some((_, e)) => Some(e),
                None => None,
            },
            Selector::AtIdent(id) => {
                if let Some(index) = self.lookup_index(*id) {
                    return self.get_mut(index);
                }
                None
            },
        }
    }

    fn select_refs<C: Criterion<T> + ?Sized>(&self, c: &C) -> (r: Vec<&T>)
        ensures
            deref_seq(r@) == select_all(self.elems(), c),
            forall|k: int| 0 <= k < r@.len() ==> self.elems().contains(*r@[k]),
    {
        let mut v: Vec<&T> = Vec::new();
        let mut i: usize = 0;
        assert(self.elems().take(0) =~= Seq::<T>::empty());
        assert(deref_seq(v@) =~= Seq::<T>::empty());
        while i < self.elements.len()
            invariant
                i <= self.elems().len(),
                deref_seq(v@) == select_all(self.elems().take(i as int), c),
                forall|k: int| 0 <= k < v@.len() ==> self.elems().contains(*v@[k]),
            decreases self.elems().len() - i,
        {
            let found = c.check(&self.elements[i]);
            let ghost old_v = deref_seq(v@);
            if found {
                v.push(&self.elements[i]);
            }
            proof {
                let t = self.elems().take(i + 1);
                assert(t.drop_last() =~= self.elems().take(i as int));
                assert(t.last() == self.elems()[i as int]);
                if found {
                    assert(deref_seq(v@) =~= old_v.push(self.elems()[i as int]));
                    assert(self.elems().contains(self.elems()[i as int]));
                } else {
                    assert(deref_seq(v@) =~= old_v);
                }
            }
            i = i + 1;
        }
        assert(self.elems().take(i as int) =~= self.elems());
        v
    }

    /// The elements a selector designates: every element meeting the condition, in order, for
    /// a conditional selector, and at most one element otherwise.
    pub fn get_all_for(&self, sel: &Selector<T>) -> (r: Vec<&T>)
        requires
            self.wf(),
        ensures
            forall|k: int| 0 <= k < r@.len() ==> self.elems().contains(*r@[k]),
            deref_seq(r@) == match *sel {
                Selector::ForCond(c) => select_all(self.elems(), c),
                _ => match self.selected(*sel) {
                    Some(e) => seq![e],
                    None => Seq::<T>::empty(),
                },
            },
    {
        let mut v: Vec<&T> = Vec::new();
        match sel {
            Selector::ForCond(f) => {
                v = self.select_refs(*f);
            },
            _ => {
                if let Some(e) = self.get_for(sel) {
                    v.push(e);
                }
                assert(deref_seq(v@) =~= match self.selected(*sel) {
                    Some(e) => seq![e],
                    None => Seq::<T>::empty(),
                });
                proof {
                    if v@.len() > 0 {
                        let p = self.target(*sel)->0;
                        assert(self.elems()[p] == *v@[0]);
                    }
                }
            },
        }
        v
    }

    /// Calls `f` on the active element, if the active position holds one.
    pub fn on_active<F: Fn(&T)>(&self, f: F)
        requires
            self.at(self.active() as int) matches Some(e) ==> f.requires((&e,)),
    {
        if let Some(element) = self.active_element() {
            f(element);
        }
    }

    /// Calls `f` on every element, in order.
    pub fn on_all<F: Fn(&T)>(&self, f: F)
        requires
            forall|i: int| 0 <= i < self.elems().len() ==> f.requires((&self.elems()[i],)),
    {
        let mut i: usize = 0;
        while i < self.elements.len()
            invariant
                i <= self.elems().len(),
                forall|i: int| 0 <= i < self.elems().len() ==> f.requires((&self.elems()[i],)),
            decreases self.elems().len() - i,
        {
            f(&self.elements[i]);
            i = i + 1;
        }
    }

    /// Calls `f` on every element a selector designates, in order.
    pub fn on_all_for<F: Fn(&T)>(&self, f: F, sel: &Selector<T>)
        requires
            self.wf(),
            forall|i: int| 0 <= i < self.elems().len() ==> f.requires((&self.elems()[i],)),
    {
        let elements = self.get_all_for(sel);
        proof {
            assert forall|k: int| 0 <= k < elements@.len() implies f.requires((elements@[k],)) by {
                assert(self.elems().contains(*elements@[k]));
                let j = choose|j: int| 0 <= j < self.elems().len() && self.elems()[j] == *elements@[k];
                assert(f.requires((&self.elems()[j],)));
            }
        }
        let mut i: usize = 0;
        while i < elements.len()
            invariant
                i <= elements@.len(),
                forall|k: int| 0 <= k < elements@.len() ==> f.requires((elements@[k],)),
            decreases elements@.len() - i,
        {
            f(elements[i]);
            i = i + 1;
        }
    }

    /// Whether some element equals `element`.
    pub fn contains(&self, element: &T) -> (r: bool)
        ensures
            T::obeys_eq_spec() ==> (r == exists|i: int| 0 <= i < self.elems().len() && self.elems()[i].eq_spec(element)),
    {
        let mut i: usize = 0;
        while i < self.elements.len()
            invariant
                i <= self.elems().len(),
                T::obeys_eq_spec() ==> forall|j: int| 0 <= j < i ==> !self.elems()[j].eq_spec(element),
            decreases self.elems().len() - i,
        {
            if self.elements[i].eq(element) {
                return true;
            }
            i = i + 1;
        }
        false
    }

    /// Iterates over the elements in order.
    pub fn iter(&self) -> (r: std::slice::Iter<'_, T>)
        ensures
            r.remaining() == self.elems().as_ref(),
    {
        self.elements.as_slice().iter()
    }

    fn index_of(&self, element: T) -> (r: Option<Index>)
        requires
            self.wf(),
        ensures
            match r {
                Some(i) => self.position(element.ident()) == Some(i as int),
                None => self.position(element.ident()) is None,
            },
    {
        self.lookup_index(element.id())
    }
}

impl<T: Identify + Clone> Cycle<T> {
    /// A copy of the elements, in order.
    pub fn as_vec(&self) -> (r: Vec<T>)
        ensures
            r@.len() == self.elems().len(),
            forall|i: int| 0 <= i < r@.len() ==> cloned::<T>(self.elems()[i], #[trigger] r@[i]),
    {
        let mut v: Vec<T> = Vec::new();
        let mut i: usize = 0;
        while i < self.elements.len()
            invariant
                i <= self.elems().len(),
                v@.len() == i,
                forall|j: int| 0 <= j < i ==> cloned::<T>(self.elems()[j], #[trigger] v@[j]),
            decreases self.elems().len() - i,
        {
            v.push(self.elements[i].clone());
            i = i + 1;
        }
        v
    }
}

/// Rotating one place and then one place back restores the order of the elements.
pub proof fn law_rotation_undone<T>(s: Seq<T>, dir: Direction)
    ensures
        rotated(rotated(s, dir), opposite(dir)) == s,
{
    if s.len() > 0 {
        match dir {
            Direction::Forward => {
                assert(rotated(rotated(s, dir), opposite(dir)) =~= s);
            },
            Direction::Backward => {
                assert(rotated(rotated(s, dir), opposite(dir)) =~= s);
            },
        }
    }
}

/// A step from a position within a non-empty cycle lands within the cycle, and a step back
/// in the opposite direction returns to where it started.
pub proof fn law_step_undone(len: int, i: int, dir: Direction)
    requires
        0 <= i < len,
    ensures
        0 <= cycle_step(len, i, dir) < len,
        cycle_step(len, cycle_step(len, i, dir), opposite(dir)) == i,
{
}

/// Inserting an element and then removing it again (it is the active element once inserted)
/// leaves the elements as they were, and in an unwindable cycle whose focus held an element
/// the focus returns to that element.
pub proof fn law_insert_then_remove_undone<T: Identify>(
    before: Cycle<T>,
    after: Cycle<T>,
    p: int,
    e: T,
)
    requires
        before.wf(),
        after.wf(),
        0 <= p <= before.elems().len(),
        !before.ids().contains(e.ident()),
        after.elems() == before.elems().insert(p, e),
        after.active() == p,
        after.history() == before.pushed_history(),
        after.unwinds() == before.unwinds(),
    ensures
        after.elems().remove(p) == before.elems(),
        after.at(p) == Some(e),
        before.unwinds() && before.active() < before.elems().len() ==> after.elems().remove(
            p,
        )[after.index_after_removal(p)] == before.elems()[before.active() as int],
{
    assert(after.elems().remove(p) =~= before.elems());
    if before.unwinds() && before.active() < before.elems().len() {
        before.lemma_distinct();
        let a = before.active() as int;
        let ids = before.ids();
        let id = ids[a];
        lemma_without_last(before.history(), id);
        let pushed = without_last(before.history(), id).push(id);
        assert(after.ids()[p] == e.ident());
        assert(!pushed.contains(e.ident())) by {
            if pushed.contains(e.ident()) {
                let k = choose|k: int| 0 <= k < pushed.len() && pushed[k] == e.ident();
                if k < pushed.len() - 1 {
                    assert(without_last(before.history(), id).contains(e.ident()));
                    assert(before.history().contains(e.ident()));
                    let m = choose|m: int| 0 <= m < before.history().len() && before.history()[m] == e.ident();
                    assert(ids.contains(before.history()[m]));
                }
            }
        }
        lemma_find_id_absent(pushed, e.ident());
        assert(without_last(pushed, e.ident()) == pushed) by {
            if exists|j: int| is_last_occurrence(pushed, e.ident(), j) {
                let j = choose|j: int| is_last_occurrence(pushed, e.ident(), j);
                assert(pushed.contains(e.ident()));
            }
        }
        assert(after.ids().remove(p) =~= ids);
        lemma_find_id_unique(ids, id, a);
    }
}

/// In an unwindable cycle, focusing another element and then removing it returns the focus
/// to the element that was focused before.
pub proof fn law_focus_returns_after_removal<T: Identify>(
    before: Cycle<T>,
    focused: Cycle<T>,
    j: int,
)
    requires
        before.wf(),
        focused.wf(),
        before.unwinds(),
        before.active() < before.elems().len(),
        0 <= j < before.elems().len(),
        j != before.active(),
        focused.elems() == before.elems(),
        focused.active() == j,
        focused.history() == before.pushed_history(),
        focused.unwinds() == before.unwinds(),
    ensures
        focused.elems().remove(j)[focused.index_after_removal(j)] == before.elems()[before.active() as int],
{
    before.lemma_distinct();
    let a = before.active() as int;
    let ids = before.ids();
    let id = ids[a];
    let gone = ids[j];
    assert(gone != id);
    lemma_without_last(before.history(), id);
    let pushed = without_last(before.history(), id).push(id);
    assert(pushed.no_duplicates()) by {
        lemma_history_pushed(before.history(), ids, a, true);
    }
    let h = without_last(pushed, gone);
    lemma_without_last(pushed, gone);
    if pushed.contains(gone) {
        let k = choose|k: int| 0 <= k < pushed.len() && pushed[k] == gone;
        assert(is_last_occurrence(pushed, gone, k));
        let c = choose|c: int| is_last_occurrence(pushed, gone, c);
        assert(c == k);
        assert(k < pushed.len() - 1);
        assert(h.last() == id);
    } else {
        assert(h == pushed);
    }
    let rest = ids.remove(j);
    assert(rest.no_duplicates()) by {
        assert forall|x: int, y: int| 0 <= x < rest.len() && 0 <= y < rest.len() && x != y implies rest[x] != rest[y] by {
            let ox = if x < j { x } else { x + 1 };
            let oy = if y < j { y } else { y + 1 };
            assert(rest[x] == ids[ox] && rest[y] == ids[oy]);
        }
    }
    let na = if a < j { a } else { a - 1 };
    assert(rest[na] == id);
    lemma_find_id_unique(rest, id, na);
    assert(ids_of(focused.elems().remove(j)) =~= rest);
}

/// The active position of a cycle designates an element, or is 0 when the cycle is empty.
pub open spec fn active_in_range<T: Identify>(c: Cycle<T>) -> bool {
    c.active() < c.elems().len() || c.active() == 0
}

/// Removing an element keeps the active position designating an element (or 0 once the
/// cycle is empty).
pub proof fn law_removal_keeps_active_in_range<T: Identify>(c: Cycle<T>, p: int)
    requires
        active_in_range(c),
        0 <= p < c.elems().len(),
    ensures
        ({
            let i = c.index_after_removal(p);
            0 <= i < c.elems().len() - 1 || i == 0
        }),
{
    let h = c.history_without(p);
    let rest = c.ids().remove(p);
    if p == c.active() && c.unwinds() && h.len() > 0 {
        match find_id(rest, h.last()) {
            Some(i) => {
                assert(0 <= i < rest.len());
            },
            None => {},
        }
    }
}

/// `c` can take `element` at `pos`: it is well formed, the position is in bounds, there is room
/// for one more element, and no element with the same identifier is there already.
pub open spec fn can_insert<T: Identify>(c: Cycle<T>, pos: InsertPos, element: T) -> bool {
    &&& c.wf()
    &&& c.insert_allowed(pos)
    &&& c.elems().len() < usize::MAX
    &&& c.insert_target(pos) is Some ==> !c.ids().contains(element.ident())
}

/// `after` is what inserting `element` at `pos` makes of `before`.
pub open spec fn inserted<T: Identify>(before: Cycle<T>, after: Cycle<T>, pos: InsertPos, element: T) -> bool {
    &&& after.wf()
    &&& after.unwinds() == before.unwinds()
    &&& match before.insert_target(pos) {
        Some(p) => after.elems() == before.elems().insert(p, element) && after.active() == p
            && after.history() == before.pushed_history(),
        None => after.elems() == before.elems() && after.active() == before.active()
            && after.history() == before.history(),
    }
}

/// `after` is what removing the element that `sel` designates makes of `before`.
pub open spec fn removed<T: Identify>(before: Cycle<T>, after: Cycle<T>, sel: Selector<T>) -> bool {
    &&& after.wf()
    &&& after.unwinds() == before.unwinds()
    &&& match before.selected(sel) {
        Some(e) => {
            let p = before.target(sel)->0;
            &&& after.elems() == before.elems().remove(p)
            &&& after.active() == before.index_after_removal(p)
            &&& after.history() == before.history_after_removal(p)
        },
        None => after.elems() == before.elems() && after.active() == before.active()
            && after.history() == before.history(),
    }
}

/// `after` is what activating the element that `sel` designates makes of `before`.
pub open spec fn activated<T: Identify>(before: Cycle<T>, after: Cycle<T>, sel: Selector<T>) -> bool {
    &&& after.wf()
    &&& after.elems() == before.elems()
    &&& after.unwinds() == before.unwinds()
    &&& sel matches Selector::AtActive ==> after.active() == before.active() && after.history()
        == before.history()
    &&& !(sel matches Selector::AtActive) ==> match before.target(sel) {
        Some(i) => after.active() == i && after.history() == before.pushed_history(),
        None => after.active() == before.active() && after.history() == before.history(),
    }
}

/// Inserting keeps the active position designating an element.
pub proof fn law_insertion_keeps_active_in_range<T: Identify>(
    before: Cycle<T>,
    after: Cycle<T>,
    pos: InsertPos,
    element: T,
)
    requires
        active_in_range(before),
        can_insert(before, pos, element),
        inserted(before, after, pos, element),
    ensures
        active_in_range(after),
{
}


/// Dragging the active element forward from the last position puts it at the front, the others
/// keeping their order behind it, and the focus with it at the front; dragging it backward from
/// the first position puts it at the back, the others keeping their order before it, and the
/// focus with it at the back.
pub proof fn law_drag_wraps_around<T: Identify>(c: Cycle<T>)
    requires
        c.elems().len() >= 1,
    ensures
        c.active() == c.elems().len() - 1 ==> c.dragged(Direction::Forward) == seq![c.elems().last()]
            + c.elems().drop_last() && cycle_step(c.elems().len() as int, c.active() as int, Direction::Forward) == 0,
        c.active() == 0 ==> c.dragged(Direction::Backward) == c.elems().drop_first().push(c.elems()[0])
            && cycle_step(c.elems().len() as int, c.active() as int, Direction::Backward) == c.elems().len() - 1,
{
}

/// Dragging the active element forward from anywhere but the last position swaps it with the
/// next element and leaves every other element where it was.
pub proof fn law_drag_swaps_neighbours<T: Identify>(c: Cycle<T>)
    requires
        c.active() + 1 < c.elems().len(),
    ensures
        c.dragged(Direction::Forward).len() == c.elems().len(),
        c.dragged(Direction::Forward)[c.active() as int] == c.elems()[c.active() + 1],
        c.dragged(Direction::Forward)[c.active() + 1] == c.elems()[c.active() as int],
        forall|j: int|
            0 <= j < c.elems().len() && j != c.active() && j != c.active() + 1 ==> #[trigger] c.dragged(
                Direction::Forward,
            )[j] == c.elems()[j],
{
}


/// Dragging the active element backward from anywhere but the first position swaps it with the
/// previous element and leaves every other element where it was.
pub proof fn law_drag_back_swaps_neighbours<T: Identify>(c: Cycle<T>)
    requires
        0 < c.active() < c.elems().len(),
    ensures
        c.dragged(Direction::Backward).len() == c.elems().len(),
        c.dragged(Direction::Backward)[c.active() as int] == c.elems()[c.active() - 1],
        c.dragged(Direction::Backward)[c.active() - 1] == c.elems()[c.active() as int],
        forall|j: int|
            0 <= j < c.elems().len() && j != c.active() && j != c.active() - 1 ==> #[trigger] c.dragged(
                Direction::Backward,
            )[j] == c.elems()[j],
{
}

} // verus!
