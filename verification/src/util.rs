use vstd::prelude::*;

use crate::change::Change;
use crate::change::Direction;
use crate::identify::Index;
use crate::winsys::input::Button;
use crate::winsys::input::Modifier;
use crate::winsys::input::MouseShortcut;

verus! {

/// The last valid position of a collection of `len` elements, or 0 when it is empty.
pub open spec fn spec_last_index(len: int) -> int {
    if len != 0 {
        len - 1
    } else {
        0
    }
}

/// Small arithmetic helpers shared by the window manager's collections.
pub struct Util;

impl Util {
    /// The last valid position of a collection of `len` elements (0 when empty).
    pub fn last_index(len: usize) -> (r: Index)
        ensures
            r == spec_last_index(len as int),
    {
        if len != 0 {
            len - 1
        } else {
            0
        }
    }

    /// The position after (or before) `index` in a collection of `len` elements, wrapping round.
    pub fn next_index(len: usize, index: Index, dir: Direction) -> (r: Index)
        requires
            len > 0,
            dir == Direction::Forward ==> index < usize::MAX,
        ensures
            r == match dir {
                Direction::Forward => ((index + 1) % (len as int)) as int,
                Direction::Backward => if index == 0 { len - 1 } else { index - 1 },
            },
    {
        match dir {
            Direction::Forward => (index + 1) % len,
            Direction::Backward => {
                if index == 0 {
                    len - 1
                } else {
                    index - 1
                }
            },
        }
    }

    /// Applies `change` to `base`, clamping an increase at `max` and a decrease at `min`.
    pub fn change_within_range(min: i32, max: i32, base: i32, change: Change<i32>) -> (r: i32)
        requires
            match change {
                Change::Inc(delta) => i32::MIN <= base + delta <= i32::MAX,
                Change::Dec(delta) => i32::MIN <= min + delta <= i32::MAX
                    && (base >= min + delta ==> i32::MIN <= base - delta <= i32::MAX),
            },
        ensures
            r == match change {
                Change::Inc(delta) => if base + delta > max { max as int } else { base + delta },
                Change::Dec(delta) => if base >= min + delta { base - delta } else { min as int },
            },
    {
        match change {
            Change::Inc(delta) => {
                let base: i32 = base + delta;
                if base > max {
                    max
                } else {
                    base
                }
            },
            Change::Dec(delta) => {
                if base >= min + delta {
                    base - delta
                } else {
                    min
                }
            },
        }
    }
}

/// The pieces of `s` between dashes, in order (an empty piece where two dashes meet or at an
/// end).
pub open spec fn dash_tokens(s: Seq<char>) -> Seq<Seq<char>>
    decreases s.len(),
{
    if s.len() == 0 {
        seq![Seq::<char>::empty()]
    } else {
        let prev = dash_tokens(s.drop_last());
        if s.last() == '-' {
            prev.push(Seq::<char>::empty())
        } else {
            prev.update(prev.len() - 1, prev.last().push(s.last()))
        }
    }
}

/// There is always at least one piece.
pub proof fn lemma_dash_tokens_nonempty(s: Seq<char>)
    ensures
        dash_tokens(s).len() >= 1,
    decreases s.len(),
{
    if s.len() > 0 {
        lemma_dash_tokens_nonempty(s.drop_last());
    }
}

/// The mouse button a name (or number) stands for in a binding.
pub open spec fn button_named(t: Seq<char>) -> Option<Button> {
    if t == "1"@ || t == "Left"@ {
        Some(Button::Left)
    } else if t == "2"@ || t == "Middle"@ {
        Some(Button::Middle)
    } else if t == "3"@ || t == "Right"@ {
        Some(Button::Right)
    } else if t == "4"@ || t == "ScrollUp"@ {
        Some(Button::ScrollUp)
    } else if t == "5"@ || t == "ScrollDown"@ {
        Some(Button::ScrollDown)
    } else if t == "8"@ || t == "Backward"@ {
        Some(Button::Backward)
    } else if t == "9"@ || t == "Forward"@ {
        Some(Button::Forward)
    } else {
        None
    }
}

/// The modifier a name stands for in a binding; "1"/"Mod" is the main modifier (Super) and
/// "2"/"Sec" the secondary one (Alt).
pub open spec fn modifier_token(t: Seq<char>) -> Option<Modifier> {
    if t == "A"@ || t == "Alt"@ || t == "Meta"@ {
        Some(Modifier::Alt)
    } else if t == "AGr"@ || t == "AltGr"@ {
        Some(Modifier::AltGr)
    } else if t == "M"@ || t == "Super"@ {
        Some(Modifier::Super)
    } else if t == "S"@ || t == "Shift"@ {
        Some(Modifier::Shift)
    } else if t == "C"@ || t == "Ctrl"@ || t == "Control"@ {
        Some(Modifier::Ctrl)
    } else if t == "N"@ || t == "NumLock"@ {
        Some(Modifier::NumLock)
    } else if t == "L"@ || t == "ScrollLock"@ {
        Some(Modifier::ScrollLock)
    } else if t == "1"@ || t == "Mod"@ {
        Some(Modifier::Super)
    } else if t == "2"@ || t == "Sec"@ {
        Some(Modifier::Alt)
    } else {
        None
    }
}

/// A mouse binding reads as dash-separated modifiers followed by a button.
pub open spec fn mouse_binding_valid(s: Seq<char>) -> bool {
    let toks = dash_tokens(s);
    &&& button_named(toks.last()) is Some
    &&& forall|i: int| 0 <= i < toks.len() - 1 ==> (#[trigger] modifier_token(toks[i])) is Some
}

/// The modifiers a binding names, in the order named.
pub open spec fn binding_modifiers(s: Seq<char>) -> Seq<Modifier> {
    let toks = dash_tokens(s);
    Seq::new((toks.len() - 1) as nat, |i: int| modifier_token(toks[i])->0)
}

/// How many times `m` occurs in `s`.
pub open spec fn occurrences(s: Seq<Modifier>, m: Modifier) -> nat {
    s.filter(|x: Modifier| x == m).len()
}

/// `m`, `n` times over.
pub open spec fn repeated(m: Modifier, n: nat) -> Seq<Modifier> {
    Seq::new(n, |i: int| m)
}

/// The modifiers of `s` in modifier order: each as often as it occurs in `s`.
pub open spec fn in_modifier_order(s: Seq<Modifier>) -> Seq<Modifier> {
    repeated(Modifier::Ctrl, occurrences(s, Modifier::Ctrl)) + repeated(
        Modifier::Shift,
        occurrences(s, Modifier::Shift),
    ) + repeated(Modifier::Alt, occurrences(s, Modifier::Alt)) + repeated(
        Modifier::AltGr,
        occurrences(s, Modifier::AltGr),
    ) + repeated(Modifier::Super, occurrences(s, Modifier::Super)) + repeated(
        Modifier::NumLock,
        occurrences(s, Modifier::NumLock),
    ) + repeated(Modifier::ScrollLock, occurrences(s, Modifier::ScrollLock))
}

/// Whether the characters of `t` spell out exactly `lit`.
fn chars_are(t: &Vec<char>, lit: &str) -> (r: bool)
    ensures
        r == (t@ == lit@),
{
    let n: usize = lit.unicode_len();
    if t.len() != n {
        return false;
    }
    let mut i: usize = 0;
    while i < n
        invariant
            n == lit@.len(),
            t@.len() == n,
            i <= n,
            forall|k: int| 0 <= k < i ==> t@[k] == lit@[k],
        decreases n - i,
    {
        if t[i] != lit.get_char(i) {
            return false;
        }
        i = i + 1;
    }
    assert(t@ =~= lit@);
    true
}

/// The mouse button that the characters of `t` name.
fn button_from(t: &Vec<char>) -> (r: Option<Button>)
    ensures
        r == button_named(t@),
{
    if chars_are(t, "1") || chars_are(t, "Left") {
        Some(Button::Left)
    } else if chars_are(t, "2") || chars_are(t, "Middle") {
        Some(Button::Middle)
    } else if chars_are(t, "3") || chars_are(t, "Right") {
        Some(Button::Right)
    } else if chars_are(t, "4") || chars_are(t, "ScrollUp") {
        Some(Button::ScrollUp)
    } else if chars_are(t, "5") || chars_are(t, "ScrollDown") {
        Some(Button::ScrollDown)
    } else if chars_are(t, "8") || chars_are(t, "Backward") {
        Some(Button::Backward)
    } else if chars_are(t, "9") || chars_are(t, "Forward") {
        Some(Button::Forward)
    } else {
        None
    }
}

/// The modifier that the characters of `t` name.
fn modifier_from(t: &Vec<char>) -> (r: Option<Modifier>)
    ensures
        r == modifier_token(t@),
{
    if chars_are(t, "A") || chars_are(t, "Alt") || chars_are(t, "Meta") {
        Some(Modifier::Alt)
    } else if chars_are(t, "AGr") || chars_are(t, "AltGr") {
        Some(Modifier::AltGr)
    } else if chars_are(t, "M") || chars_are(t, "Super") {
        Some(Modifier::Super)
    } else if chars_are(t, "S") || chars_are(t, "Shift") {
        Some(Modifier::Shift)
    } else if chars_are(t, "C") || chars_are(t, "Ctrl") || chars_are(t, "Control") {
        Some(Modifier::Ctrl)
    } else if chars_are(t, "N") || chars_are(t, "NumLock") {
        Some(Modifier::NumLock)
    } else if chars_are(t, "L") || chars_are(t, "ScrollLock") {
        Some(Modifier::ScrollLock)
    } else if chars_are(t, "1") || chars_are(t, "Mod") {
        Some(Modifier::Super)
    } else if chars_are(t, "2") || chars_are(t, "Sec") {
        Some(Modifier::Alt)
    } else {
        None
    }
}

/// The views of a sequence of character vectors.
pub open spec fn token_views(v: Seq<Vec<char>>) -> Seq<Seq<char>> {
    v.map_values(|t: Vec<char>| t@)
}

/// Splits `s` at its dashes: the pieces before the last one, and the last one.
fn split_dashes(s: &str) -> (r: (Vec<Vec<char>>, Vec<char>))
    ensures
        token_views(r.0@).push(r.1@) == dash_tokens(s@),
{
    let n: usize = s.unicode_len();
    let mut tokens: Vec<Vec<char>> = Vec::new();
    let mut cur: Vec<char> = Vec::new();
    let mut i: usize = 0;
    assert(token_views(tokens@).push(cur@) =~= dash_tokens(s@.take(0)));
    while i < n
        invariant
            n == s@.len(),
            i <= n,
            token_views(tokens@).push(cur@) == dash_tokens(s@.take(i as int)),
        decreases n - i,
    {
        let c = s.get_char(i);
        let ghost before = token_views(tokens@);
        let ghost old_cur = cur@;
        proof {
            assert(s@.take(i + 1).drop_last() =~= s@.take(i as int));
            assert(s@.take(i + 1).last() == c);
        }
        if c == '-' {
            let done = cur;
            tokens.push(done);
            cur = Vec::new();
            assert(token_views(tokens@) =~= before.push(old_cur));
            assert(token_views(tokens@).push(cur@) =~= dash_tokens(s@.take(i + 1)));
        } else {
            cur.push(c);
            assert(token_views(tokens@).push(cur@) =~= before.push(old_cur).update(
                before.len() as int,
                old_cur.push(c),
            ));
        }
        i = i + 1;
    }
    assert(s@.take(n as int) =~= s@);
    (tokens, cur)
}

/// Appends to `out` modifier `m` once for each time it occurs in `mods`.
fn push_occurrences(out: &mut Vec<Modifier>, mods: &Vec<Modifier>, m: Modifier)
    ensures
        final(out)@ == old(out)@ + repeated(m, occurrences(mods@, m)),
{
    let mut i: usize = 0;
    assert(old(out)@ =~= old(out)@ + repeated(m, occurrences(mods@.take(0), m))) by {
        reveal(Seq::filter);
    }
    while i < mods.len()
        invariant
            i <= mods.len(),
            out@ == old(out)@ + repeated(m, occurrences(mods@.take(i as int), m)),
        decreases mods.len() - i,
    {
        proof {
            reveal(Seq::filter);
            assert(mods@.take(i + 1).drop_last() =~= mods@.take(i as int));
            assert(mods@.take(i + 1).last() == mods@[i as int]);
        }
        let ghost k = occurrences(mods@.take(i as int), m);
        if mods[i] == m {
            out.push(m);
            assert(repeated(m, k).push(m) =~= repeated(m, k + 1));
            assert(out@ =~= old(out)@ + repeated(m, occurrences(mods@.take(i + 1), m)));
        }
        i = i + 1;
    }
    assert(mods@.take(mods.len() as int) =~= mods@);
}

impl Util {
    /// Reads a mouse binding such as "M-S-1": modifiers and then a button, separated by
    /// dashes; `None` when a piece names no modifier or the last no button.
    pub fn try_parse_mouse_binding(mouse_binding: &str) -> (r: Option<MouseShortcut>)
        ensures
            r is Some <==> mouse_binding_valid(mouse_binding@),
            r matches Some(shortcut) ==> shortcut.button == button_named(
                dash_tokens(mouse_binding@).last(),
            )->0 && shortcut.modifiers@ == in_modifier_order(binding_modifiers(mouse_binding@)),
    {
        let (tokens, last) = split_dashes(mouse_binding);
        let ghost toks = dash_tokens(mouse_binding@);
        proof {
            assert(toks.last() == last@);
            assert(toks.len() == tokens.len() + 1);
        }
        let button = match button_from(&last) {
            Some(b) => b,
            None => return None,
        };
        let mut modifiers: Vec<Modifier> = Vec::new();
        let mut i: usize = 0;
        while i < tokens.len()
            invariant
                i <= tokens.len(),
                toks == dash_tokens(mouse_binding@),
                toks == token_views(tokens@).push(last@),
                modifiers@.len() == i,
                forall|k: int| 0 <= k < i ==> (#[trigger] modifier_token(toks[k])) is Some
                    && modifiers@[k] == modifier_token(toks[k])->0,
            decreases tokens.len() - i,
        {
            assert(toks[i as int] == tokens@[i as int]@);
            match modifier_from(&tokens[i]) {
                Some(m) => modifiers.push(m),
                None => {
                    assert(toks.len() == tokens.len() + 1);
                    assert(modifier_token(toks[i as int]) is None);
                    return None;
                },
            }
            i = i + 1;
        }
        assert(modifiers@ =~= binding_modifiers(mouse_binding@));
        let mut sorted: Vec<Modifier> = Vec::new();
        push_occurrences(&mut sorted, &modifiers, Modifier::Ctrl);
        push_occurrences(&mut sorted, &modifiers, Modifier::Shift);
        push_occurrences(&mut sorted, &modifiers, Modifier::Alt);
        push_occurrences(&mut sorted, &modifiers, Modifier::AltGr);
        push_occurrences(&mut sorted, &modifiers, Modifier::Super);
        push_occurrences(&mut sorted, &modifiers, Modifier::NumLock);
        push_occurrences(&mut sorted, &modifiers, Modifier::ScrollLock);
        assert(sorted@ =~= in_modifier_order(modifiers@));
        Some(MouseShortcut { button, modifiers: sorted })
    }

    /// Reads a mouse binding such as "M-S-1": modifiers and then a button, separated by
    /// dashes; the modifiers come out in modifier order.
    pub fn parse_mouse_binding(mouse_binding: &str) -> (r: Option<MouseShortcut>)
        requires
            mouse_binding_valid(mouse_binding@),
        ensures
            r matches Some(shortcut) && shortcut.button == button_named(
                dash_tokens(mouse_binding@).last(),
            )->0 && shortcut.modifiers@ == in_modifier_order(binding_modifiers(mouse_binding@)),
    {
        Util::try_parse_mouse_binding(mouse_binding)
    }
}

/// The state rotated left by one byte.
pub open spec fn rotl8(x: u64) -> u64 {
    ((x << 8u64) | (x >> 56u64)) as u64
}

/// The state of an identifier hasher after `bytes` have been written into state `state`; each
/// byte rotates the state left by one byte and adds itself.
pub open spec fn hashed(state: u64, bytes: Seq<u8>) -> int
    decreases bytes.len(),
{
    if bytes.len() == 0 {
        state as int
    } else {
        rotl8(hashed(state, bytes.drop_last()) as u64) + bytes.last()
    }
}

/// Writing `bytes` into state `state` never overflows the state.
pub open spec fn hash_fits(state: u64, bytes: Seq<u8>) -> bool
    decreases bytes.len(),
{
    if bytes.len() == 0 {
        true
    } else {
        hash_fits(state, bytes.drop_last()) && hashed(state, bytes) <= u64::MAX
    }
}

/// A hasher for window and zone identifiers: the bytes written are folded into the state one
/// by one, with no mixing beyond a rotation.
pub struct IdHasher {
    state: u64,
}

impl IdHasher {
    /// The current state.
    pub closed spec fn state_spec(&self) -> u64 {
        self.state
    }

    /// A hasher in state 0.
    pub fn new() -> (r: Self)
        ensures
            r.state_spec() == 0,
    {
        IdHasher { state: 0 }
    }

    /// Folds `bytes` into the state.
    pub fn write(&mut self, bytes: &[u8])
        requires
            hash_fits(old(self).state_spec(), bytes@),
        ensures
            final(self).state_spec() == hashed(old(self).state_spec(), bytes@),
    {
        let ghost start = self.state;
        let mut i: usize = 0;
        assert(bytes@.take(0) =~= Seq::<u8>::empty());
        while i < bytes.len()
            invariant
                i <= bytes@.len(),
                hash_fits(start, bytes@),
                self.state == hashed(start, bytes@.take(i as int)),
            decreases bytes.len() - i,
        {
            proof {
                assert(bytes@.take(i + 1).drop_last() =~= bytes@.take(i as int));
                lemma_hash_fits_prefix(start, bytes@, i + 1);
            }
            let byte: u8 = bytes[i];
            let rotated: u64 = (self.state << 8u64) | (self.state >> 56u64);
            self.state = rotated + byte as u64;
            i = i + 1;
        }
        assert(bytes@.take(bytes@.len() as int) =~= bytes@);
    }

    /// The digest: the state.
    pub fn finish(&self) -> (r: u64)
        ensures
            r == self.state_spec(),
    {
        self.state
    }
}

/// A prefix of bytes that can be written without overflow can be written without overflow.
proof fn lemma_hash_fits_prefix(state: u64, bytes: Seq<u8>, n: int)
    requires
        hash_fits(state, bytes),
        0 <= n <= bytes.len(),
    ensures
        hash_fits(state, bytes.take(n)),
        hashed(state, bytes.take(n)) <= u64::MAX,
    decreases bytes.len(),
{
    if n == bytes.len() {
        assert(bytes.take(n) =~= bytes);
        if bytes.len() > 0 {
            assert(hashed(state, bytes) <= u64::MAX);
        }
    } else {
        assert(bytes.drop_last().take(n) =~= bytes.take(n));
        lemma_hash_fits_prefix(state, bytes.drop_last(), n);
    }
}

impl Default for IdHasher {
    fn default() -> (r: Self)
        ensures
            r.state_spec() == 0,
    {
        IdHasher { state: 0 }
    }
}

/// Builds identifier hashers, each starting in state 0.
#[derive(Clone, Copy)]
pub struct BuildIdHasher;

impl BuildIdHasher {
    /// A fresh hasher, in state 0.
    pub fn build_hasher(&self) -> (r: IdHasher)
        ensures
            r.state_spec() == 0,
    {
        IdHasher { state: 0 }
    }
}

impl Default for BuildIdHasher {
    fn default() -> (r: Self) {
        BuildIdHasher
    }
}

} // verus!
