use vstd::prelude::*;

verus! {

/// Whether `c` is white space as Unicode's White_Space property has it.
pub open spec fn is_white_space(c: char) -> bool {
    ||| '\t' <= c <= '\r'
    ||| c == ' '
    ||| c == '\u{85}'
    ||| c == '\u{a0}'
    ||| c == '\u{1680}'
    ||| '\u{2000}' <= c <= '\u{200a}'
    ||| c == '\u{2028}'
    ||| c == '\u{2029}'
    ||| c == '\u{202f}'
    ||| c == '\u{205f}'
    ||| c == '\u{3000}'
}

/// Whether `c` is white space as Unicode's White_Space property has it.
pub fn white_space(c: char) -> (r: bool)
    ensures
        r == is_white_space(c),
{
    ('\t' <= c && c <= '\r') || c == ' ' || c == '\u{85}' || c == '\u{a0}' || c == '\u{1680}'
        || ('\u{2000}' <= c && c <= '\u{200a}') || c == '\u{2028}' || c == '\u{2029}' || c
        == '\u{202f}' || c == '\u{205f}' || c == '\u{3000}'
}

/// The words of `s` (its maximal runs of characters other than white space) and whether `s`
/// ends inside one.
pub open spec fn word_state(s: Seq<char>) -> (Seq<Seq<char>>, bool)
    decreases s.len(),
{
    if s.len() == 0 {
        (Seq::empty(), false)
    } else {
        let (words, open) = word_state(s.drop_last());
        let c = s.last();
        if is_white_space(c) {
            (words, false)
        } else if open {
            (words.update(words.len() - 1, words.last().push(c)), true)
        } else {
            (words.push(seq![c]), true)
        }
    }
}

/// The words of `s`: its maximal runs of characters other than white space.
pub open spec fn words(s: Seq<char>) -> Seq<Seq<char>> {
    word_state(s).0
}

/// The pieces of `s` between newlines.
pub open spec fn newline_pieces(s: Seq<char>) -> Seq<Seq<char>>
    decreases s.len(),
{
    if s.len() == 0 {
        seq![Seq::<char>::empty()]
    } else {
        let prev = newline_pieces(s.drop_last());
        if s.last() == '\n' {
            prev.push(Seq::<char>::empty())
        } else {
            prev.update(prev.len() - 1, prev.last().push(s.last()))
        }
    }
}

/// The lines of `s`: the pieces between newlines, less an empty last one.
pub open spec fn text_lines(s: Seq<char>) -> Seq<Seq<char>> {
    let pieces = newline_pieces(s);
    if pieces.last().len() == 0 {
        pieces.drop_last()
    } else {
        pieces
    }
}

/// Whether `c` is a decimal digit.
pub open spec fn is_decimal(c: char) -> bool {
    '0' <= c <= '9'
}

/// The value of the decimal digits `d`.
pub open spec fn decimal_value(d: Seq<char>) -> int
    decreases d.len(),
{
    if d.len() == 0 {
        0
    } else {
        decimal_value(d.drop_last()) * 10 + (d.last() as int - '0' as int)
    }
}

/// The digits of an unsigned number as written: after an optional plus sign.
pub open spec fn number_digits(t: Seq<char>) -> Seq<char> {
    if t.len() > 0 && t[0] == '+' {
        t.drop_first()
    } else {
        t
    }
}

/// The `u8` that `t` spells, as Rust's parser of unsigned numbers reads it: an optional plus
/// sign, then at least one decimal digit, the value in range.
pub open spec fn parsed_u8(t: Seq<char>) -> Option<u8> {
    let d = number_digits(t);
    if d.len() > 0 && (forall|i: int| 0 <= i < d.len() ==> #[trigger] is_decimal(d[i])) && decimal_value(d)
        <= u8::MAX {
        Some(decimal_value(d) as u8)
    } else {
        None
    }
}

/// What a line of `xmodmap -pke` says: the key code (its second word) and the key names (its
/// words from the fourth on); `None` when the second word is missing or no key code.
pub open spec fn keymap_line(line: Seq<char>) -> Option<(u8, Seq<Seq<char>>)> {
    keymap_line_words(words(line))
}

/// What the output of `xmodmap -pke` says, line by line; `None` when some line cannot be read.
pub open spec fn keymap_spec(text: Seq<char>) -> Option<Seq<(u8, Seq<Seq<char>>)>> {
    let lines = text_lines(text);
    if forall|i: int| 0 <= i < lines.len() ==> #[trigger] keymap_line(lines[i]) is Some {
        Some(Seq::new(lines.len(), |i: int| keymap_line(lines[i])->0))
    } else {
        None
    }
}

/// The views of character vectors.
pub open spec fn char_views(v: Seq<Vec<char>>) -> Seq<Seq<char>> {
    v.map_values(|t: Vec<char>| t@)
}

/// The views of key map entries.
pub open spec fn entry_views(v: Seq<(u8, Vec<Vec<char>>)>) -> Seq<(u8, Seq<Seq<char>>)> {
    v.map_values(|e: (u8, Vec<Vec<char>>)| (e.0, char_views(e.1@)))
}

/// The `u8` that the characters of `t` spell.
fn parse_u8(t: &Vec<char>) -> (r: Option<u8>)
    ensures
        r == parsed_u8(t@),
{
    let start: usize = if t.len() > 0 && t[0] == '+' {
        1
    } else {
        0
    };
    let ghost d = number_digits(t@);
    assert(d =~= t@.subrange(start as int, t@.len() as int));
    if start >= t.len() {
        return None;
    }
    let mut value: u32 = 0;
    let mut i: usize = start;
    while i < t.len()
        invariant
            start <= i <= t.len(),
            d == number_digits(t@),
            d == t@.subrange(start as int, t@.len() as int),
            forall|k: int| 0 <= k < i - start ==> #[trigger] is_decimal(d[k]),
            value == decimal_value(d.take(i - start)),
            value <= u8::MAX,
        decreases t.len() - i,
    {
        let c = t[i];
        if !('0' <= c && c <= '9') {
            assert(!is_decimal(d[i - start]));
            return None;
        }
        proof {
            assert(d.take(i - start + 1).drop_last() =~= d.take(i - start));
            assert(d.take(i - start + 1).last() == c);
        }
        let next: u32 = value * 10 + (c as u32 - '0' as u32);
        if next > 255 {
            proof {
                if forall|k: int| 0 <= k < d.len() ==> #[trigger] is_decimal(d[k]) {
                    lemma_decimal_grows(d, (i - start + 1) as int);
                }
            }
            return None;
        }
        value = next;
        i = i + 1;
    }
    assert(d.take(d.len() as int) =~= d);
    Some(value as u8)
}

/// A longer run of digits is worth at least as much as its prefix.
proof fn lemma_decimal_grows(d: Seq<char>, n: int)
    requires
        0 <= n <= d.len(),
        forall|i: int| 0 <= i < d.len() ==> #[trigger] is_decimal(d[i]),
    ensures
        decimal_value(d) >= decimal_value(d.take(n)),
    decreases d.len(),
{
    if n < d.len() {
        assert(d.drop_last().take(n) =~= d.take(n));
        assert forall|i: int| 0 <= i < d.drop_last().len() implies #[trigger] is_decimal(d.drop_last()[i]) by {
            assert(is_decimal(d[i]));
        }
        lemma_decimal_grows(d.drop_last(), n);
        lemma_decimal_nonneg(d.drop_last());
        assert(is_decimal(d[d.len() - 1]));
    } else {
        assert(d.take(n) =~= d);
    }
}

/// Digits are worth nothing negative.
proof fn lemma_decimal_nonneg(d: Seq<char>)
    requires
        forall|i: int| 0 <= i < d.len() ==> #[trigger] is_decimal(d[i]),
    ensures
        decimal_value(d) >= 0,
    decreases d.len(),
{
    if d.len() > 0 {
        assert forall|i: int| 0 <= i < d.drop_last().len() implies #[trigger] is_decimal(d.drop_last()[i]) by {
            assert(is_decimal(d[i]));
        }
        lemma_decimal_nonneg(d.drop_last());
        assert(is_decimal(d[d.len() - 1]));
    }
}

/// The key map entry of a line whose words are `words`.
fn line_entry(words: Vec<Vec<char>>) -> (r: Option<(u8, Vec<Vec<char>>)>)
    ensures
        match r {
            Some(e) => (e.0, char_views(e.1@)) == (keymap_line_words(char_views(words@))->0)
                && keymap_line_words(char_views(words@)) is Some,
            None => keymap_line_words(char_views(words@)) is None,
        },
{
    let ghost all = words;
    let old_len: usize = words.len();
    if words.len() < 2 {
        return None;
    }
    assert(char_views(words@)[1] == words@[1]@);
    let code = match parse_u8(&words[1]) {
        Some(code) => code,
        None => return None,
    };
    let mut words = words;
    let names: Vec<Vec<char>> = if words.len() > 3 {
        words.split_off(3)
    } else {
        Vec::new()
    };
    proof {
        if old_len > 3 {
            assert(char_views(names@) =~= char_views(all@).subrange(3, all@.len() as int));
        } else {
            assert(char_views(names@) =~= Seq::<Seq<char>>::empty());
        }
    }
    Some((code, names))
}

/// What a line with words `w` says (see [`keymap_line`]).
pub open spec fn keymap_line_words(w: Seq<Seq<char>>) -> Option<(u8, Seq<Seq<char>>)> {
    if w.len() >= 2 {
        match parsed_u8(w[1]) {
            Some(code) => Some((code, if w.len() > 3 { w.subrange(3, w.len() as int) } else { Seq::empty() })),
            None => None,
        }
    } else {
        None
    }
}

/// The words seen so far in a line, as vectors: the finished ones and, when inside a word, the
/// one under way.
pub open spec fn words_so_far(done: Seq<Vec<char>>, cur: Seq<char>, open: bool) -> Seq<Seq<char>> {
    if open {
        char_views(done).push(cur)
    } else {
        char_views(done)
    }
}

/// Reads the output of `xmodmap -pke`: for each line, the key code and the key names on it;
/// `None` when some line has no key code as its second word.
pub fn read_keymap(text: &str) -> (r: Option<Vec<(u8, Vec<Vec<char>>)>>)
    ensures
        match r {
            Some(v) => keymap_spec(text@) == Some(entry_views(v@)),
            None => keymap_spec(text@) is None,
        },
{
    let n: usize = text.unicode_len();
    let ghost s = text@;
    let mut entries: Vec<(u8, Vec<Vec<char>>)> = Vec::new();
    let mut done: Vec<Vec<char>> = Vec::new();
    let mut cur: Vec<char> = Vec::new();
    let mut open = false;
    let mut line_len: usize = 0;
    let mut i: usize = 0;
    assert(s.take(0) =~= Seq::<char>::empty());
    while i < n
        invariant
            n == s.len(),
            s == text@,
            i <= n,
            line_len <= i,
            newline_pieces(s.take(i as int)).len() == entries.len() + 1,
            newline_pieces(s.take(i as int)).last() == s.subrange(i - line_len, i as int),
            forall|k: int| 0 <= k < entries.len() ==> #[trigger] keymap_line(newline_pieces(s.take(i as int))[k]) == Some(entry_views(entries@)[k]),
            word_state(s.subrange(i - line_len, i as int)) == (words_so_far(done@, cur@, open), open),
        decreases n - i,
    {
        let c = text.get_char(i);
        let ghost prev = newline_pieces(s.take(i as int));
        let ghost line = s.subrange(i - line_len, i as int);
        proof {
            assert(s.take(i + 1).drop_last() =~= s.take(i as int));
            assert(s.take(i + 1).last() == c);
            lemma_pieces_nonempty(s.take(i as int));
        }
        if c == '\n' {
            let mut line_words = done;
            if open {
                line_words.push(cur);
            }
            assert(char_views(line_words@) =~= words_so_far(done@, cur@, open));
            match line_entry(line_words) {
                Some(entry) => {
                    entries.push(entry);
                },
                None => {
                    proof {
                        let lines = text_lines(s);
                        lemma_line_is_complete(s, i as int, line_len as int);
                        assert(lines[entries.len() as int] == line);
                        assert(words(line) == words_so_far(done@, cur@, open));
                        assert(keymap_line(lines[entries.len() as int]) is None);
                    }
                    return None;
                },
            }
            proof {
                lemma_line_is_complete(s, i as int, line_len as int);
                assert(newline_pieces(s.take(i + 1)) == prev.push(Seq::<char>::empty()));
                assert forall|k: int| 0 <= k < entries.len() implies #[trigger] keymap_line(newline_pieces(s.take(i + 1))[k]) == Some(entry_views(entries@)[k]) by {
                    if k < entries.len() - 1 {
                        assert(newline_pieces(s.take(i + 1))[k] == prev[k]);
                    } else {
                        assert(newline_pieces(s.take(i + 1))[k] == line);
                    }
                }
            }
            done = Vec::new();
            cur = Vec::new();
            open = false;
            line_len = 0;
            assert(s.subrange(i + 1, i + 1) =~= Seq::<char>::empty());
        } else {
            let ghost before_words = words_so_far(done@, cur@, open);
            if white_space(c) {
                if open {
                    done.push(cur);
                    cur = Vec::new();
                    open = false;
                }
            } else {
                if open {
                    cur.push(c);
                } else {
                    cur = Vec::new();
                    cur.push(c);
                    open = true;
                }
            }
            proof {
                let line2 = s.subrange(i - line_len, i + 1);
                assert(line2.drop_last() =~= line);
                assert(line2.last() == c);
                assert(words_so_far(done@, cur@, open) =~= word_state(line2).0);
                assert(newline_pieces(s.take(i + 1)) == prev.update(prev.len() - 1, prev.last().push(c)));
                assert(prev.last().push(c) =~= line2);
                assert forall|k: int| 0 <= k < entries.len() implies #[trigger] keymap_line(newline_pieces(s.take(i + 1))[k]) == Some(entry_views(entries@)[k]) by {
                    assert(newline_pieces(s.take(i + 1))[k] == prev[k]);
                }
            }
            line_len = line_len + 1;
        }
        i = i + 1;
    }
    assert(s.take(n as int) =~= s);
    let ghost pieces = newline_pieces(s);
    if line_len > 0 {
        let mut line_words = done;
        if open {
            line_words.push(cur);
        }
        assert(char_views(line_words@) =~= words_so_far(done@, cur@, open));
        match line_entry(line_words) {
            Some(entry) => {
                entries.push(entry);
            },
            None => {
                proof {
                    let line = s.subrange(n - line_len, n as int);
                    assert(text_lines(s) == pieces);
                    assert(text_lines(s)[entries.len() as int] == line);
                    assert(words(line) == words_so_far(done@, cur@, open));
                    assert(keymap_line(text_lines(s)[entries.len() as int]) is None);
                }
                return None;
            },
        }
        proof {
            assert(text_lines(s) == pieces);
            assert forall|k: int| 0 <= k < text_lines(s).len() implies #[trigger] keymap_line(text_lines(s)[k]) is Some by {
                if k < entries.len() - 1 {
                } else {
                    assert(text_lines(s)[k] == pieces.last());
                }
            }
            assert(keymap_spec(s) == Some(entry_views(entries@))) by {
                assert(Seq::new(text_lines(s).len(), |k: int| keymap_line(text_lines(s)[k])->0) =~= entry_views(entries@));
            }
        }
    } else {
        proof {
            assert(s.subrange(n - line_len, n as int) =~= Seq::<char>::empty());
            assert(text_lines(s) =~= pieces.drop_last());
            assert forall|k: int| 0 <= k < text_lines(s).len() implies #[trigger] keymap_line(text_lines(s)[k]) is Some by {
                assert(text_lines(s)[k] == pieces[k]);
            }
            assert(Seq::new(text_lines(s).len(), |k: int| keymap_line(text_lines(s)[k])->0) =~= entry_views(entries@));
        }
    }
    Some(entries)
}

/// There is always at least one piece.
proof fn lemma_pieces_nonempty(s: Seq<char>)
    ensures
        newline_pieces(s).len() >= 1,
    decreases s.len(),
{
    if s.len() > 0 {
        lemma_pieces_nonempty(s.drop_last());
    }
}

/// A newline at position `i` ends a line that is a line of the whole text.
proof fn lemma_line_is_complete(s: Seq<char>, i: int, line_len: int)
    requires
        0 <= line_len <= i < s.len(),
        s[i] == '\n',
        newline_pieces(s.take(i)).last() == s.subrange(i - line_len, i),
    ensures
        newline_pieces(s.take(i + 1)) == newline_pieces(s.take(i)).push(Seq::<char>::empty()),
        forall|k: int| 0 <= k < newline_pieces(s.take(i)).len() ==> #[trigger] text_lines(s)[k] == newline_pieces(s.take(i))[k],
        newline_pieces(s.take(i)).len() <= text_lines(s).len(),
{
    assert(s.take(i + 1).drop_last() =~= s.take(i));
    assert(s.take(i + 1).last() == '\n');
    lemma_pieces_prefix(s, i + 1);
    lemma_pieces_nonempty(s.take(i));
}

/// The pieces of a prefix of `s`, all but the last, are pieces of `s`.
proof fn lemma_pieces_prefix(s: Seq<char>, j: int)
    requires
        0 <= j <= s.len(),
    ensures
        newline_pieces(s.take(j)).len() <= newline_pieces(s).len(),
        forall|k: int| 0 <= k < newline_pieces(s.take(j)).len() - 1 ==> #[trigger] newline_pieces(s)[k] == newline_pieces(s.take(j))[k],
    decreases s.len(),
{
    if j == s.len() {
        assert(s.take(j) =~= s);
    } else {
        let init = s.drop_last();
        assert(init.take(j) =~= s.take(j));
        lemma_pieces_prefix(init, j);
        lemma_pieces_nonempty(init);
    }
}

} // verus!
