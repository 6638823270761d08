use vstd::prelude::*;

use crate::client::Client;
use crate::winsys::window::Pid;
use crate::winsys::window::Window;

use std::collections::HashMap;

verus! {

broadcast use vstd::std_specs::hash::group_hash_axioms;

/// The pieces of `s` between single spaces, in order.
pub open spec fn space_fields(s: Seq<char>) -> Seq<Seq<char>>
    decreases s.len(),
{
    if s.len() == 0 {
        seq![Seq::<char>::empty()]
    } else {
        let prev = space_fields(s.drop_last());
        if s.last() == ' ' {
            prev.push(Seq::<char>::empty())
        } else {
            prev.update(prev.len() - 1, prev.last().push(s.last()))
        }
    }
}

/// There is always at least one field.
proof fn lemma_space_fields_nonempty(s: Seq<char>)
    ensures
        space_fields(s).len() >= 1,
    decreases s.len(),
{
    if s.len() > 0 {
        lemma_space_fields_nonempty(s.drop_last());
    }
}

/// Whether `c` is a decimal digit.
pub open spec fn is_digit(c: char) -> bool {
    '0' <= c <= '9'
}

/// The value of the decimal digits `d`.
pub open spec fn digits_value(d: Seq<char>) -> int
    decreases d.len(),
{
    if d.len() == 0 {
        0
    } else {
        digits_value(d.drop_last()) * 10 + (d.last() as int - '0' as int)
    }
}

/// The digits of an unsigned number as written: after an optional plus sign.
pub open spec fn unsigned_digits(t: Seq<char>) -> Seq<char> {
    if t.len() > 0 && t[0] == '+' {
        t.drop_first()
    } else {
        t
    }
}

/// The `u32` that `t` spells, as Rust's parser of unsigned numbers reads it: an optional plus
/// sign, then at least one decimal digit, the value in range.
pub open spec fn parsed_u32(t: Seq<char>) -> Option<u32> {
    let d = unsigned_digits(t);
    if d.len() > 0 && (forall|i: int| 0 <= i < d.len() ==> #[trigger] is_digit(d[i])) && digits_value(d) <= u32::MAX {
        Some(digits_value(d) as u32)
    } else {
        None
    }
}

/// The parent process identifier that a process's stat line gives: its fourth space-separated
/// field, read as a number.
pub open spec fn stat_parent(stat: Seq<char>) -> Option<Pid> {
    let fields = space_fields(stat);
    if fields.len() > 3 {
        parsed_u32(fields[3])
    } else {
        None
    }
}

/// Reads the decimal number that `t` spells (after an optional plus sign) as a `u32`.
fn parse_u32(t: &Vec<char>) -> (r: Option<u32>)
    ensures
        r == parsed_u32(t@),
{
    let start: usize = if t.len() > 0 && t[0] == '+' {
        1
    } else {
        0
    };
    let ghost d = unsigned_digits(t@);
    assert(d =~= t@.subrange(start as int, t@.len() as int));
    if start >= t.len() {
        return None;
    }
    let mut value: u64 = 0;
    let mut i: usize = start;
    while i < t.len()
        invariant
            start <= i <= t.len(),
            d == unsigned_digits(t@),
            d == t@.subrange(start as int, t@.len() as int),
            forall|k: int| 0 <= k < i - start ==> #[trigger] is_digit(d[k]),
            value == digits_value(d.take(i - start)),
            value <= u32::MAX,
        decreases t.len() - i,
    {
        let c = t[i];
        if !('0' <= c && c <= '9') {
            assert(!is_digit(d[i - start]));
            return None;
        }
        proof {
            assert(d.take(i - start + 1).drop_last() =~= d.take(i - start));
            assert(d.take(i - start + 1).last() == c);
        }
        let digit: u64 = (c as u32 - '0' as u32) as u64;
        let next: u64 = value * 10 + digit;
        if next > 0xffff_ffff {
            proof {
                if forall|k: int| 0 <= k < d.len() ==> #[trigger] is_digit(d[k]) {
                    lemma_digits_grow(d, (i - start + 1) as int);
                }
            }
            return None;
        }
        value = next;
        i = i + 1;
    }
    assert(d.take(d.len() as int) =~= d);
    Some(value as u32)
}

/// A longer run of digits is worth at least as much as its prefix.
proof fn lemma_digits_grow(d: Seq<char>, n: int)
    requires
        0 <= n <= d.len(),
        forall|i: int| 0 <= i < d.len() ==> #[trigger] is_digit(d[i]),
    ensures
        digits_value(d) >= digits_value(d.take(n)),
    decreases d.len(),
{
    if n < d.len() {
        assert(d.drop_last().take(n) =~= d.take(n));
        assert forall|i: int| 0 <= i < d.drop_last().len() implies #[trigger] is_digit(d.drop_last()[i]) by {
            assert(is_digit(d[i]));
        }
        lemma_digits_grow(d.drop_last(), n);
        assert(digits_value(d.drop_last()) >= 0) by {
            lemma_digits_nonneg(d.drop_last());
        }
        assert(is_digit(d[d.len() - 1]));
    } else {
        assert(d.take(n) =~= d);
    }
}

/// Digits are worth nothing negative.
proof fn lemma_digits_nonneg(d: Seq<char>)
    requires
        forall|i: int| 0 <= i < d.len() ==> #[trigger] is_digit(d[i]),
    ensures
        digits_value(d) >= 0,
    decreases d.len(),
{
    if d.len() > 0 {
        assert forall|i: int| 0 <= i < d.drop_last().len() implies #[trigger] is_digit(d.drop_last()[i]) by {
            assert(is_digit(d[i]));
        }
        lemma_digits_nonneg(d.drop_last());
        assert(is_digit(d[d.len() - 1]));
    }
}

/// The parent process identifier that a process's stat line (as the proc file system gives
/// it) records.
pub fn stat_parent_pid(stat: &str) -> (r: Option<Pid>)
    ensures
        r == stat_parent(stat@),
{
    let n: usize = stat.unicode_len();
    let mut fields: usize = 0;
    let mut cur: Vec<char> = Vec::new();
    let mut i: usize = 0;
    let ghost s = stat@;
    assert(s.take(0) =~= Seq::<char>::empty());
    while i < n
        invariant
            n == s.len(),
            s == stat@,
            i <= n,
            fields <= i,
            fields + 1 == space_fields(s.take(i as int)).len(),
            fields <= 3 ==> cur@ == space_fields(s.take(i as int))[fields as int],
            fields > 3 ==> cur@ == space_fields(s.take(i as int))[3],
        decreases n - i,
    {
        let c = stat.get_char(i);
        proof {
            assert(s.take(i + 1).drop_last() =~= s.take(i as int));
            assert(s.take(i + 1).last() == c);
            lemma_space_fields_nonempty(s.take(i as int));
        }
        let ghost prev = space_fields(s.take(i as int));
        if c == ' ' {
            fields = fields + 1;
            if fields <= 3 {
                cur = Vec::new();
            }
            assert(space_fields(s.take(i + 1)) == prev.push(Seq::<char>::empty()));
        } else {
            if fields <= 3 {
                cur.push(c);
            }
            assert(space_fields(s.take(i + 1)) == prev.update(prev.len() - 1, prev.last().push(c)));
        }
        i = i + 1;
    }
    assert(s.take(n as int) =~= s);
    if fields >= 3 {
        parse_u32(&cur)
    } else {
        None
    }
}

/// Whether the process `ppid`, if there is one, runs a client that was consumed into another.
pub fn is_consumer(
    ppid: Option<Pid>,
    pid_map: &HashMap<Pid, Window>,
    client_map: &HashMap<Window, Client>,
) -> (r: bool)
    ensures
        r == match ppid {
            Some(p) => pid_map@.contains_key(p) && client_map@.contains_key(pid_map@[p])
                && client_map@[pid_map@[p]]@.producer is Some,
            None => false,
        },
{
    match ppid {
        Some(p) => match pid_map.get(&p) {
            Some(window) => match client_map.get(window) {
                Some(client) => client.is_consuming(),
                None => false,
            },
            None => false,
        },
        None => false,
    }
}

/// What the search for the process that spawned a client does once it has looked one step up
/// the process tree.
#[derive(Debug, Copy, Clone, PartialEq, Eq, Structural)]
pub enum SpawnerStep {
    /// The search ends, with this spawner (if any).
    Done(Option<Pid>),
    /// The search goes on from this process.
    Next(Pid),
}

/// One step of the search for the process that spawned `pid` (a client's process), the window
/// manager being `wm_pid`: having come to `ppid`, whose parent is `ppid_new`, the search stops
/// at a parent that runs a consumed client, stops below the window manager (with nothing when
/// that is the client's own process), and otherwise goes on to the parent.
pub open spec fn spawner_step_spec(
    pid: Pid,
    wm_pid: Pid,
    ppid: Pid,
    ppid_new: Option<Pid>,
    consumer: bool,
) -> SpawnerStep {
    if consumer {
        SpawnerStep::Done(ppid_new)
    } else if ppid_new == Some(wm_pid) {
        SpawnerStep::Done(if ppid == pid { None } else { Some(ppid) })
    } else {
        match ppid_new {
            Some(p) => SpawnerStep::Next(p),
            None => SpawnerStep::Done(None),
        }
    }
}

/// One step of the search for the process that spawned `pid`: see [`spawner_step_spec`].
pub fn spawner_step(
    pid: Pid,
    wm_pid: Pid,
    ppid: Pid,
    ppid_new: Option<Pid>,
    consumer: bool,
) -> (r: SpawnerStep)
    ensures
        r == spawner_step_spec(pid, wm_pid, ppid, ppid_new, consumer),
{
    if consumer {
        return SpawnerStep::Done(ppid_new);
    }
    if ppid_new == Some(wm_pid) {
        return SpawnerStep::Done(if ppid == pid { None } else { Some(ppid) });
    }
    match ppid_new {
        Some(p) => SpawnerStep::Next(p),
        None => SpawnerStep::Done(None),
    }
}

} // verus!
