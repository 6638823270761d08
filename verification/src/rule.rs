use vstd::prelude::*;

use crate::client::Client;
use crate::client::ClientView;

verus! {

/// What the rules for a window ask of it; `None` leaves the matter to the defaults.
#[derive(Debug, Clone, Copy, PartialEq, Eq, Structural)]
pub struct Rules {
    pub float: Option<bool>,
    pub center: Option<bool>,
    pub fullscreen: Option<bool>,
    pub workspace: Option<usize>,
    pub context: Option<usize>,
}

/// What an optional flag amounts to: false when unset.
pub open spec fn flag(v: Option<bool>) -> bool {
    match v {
        Some(b) => b,
        None => false,
    }
}

impl Rules {
    /// Whether the window is to float.
    pub fn float(&self) -> (r: bool)
        ensures
            r == flag(self.float),
    {
        match self.float {
            Some(float) => float,
            None => false,
        }
    }

    /// Whether the window is to be centered.
    pub fn center(&self) -> (r: bool)
        ensures
            r == flag(self.center),
    {
        match self.center {
            Some(center) => center,
            None => false,
        }
    }

    /// Whether the window is to be fullscreen.
    pub fn fullscreen(&self) -> (r: bool)
        ensures
            r == flag(self.fullscreen),
    {
        match self.fullscreen {
            Some(fullscreen) => fullscreen,
            None => false,
        }
    }
}

/// A client's state with `floating` set where `float` says.
pub open spec fn with_float(v: ClientView, float: Option<bool>) -> ClientView {
    match float {
        Some(f) => ClientView { floating: f, ..v },
        None => v,
    }
}

/// A client's state with `fullscreen` set where `fullscreen` says.
pub open spec fn with_fullscreen(v: ClientView, fullscreen: Option<bool>) -> ClientView {
    match fullscreen {
        Some(f) => ClientView { fullscreen: f, ..v },
        None => v,
    }
}

/// A client's state with its workspace set where `workspace` says.
pub open spec fn with_workspace(v: ClientView, workspace: Option<usize>) -> ClientView {
    match workspace {
        Some(w) => ClientView { workspace: w, ..v },
        None => v,
    }
}

/// A client's state with its context set where `context` says.
pub open spec fn with_context(v: ClientView, context: Option<usize>) -> ClientView {
    match context {
        Some(c) => ClientView { context: c, ..v },
        None => v,
    }
}

impl Rules {
    /// A client's state once the rules that are set are handed on to it.
    pub open spec fn applied_to(self, v: ClientView) -> ClientView {
        with_context(
            with_workspace(with_fullscreen(with_float(v, self.float), self.fullscreen), self.workspace),
            self.context,
        )
    }

    /// Hands the rules that are set on to `client`: floating, fullscreen, workspace and
    /// context; centering is left to the caller.
    pub fn propagate(&self, client: &mut Client)
        ensures
            final(client)@ == self.applied_to(old(client)@),
    {
        set_floating_to(client, self.float);
        set_fullscreen_to(client, self.fullscreen);
        set_workspace_to(client, self.workspace);
        set_context_to(client, self.context);
    }
}

/// Makes `client` float, or not, where `float` says.
fn set_floating_to(client: &mut Client, float: Option<bool>)
    ensures
        final(client)@ == with_float(old(client)@, float),
{
    match float {
        Some(true) => client.set_floating(crate::change::Toggle::On),
        Some(false) => client.set_floating(crate::change::Toggle::Off),
        None => {},
    }
}

/// Makes `client` fullscreen, or not, where `fullscreen` says.
fn set_fullscreen_to(client: &mut Client, fullscreen: Option<bool>)
    ensures
        final(client)@ == with_fullscreen(old(client)@, fullscreen),
{
    match fullscreen {
        Some(true) => client.set_fullscreen(crate::change::Toggle::On),
        Some(false) => client.set_fullscreen(crate::change::Toggle::Off),
        None => {},
    }
}

/// Puts `client` on the workspace `workspace` names, if any.
fn set_workspace_to(client: &mut Client, workspace: Option<usize>)
    ensures
        final(client)@ == with_workspace(old(client)@, workspace),
{
    if let Some(w) = workspace {
        client.set_workspace(w);
    }
}

/// Puts `client` in the context `context` names, if any.
fn set_context_to(client: &mut Client, context: Option<usize>)
    ensures
        final(client)@ == with_context(old(client)@, context),
{
    if let Some(c) = context {
        client.set_context(c);
    }
}

impl Default for Rules {
    fn default() -> (r: Self)
        ensures
            r == (Rules { float: None, center: None, fullscreen: None, workspace: None, context: None }),
    {
        Rules { float: None, center: None, fullscreen: None, workspace: None, context: None }
    }
}

/// No rule at all.
pub open spec fn no_rules() -> Rules {
    Rules { float: None, center: None, fullscreen: None, workspace: None, context: None }
}

/// What is read so far of the flags in a window's instance name: whether the next flag is
/// inverted, whether it names a workspace, and the rules found.
pub type FlagScan = (bool, bool, Rules);

/// The scan after flag `c`, with `n_workspaces` workspaces: `!` inverts the next flag and `w`
/// makes it a workspace number, kept where that workspace exists; otherwise `f`, `F` and `c` ask
/// (or, inverted, ask not) to float, to be fullscreen and to be centered. Any flag but `!` and
/// `w` ends the inversion and the workspace number.
pub open spec fn scan_flag(st: FlagScan, c: char, n_workspaces: nat) -> FlagScan {
    let (invert, workspace, rules) = st;
    if c == '!' {
        (true, workspace, rules)
    } else if c == 'w' {
        (invert, true, rules)
    } else if workspace {
        let d = c as int - '0' as int;
        (false, false, if '0' <= c <= '9' && d < n_workspaces {
            Rules { workspace: Some(d as usize), ..rules }
        } else {
            rules
        })
    } else if c == 'f' {
        (false, false, Rules { float: Some(!invert), ..rules })
    } else if c == 'F' {
        (false, false, Rules { fullscreen: Some(!invert), ..rules })
    } else if c == 'c' {
        (false, false, Rules { center: Some(!invert), ..rules })
    } else {
        (false, false, rules)
    }
}

/// The scan after all of `flags`, read from the first.
pub open spec fn scan_flags(flags: Seq<char>, n_workspaces: nat) -> FlagScan
    decreases flags.len(),
{
    if flags.len() == 0 {
        (false, false, no_rules())
    } else {
        scan_flag(scan_flags(flags.drop_last(), n_workspaces), flags.last(), n_workspaces)
    }
}

/// The instance name starts with the window manager's prefix, `wzrd:`, and has flags after it.
pub open spec fn has_rule_prefix(instance: Seq<char>) -> bool {
    &&& instance.len() > 5
    &&& instance[0] == 'w' && instance[1] == 'z' && instance[2] == 'r' && instance[3] == 'd'
    &&& instance[4] == ':'
}

/// The rules a window's instance name asks for: the flags after the prefix `wzrd:`, read with
/// `scan_flag`; none without that prefix.
pub open spec fn detected_rules(instance: Seq<char>, n_workspaces: nat) -> Rules {
    if has_rule_prefix(instance) {
        scan_flags(instance.skip(5), n_workspaces).2
    } else {
        no_rules()
    }
}

/// The flags after the prefix are plain ASCII, one byte each.
pub open spec fn flags_ascii(instance: Seq<char>) -> bool {
    has_rule_prefix(instance) ==> forall|i: int| 5 <= i < instance.len() ==> (instance[i] as u32) < 128
}

/// The rules asked for by a window's instance name, with `n_workspaces` workspaces.
pub fn detect_rules(instance: &str, n_workspaces: usize) -> (r: Rules)
    requires
        flags_ascii(instance@),
    ensures
        r == detected_rules(instance@, n_workspaces as nat),
{
    let n: usize = instance.unicode_len();
    let mut rules = Rules { float: None, center: None, fullscreen: None, workspace: None, context: None };
    if n <= 5 {
        return rules;
    }
    if !(instance.get_char(0) == 'w' && instance.get_char(1) == 'z' && instance.get_char(2) == 'r'
        && instance.get_char(3) == 'd' && instance.get_char(4) == ':') {
        return rules;
    }
    let ghost flags = instance@.skip(5);
    let mut invert = false;
    let mut workspace = false;
    let mut i: usize = 5;
    assert(flags.take(0) =~= Seq::<char>::empty());
    while i < n
        invariant
            n == instance@.len(),
            5 <= i <= n,
            flags == instance@.skip(5),
            (invert, workspace, rules) == scan_flags(flags.take(i - 5), n_workspaces as nat),
        decreases n - i,
    {
        let c = instance.get_char(i);
        proof {
            assert(flags.take(i - 4).drop_last() =~= flags.take(i - 5));
            assert(flags.take(i - 4).last() == c);
        }
        if c == '!' {
            invert = true;
        } else if c == 'w' {
            workspace = true;
        } else {
            if workspace {
                if c >= '0' && c <= '9' {
                    let d: u32 = (c as u32) - ('0' as u32);
                    if (d as usize) < n_workspaces {
                        rules.workspace = Some(d as usize);
                    }
                }
            } else if c == 'f' {
                rules.float = Some(!invert);
            } else if c == 'F' {
                rules.fullscreen = Some(!invert);
            } else if c == 'c' {
                rules.center = Some(!invert);
            }
            invert = false;
            workspace = false;
        }
        i = i + 1;
    }
    assert(flags.take(n - 5) =~= flags);
    rules
}

} // verus!
