//! Deriving the identifier of the current terminal session from the signals
//! that a shell hands its children.
use vstd::prelude::*;

use crate::chars::{append_chars, chars_of, is_alnum, is_alphanumeric, string_of, trim, trimmed};

verus! {

/// The environment signals that name a terminal session. Each is optional:
/// `None` stands for a variable that is not set. `tty_output` is what the
/// terminal-query utility printed, or `None` when it could not be run.
pub struct SessionSignals {
    pub ppid: Option<String>,
    pub window_id: Option<String>,
    pub tmux_pane: Option<String>,
    pub term_session_id: Option<String>,
    pub tty_output: Option<String>,
    pub bash_subshell: Option<String>,
    pub shlvl: Option<String>,
}

/// The first of three optional values that is present.
pub open spec fn first_present(
    a: Option<Seq<char>>,
    b: Option<Seq<char>>,
    c: Option<Seq<char>>,
) -> Option<Seq<char>> {
    if a is Some {
        a
    } else if b is Some {
        b
    } else {
        c
    }
}

/// A present value, or a placeholder.
pub open spec fn or_placeholder(a: Option<Seq<char>>, placeholder: Seq<char>) -> Seq<char> {
    match a {
        Some(v) => v,
        None => placeholder,
    }
}

pub open spec fn dev_prefix() -> Seq<char> {
    seq!['/', 'd', 'e', 'v', '/']
}

pub open spec fn slash_to_underscore(c: char) -> char {
    if c == '/' {
        '_'
    } else {
        c
    }
}

/// A terminal device path with every `/dev/` (found left to right, without
/// overlap) removed and each remaining `/` turned into `_`.
pub open spec fn normalize_tty(s: Seq<char>) -> Seq<char>
    decreases s.len(),
{
    if s.len() == 0 {
        seq![]
    } else if s.len() >= 5 && s.take(5) == dev_prefix() {
        normalize_tty(s.skip(5))
    } else {
        seq![slash_to_underscore(s[0])] + normalize_tty(s.skip(1))
    }
}

/// The part of the identifier that comes from the controlling terminal.
pub open spec fn tty_part(
    tty_output: Option<Seq<char>>,
    bash_subshell: Option<Seq<char>>,
    shlvl: Option<Seq<char>>,
) -> Seq<char> {
    match tty_output {
        None => "no_tty"@,
        Some(out) => {
            let t = trimmed(out);
            if t.len() > 0 && t != "not a tty"@ {
                normalize_tty(t)
            } else {
                or_placeholder(first_present(bash_subshell, shlvl, None), "fallback"@)
            }
        },
    }
}

/// The terminal discriminator: a window, multiplexer pane or terminal-emulator
/// session identifier, in that order of preference, else the terminal part.
pub open spec fn discriminator(s: SessionSignals) -> Seq<char> {
    match first_present(
        s.window_id.deep_view(),
        s.tmux_pane.deep_view(),
        s.term_session_id.deep_view(),
    ) {
        Some(d) => d,
        None => tty_part(s.tty_output.deep_view(), s.bash_subshell.deep_view(), s.shlvl.deep_view()),
    }
}

/// The identifier as assembled, before the filter.
pub open spec fn assembled_id(s: SessionSignals) -> Seq<char> {
    "session_"@ + or_placeholder(s.ppid.deep_view(), "unknown"@) + seq!['_'] + discriminator(s)
}

/// A character that may stand in an identifier.
pub open spec fn id_char(c: char) -> bool {
    is_alnum(c) || c == '_'
}

pub open spec fn id_pred() -> spec_fn(char) -> bool {
    |c: char| id_char(c)
}

/// The characters of `s` that may stand in an identifier, in order.
pub open spec fn keep_id_chars(s: Seq<char>) -> Seq<char> {
    s.filter(id_pred())
}

/// The session identifier that the signals determine.
pub open spec fn session_id_of(s: SessionSignals) -> Seq<char> {
    keep_id_chars(assembled_id(s))
}

/// Two sets of signals that read the same.
pub open spec fn same_signals(a: SessionSignals, b: SessionSignals) -> bool {
    &&& a.ppid.deep_view() == b.ppid.deep_view()
    &&& a.window_id.deep_view() == b.window_id.deep_view()
    &&& a.tmux_pane.deep_view() == b.tmux_pane.deep_view()
    &&& a.term_session_id.deep_view() == b.term_session_id.deep_view()
    &&& a.tty_output.deep_view() == b.tty_output.deep_view()
    &&& a.bash_subshell.deep_view() == b.bash_subshell.deep_view()
    &&& a.shlvl.deep_view() == b.shlvl.deep_view()
}

/// Whatever the signals, the session identifier is non-empty and made only
/// of alphanumeric characters and underscores.
pub proof fn lemma_session_id_well_formed(s: SessionSignals)
    ensures
        session_id_of(s).len() > 0,
        forall|i: int|
            0 <= i < session_id_of(s).len() ==> id_char(#[trigger] session_id_of(s)[i]),
{
    reveal_strlit("session_");
    let a = assembled_id(s);
    assert(a[7] == '_');
    a.lemma_filter_contains(id_pred(), 7);
    assert forall|i: int| 0 <= i < session_id_of(s).len() implies id_char(
        #[trigger] session_id_of(s)[i],
    ) by {
        a.lemma_filter_pred(id_pred(), i);
    }
}

/// The session identifier is determined by the signals: identical environment
/// and terminal state give an identical identifier.
pub proof fn lemma_session_id_deterministic(a: SessionSignals, b: SessionSignals)
    requires
        same_signals(a, b),
    ensures
        session_id_of(a) == session_id_of(b),
{
}

proof fn lemma_keep_id_chars_step(s: Seq<char>, i: int)
    requires
        0 <= i < s.len(),
    ensures
        keep_id_chars(s.take(i + 1)) == if id_char(s[i]) {
            keep_id_chars(s.take(i)).push(s[i])
        } else {
            keep_id_chars(s.take(i))
        },
{
    reveal(Seq::filter);
    assert(s.take(i + 1).drop_last() =~= s.take(i));
}

fn keep_id_chars_exec(v: &Vec<char>) -> (r: Vec<char>)
    ensures
        r@ == keep_id_chars(v@),
{
    let mut out: Vec<char> = Vec::new();
    let mut i: usize = 0;
    proof {
        reveal(Seq::filter);
        assert(v@.take(0) =~= Seq::<char>::empty());
    }
    while i < v.len()
        invariant
            i <= v.len(),
            out@ == keep_id_chars(v@.take(i as int)),
        decreases v.len() - i,
    {
        proof {
            lemma_keep_id_chars_step(v@, i as int);
        }
        let c = v[i];
        if is_alphanumeric(c) || c == '_' {
            out.push(c);
        }
        i = i + 1;
    }
    assert(v@.take(v.len() as int) =~= v@);
    out
}

fn is_dev_at(v: &Vec<char>, i: usize) -> (r: bool)
    requires
        i <= v.len(),
    ensures
        r == (v@.skip(i as int).len() >= 5 && v@.skip(i as int).take(5) == dev_prefix()),
{
    if v.len() - i >= 5 && v[i] == '/' && v[i + 1] == 'd' && v[i + 2] == 'e' && v[i + 3] == 'v'
        && v[i + 4] == '/' {
        assert(v@.skip(i as int).take(5) =~= dev_prefix());
        true
    } else {
        if v.len() - i >= 5 {
            let ghost t = v@.skip(i as int).take(5);
            assert(t[0] == v@[i as int] && t[1] == v@[i + 1] && t[2] == v@[i + 2] && t[3] == v@[i
                + 3] && t[4] == v@[i + 4]);
            assert(t != dev_prefix() || v@[i as int] == '/' && v@[i + 1] == 'd' && v@[i + 2]
                == 'e' && v@[i + 3] == 'v' && v@[i + 4] == '/');
        }
        false
    }
}

fn normalize_tty_exec(v: &Vec<char>) -> (r: Vec<char>)
    ensures
        r@ == normalize_tty(v@),
{
    let mut out: Vec<char> = Vec::new();
    let mut i: usize = 0;
    assert(v@.skip(0) =~= v@);
    while i < v.len()
        invariant
            i <= v.len(),
            out@ + normalize_tty(v@.skip(i as int)) == normalize_tty(v@),
        decreases v.len() - i,
    {
        let ghost rest = v@.skip(i as int);
        if is_dev_at(v, i) {
            assert(rest.skip(5) =~= v@.skip(i + 5));
            i = i + 5;
        } else {
            let c = v[i];
            let d = if c == '/' {
                '_'
            } else {
                c
            };
            assert(rest.skip(1) =~= v@.skip(i + 1));
            assert(out@.push(d) + normalize_tty(v@.skip(i + 1)) =~= out@ + normalize_tty(rest));
            out.push(d);
            i = i + 1;
        }
    }
    assert(v@.skip(v.len() as int) =~= Seq::<char>::empty());
    assert(out@ + Seq::<char>::empty() =~= out@);
    out
}

fn present_chars(o: &Option<String>) -> (r: Option<Vec<char>>)
    ensures
        match r {
            Some(v) => o.deep_view() == Some(v@),
            None => o is None,
        },
{
    match o {
        Some(s) => Some(chars_of(s.as_str())),
        None => None,
    }
}

fn tty_part_exec(s: &SessionSignals) -> (r: Vec<char>)
    ensures
        r@ == tty_part(s.tty_output.deep_view(), s.bash_subshell.deep_view(), s.shlvl.deep_view()),
{
    match &s.tty_output {
        None => chars_of("no_tty"),
        Some(out) => {
            let t = trim(out.as_str());
            let not_a_tty = "not a tty".to_owned();
            let tv = chars_of(t.as_str());
            if tv.len() > 0 && !(t == not_a_tty) {
                normalize_tty_exec(&tv)
            } else {
                match present_chars(&s.bash_subshell) {
                    Some(v) => v,
                    None => match present_chars(&s.shlvl) {
                        Some(v) => v,
                        None => chars_of("fallback"),
                    },
                }
            }
        },
    }
}

/// Derives the identifier of the current terminal session. It never fails:
/// each missing signal has a fallback, down to fixed placeholders. Only
/// alphanumeric characters and `_` are kept.
pub fn get_session_id(signals: &SessionSignals) -> (r: String)
    ensures
        r@ == session_id_of(*signals),
        r@.len() > 0,
        forall|i: int| 0 <= i < r@.len() ==> id_char(#[trigger] r@[i]),
{
    proof {
        lemma_session_id_well_formed(*signals);
    }
    let mut raw = chars_of("session_");
    let ppid = match present_chars(&signals.ppid) {
        Some(v) => v,
        None => chars_of("unknown"),
    };
    append_chars(&mut raw, &ppid);
    raw.push('_');
    let disc = match present_chars(&signals.window_id) {
        Some(v) => v,
        None => match present_chars(&signals.tmux_pane) {
            Some(v) => v,
            None => match present_chars(&signals.term_session_id) {
                Some(v) => v,
                None => tty_part_exec(signals),
            },
        },
    };
    append_chars(&mut raw, &disc);
    assert(raw@ =~= assembled_id(*signals));
    string_of(&keep_id_chars_exec(&raw))
}

} // verus!
