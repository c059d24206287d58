//! The shell hook: which shell's configuration file receives it, the block
//! that installs it, and its removal.
use vstd::prelude::*;

use crate::chars::{chars_of, concat, join_from, joined_with, trim, trimmed, views_of};

verus! {

/// The shells that the hook supports.
#[derive(PartialEq, Eq, Structural, Clone, Copy, Debug)]
pub enum ShellKind {
    Bash,
    Zsh,
}

/// `pat` occurs in `s` at position `i`.
pub open spec fn occurs_at(s: Seq<char>, pat: Seq<char>, i: int) -> bool {
    0 <= i && i + pat.len() <= s.len() && s.subrange(i, i + pat.len()) == pat
}

/// `pat` occurs somewhere in `s`.
pub open spec fn has_infix(s: Seq<char>, pat: Seq<char>) -> bool {
    exists|i: int| occurs_at(s, pat, i)
}

fn occurs_at_exec(s: &Vec<char>, pat: &Vec<char>, i: usize) -> (r: bool)
    requires
        i + pat.len() <= s.len(),
    ensures
        r == occurs_at(s@, pat@, i as int),
{
    let mut k: usize = 0;
    while k < pat.len()
        invariant
            i + pat.len() <= s.len(),
            k <= pat.len(),
            forall|j: int| 0 <= j < k ==> s@[i + j] == pat@[j],
        decreases pat.len() - k,
    {
        if s[i + k] != pat[k] {
            assert(s@.subrange(i as int, i + pat.len())[k as int] != pat@[k as int]);
            return false;
        }
        k = k + 1;
    }
    assert(s@.subrange(i as int, i + pat.len()) =~= pat@);
    true
}

/// Whether `pat` occurs in `s`.
pub fn contains_text(s: &str, pat: &str) -> (r: bool)
    ensures
        r == has_infix(s@, pat@),
{
    let sv = chars_of(s);
    let pv = chars_of(pat);
    if pv.len() > sv.len() {
        return false;
    }
    let last = sv.len() - pv.len();
    let mut i: usize = 0;
    loop
        invariant
            i <= last,
            last == sv.len() - pv.len(),
            pv.len() <= sv.len(),
            sv@ == s@,
            pv@ == pat@,
            forall|j: int| 0 <= j < i ==> !occurs_at(s@, pat@, j),
        decreases last + 1 - i,
    {
        if occurs_at_exec(&sv, &pv, i) {
            return true;
        }
        if i == last {
            assert forall|j: int| !occurs_at(s@, pat@, j) by {
                if 0 <= j && j + pat@.len() <= s@.len() {
                    assert(j <= i);
                }
            }
            return false;
        }
        i = i + 1;
    }
}

/// The shell that the hook goes to: bash or zsh when the shell announces its
/// version, else the one that the shell's path names; `None` for any other.
pub open spec fn shell_of(bash_version_set: bool, zsh_version_set: bool, shell_path: Seq<char>)
    -> Option<ShellKind> {
    if bash_version_set {
        Some(ShellKind::Bash)
    } else if zsh_version_set {
        Some(ShellKind::Zsh)
    } else if has_infix(shell_path, "bash"@) {
        Some(ShellKind::Bash)
    } else if has_infix(shell_path, "zsh"@) {
        Some(ShellKind::Zsh)
    } else {
        None
    }
}

/// Picks the shell whose configuration receives the hook.
pub fn detect_shell(bash_version_set: bool, zsh_version_set: bool, shell_path: &str) -> (r: Option<
    ShellKind,
>)
    ensures
        r == shell_of(bash_version_set, zsh_version_set, shell_path@),
{
    if bash_version_set {
        Some(ShellKind::Bash)
    } else if zsh_version_set {
        Some(ShellKind::Zsh)
    } else if contains_text(shell_path, "bash") {
        Some(ShellKind::Bash)
    } else if contains_text(shell_path, "zsh") {
        Some(ShellKind::Zsh)
    } else {
        None
    }
}

pub open spec fn shell_name_of(shell: ShellKind) -> Seq<char> {
    match shell {
        ShellKind::Bash => "bash"@,
        ShellKind::Zsh => "zsh"@,
    }
}

impl ShellKind {
    /// The shell's name.
    pub fn name(&self) -> (r: String)
        ensures
            r@ == shell_name_of(*self),
    {
        match self {
            ShellKind::Bash => "bash".to_owned(),
            ShellKind::Zsh => "zsh".to_owned(),
        }
    }
}

/// The configuration file of `shell` under the home directory `home`.
pub fn rc_file_path(home: &str, shell: ShellKind) -> (r: String)
    ensures
        r@ == home@ + match shell {
            ShellKind::Bash => "/.bashrc"@,
            ShellKind::Zsh => "/.zshrc"@,
        },
{
    match shell {
        ShellKind::Bash => concat(home, "/.bashrc"),
        ShellKind::Zsh => concat(home, "/.zshrc"),
    }
}

/// The script that the hook sources for `shell`.
pub fn hook_file_path(shell: ShellKind) -> (r: String)
    ensures
        r@ == "/etc/cco/shell-hooks/"@ + shell_name_of(shell) + "_hook.sh"@,
{
    let name = shell.name();
    let a = concat("/etc/cco/shell-hooks/", name.as_str());
    concat(a.as_str(), "_hook.sh")
}

/// The line that marks the hook in a configuration file.
pub open spec fn hook_marker() -> Seq<char> {
    "# CCO Hook - Copy Command Output"@
}

/// The block appended to a configuration file: the marker, then a guarded
/// `source` of the hook script.
pub fn hook_block(hook_file: &str) -> (r: String)
    ensures
        r@ == "\n# CCO Hook - Copy Command Output\nif [[ -f \""@ + hook_file@ + "\" ]]; then\n    source \""@
            + hook_file@ + "\"\nfi\n"@,
{
    let a = concat("\n# CCO Hook - Copy Command Output\nif [[ -f \"", hook_file);
    let b = concat(a.as_str(), "\" ]]; then\n    source \"");
    let c = concat(b.as_str(), hook_file);
    concat(c.as_str(), "\"\nfi\n")
}

/// Whether a configuration file already holds the hook.
pub fn is_hook_installed(content: &str) -> (r: bool)
    ensures
        r == has_infix(content@, hook_marker()),
{
    contains_text(content, "# CCO Hook - Copy Command Output")
}

/// The home directory whose configuration receives the hook: that of the
/// user who invoked `sudo` (unless root), else `HOME`, else `/tmp`.
pub fn home_dir_from(sudo_user: &Option<String>, home: &Option<String>) -> (r: String)
    ensures
        r@ == match sudo_user.deep_view() {
            Some(u) if u != "root"@ => "/home/"@ + u,
            _ => match home.deep_view() {
                Some(h) => h,
                None => "/tmp"@,
            },
        },
{
    if let Some(u) = sudo_user {
        let root = "root".to_owned();
        if !(*u == root) {
            return concat("/home/", u.as_str());
        }
    }
    match home {
        Some(h) => h.clone(),
        None => "/tmp".to_owned(),
    }
}

/// The pieces of `s` between its `\n` characters (one more than there are).
pub open spec fn split_newlines(s: Seq<char>) -> Seq<Seq<char>>
    decreases s.len(),
{
    if s.len() == 0 {
        seq![seq![]]
    } else {
        let rest = split_newlines(s.drop_last());
        if s.last() == '\n' {
            rest.push(seq![])
        } else {
            rest.update(rest.len() - 1, rest.last().push(s.last()))
        }
    }
}

/// A piece that ended at `\n`, without a `\r` just before it.
pub open spec fn without_cr(l: Seq<char>) -> Seq<char> {
    if l.len() > 0 && l.last() == '\r' {
        l.drop_last()
    } else {
        l
    }
}

/// The lines of a text: split at `\n` or `\r\n`; the final line ending is
/// optional, so an empty last piece is no line.
pub open spec fn lines_of(s: Seq<char>) -> Seq<Seq<char>> {
    let pieces = split_newlines(s);
    let ended = pieces.drop_last().map_values(|l: Seq<char>| without_cr(l));
    if pieces.last().len() == 0 {
        ended
    } else {
        ended.push(pieces.last())
    }
}

/// Relies on `str::lines`: the text's lines, split at `\n` or `\r\n`, a
/// final line ending being optional.
#[verifier::external_body]
fn lines(s: &str) -> (r: Vec<String>)
    ensures
        views_of(r@) == lines_of(s@),
{
    s.lines().map(|l| l.to_string()).collect()
}

pub open spec fn starts_with_fi(l: Seq<char>) -> bool {
    l.len() >= 2 && l[0] == 'f' && l[1] == 'i'
}

fn begins_with_fi(l: &String) -> (r: bool)
    ensures
        r == starts_with_fi(l@),
{
    let v = chars_of(l.as_str());
    v.len() >= 2 && v[0] == 'f' && v[1] == 'i'
}

/// One line of the removal: the marker line opens the hook block and is
/// dropped; inside the block, the line that starts with `fi` (past leading
/// white space) closes it and is dropped; other lines are kept outside the
/// block only, so the lines after the block stay.
pub open spec fn unhook_step(state: (Seq<Seq<char>>, bool), line: Seq<char>) -> (
    Seq<Seq<char>>,
    bool,
) {
    let (kept, inside) = state;
    if trimmed(line) == hook_marker() {
        (kept, true)
    } else if inside && starts_with_fi(trimmed(line)) {
        (kept, false)
    } else if !inside {
        (kept.push(line), false)
    } else {
        (kept, true)
    }
}

/// The lines kept, and whether the block is still open, after `ls`.
pub open spec fn unhook_lines(ls: Seq<Seq<char>>) -> (Seq<Seq<char>>, bool)
    decreases ls.len(),
{
    if ls.len() == 0 {
        (seq![], false)
    } else {
        unhook_step(unhook_lines(ls.drop_last()), ls.last())
    }
}

/// The configuration text with the hook block removed, lines joined by `\n`.
pub fn remove_hook_section(content: &str) -> (r: String)
    ensures
        r@ == joined_with(unhook_lines(lines_of(content@)).0, '\n'),
{
    let ls = lines(content);
    let ghost lv = views_of(ls@);
    let marker = "# CCO Hook - Copy Command Output".to_owned();
    let mut kept: Vec<String> = Vec::new();
    let mut inside = false;
    let mut i: usize = 0;
    assert(lv.take(0) =~= Seq::<Seq<char>>::empty());
    assert(views_of(kept@) =~= Seq::<Seq<char>>::empty());
    while i < ls.len()
        invariant
            i <= ls.len(),
            lv == views_of(ls@),
            marker@ == hook_marker(),
            (views_of(kept@), inside) == unhook_lines(lv.take(i as int)),
        decreases ls.len() - i,
    {
        assert(lv.take(i + 1).drop_last() =~= lv.take(i as int));
        let ghost kv = views_of(kept@);
        let line = &ls[i];
        let t = trim(line.as_str());
        if t == marker {
            inside = true;
        } else if inside && begins_with_fi(&t) {
            inside = false;
        } else if !inside {
            kept.push(line.clone());
            assert(views_of(kept@) =~= kv.push(lv[i as int]));
        }
        i = i + 1;
    }
    assert(lv.take(ls.len() as int) =~= lv);
    assert(views_of(kept@).skip(0) =~= views_of(kept@));
    join_from(&kept, 0, '\n')
}

} // verus!
