use cco::capture::get_current_session_id;
use cco::session::{get_session_id, SessionSignals};

fn s(v: &str) -> Option<String> {
    Some(v.to_string())
}

fn none() -> SessionSignals {
    SessionSignals {
        ppid: None,
        window_id: None,
        tmux_pane: None,
        term_session_id: None,
        tty_output: None,
        bash_subshell: None,
        shlvl: None,
    }
}

fn well_formed(id: &str) -> bool {
    !id.is_empty() && id.chars().all(|c| c.is_alphanumeric() || c == '_')
}

#[test]
fn window_id_is_the_discriminator() {
    let mut sig = none();
    sig.ppid = s("123");
    sig.window_id = s("456");
    sig.tmux_pane = s("%1");
    sig.tty_output = s("/dev/pts/3");
    assert_eq!(get_session_id(&sig), "session_123_456");
}

#[test]
fn pane_comes_before_terminal_session() {
    let mut sig = none();
    sig.ppid = s("7");
    sig.tmux_pane = s("%12");
    sig.term_session_id = s("term:ABC");
    assert_eq!(get_session_id(&sig), "session_7_12");
}

#[test]
fn terminal_session_id_used_last() {
    let mut sig = none();
    sig.ppid = s("7");
    sig.term_session_id = s("term:ABC-1");
    assert_eq!(get_session_id(&sig), "session_7_termABC1");
}

#[test]
fn no_signal_at_all() {
    assert_eq!(get_session_id(&none()), "session_unknown_no_tty");
}

#[test]
fn tty_path_is_normalized_and_trimmed() {
    let mut sig = none();
    sig.ppid = s("42");
    sig.tty_output = s("  /dev/pts/3\n");
    assert_eq!(get_session_id(&sig), "session_42_pts_3");
}

#[test]
fn not_a_tty_falls_back_to_subshell_level() {
    let mut sig = none();
    sig.ppid = s("42");
    sig.tty_output = s("not a tty\n");
    sig.bash_subshell = s("0");
    sig.shlvl = s("2");
    assert_eq!(get_session_id(&sig), "session_42_0");
    sig.bash_subshell = None;
    assert_eq!(get_session_id(&sig), "session_42_2");
    sig.shlvl = None;
    assert_eq!(get_session_id(&sig), "session_42_fallback");
}

#[test]
fn empty_tty_output_falls_back() {
    let mut sig = none();
    sig.ppid = s("5");
    sig.tty_output = s("   \n");
    assert_eq!(get_session_id(&sig), "session_5_fallback");
}

#[test]
fn only_alphanumerics_and_underscores_survive() {
    let mut sig = none();
    sig.ppid = s("1-2 3");
    sig.window_id = s("a:b.c/d$é");
    let id = get_session_id(&sig);
    assert_eq!(id, "session_123_abcdé");
    assert!(well_formed(&id));
}

#[test]
fn odd_signals_still_give_a_well_formed_id() {
    let mut sig = none();
    sig.ppid = s("");
    sig.window_id = s("!!!");
    let id = get_session_id(&sig);
    assert_eq!(id, "session__");
    assert!(well_formed(&id));
}

#[test]
fn derivation_is_deterministic() {
    let mut sig = none();
    sig.ppid = s("99");
    sig.tty_output = s("/dev/ttys004");
    let a = get_session_id(&sig);
    let b = get_session_id(&sig);
    assert_eq!(a, b);
    assert_eq!(a, "session_99_ttys004");
}

#[test]
fn current_session_id_never_fails() {
    let mut sig = none();
    sig.ppid = s("8");
    sig.window_id = s("9");
    assert_eq!(get_current_session_id(&sig).unwrap(), "session_8_9");
}
