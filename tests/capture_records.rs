use cco::capture::{capture_record, command_from_args, get_timestamp, timestamp_from};

fn args(v: &[&str]) -> Vec<String> {
    v.iter().map(|s| s.to_string()).collect()
}

#[test]
fn no_command_words() {
    assert!(command_from_args(&args(&["cco-capture"])).is_none());
    assert!(command_from_args(&args(&[])).is_none());
}

#[test]
fn command_words_joined_with_spaces() {
    assert_eq!(command_from_args(&args(&["cco-capture", "ls"])).unwrap(), "ls");
    assert_eq!(command_from_args(&args(&["cco-capture", "ls", "-la", "/tmp"])).unwrap(), "ls -la /tmp");
}

#[test]
fn escapes_are_stripped_from_output() {
    let r = capture_record("ls".to_string(), "\x1b[31mred\x1b[0m text", "s1".to_string(), 12);
    assert_eq!(r.output, "red text");
    assert_eq!(r.command, "ls");
    assert_eq!(r.session_id, "s1");
    assert_eq!(r.timestamp, 12);
}

#[test]
fn plain_output_is_kept() {
    let r = capture_record("echo".to_string(), "hello\nworld\n", "s".to_string(), 0);
    assert_eq!(r.output, "hello\nworld\n");
}

#[test]
fn clock_is_after_the_epoch() {
    assert!(get_timestamp() > 1_000_000_000);
}

#[test]
fn timestamp_from_elapsed_seconds() {
    assert_eq!(timestamp_from(Some(1_700_000_000)), 1_700_000_000);
    assert_eq!(timestamp_from(None), 0);
}
