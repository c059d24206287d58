use cco::store::{find_latest_output, record_file_name, CcoError, CommandOutput, StoreEntry};

fn rec(id: &str, cmd: &str, out: &str, ts: u64) -> CommandOutput {
    CommandOutput {
        command: cmd.to_string(),
        output: out.to_string(),
        timestamp: ts,
        session_id: id.to_string(),
    }
}

fn entry(id: &str, cmd: &str, out: &str, ts: u64) -> StoreEntry {
    StoreEntry { file_name: format!("{}.json", id), record: Some(rec(id, cmd, out, ts)) }
}

fn corrupt(name: &str) -> StoreEntry {
    StoreEntry { file_name: name.to_string(), record: None }
}

#[test]
fn file_name_of_a_session() {
    assert_eq!(record_file_name("session_1_pts_3"), "session_1_pts_3.json");
}

#[test]
fn own_session_wins_over_newer_ones() {
    let entries = vec![entry("B", "ls", "b", 500), entry("A", "pwd", "/home", 100)];
    let r = find_latest_output("A", &entries).unwrap();
    assert_eq!(r.command, "pwd");
    assert_eq!(r.output, "/home");
    assert_eq!(r.timestamp, 100);
}

#[test]
fn empty_store_has_no_recent_output() {
    let entries: Vec<StoreEntry> = Vec::new();
    assert!(matches!(find_latest_output("any", &entries), Err(CcoError::NoRecentOutput)));
}

#[test]
fn only_corrupt_files_give_no_recent_output() {
    let entries = vec![corrupt("A.json"), corrupt("notes.txt")];
    assert!(matches!(find_latest_output("A", &entries), Err(CcoError::NoRecentOutput)));
}

#[test]
fn other_session_gets_the_newest_record() {
    let entries = vec![entry("A", "echo a", "a", 100), entry("B", "echo b", "b", 200)];
    let r = find_latest_output("C", &entries).unwrap();
    assert_eq!(r.session_id, "B");
    assert_eq!(r.command, "echo b");
    assert_eq!(r.timestamp, 200);
}

#[test]
fn corrupt_file_is_skipped() {
    let entries = vec![corrupt("broken.json"), entry("A", "date", "today", 7)];
    let r = find_latest_output("Z", &entries).unwrap();
    assert_eq!(r.command, "date");
}

#[test]
fn corrupt_own_file_falls_back_to_scan() {
    let entries = vec![corrupt("A.json"), entry("B", "whoami", "me", 3)];
    let r = find_latest_output("A", &entries).unwrap();
    assert_eq!(r.session_id, "B");
}

#[test]
fn every_parsed_entry_is_ranked() {
    let mut e = entry("A", "top", "x", 900);
    e.file_name = "A.txt".to_string();
    let entries = vec![e, entry("B", "ls", "y", 10), corrupt("notes.txt")];
    let r = find_latest_output("C", &entries).unwrap();
    assert_eq!(r.command, "top");
}

#[test]
fn second_write_is_seen_from_another_session() {
    let name = record_file_name("A");
    let mut entries = vec![StoreEntry { file_name: name.clone(), record: Some(rec("A", "c1", "o1", 50)) }];
    entries.retain(|e| e.file_name != name);
    entries.push(StoreEntry { file_name: name, record: Some(rec("A", "c2", "o2", 50)) });
    assert_eq!(entries.len(), 1);
    let r = find_latest_output("B", &entries).unwrap();
    assert_eq!(r.command, "c2");
    assert_eq!(r.output, "o2");
}

#[test]
fn record_at_time_zero_is_still_found() {
    let entries = vec![entry("A", "true", "", 0)];
    let r = find_latest_output("B", &entries).unwrap();
    assert_eq!(r.command, "true");
}

#[test]
fn tie_returns_one_of_the_newest() {
    let entries = vec![entry("A", "a", "", 5), entry("B", "b", "", 9), entry("C", "c", "", 9)];
    let r = find_latest_output("D", &entries).unwrap();
    assert_eq!(r.timestamp, 9);
    assert!(r.command == "b" || r.command == "c");
}

#[test]
fn write_then_read_same_session() {
    let mut entries = vec![entry("B", "late", "x", 1000)];
    let name = record_file_name("A");
    entries.retain(|e| e.file_name != name);
    entries.push(StoreEntry { file_name: name, record: Some(rec("A", "make", "built", 10)) });
    let r = find_latest_output("A", &entries).unwrap();
    assert_eq!(r.command, "make");
    assert_eq!(r.output, "built");
}

#[test]
fn composed_text() {
    let r = rec("A", "ls", "a b", 1);
    assert_eq!(r.compose_text(false, false), "ls\na b");
    assert_eq!(r.compose_text(true, false), "ls");
    assert_eq!(r.compose_text(false, true), "a b");
    assert_eq!(r.compose_text(true, true), "ls");
}

#[test]
fn duplicate_keeps_fields() {
    let r = rec("A", "ls", "out", 4);
    let d = r.duplicate();
    assert_eq!(d.command, "ls");
    assert_eq!(d.output, "out");
    assert_eq!(d.timestamp, 4);
    assert_eq!(d.session_id, "A");
}

#[test]
fn error_messages() {
    assert_eq!(CcoError::NoCacheDir.message(), "No cache directory found");
    assert_eq!(CcoError::NoRecentOutput.message(), "No recent command output found");
    assert_eq!(CcoError::Io("denied".to_string()).message(), "IO error: denied");
}
