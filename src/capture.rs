//! Building the record of a captured command.
use vstd::prelude::*;

use crate::chars::{join_from, joined_with, views_of};
use crate::session::{get_session_id, session_id_of, SessionSignals};
use crate::store::{CcoError, CommandOutput, RecordView};

verus! {

/// What `strip_ansi_escapes::strip_str` leaves of a text.
pub uninterp spec fn ansi_stripped(s: Seq<char>) -> Seq<char>;

/// Relies on `strip_ansi_escapes::strip_str`: the text without its terminal
/// control sequences (the crate states that the result is always UTF-8).
#[verifier::external_body]
fn strip_escapes(s: &str) -> (r: String)
    ensures
        r@ == ansi_stripped(s@),
{
    strip_ansi_escapes::strip_str(s)
}

/// Relies on `SystemTime::elapsed` from `UNIX_EPOCH`: whole seconds since the
/// epoch, or `None` for a clock set before it.
#[verifier::external_body]
fn seconds_since_epoch() -> (r: Option<u64>) {
    std::time::UNIX_EPOCH.elapsed().ok().map(|d| d.as_secs())
}

/// The timestamp from the seconds elapsed since the epoch: those seconds, or
/// 0 for a clock set before the epoch.
pub fn timestamp_from(elapsed: Option<u64>) -> (r: u64)
    ensures
        r == match elapsed {
            Some(s) => s,
            None => 0,
        },
{
    match elapsed {
        Some(s) => s,
        None => 0,
    }
}

/// The current time in whole seconds since the epoch; 0 for a clock set
/// before it.
pub fn get_timestamp() -> (r: u64) {
    timestamp_from(seconds_since_epoch())
}

/// The current session's identifier, which never fails to be found.
pub fn get_current_session_id(signals: &SessionSignals) -> (r: Result<String, CcoError>)
    ensures
        r matches Ok(s) && s@ == session_id_of(*signals),
{
    Ok(get_session_id(signals))
}

/// The command text from a program's arguments: every argument after the
/// program's name, joined with spaces; `None` when there is none.
pub fn command_from_args(args: &Vec<String>) -> (r: Option<String>)
    ensures
        args.len() < 2 <==> r is None,
        r matches Some(c) ==> c@ == joined_with(views_of(args@).skip(1), ' '),
{
    if args.len() < 2 {
        None
    } else {
        Some(join_from(args, 1, ' '))
    }
}

/// The record of a captured command: its output is stored with terminal
/// control sequences stripped.
pub fn capture_record(command: String, raw_output: &str, session_id: String, timestamp: u64) -> (r:
    CommandOutput)
    ensures
        r@ == (RecordView {
            command: command@,
            output: ansi_stripped(raw_output@),
            timestamp,
            session_id: session_id@,
        }),
{
    CommandOutput { command, output: strip_escapes(raw_output), timestamp, session_id }
}

} // verus!
