//! The command-output store: records, the file that holds each session's
//! record, and the choice of the record that a retrieval returns.
use vstd::prelude::*;

use crate::chars::{append_chars, chars_of, concat, string_of};

verus! {

/// One captured command and its output.
#[derive(Debug)]
pub struct CommandOutput {
    pub command: String,
    pub output: String,
    pub timestamp: u64,
    pub session_id: String,
}

pub struct RecordView {
    pub command: Seq<char>,
    pub output: Seq<char>,
    pub timestamp: u64,
    pub session_id: Seq<char>,
}

impl View for CommandOutput {
    type V = RecordView;

    open spec fn view(&self) -> RecordView {
        RecordView {
            command: self.command@,
            output: self.output@,
            timestamp: self.timestamp,
            session_id: self.session_id@,
        }
    }
}

impl CommandOutput {
    /// A copy with the same contents.
    pub fn duplicate(&self) -> (r: CommandOutput)
        ensures
            r@ == self@,
    {
        CommandOutput {
            command: self.command.clone(),
            output: self.output.clone(),
            timestamp: self.timestamp,
            session_id: self.session_id.clone(),
        }
    }
}

/// The text that a retrieval hands on: the command alone, the output alone,
/// or the command, a line break and the output.
pub open spec fn composed(rec: RecordView, command_only: bool, output_only: bool) -> Seq<char> {
    if command_only {
        rec.command
    } else if output_only {
        rec.output
    } else {
        rec.command + seq!['\n'] + rec.output
    }
}

impl CommandOutput {
    /// The text to hand on; `command_only` wins over `output_only`.
    pub fn compose_text(&self, command_only: bool, output_only: bool) -> (r: String)
        ensures
            r@ == composed(self@, command_only, output_only),
    {
        if command_only {
            self.command.clone()
        } else if output_only {
            self.output.clone()
        } else {
            let mut v = chars_of(self.command.as_str());
            v.push('\n');
            append_chars(&mut v, &chars_of(self.output.as_str()));
            string_of(&v)
        }
    }
}

/// The failures that reach the caller.
#[derive(Debug)]
pub enum CcoError {
    /// The platform has no user cache directory.
    NoCacheDir,
    /// No record could be read from the store.
    NoRecentOutput,
    /// The store directory or a record file could not be read or written.
    Io(String),
}

impl CcoError {
    /// The message shown to the user.
    pub fn message(&self) -> (r: String)
        ensures
            r@ == match self {
                CcoError::NoCacheDir => "No cache directory found"@,
                CcoError::NoRecentOutput => "No recent command output found"@,
                CcoError::Io(m) => "IO error: "@ + m@,
            },
    {
        match self {
            CcoError::NoCacheDir => "No cache directory found".to_owned(),
            CcoError::NoRecentOutput => "No recent command output found".to_owned(),
            CcoError::Io(m) => concat("IO error: ", m.as_str()),
        }
    }
}

/// One file of the store directory: its name, and the record it holds, or
/// `None` where it could not be read or parsed.
#[derive(Debug)]
pub struct StoreEntry {
    pub file_name: String,
    pub record: Option<CommandOutput>,
}

pub struct EntryView {
    pub file_name: Seq<char>,
    pub record: Option<RecordView>,
}

impl View for StoreEntry {
    type V = EntryView;

    open spec fn view(&self) -> EntryView {
        EntryView {
            file_name: self.file_name@,
            record: match self.record {
                Some(r) => Some(r@),
                None => None,
            },
        }
    }
}

/// A directory listing, as a sequence of entries.
pub open spec fn dir_view(es: Seq<StoreEntry>) -> Seq<EntryView> {
    es.map_values(|e: StoreEntry| e@)
}

pub open spec fn result_view(r: Result<CommandOutput, CcoError>) -> Result<RecordView, CcoError> {
    match r {
        Ok(c) => Ok(c@),
        Err(e) => Err(e),
    }
}

pub open spec fn json_suffix() -> Seq<char> {
    seq!['.', 'j', 's', 'o', 'n']
}

/// The name of the file that holds the record of session `id`.
pub open spec fn file_name_of(id: Seq<char>) -> Seq<char> {
    id + json_suffix()
}

/// Entry `i` is the current session's file and holds a record.
pub open spec fn is_own(dir: Seq<EntryView>, id: Seq<char>, i: int) -> bool {
    0 <= i < dir.len() && dir[i].file_name == file_name_of(id) && dir[i].record is Some
}

/// Entry `i` holds a record.
pub open spec fn is_candidate(dir: Seq<EntryView>, i: int) -> bool {
    0 <= i < dir.len() && dir[i].record is Some
}

pub open spec fn has_own(dir: Seq<EntryView>, id: Seq<char>) -> bool {
    exists|i: int| is_own(dir, id, i)
}

pub open spec fn has_candidate(dir: Seq<EntryView>) -> bool {
    exists|i: int| is_candidate(dir, i)
}

/// Entry `i` holds a record with the greatest timestamp among the candidates.
pub open spec fn is_latest(dir: Seq<EntryView>, i: int) -> bool {
    &&& is_candidate(dir, i)
    &&& forall|j: int|
        is_candidate(dir, j) ==> (#[trigger] dir[j]).record->Some_0.timestamp
            <= dir[i].record->Some_0.timestamp
}

/// What a retrieval for session `id` may return from the listing `dir`: the
/// session's own record if its file parses; else a record with the greatest
/// timestamp (any one on a tie); else `NoRecentOutput`.
pub open spec fn read_latest_allows(
    dir: Seq<EntryView>,
    id: Seq<char>,
    res: Result<RecordView, CcoError>,
) -> bool {
    if has_own(dir, id) {
        exists|i: int|
            is_own(dir, id, i) && (forall|j: int| 0 <= j < i ==> !is_own(dir, id, j)) && res == Ok::<RecordView, CcoError>(
                dir[i].record->Some_0,
            )
    } else if has_candidate(dir) {
        exists|i: int| is_latest(dir, i) && res == Ok::<RecordView, CcoError>(dir[i].record->Some_0)
    } else {
        res == Err::<RecordView, CcoError>(CcoError::NoRecentOutput)
    }
}

/// The name of the file that holds the record of `session_id`.
pub fn record_file_name(session_id: &str) -> (r: String)
    ensures
        r@ == file_name_of(session_id@),
{
    let mut v = chars_of(session_id);
    v.push('.');
    v.push('j');
    v.push('s');
    v.push('o');
    v.push('n');
    assert(v@ =~= file_name_of(session_id@));
    string_of(&v)
}

/// Chooses the record to return for session `current_id` from the store's
/// listing: the session's own record when its file parsed, else the record
/// with the greatest timestamp among all entries that parsed, else
/// `NoRecentOutput`. Entries that did not parse are skipped.
pub fn find_latest_output(current_id: &str, entries: &Vec<StoreEntry>) -> (r: Result<
    CommandOutput,
    CcoError,
>)
    ensures
        read_latest_allows(dir_view(entries@), current_id@, result_view(r)),
{
    let ghost dir = dir_view(entries@);
    let own_name = record_file_name(current_id);
    let n = entries.len();
    let mut i: usize = 0;
    while i < n
        invariant
            n == entries.len(),
            dir == dir_view(entries@),
            own_name@ == file_name_of(current_id@),
            i <= n,
            forall|j: int| 0 <= j < i ==> !is_own(dir, current_id@, j),
        decreases n - i,
    {
        let e = &entries[i];
        if e.file_name == own_name {
            match &e.record {
                Some(rec) => {
                    assert(is_own(dir, current_id@, i as int));
                    return Ok(rec.duplicate());
                },
                None => {},
            }
        }
        i = i + 1;
    }
    assert(!has_own(dir, current_id@));
    let mut best: Option<usize> = None;
    let mut k: usize = 0;
    while k < n
        invariant
            n == entries.len(),
            dir == dir_view(entries@),
            k <= n,
            match best {
                None => forall|j: int| 0 <= j < k ==> !is_candidate(dir, j),
                Some(b) => b < k && is_candidate(dir, b as int) && forall|j: int|
                    0 <= j < k && is_candidate(dir, j) ==> (#[trigger] dir[j]).record->Some_0.timestamp
                        <= dir[b as int].record->Some_0.timestamp,
            },
        decreases n - k,
    {
        let e = &entries[k];
        match &e.record {
            Some(rec) => {
                let better = match best {
                    None => true,
                    Some(b) => match &entries[b].record {
                        Some(cur) => rec.timestamp > cur.timestamp,
                        None => true,
                    },
                };
                if better {
                    best = Some(k);
                }
            },
            None => {},
        }
        k = k + 1;
    }
    match best {
        None => Err(CcoError::NoRecentOutput),
        Some(b) => match &entries[b].record {
            Some(rec) => {
                assert(is_latest(dir, b as int));
                Ok(rec.duplicate())
            },
            None => Err(CcoError::NoRecentOutput),
        },
    }
}

pub open spec fn other_name(name: Seq<char>) -> spec_fn(EntryView) -> bool {
    |e: EntryView| e.file_name != name
}

/// The listing after `rec` is written: any file of the same name is replaced
/// by one that holds `rec`; every other entry stays as it was.
pub open spec fn written(dir: Seq<EntryView>, rec: RecordView) -> Seq<EntryView> {
    dir.filter(other_name(file_name_of(rec.session_id))).push(
        EntryView { file_name: file_name_of(rec.session_id), record: Some(rec) },
    )
}

proof fn lemma_filter_idempotent(s: Seq<EntryView>, p: spec_fn(EntryView) -> bool)
    ensures
        s.filter(p).filter(p) == s.filter(p),
    decreases s.len(),
{
    reveal(Seq::filter);
    if s.len() > 0 {
        lemma_filter_idempotent(s.drop_last(), p);
        let sub = s.drop_last().filter(p);
        if p(s.last()) {
            assert(sub.push(s.last()).drop_last() =~= sub);
        }
    }
}

proof fn lemma_written_names(dir: Seq<EntryView>, rec: RecordView)
    ensures
        written(dir, rec).len() > 0,
        written(dir, rec).last() == (EntryView {
            file_name: file_name_of(rec.session_id),
            record: Some(rec),
        }),
        forall|i: int|
            0 <= i < written(dir, rec).len() - 1 ==> (#[trigger] written(dir, rec)[i]).file_name
                != file_name_of(rec.session_id),
{
    let p = other_name(file_name_of(rec.session_id));
    assert forall|i: int| 0 <= i < written(dir, rec).len() - 1 implies (#[trigger] written(
        dir,
        rec,
    )[i]).file_name != file_name_of(rec.session_id) by {
        dir.lemma_filter_pred(p, i);
    }
}

/// A retrieval right after a write, for the same session, returns the record
/// just written.
pub proof fn lemma_write_then_read(
    dir: Seq<EntryView>,
    rec: RecordView,
    res: Result<RecordView, CcoError>,
)
    requires
        read_latest_allows(written(dir, rec), rec.session_id, res),
    ensures
        res == Ok::<RecordView, CcoError>(rec),
{
    let w = written(dir, rec);
    lemma_written_names(dir, rec);
    assert(is_own(w, rec.session_id, w.len() - 1));
    let i = choose|i: int|
        is_own(w, rec.session_id, i) && (forall|j: int| 0 <= j < i ==> !is_own(w, rec.session_id, j))
            && res == Ok::<RecordView, CcoError>(w[i].record->Some_0);
    if i < w.len() - 1 {
        assert(w[i].file_name != file_name_of(rec.session_id));
    }
}

/// Writing twice for one session leaves what the second write alone leaves:
/// exactly one file of that session, holding the second record.
pub proof fn lemma_write_twice(dir: Seq<EntryView>, first: RecordView, second: RecordView)
    requires
        first.session_id == second.session_id,
    ensures
        written(written(dir, first), second) == written(dir, second),
        forall|i: int|
            0 <= i < written(dir, second).len() && (#[trigger] written(dir, second)[i]).file_name
                == file_name_of(second.session_id) ==> i == written(dir, second).len() - 1,
        written(dir, second).last().record == Some(second),
{
    let p = other_name(file_name_of(second.session_id));
    let e1 = EntryView { file_name: file_name_of(first.session_id), record: Some(first) };
    reveal(Seq::filter);
    assert(dir.filter(p).push(e1).drop_last() =~= dir.filter(p));
    assert(dir.filter(p).push(e1).filter(p) == dir.filter(p).filter(p));
    lemma_filter_idempotent(dir, p);
    lemma_written_names(dir, second);
}

/// Two writes for one session into an empty store: a retrieval for any
/// session, that one or another, returns the second record.
pub proof fn lemma_write_twice_read_any(
    first: RecordView,
    second: RecordView,
    id: Seq<char>,
    res: Result<RecordView, CcoError>,
)
    requires
        first.session_id == second.session_id,
        read_latest_allows(written(written(Seq::empty(), first), second), id, res),
    ensures
        res == Ok::<RecordView, CcoError>(second),
{
    let w = written(written(Seq::<EntryView>::empty(), first), second);
    lemma_write_twice(Seq::empty(), first, second);
    reveal(Seq::filter);
    assert(Seq::<EntryView>::empty().filter(other_name(file_name_of(second.session_id)))
        =~= Seq::<EntryView>::empty());
    assert(w.len() == 1);
    assert(is_candidate(w, 0));
    if has_own(w, id) {
        let i = choose|i: int|
            is_own(w, id, i) && (forall|j: int| 0 <= j < i ==> !is_own(w, id, j)) && res == Ok::<
                RecordView,
                CcoError,
            >(w[i].record->Some_0);
        assert(i == 0);
    } else {
        let i = choose|i: int| is_latest(w, i) && res == Ok::<RecordView, CcoError>(w[i].record->Some_0);
        assert(i == 0);
    }
}

/// With no readable record anywhere in the store, a retrieval fails with
/// `NoRecentOutput`, whatever the session.
pub proof fn lemma_empty_store(dir: Seq<EntryView>, id: Seq<char>, res: Result<RecordView, CcoError>)
    requires
        forall|i: int| 0 <= i < dir.len() ==> (#[trigger] dir[i]).record is None,
        read_latest_allows(dir, id, res),
    ensures
        res == Err::<RecordView, CcoError>(CcoError::NoRecentOutput),
{
}

} // verus!
