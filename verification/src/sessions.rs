//! From the processes and the log store, as found at one moment, to the
//! list of sessions.
//!
//! Each directory of the log store is matched with the processes that work
//! in the project it is named after. The i-th of those processes is paired
//! with the i-th newest session log of the directory; the log gives the
//! session, and logs written to a moment ago may raise its status.

use vstd::prelude::*;
use vstd::utf8::encode_utf8;
use crate::codec::{convert_dir_name_to_path, convert_path_to_dir_name, dir_name_of, path_of};
use crate::json::{decode_record, decoded};
use crate::model::{
    ClaudeProcess, LogFile, LogFileModel, ProcessModel, ProjectDir, ProjectDirModel, Session,
    SessionModel, SessionStatus, SessionsResponse,
};
use crate::order::{
    bytes_less, insert_sorted, is_ranking, is_sorted, lemma_insert_at, lemma_lex_less_asymmetric,
    lemma_lex_less_between, lemma_stable_sort_elements, lemma_stable_sort_is_sorted, lex_less,
    stable_sort,
};
use crate::parser::{decode_all, parse_session_file, summary, tail_of};
use crate::remote::{get_github_url, github_url_of};
use crate::status::{priority_of, status_sort_priority};
use crate::text::{ends_with, has_prefix, has_suffix, starts_with, str_eq, to_chars};

verus! {

/// A log written to less than three seconds ago is fresh (nanoseconds).
pub const FRESH_WINDOW: u64 = 3_000_000_000;

/// A log written to less than ten seconds ago may raise the status of a
/// session of its directory (nanoseconds).
pub const RECONCILE_WINDOW: u64 = 10_000_000_000;

/// A sub-agent log written to less than thirty seconds ago counts as
/// active (nanoseconds).
pub const SUBAGENT_WINDOW: u64 = 30_000_000_000;

/// Number of lines at the start of a sub-agent log in which its session
/// id is looked for.
pub const SUBAGENT_HEAD_LINES: usize = 5;

/// The file was written to at or before `now`, and less than `limit`
/// before it.
pub open spec fn age_below(modified: u64, now: u64, limit: u64) -> bool {
    modified <= now && now - modified < limit
}

/// The name is that of a sub-agent's log.
pub open spec fn is_subagent_name(name: Seq<char>) -> bool {
    has_prefix(name, "agent-"@) && has_suffix(name, ".jsonl"@)
}

/// The name is that of a session's log: something, then the extension
/// `.jsonl`, and not the name of a sub-agent's log.
pub open spec fn is_session_log_name(name: Seq<char>) -> bool {
    name.len() > ".jsonl"@.len() && has_suffix(name, ".jsonl"@) && !is_subagent_name(name)
}

/// The positions of the session logs among the files, in order.
pub open spec fn session_log_indices(files: Seq<LogFileModel>) -> Seq<usize>
    decreases files.len(),
{
    if files.len() == 0 {
        Seq::<usize>::empty()
    } else if is_session_log_name(files.last().name) {
        session_log_indices(files.drop_last()).push((files.len() - 1) as usize)
    } else {
        session_log_indices(files.drop_last())
    }
}

/// The order of two files, given by position: the one written to later
/// comes first.
pub open spec fn newer(files: Seq<LogFileModel>) -> spec_fn(usize, usize) -> bool {
    |a: usize, b: usize| files[a as int].modified > files[b as int].modified
}

/// The positions of the session logs, newest first; logs written to at
/// the same time keep the order in which they were listed.
pub open spec fn logs_newest_first(files: Seq<LogFileModel>) -> Seq<usize> {
    stable_sort(session_log_indices(files), newer(files))
}

/// The session id of the first of the lines that is a record with one.
pub open spec fn first_session_id(lines: Seq<Seq<char>>) -> Option<Seq<char>>
    decreases lines.len(),
{
    if lines.len() == 0 {
        None
    } else {
        match decoded(lines[0]) {
            Some(record) => if record.session_id is Some {
                record.session_id
            } else {
                first_session_id(lines.drop_first())
            },
            None => first_session_id(lines.drop_first()),
        }
    }
}

/// The session that a sub-agent's log belongs to, as its first five
/// lines say.
pub open spec fn subagent_session_id(lines: Seq<Seq<char>>) -> Option<Seq<char>> {
    if lines.len() > SUBAGENT_HEAD_LINES {
        first_session_id(lines.take(SUBAGENT_HEAD_LINES as int))
    } else {
        first_session_id(lines)
    }
}

/// The file is the log of an active sub-agent of the session `id`.
pub open spec fn is_active_subagent(file: LogFileModel, id: Seq<char>, now: u64) -> bool {
    &&& is_subagent_name(file.name)
    &&& age_below(file.modified, now, SUBAGENT_WINDOW)
    &&& subagent_session_id(file.lines) == Some(id)
}

/// Number of files that are logs of active sub-agents of the session.
pub open spec fn active_subagents(files: Seq<LogFileModel>, id: Seq<char>, now: u64) -> nat
    decreases files.len(),
{
    if files.len() == 0 {
        0
    } else if is_active_subagent(files.last(), id, now) {
        active_subagents(files.drop_last(), id, now) + 1
    } else {
        active_subagents(files.drop_last(), id, now)
    }
}

/// The remote address of the directory's project, made browsable.
pub open spec fn remote_of(dir: ProjectDirModel) -> Option<Seq<char>> {
    match dir.remote {
        Some(output) => github_url_of(output),
        None => None,
    }
}

/// The session that one log of the directory gives for the process.
pub open spec fn log_session(
    dir: ProjectDirModel,
    file: LogFileModel,
    process: ProcessModel,
    now: u64,
) -> Option<SessionModel> {
    summary(
        decode_all(tail_of(file.lines)),
        age_below(file.modified, now, FRESH_WINDOW),
        path_of(dir.name),
        process.pid,
        process.cpu_usage,
        remote_of(dir),
    )
}

/// The status after a look at the first `upto` of the logs: each log
/// other than the primary one that was written to within the last ten
/// seconds and gives a session replaces the status where its own has a
/// strictly smaller priority number.
pub open spec fn reconciled(
    dir: ProjectDirModel,
    logs: Seq<usize>,
    process: ProcessModel,
    primary: int,
    start: SessionStatus,
    now: u64,
    upto: int,
) -> SessionStatus
    decreases upto,
{
    if upto <= 0 {
        start
    } else {
        let so_far = reconciled(dir, logs, process, primary, start, now, upto - 1);
        let file = dir.files[logs[upto - 1] as int];
        if upto - 1 != primary && age_below(file.modified, now, RECONCILE_WINDOW) {
            match log_session(dir, file, process, now) {
                Some(other) => if priority_of(other.status) < priority_of(so_far) {
                    other.status
                } else {
                    so_far
                },
                None => so_far,
            }
        } else {
            so_far
        }
    }
}

/// A status read from the logs, corrected by the load of the process: a
/// process that is busy does not wait.
pub open spec fn with_load(status: SessionStatus, process: ProcessModel) -> SessionStatus {
    if status == SessionStatus::Waiting && process.cpu_usage.above_five_percent() {
        SessionStatus::Processing
    } else {
        status
    }
}

/// The session of the process that is paired with the session log at
/// position `index`, the logs taken newest first; none where there is no
/// such log or it gives no session.
///
/// The log gives the session. Its status may be raised by the other
/// logs written to within the last ten seconds, and a busy process does
/// not wait. The active sub-agents of the session are counted.
pub open spec fn session_for(
    dir: ProjectDirModel,
    process: ProcessModel,
    index: int,
    now: u64,
) -> Option<SessionModel> {
    let logs = logs_newest_first(dir.files);
    if index >= logs.len() {
        None
    } else {
        match log_session(dir, dir.files[logs[index] as int], process, now) {
            Some(base) => Some(
                SessionModel {
                    status: with_load(
                        reconciled(dir, logs, process, index, base.status, now, logs.len() as int),
                        process,
                    ),
                    active_subagent_count: active_subagents(dir.files, base.id, now) as usize,
                    ..base
                },
            ),
            None => None,
        }
    }
}

/// Position of the first process at or after `from` whose working
/// directory has the given encoded name; -1 where there is none.
pub open spec fn first_encoded_as(
    processes: Seq<ProcessModel>,
    dir_name: Seq<char>,
    from: int,
) -> int
    decreases processes.len() - from,
{
    if from < 0 || from >= processes.len() {
        -1
    } else if processes[from].cwd matches Some(cwd) && dir_name_of(cwd) == dir_name {
        from
    } else {
        first_encoded_as(processes, dir_name, from + 1)
    }
}

/// The working directory that a log directory stands for: the path that
/// its name is read as, where a process works there; else the working
/// directory of the first process whose encoded name is the directory's.
pub open spec fn matched_cwd(processes: Seq<ProcessModel>, dir_name: Seq<char>) -> Option<
    Seq<char>,
> {
    if exists|i: int|
        0 <= i < processes.len() && (#[trigger] processes[i]).cwd == Some(path_of(dir_name)) {
        Some(path_of(dir_name))
    } else if first_encoded_as(processes, dir_name, 0) >= 0 {
        processes[first_encoded_as(processes, dir_name, 0)].cwd
    } else {
        None
    }
}

/// The positions of the processes that work in `cwd`, in order.
pub open spec fn member_indices(processes: Seq<ProcessModel>, cwd: Seq<char>) -> Seq<usize>
    decreases processes.len(),
{
    if processes.len() == 0 {
        Seq::<usize>::empty()
    } else if processes.last().cwd == Some(cwd) {
        member_indices(processes.drop_last(), cwd).push((processes.len() - 1) as usize)
    } else {
        member_indices(processes.drop_last(), cwd)
    }
}

/// The sessions of the first `upto` members, each paired with the log
/// at its own position.
pub open spec fn paired(
    processes: Seq<ProcessModel>,
    dir: ProjectDirModel,
    members: Seq<usize>,
    now: u64,
    upto: int,
) -> Seq<SessionModel>
    decreases upto,
{
    if upto <= 0 {
        Seq::<SessionModel>::empty()
    } else {
        let before = paired(processes, dir, members, now, upto - 1);
        match session_for(dir, processes[members[upto - 1] as int], upto - 1, now) {
            Some(session) => before.push(session),
            None => before,
        }
    }
}

/// The sessions that one directory of the log store contributes: none
/// where no process works in its project.
pub open spec fn dir_sessions(processes: Seq<ProcessModel>, dir: ProjectDirModel, now: u64) -> Seq<
    SessionModel,
> {
    match matched_cwd(processes, dir.name) {
        Some(cwd) => paired(
            processes,
            dir,
            member_indices(processes, cwd),
            now,
            member_indices(processes, cwd).len() as int,
        ),
        None => Seq::<SessionModel>::empty(),
    }
}

/// The sessions of all the directories, in the order of the directories.
pub open spec fn collected(processes: Seq<ProcessModel>, dirs: Seq<ProjectDirModel>, now: u64) -> Seq<
    SessionModel,
>
    decreases dirs.len(),
{
    if dirs.len() == 0 {
        Seq::<SessionModel>::empty()
    } else {
        collected(processes, dirs.drop_last(), now) + dir_sessions(processes, dirs.last(), now)
    }
}

/// The order of the list: a session with a smaller priority number comes
/// first, and of two with the same number the one whose last activity is
/// the later, as a text.
pub open spec fn session_before(a: SessionModel, b: SessionModel) -> bool {
    priority_of(a.status) < priority_of(b.status) || (priority_of(a.status) == priority_of(
        b.status,
    ) && lex_less(encode_utf8(b.last_activity_at), encode_utf8(a.last_activity_at)))
}

/// [`session_before`] as a value.
pub open spec fn display_order() -> spec_fn(SessionModel, SessionModel) -> bool {
    |a: SessionModel, b: SessionModel| session_before(a, b)
}

/// Number of sessions that wait for the user.
pub open spec fn waiting_among(sessions: Seq<SessionModel>) -> nat
    decreases sessions.len(),
{
    if sessions.len() == 0 {
        0
    } else if sessions.last().status == SessionStatus::Waiting {
        waiting_among(sessions.drop_last()) + 1
    } else {
        waiting_among(sessions.drop_last())
    }
}

/// `sorted` after each of `more` was put in, in order.
pub open spec fn insert_each(sorted: Seq<SessionModel>, more: Seq<SessionModel>) -> Seq<
    SessionModel,
>
    decreases more.len(),
{
    if more.len() == 0 {
        sorted
    } else {
        insert_sorted(insert_each(sorted, more.drop_last()), more.last(), display_order())
    }
}

impl SessionsResponse {
    /// The counts are those of the list.
    pub open spec fn is_consistent(&self) -> bool {
        &&& self.total_count == self.sessions.len()
        &&& self.waiting_count == waiting_among(self.sessions.deep_view())
    }
}

/// Sorting a sequence with more behind it is putting the additional
/// elements into the sorted sequence one by one.
pub proof fn lemma_sort_appended(a: Seq<SessionModel>, b: Seq<SessionModel>)
    ensures
        stable_sort(a + b, display_order()) == insert_each(stable_sort(a, display_order()), b),
    decreases b.len(),
{
    if b.len() == 0 {
        assert(a + b == a);
    } else {
        lemma_sort_appended(a, b.drop_last());
        assert((a + b).drop_last() == a + b.drop_last());
        assert((a + b).last() == b.last());
    }
}

/// The order of the list is a ranking: sorting by it gives a sorted list.
pub proof fn lemma_display_order_is_ranking()
    ensures
        is_ranking(display_order()),
{
    let before = display_order();
    assert forall|a: SessionModel, b: SessionModel| #[trigger] before(a, b) implies !before(
        b,
        a,
    ) by {
        if priority_of(a.status) == priority_of(b.status) {
            lemma_lex_less_asymmetric(
                encode_utf8(b.last_activity_at),
                encode_utf8(a.last_activity_at),
            );
        }
    }
    assert forall|a: SessionModel, b: SessionModel, c: SessionModel|
        !#[trigger] before(a, b) && !#[trigger] before(b, c) implies !before(a, c) by {
        if before(a, c) && priority_of(a.status) == priority_of(c.status) {
            lemma_lex_less_between(
                encode_utf8(c.last_activity_at),
                encode_utf8(b.last_activity_at),
                encode_utf8(a.last_activity_at),
            );
        }
    }
}

/// A directory in whose project no process works contributes no session:
/// where no process has the working directory that the directory's name
/// is read as, nor one whose encoded name is the directory's.
pub proof fn lemma_unmatched_dir_is_skipped(
    processes: Seq<ProcessModel>,
    dir: ProjectDirModel,
    now: u64,
)
    requires
        forall|i: int|
            0 <= i < processes.len() ==> ((#[trigger] processes[i]).cwd matches Some(cwd) ==> cwd
                != path_of(dir.name) && dir_name_of(cwd) != dir.name),
    ensures
        dir_sessions(processes, dir, now).len() == 0,
{
    lemma_none_encoded_as(processes, dir.name, 0);
}

/// Where no process has a working directory with the given encoded name,
/// there is no first such process.
proof fn lemma_none_encoded_as(processes: Seq<ProcessModel>, dir_name: Seq<char>, from: int)
    requires
        0 <= from,
        forall|i: int|
            0 <= i < processes.len() ==> ((#[trigger] processes[i]).cwd matches Some(cwd)
                ==> dir_name_of(cwd) != dir_name),
    ensures
        first_encoded_as(processes, dir_name, from) == -1,
    decreases processes.len() - from,
{
    if from < processes.len() {
        lemma_none_encoded_as(processes, dir_name, from + 1);
    }
}

/// The log at position `k` may raise the status: it is not the primary
/// log, was written to within the last ten seconds, and gives a session.
pub open spec fn may_raise(
    dir: ProjectDirModel,
    logs: Seq<usize>,
    process: ProcessModel,
    primary: int,
    now: u64,
    k: int,
) -> bool {
    &&& k != primary
    &&& age_below(dir.files[logs[k] as int].modified, now, RECONCILE_WINDOW)
    &&& log_session(dir, dir.files[logs[k] as int], process, now) is Some
}

/// The status after the look at the other logs is the most active one
/// seen: its priority number is at most that of the primary log's status
/// and at most that of every log that may raise the status, and it is
/// the status of one of them.
pub proof fn lemma_reconciled_is_most_active(
    dir: ProjectDirModel,
    logs: Seq<usize>,
    process: ProcessModel,
    primary: int,
    start: SessionStatus,
    now: u64,
    upto: int,
)
    ensures
        priority_of(reconciled(dir, logs, process, primary, start, now, upto)) <= priority_of(
            start,
        ),
        forall|k: int|
            0 <= k < upto && #[trigger] may_raise(dir, logs, process, primary, now, k)
                ==> priority_of(reconciled(dir, logs, process, primary, start, now, upto))
                <= priority_of(
                log_session(dir, dir.files[logs[k] as int], process, now)->0.status,
            ),
        reconciled(dir, logs, process, primary, start, now, upto) == start || exists|k: int|
            0 <= k < upto && #[trigger] may_raise(dir, logs, process, primary, now, k)
                && reconciled(dir, logs, process, primary, start, now, upto) == log_session(
                dir,
                dir.files[logs[k] as int],
                process,
                now,
            )->0.status,
    decreases upto,
{
    if upto > 0 {
        lemma_reconciled_is_most_active(dir, logs, process, primary, start, now, upto - 1);
        let so_far = reconciled(dir, logs, process, primary, start, now, upto - 1);
        let after = reconciled(dir, logs, process, primary, start, now, upto);
        if after != so_far {
            assert(may_raise(dir, logs, process, primary, now, upto - 1));
        } else if so_far != start {
            let k = choose|k: int|
                0 <= k < upto - 1 && #[trigger] may_raise(dir, logs, process, primary, now, k)
                    && so_far == log_session(
                    dir,
                    dir.files[logs[k] as int],
                    process,
                    now,
                )->0.status;
            assert(may_raise(dir, logs, process, primary, now, k));
        }
    }
}

/// The number of active sub-agents is at most the number of files.
pub proof fn lemma_subagents_bounded(files: Seq<LogFileModel>, id: Seq<char>, now: u64)
    ensures
        active_subagents(files, id, now) <= files.len(),
    decreases files.len(),
{
    if files.len() > 0 {
        lemma_subagents_bounded(files.drop_last(), id, now);
    }
}

/// Whether a file was written to at or before `now` and less than
/// `limit` before it.
pub fn modified_within(modified: u64, now: u64, limit: u64) -> (r: bool)
    ensures
        r == age_below(modified, now, limit),
{
    modified <= now && now - modified < limit
}

/// Whether a file name is that of a sub-agent's log.
pub fn is_subagent_file(name: &str) -> (r: bool)
    ensures
        r == is_subagent_name(name@),
{
    let chars = to_chars(name);
    let prefix = to_chars("agent-");
    let suffix = to_chars(".jsonl");
    starts_with(&chars, &prefix) && ends_with(&chars, &suffix)
}

/// Whether a file name is that of a session's log.
pub fn is_session_log(name: &str) -> (r: bool)
    ensures
        r == is_session_log_name(name@),
{
    let chars = to_chars(name);
    let suffix = to_chars(".jsonl");
    chars.len() > suffix.len() && ends_with(&chars, &suffix) && !is_subagent_file(name)
}

/// The positions of the session logs among the files, newest first.
pub fn get_recently_active_jsonl_files(files: &Vec<LogFile>) -> (r: Vec<usize>)
    ensures
        r@ == logs_newest_first(files.deep_view()),
        forall|k: int| 0 <= k < r.len() ==> (#[trigger] r@[k]) < files.len(),
{
    let ghost all = files.deep_view();
    let mut sorted: Vec<usize> = Vec::new();
    let mut i: usize = 0;
    assert(all.take(0) == Seq::<LogFileModel>::empty());
    while i < files.len()
        invariant
            i <= files.len(),
            all == files.deep_view(),
            sorted@ == stable_sort(session_log_indices(all.take(i as int)), newer(all)),
            forall|k: int| 0 <= k < sorted.len() ==> (#[trigger] sorted@[k]) < i,
        decreases files.len() - i,
    {
        assert(all.take(i + 1).drop_last() == all.take(i as int));
        assert(all.take(i + 1).last() == files@[i as int].deep_view());
        if is_session_log(files[i].name.as_str()) {
            let ghost indices = session_log_indices(all.take(i as int));
            assert(session_log_indices(all.take(i + 1)) == indices.push(i));
            assert(indices.push(i).drop_last() == indices);
            let mut at: usize = sorted.len();
            while at > 0 && files[i].modified > files[sorted[at - 1]].modified
                invariant
                    at <= sorted.len(),
                    i < files.len(),
                    all == files.deep_view(),
                    forall|k: int| 0 <= k < sorted.len() ==> (#[trigger] sorted@[k]) < i,
                    forall|k: int|
                        at <= k < sorted.len() ==> newer(all)(i, #[trigger] sorted@[k]),
                decreases at,
            {
                at -= 1;
            }
            proof {
                lemma_insert_at(sorted@, i, newer(all), at as int);
            }
            sorted.insert(at, i);
        }
        i += 1;
    }
    assert(all.take(files.len() as int) == all);
    sorted
}

/// The session that a sub-agent's log belongs to, as its first five
/// lines say.
pub fn get_subagent_session_id(lines: &Vec<String>) -> (r: Option<String>)
    ensures
        r.deep_view() == subagent_session_id(lines.deep_view()),
{
    let count: usize = if lines.len() > SUBAGENT_HEAD_LINES {
        SUBAGENT_HEAD_LINES
    } else {
        lines.len()
    };
    let ghost head = lines.deep_view().take(count as int);
    assert(lines.len() <= SUBAGENT_HEAD_LINES ==> head == lines.deep_view());
    assert(head.skip(0) == head);
    let mut i: usize = 0;
    while i < count
        invariant
            i <= count <= lines.len(),
            head == lines.deep_view().take(count as int),
            subagent_session_id(lines.deep_view()) == first_session_id(head),
            first_session_id(head) == first_session_id(head.skip(i as int)),
        decreases count - i,
    {
        assert(head.skip(i as int)[0] == lines@[i as int]@);
        assert(head.skip(i as int).drop_first() == head.skip(i + 1));
        match decode_record(lines[i].as_str()) {
            Some(record) => {
                if record.session_id.is_some() {
                    return record.session_id;
                }
            },
            None => {},
        }
        i += 1;
    }
    None
}

/// Number of files that are logs of active sub-agents of the session.
pub fn count_active_subagents(files: &Vec<LogFile>, parent_session_id: &str, now: u64) -> (r:
    usize)
    ensures
        r == active_subagents(files.deep_view(), parent_session_id@, now),
{
    let ghost all = files.deep_view();
    let mut count: usize = 0;
    let mut i: usize = 0;
    assert(all.take(0) == Seq::<LogFileModel>::empty());
    while i < files.len()
        invariant
            i <= files.len(),
            all == files.deep_view(),
            count <= i,
            count == active_subagents(all.take(i as int), parent_session_id@, now),
        decreases files.len() - i,
    {
        assert(all.take(i + 1).drop_last() == all.take(i as int));
        assert(all.take(i + 1).last() == files@[i as int].deep_view());
        let file = &files[i];
        if is_subagent_file(file.name.as_str()) && modified_within(
            file.modified,
            now,
            SUBAGENT_WINDOW,
        ) {
            let same = match get_subagent_session_id(&file.lines) {
                Some(id) => str_eq(id.as_str(), parent_session_id),
                None => false,
            };
            if same {
                count += 1;
            }
        }
        i += 1;
    }
    assert(all.take(files.len() as int) == all);
    count
}

/// The remote address of the directory's project, made browsable.
fn remote_url(dir: &ProjectDir) -> (r: Option<String>)
    ensures
        r.deep_view() == remote_of(dir.deep_view()),
{
    match &dir.remote {
        Some(output) => get_github_url(output.as_str()),
        None => None,
    }
}

/// The session that one log of the directory gives for the process.
fn session_of_log(
    dir: &ProjectDir,
    file: &LogFile,
    project_path: &str,
    github_url: &Option<String>,
    process: &ClaudeProcess,
    now: u64,
) -> (r: Option<Session>)
    requires
        project_path@ == path_of(dir.deep_view().name),
        github_url.deep_view() == remote_of(dir.deep_view()),
    ensures
        r.deep_view() == log_session(
            dir.deep_view(),
            file.deep_view(),
            process.deep_view(),
            now,
        ),
{
    parse_session_file(
        &file.lines,
        modified_within(file.modified, now, FRESH_WINDOW),
        project_path,
        process,
        github_url,
    )
}

/// The session of the process that is paired with the log at position
/// `index` of `logs`, the session logs of the directory, newest first.
fn session_from_logs(
    dir: &ProjectDir,
    logs: &Vec<usize>,
    process: &ClaudeProcess,
    index: usize,
    now: u64,
) -> (r: Option<Session>)
    requires
        logs@ == logs_newest_first(dir.deep_view().files),
        forall|k: int| 0 <= k < logs.len() ==> (#[trigger] logs@[k]) < dir.files.len(),
    ensures
        r.deep_view() == session_for(dir.deep_view(), process.deep_view(), index as int, now),
{
    if index >= logs.len() {
        return None;
    }
    let project_path = convert_dir_name_to_path(dir.name.as_str());
    let github_url = remote_url(dir);
    let primary = &dir.files[logs[index]];
    assert(dir.deep_view().files[logs@[index as int] as int] == primary.deep_view());
    let mut session = match session_of_log(
        dir,
        primary,
        project_path.as_str(),
        &github_url,
        process,
        now,
    ) {
        Some(s) => s,
        None => { return None; },
    };
    let ghost base = session.deep_view();
    proof {
        lemma_subagents_bounded(dir.deep_view().files, base.id, now);
    }
    let count = count_active_subagents(&dir.files, session.id.as_str(), now);
    let mut status = session.status;
    let mut k: usize = 0;
    while k < logs.len()
        invariant
            k <= logs.len(),
            index < logs.len(),
            logs@ == logs_newest_first(dir.deep_view().files),
            forall|j: int| 0 <= j < logs.len() ==> (#[trigger] logs@[j]) < dir.files.len(),
            project_path@ == path_of(dir.deep_view().name),
            github_url.deep_view() == remote_of(dir.deep_view()),
            status == reconciled(
                dir.deep_view(),
                logs@,
                process.deep_view(),
                index as int,
                base.status,
                now,
                k as int,
            ),
        decreases logs.len() - k,
    {
        let file = &dir.files[logs[k]];
        assert(dir.deep_view().files[logs@[k as int] as int] == file.deep_view());
        if k != index && modified_within(file.modified, now, RECONCILE_WINDOW) {
            match session_of_log(dir, file, project_path.as_str(), &github_url, process, now) {
                Some(other) => {
                    if status_sort_priority(&other.status) < status_sort_priority(&status) {
                        status = other.status;
                    }
                },
                None => {},
            }
        }
        k += 1;
    }
    if status == SessionStatus::Waiting && process.cpu_usage.is_busy() {
        status = SessionStatus::Processing;
    }
    session.status = status;
    session.active_subagent_count = count;
    Some(session)
}

/// The session of the process that is paired with the session log at
/// position `index`, the logs of the directory taken newest first.
///
/// That log gives the session; the sub-agents of the session are counted;
/// the other logs written to within the last ten seconds may raise its
/// status, and a busy process does not wait.
pub fn find_session_for_process(
    dir: &ProjectDir,
    process: &ClaudeProcess,
    index: usize,
    now: u64,
) -> (r: Option<Session>)
    ensures
        r.deep_view() == session_for(dir.deep_view(), process.deep_view(), index as int, now),
{
    let logs = get_recently_active_jsonl_files(&dir.files);
    session_from_logs(dir, &logs, process, index, now)
}

/// Whether the process works in `cwd`.
fn works_in(process: &ClaudeProcess, cwd: &str) -> (r: bool)
    ensures
        r == (process.deep_view().cwd == Some(cwd@)),
{
    match &process.cwd {
        Some(c) => str_eq(c.as_str(), cwd),
        None => false,
    }
}

/// The working directory that a log directory stands for, if a process
/// works in its project.
pub fn match_project_dir(processes: &Vec<ClaudeProcess>, dir_name: &str) -> (r: Option<String>)
    ensures
        r.deep_view() == matched_cwd(processes.deep_view(), dir_name@),
{
    let ghost all = processes.deep_view();
    let hint = convert_dir_name_to_path(dir_name);
    let mut i: usize = 0;
    while i < processes.len()
        invariant
            i <= processes.len(),
            all == processes.deep_view(),
            hint@ == path_of(dir_name@),
            forall|j: int| 0 <= j < i ==> (#[trigger] all[j]).cwd != Some(hint@),
        decreases processes.len() - i,
    {
        if works_in(&processes[i], hint.as_str()) {
            assert(all[i as int].cwd == Some(path_of(dir_name@)));
            return Some(hint);
        }
        i += 1;
    }
    let mut j: usize = 0;
    while j < processes.len()
        invariant
            j <= processes.len(),
            all == processes.deep_view(),
            forall|k: int|
                0 <= k < processes.len() ==> (#[trigger] all[k]).cwd != Some(path_of(dir_name@)),
            first_encoded_as(all, dir_name@, 0) == first_encoded_as(all, dir_name@, j as int),
        decreases processes.len() - j,
    {
        match &processes[j].cwd {
            Some(cwd) => {
                let encoded = convert_path_to_dir_name(cwd.as_str());
                if str_eq(encoded.as_str(), dir_name) {
                    return Some(cwd.clone());
                }
            },
            None => {},
        }
        j += 1;
    }
    None
}

/// The positions of the processes that work in `cwd`, in order.
pub fn members_of(processes: &Vec<ClaudeProcess>, cwd: &str) -> (r: Vec<usize>)
    ensures
        r@ == member_indices(processes.deep_view(), cwd@),
        forall|k: int| 0 <= k < r.len() ==> (#[trigger] r@[k]) < processes.len(),
{
    let ghost all = processes.deep_view();
    let mut members: Vec<usize> = Vec::new();
    let mut i: usize = 0;
    assert(all.take(0) == Seq::<ProcessModel>::empty());
    while i < processes.len()
        invariant
            i <= processes.len(),
            all == processes.deep_view(),
            members@ == member_indices(all.take(i as int), cwd@),
            forall|k: int| 0 <= k < members.len() ==> (#[trigger] members@[k]) < i,
        decreases processes.len() - i,
    {
        assert(all.take(i + 1).drop_last() == all.take(i as int));
        assert(all.take(i + 1).last() == processes@[i as int].deep_view());
        if works_in(&processes[i], cwd) {
            members.push(i);
        }
        i += 1;
    }
    assert(all.take(processes.len() as int) == all);
    members
}

/// Whether `a` comes before `b` in the list.
pub fn comes_before(a: &Session, b: &Session) -> (r: bool)
    ensures
        r == session_before(a.deep_view(), b.deep_view()),
{
    let pa = status_sort_priority(&a.status);
    let pb = status_sort_priority(&b.status);
    if pa != pb {
        pa < pb
    } else {
        bytes_less(b.last_activity_at.as_str().as_bytes(), a.last_activity_at.as_str().as_bytes())
    }
}

/// Puts a session into a sorted list, behind the last session that it
/// does not come before.
pub fn insert_session(sorted: &mut Vec<Session>, session: Session)
    ensures
        final(sorted).deep_view() == insert_sorted(
            old(sorted).deep_view(),
            session.deep_view(),
            display_order(),
        ),
{
    let ghost before = sorted.deep_view();
    let mut at: usize = sorted.len();
    while at > 0 && comes_before(&session, &sorted[at - 1])
        invariant
            at <= sorted.len(),
            before == sorted.deep_view(),
            forall|k: int|
                at <= k < sorted.len() ==> display_order()(session.deep_view(), #[trigger] before[k]),
        decreases at,
    {
        at -= 1;
    }
    proof {
        if at > 0 {
            assert(before[at - 1] == sorted@[at - 1].deep_view());
        }
        lemma_insert_at(before, session.deep_view(), display_order(), at as int);
    }
    let ghost model = session.deep_view();
    sorted.insert(at, session);
    assert(sorted.deep_view() =~= before.insert(at as int, model));
}

/// Puts the sessions that one directory contributes into a sorted list.
fn collect_dir(
    processes: &Vec<ClaudeProcess>,
    dir: &ProjectDir,
    now: u64,
    sorted: &mut Vec<Session>,
)
    ensures
        final(sorted).deep_view() == insert_each(
            old(sorted).deep_view(),
            dir_sessions(processes.deep_view(), dir.deep_view(), now),
        ),
{
    let cwd = match match_project_dir(processes, dir.name.as_str()) {
        Some(c) => c,
        None => { return ; },
    };
    let members = members_of(processes, cwd.as_str());
    let logs = get_recently_active_jsonl_files(&dir.files);
    let ghost start = sorted.deep_view();
    let mut index: usize = 0;
    while index < members.len()
        invariant
            index <= members.len(),
            members@ == member_indices(processes.deep_view(), cwd@),
            forall|k: int| 0 <= k < members.len() ==> (#[trigger] members@[k]) < processes.len(),
            logs@ == logs_newest_first(dir.deep_view().files),
            forall|k: int| 0 <= k < logs.len() ==> (#[trigger] logs@[k]) < dir.files.len(),
            sorted.deep_view() == insert_each(
                start,
                paired(processes.deep_view(), dir.deep_view(), members@, now, index as int),
            ),
        decreases members.len() - index,
    {
        let process = &processes[members[index]];
        assert(processes.deep_view()[members@[index as int] as int] == process.deep_view());
        let ghost so_far = paired(
            processes.deep_view(),
            dir.deep_view(),
            members@,
            now,
            index as int,
        );
        match session_from_logs(dir, &logs, process, index, now) {
            Some(session) => {
                assert(so_far.push(session.deep_view()).drop_last() == so_far);
                insert_session(sorted, session);
            },
            None => {},
        }
        index += 1;
    }
}

/// Number of sessions that wait for the user.
pub fn count_waiting(sessions: &Vec<Session>) -> (r: usize)
    ensures
        r == waiting_among(sessions.deep_view()),
{
    let ghost all = sessions.deep_view();
    let mut count: usize = 0;
    let mut i: usize = 0;
    assert(all.take(0) == Seq::<SessionModel>::empty());
    while i < sessions.len()
        invariant
            i <= sessions.len(),
            all == sessions.deep_view(),
            count <= i,
            count == waiting_among(all.take(i as int)),
        decreases sessions.len() - i,
    {
        assert(all.take(i + 1).drop_last() == all.take(i as int));
        assert(all.take(i + 1).last() == sessions@[i as int].deep_view());
        if sessions[i].status == SessionStatus::Waiting {
            count += 1;
        }
        i += 1;
    }
    assert(all.take(sessions.len() as int) == all);
    count
}

/// The sessions of the processes, as the log store describes them: in
/// display order, with their number and the number of those that wait.
///
/// `processes` are the processes of the command-line program in the order
/// they were found, `projects` the directories of the log store in the
/// order they were listed, and `now` the time of the scan in nanoseconds
/// since the epoch. A directory in whose project no process works
/// contributes nothing.
pub fn get_sessions(processes: &Vec<ClaudeProcess>, projects: &Vec<ProjectDir>, now: u64) -> (r:
    SessionsResponse)
    ensures
        r.sessions.deep_view() == stable_sort(
            collected(processes.deep_view(), projects.deep_view(), now),
            display_order(),
        ),
        is_sorted(r.sessions.deep_view(), display_order()),
        r.sessions.deep_view().to_multiset() == collected(
            processes.deep_view(),
            projects.deep_view(),
            now,
        ).to_multiset(),
        r.is_consistent(),
{
    let ghost dirs = projects.deep_view();
    proof {
        lemma_display_order_is_ranking();
        lemma_stable_sort_is_sorted(
            collected(processes.deep_view(), dirs, now),
            display_order(),
        );
        lemma_stable_sort_elements(collected(processes.deep_view(), dirs, now), display_order());
    }
    let mut sessions: Vec<Session> = Vec::new();
    let mut i: usize = 0;
    assert(dirs.take(0) == Seq::<ProjectDirModel>::empty());
    assert(sessions.deep_view() == Seq::<SessionModel>::empty());
    while i < projects.len()
        invariant
            i <= projects.len(),
            dirs == projects.deep_view(),
            sessions.deep_view() == stable_sort(
                collected(processes.deep_view(), dirs.take(i as int), now),
                display_order(),
            ),
        decreases projects.len() - i,
    {
        assert(dirs.take(i + 1).drop_last() == dirs.take(i as int));
        assert(dirs.take(i + 1).last() == projects@[i as int].deep_view());
        proof {
            lemma_sort_appended(
                collected(processes.deep_view(), dirs.take(i as int), now),
                dir_sessions(processes.deep_view(), projects@[i as int].deep_view(), now),
            );
        }
        collect_dir(processes, &projects[i], now, &mut sessions);
        i += 1;
    }
    assert(dirs.take(projects.len() as int) == dirs);
    let waiting_count = count_waiting(&sessions);
    let total_count = sessions.len();
    SessionsResponse { sessions, total_count, waiting_count }
}

} // verus!
