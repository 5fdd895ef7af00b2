//! From the lines of a conversation log to the session they describe.
//!
//! Only the tail of a log is looked at. Its lines are decoded into records;
//! the latest records that carry a session id, a branch, a timestamp, a
//! message with content and a message with text are found, and the session
//! is built from them.

use vstd::prelude::*;
use crate::json::{decode_record, decoded};
use crate::model::{
    clone_text, ClaudeProcess, Content, ContentModel, CpuUsage, JsonlMessage, RecordModel, Session,
    SessionModel, SessionStatus,
};
use crate::status::{
    classify, determine_status, first_filled_block_text, has_block_of_kind, has_content,
    has_tool_result, has_tool_use, is_interrupted, is_interrupted_request, is_local_command,
    is_local_slash_command, preview_text,
};
use crate::text::{append, from_chars, slice, split, split_on, to_chars, views};

verus! {

/// Number of lines at the end of a log that are looked at.
pub const TAIL_LINES: usize = 100;

/// Number of characters of a message that a preview keeps.
pub const PREVIEW_CHARS: usize = 100;

/// What a record can carry.
#[derive(Debug, Clone, Copy, PartialEq, Eq, Structural)]
pub enum Field {
    SessionId,
    GitBranch,
    Timestamp,
    /// A message whose content holds something.
    Status,
    /// A message with a text to show.
    Preview,
}

/// The content of the record's message, if it has one.
pub open spec fn content_in(record: RecordModel) -> Option<ContentModel> {
    match record.message {
        Some(m) => m.content,
        None => None,
    }
}

/// The record carries the field.
pub open spec fn carries(record: RecordModel, field: Field) -> bool {
    match field {
        Field::SessionId => record.session_id is Some,
        Field::GitBranch => record.git_branch is Some,
        Field::Timestamp => record.timestamp is Some,
        Field::Status => content_in(record) matches Some(c) && has_content(c),
        Field::Preview => content_in(record) matches Some(c) && preview_text(c) is Some,
    }
}

/// Index of the last record at or after `from` that carries the field;
/// -1 where there is none.
pub open spec fn latest_with(records: Seq<RecordModel>, field: Field, from: int) -> int
    decreases records.len(),
{
    if records.len() == 0 || records.len() <= from {
        -1
    } else if carries(records.last(), field) {
        records.len() - 1
    } else {
        latest_with(records.drop_last(), field, from)
    }
}

/// Index of the oldest record that the search for branch and timestamp
/// reaches. Going back from the end, that search ends at the first record
/// by which both a session id and a message with content have been seen;
/// where one of them is never seen it reaches the first record.
pub open spec fn scan_start(records: Seq<RecordModel>) -> int {
    let id_at = latest_with(records, Field::SessionId, 0);
    let status_at = latest_with(records, Field::Status, 0);
    if id_at >= 0 && status_at >= 0 {
        if id_at < status_at {
            id_at
        } else {
            status_at
        }
    } else {
        0
    }
}

/// The status that the records and the freshness of the log stand for.
pub open spec fn status_of(records: Seq<RecordModel>, fresh: bool) -> SessionStatus {
    let at = latest_with(records, Field::Status, 0);
    if at >= 0 {
        let c = content_in(records[at])->0;
        classify(
            records[at].msg_type,
            has_block_of_kind(c, "tool_use"@),
            has_block_of_kind(c, "tool_result"@),
            is_local_command(c),
            is_interrupted(c),
            fresh,
        )
    } else {
        classify(None, false, false, false, false, fresh)
    }
}

/// A message cut to its first hundred characters, with three dots where
/// something was cut off.
pub open spec fn shortened(message: Seq<char>) -> Seq<char> {
    if message.len() > PREVIEW_CHARS {
        message.take(PREVIEW_CHARS as int) + "..."@
    } else {
        message
    }
}

/// Index of the last piece that is not empty; -1 where all are empty.
pub open spec fn last_filled(parts: Seq<Seq<char>>) -> int
    decreases parts.len(),
{
    if parts.len() == 0 {
        -1
    } else if parts.last().len() > 0 {
        parts.len() - 1
    } else {
        last_filled(parts.drop_last())
    }
}

/// The name of a project: the last segment of its path that is not
/// empty, and `Unknown` for a path without one.
pub open spec fn project_name_of(path: Seq<char>) -> Seq<char> {
    let segments = split_on(path, '/');
    let at = last_filled(segments);
    if at >= 0 {
        segments[at]
    } else {
        "Unknown"@
    }
}

/// The session that a sequence of records, oldest first, stands for;
/// none where no record carries a session id.
pub open spec fn summary(
    records: Seq<RecordModel>,
    fresh: bool,
    project_path: Seq<char>,
    pid: u32,
    cpu_usage: CpuUsage,
    github_url: Option<Seq<char>>,
) -> Option<SessionModel> {
    let id_at = latest_with(records, Field::SessionId, 0);
    let status_at = latest_with(records, Field::Status, 0);
    let branch_at = latest_with(records, Field::GitBranch, scan_start(records));
    let time_at = latest_with(records, Field::Timestamp, scan_start(records));
    let preview_at = latest_with(records, Field::Preview, 0);
    if id_at < 0 {
        None
    } else {
        Some(
            SessionModel {
                id: records[id_at].session_id->0,
                project_name: project_name_of(project_path),
                project_path: project_path,
                git_branch: if branch_at >= 0 {
                    records[branch_at].git_branch
                } else {
                    None
                },
                github_url: github_url,
                status: status_of(records, fresh),
                last_message: if preview_at >= 0 {
                    Some(shortened(preview_text(content_in(records[preview_at])->0)->0))
                } else {
                    None
                },
                last_message_role: if status_at >= 0 {
                    records[status_at].message->0.role
                } else {
                    None
                },
                last_activity_at: if time_at >= 0 {
                    records[time_at].timestamp->0
                } else {
                    "Unknown"@
                },
                pid: pid,
                cpu_usage: cpu_usage,
                active_subagent_count: 0,
            },
        )
    }
}

/// The records that the lines decode to, in order; a line that is no
/// record is left out.
pub open spec fn decode_all(lines: Seq<Seq<char>>) -> Seq<RecordModel>
    decreases lines.len(),
{
    if lines.len() == 0 {
        Seq::<RecordModel>::empty()
    } else {
        match decoded(lines.last()) {
            Some(record) => decode_all(lines.drop_last()).push(record),
            None => decode_all(lines.drop_last()),
        }
    }
}

/// The last hundred lines, or all of them where there are fewer.
pub open spec fn tail_of(lines: Seq<Seq<char>>) -> Seq<Seq<char>> {
    if lines.len() > TAIL_LINES {
        lines.skip(lines.len() - TAIL_LINES)
    } else {
        lines
    }
}

/// The characters of the text to show for a content.
fn preview_chars(content: &Content) -> (r: Option<Vec<char>>)
    ensures
        match r {
            Some(t) => preview_text(content.deep_view()) == Some(t@),
            None => preview_text(content.deep_view()) is None,
        },
{
    match content {
        Content::Text(s) => {
            if s.as_str().is_empty() {
                None
            } else {
                Some(to_chars(s.as_str()))
            }
        },
        Content::Blocks(blocks) => first_filled_block_text(blocks),
        Content::Other => None,
    }
}

/// Whether a content holds something.
fn content_is_filled(content: &Content) -> (r: bool)
    ensures
        r == has_content(content.deep_view()),
{
    match content {
        Content::Text(s) => !s.as_str().is_empty(),
        Content::Blocks(blocks) => blocks.len() > 0,
        Content::Other => false,
    }
}

/// The content of the record's message, if it has one.
fn content_of_record(record: &JsonlMessage) -> (r: Option<&Content>)
    ensures
        r.deep_view() == content_in(record.deep_view()),
{
    match &record.message {
        Some(m) => match &m.content {
            Some(c) => Some(c),
            None => None,
        },
        None => None,
    }
}

/// Whether the record carries the field.
pub fn record_carries(record: &JsonlMessage, field: Field) -> (r: bool)
    ensures
        r == carries(record.deep_view(), field),
{
    match field {
        Field::SessionId => record.session_id.is_some(),
        Field::GitBranch => record.git_branch.is_some(),
        Field::Timestamp => record.timestamp.is_some(),
        Field::Status => match content_of_record(record) {
            Some(c) => content_is_filled(c),
            None => false,
        },
        Field::Preview => match content_of_record(record) {
            Some(c) => preview_chars(c).is_some(),
            None => false,
        },
    }
}

/// Index of the last record at or after `from` that carries the field.
pub fn latest_index(records: &Vec<JsonlMessage>, field: Field, from: usize) -> (r: Option<usize>)
    ensures
        match r {
            Some(i) => latest_with(records.deep_view(), field, from as int) == i && from <= i
                < records.len() && carries(records.deep_view()[i as int], field),
            None => latest_with(records.deep_view(), field, from as int) == -1,
        },
{
    let ghost all = records.deep_view();
    let mut i: usize = records.len();
    assert(all.take(i as int) == all);
    while i > from
        invariant
            i <= records.len(),
            all == records.deep_view(),
            latest_with(all, field, from as int) == latest_with(
                all.take(i as int),
                field,
                from as int,
            ),
        decreases i,
    {
        assert(all.take(i as int).last() == records@[i - 1].deep_view());
        if record_carries(&records[i - 1], field) {
            return Some(i - 1);
        }
        assert(all.take(i as int).drop_last() == all.take(i - 1));
        i -= 1;
    }
    None
}

/// The message cut to the length of a preview.
pub fn shorten(message: &Vec<char>) -> (r: String)
    ensures
        r@ == shortened(message@),
{
    if message.len() > PREVIEW_CHARS {
        let mut head = slice(message, 0, PREVIEW_CHARS);
        let dots = to_chars("...");
        append(&mut head, &dots);
        from_chars(&head)
    } else {
        from_chars(message)
    }
}

/// The name of the project at `path`.
pub fn project_name(path: &str) -> (r: String)
    ensures
        r@ == project_name_of(path@),
{
    let chars = to_chars(path);
    let segments = split(&chars, '/');
    let ghost parts = views(segments@);
    let mut i: usize = segments.len();
    assert(parts.take(i as int) == parts);
    while i > 0
        invariant
            i <= segments.len(),
            parts == views(segments@),
            parts == split_on(path@, '/'),
            last_filled(parts) == last_filled(parts.take(i as int)),
        decreases i,
    {
        assert(parts.take(i as int).last() == segments@[i - 1]@);
        if segments[i - 1].len() > 0 {
            return from_chars(&segments[i - 1]);
        }
        assert(parts.take(i as int).drop_last() == parts.take(i - 1));
        i -= 1;
    }
    "Unknown".to_owned()
}

/// The session that a sequence of records, oldest first, stands for.
///
/// `file_recently_modified` says whether the log was written to within
/// the last three seconds; `github_url` is the project's remote address,
/// where one is known. The session counts no sub-agents.
pub fn summarize_records(
    records: &Vec<JsonlMessage>,
    file_recently_modified: bool,
    project_path: &str,
    process: &ClaudeProcess,
    github_url: &Option<String>,
) -> (r: Option<Session>)
    ensures
        r.deep_view() == summary(
            records.deep_view(),
            file_recently_modified,
            project_path@,
            process.pid,
            process.cpu_usage,
            github_url.deep_view(),
        ),
{
    let ghost all = records.deep_view();
    let id_at = match latest_index(records, Field::SessionId, 0) {
        Some(i) => i,
        None => { return None; },
    };
    let id = match &records[id_at].session_id {
        Some(s) => s.clone(),
        None => { return None; },
    };
    let status_at = latest_index(records, Field::Status, 0);
    let start: usize = match status_at {
        Some(s) => if id_at < s {
            id_at
        } else {
            s
        },
        None => 0,
    };
    assert(start == scan_start(all));
    let git_branch = match latest_index(records, Field::GitBranch, start) {
        Some(i) => clone_text(&records[i].git_branch),
        None => None,
    };
    let last_activity_at = match latest_index(records, Field::Timestamp, start) {
        Some(i) => match &records[i].timestamp {
            Some(t) => t.clone(),
            None => "Unknown".to_owned(),
        },
        None => "Unknown".to_owned(),
    };
    let mut status = determine_status(None, false, false, false, false, file_recently_modified);
    let mut last_message_role: Option<String> = None;
    match status_at {
        Some(s) => {
            let record = &records[s];
            match content_of_record(record) {
                Some(c) => {
                    let kind: Option<&str> = match &record.msg_type {
                        Some(k) => Some(k.as_str()),
                        None => None,
                    };
                    status =
                    determine_status(
                        kind,
                        has_tool_use(c),
                        has_tool_result(c),
                        is_local_slash_command(c),
                        is_interrupted_request(c),
                        file_recently_modified,
                    );
                },
                None => {},
            }
            match &record.message {
                Some(m) => {
                    last_message_role = clone_text(&m.role);
                },
                None => {},
            }
        },
        None => {},
    }
    assert(status == status_of(all, file_recently_modified));
    let mut last_message: Option<String> = None;
    match latest_index(records, Field::Preview, 0) {
        Some(p) => match content_of_record(&records[p]) {
            Some(c) => match preview_chars(c) {
                Some(t) => {
                    last_message = Some(shorten(&t));
                },
                None => {},
            },
            None => {},
        },
        None => {},
    }
    Some(
        Session {
            id,
            project_name: project_name(project_path),
            project_path: project_path.to_owned(),
            git_branch,
            github_url: clone_text(github_url),
            status,
            last_message,
            last_message_role,
            last_activity_at,
            pid: process.pid,
            cpu_usage: process.cpu_usage,
            active_subagent_count: 0,
        },
    )
}

/// The records of the last hundred lines, oldest first.
pub fn recent_records(lines: &Vec<String>) -> (r: Vec<JsonlMessage>)
    ensures
        r.deep_view() == decode_all(tail_of(lines.deep_view())),
{
    let first: usize = if lines.len() > TAIL_LINES {
        lines.len() - TAIL_LINES
    } else {
        0
    };
    let ghost tail = tail_of(lines.deep_view());
    assert(tail == lines.deep_view().skip(first as int));
    let mut records: Vec<JsonlMessage> = Vec::new();
    let mut i: usize = first;
    assert(tail.take(0) == Seq::<Seq<char>>::empty());
    while i < lines.len()
        invariant
            first <= i <= lines.len(),
            tail == lines.deep_view().skip(first as int),
            records.deep_view() == decode_all(tail.take(i - first)),
        decreases lines.len() - i,
    {
        let ghost before = records.deep_view();
        assert(tail.take(i - first + 1).drop_last() == tail.take(i - first));
        assert(tail.take(i - first + 1).last() == lines@[i as int]@);
        match decode_record(lines[i].as_str()) {
            Some(record) => {
                records.push(record);
                assert(records.deep_view() == before.push(decoded(lines@[i as int]@)->0));
            },
            None => {},
        }
        i += 1;
    }
    assert(tail.take(lines.len() - first) == tail);
    records
}

/// The session that the lines of a conversation log stand for; none
/// where no record in its tail carries a session id.
///
/// `lines` are the lines of the log in file order. The last hundred are
/// decoded and summarised as [`summary`] says.
pub fn parse_session_file(
    lines: &Vec<String>,
    file_recently_modified: bool,
    project_path: &str,
    process: &ClaudeProcess,
    github_url: &Option<String>,
) -> (r: Option<Session>)
    ensures
        r.deep_view() == summary(
            decode_all(tail_of(lines.deep_view())),
            file_recently_modified,
            project_path@,
            process.pid,
            process.cpu_usage,
            github_url.deep_view(),
        ),
{
    let records = recent_records(lines);
    summarize_records(&records, file_recently_modified, project_path, process, github_url)
}

} // verus!
