//! What a message says about the state of its session, and the rule that
//! turns those signals into a status.

use vstd::prelude::*;
use crate::model::{BlockModel, Content, ContentBlock, ContentModel, SessionStatus};
use crate::text::{
    chars_eq, contains, has_prefix, occurs_in, starts_with, str_eq, to_chars, trim, trimmed,
};

verus! {

/// Number of commands that the command-line program answers by itself.
pub const LOCAL_COMMAND_COUNT: usize = 17;

/// Display priority of a status: a lower number is listed first.
pub open spec fn priority_of(status: SessionStatus) -> int {
    match status {
        SessionStatus::Thinking => 0,
        SessionStatus::Processing => 0,
        SessionStatus::Waiting => 1,
        SessionStatus::Idle => 2,
    }
}

/// The status that the signals of the latest message stand for.
///
/// `kind` is the record's type, the four flags describe its content, and
/// `fresh` says whether the log was written to within the last seconds.
pub open spec fn classify(
    kind: Option<Seq<char>>,
    tool_use: bool,
    tool_result: bool,
    local_command: bool,
    interrupted: bool,
    fresh: bool,
) -> SessionStatus {
    if kind == Some("assistant"@) {
        if tool_use || fresh {
            SessionStatus::Processing
        } else {
            SessionStatus::Waiting
        }
    } else if kind == Some("user"@) {
        if local_command || interrupted {
            SessionStatus::Waiting
        } else if tool_result && !fresh {
            SessionStatus::Processing
        } else {
            SessionStatus::Thinking
        }
    } else if fresh {
        SessionStatus::Thinking
    } else {
        SessionStatus::Idle
    }
}

/// Some block of the content has the given type.
pub open spec fn has_block_of_kind(content: ContentModel, kind: Seq<char>) -> bool {
    content matches ContentModel::Blocks(blocks) && exists|i: int|
        0 <= i < blocks.len() && (#[trigger] blocks[i]).kind == Some(kind)
}

/// The content holds something: a string that is not empty, or a list
/// with at least one block.
pub open spec fn has_content(content: ContentModel) -> bool {
    match content {
        ContentModel::Text(s) => s.len() > 0,
        ContentModel::Blocks(blocks) => blocks.len() > 0,
        ContentModel::Other => false,
    }
}

/// The text of the first block that has one.
pub open spec fn first_text(blocks: Seq<BlockModel>) -> Option<Seq<char>>
    decreases blocks.len(),
{
    if blocks.len() == 0 {
        None
    } else if blocks[0].text is Some {
        blocks[0].text
    } else {
        first_text(blocks.drop_first())
    }
}

/// The text of the first block whose text is not empty.
pub open spec fn first_filled_text(blocks: Seq<BlockModel>) -> Option<Seq<char>>
    decreases blocks.len(),
{
    if blocks.len() == 0 {
        None
    } else if blocks[0].text matches Some(t) && t.len() > 0 {
        blocks[0].text
    } else {
        first_filled_text(blocks.drop_first())
    }
}

/// What the message says: the string itself, or for a list the text of
/// its first text block (empty where it has none). Other content says
/// nothing.
pub open spec fn spoken_text(content: ContentModel) -> Option<Seq<char>> {
    match content {
        ContentModel::Text(s) => Some(s),
        ContentModel::Blocks(blocks) => Some(
            match first_text(blocks) {
                Some(t) => t,
                None => Seq::<char>::empty(),
            },
        ),
        ContentModel::Other => None,
    }
}

/// The text shown for the message: a string that is not empty, or for a
/// list the first block text that is not empty.
pub open spec fn preview_text(content: ContentModel) -> Option<Seq<char>> {
    match content {
        ContentModel::Text(s) => if s.len() > 0 {
            Some(s)
        } else {
            None
        },
        ContentModel::Blocks(blocks) => first_filled_text(blocks),
        ContentModel::Other => None,
    }
}

/// The `i`-th command that the command-line program answers by itself.
pub open spec fn local_command_name(i: int) -> Seq<char> {
    if i == 0 {
        "/clear"@
    } else if i == 1 {
        "/compact"@
    } else if i == 2 {
        "/help"@
    } else if i == 3 {
        "/config"@
    } else if i == 4 {
        "/cost"@
    } else if i == 5 {
        "/doctor"@
    } else if i == 6 {
        "/init"@
    } else if i == 7 {
        "/login"@
    } else if i == 8 {
        "/logout"@
    } else if i == 9 {
        "/memory"@
    } else if i == 10 {
        "/model"@
    } else if i == 11 {
        "/permissions"@
    } else if i == 12 {
        "/pr-comments"@
    } else if i == 13 {
        "/review"@
    } else if i == 14 {
        "/status"@
    } else if i == 15 {
        "/terminal-setup"@
    } else {
        "/vim"@
    }
}

/// `text` is one of the local commands, alone or followed by a space and
/// arguments.
pub open spec fn is_local_command_text(text: Seq<char>) -> bool {
    exists|i: int|
        0 <= i < LOCAL_COMMAND_COUNT && (text == #[trigger] local_command_name(i) || has_prefix(
            text,
            local_command_name(i).push(' '),
        ))
}

/// The message is a local command once surrounding whitespace is removed.
pub open spec fn is_local_command(content: ContentModel) -> bool {
    spoken_text(content) matches Some(t) && is_local_command_text(trimmed(t))
}

/// The message carries the marker that the user interrupted the request.
pub open spec fn is_interrupted(content: ContentModel) -> bool {
    spoken_text(content) matches Some(t) && occurs_in(t, "[Request interrupted by user]"@)
}

/// Every status is the classification of some signals.
pub proof fn lemma_every_status_reachable(status: SessionStatus)
    ensures
        exists|kind: Option<Seq<char>>, a: bool, b: bool, c: bool, d: bool, e: bool|
            classify(kind, a, b, c, d, e) == status,
{
    let none: Option<Seq<char>> = None;
    let assistant = Some("assistant"@);
    match status {
        SessionStatus::Waiting => {
            assert(classify(assistant, false, false, false, false, false) == status);
        },
        SessionStatus::Processing => {
            assert(classify(assistant, true, false, false, false, false) == status);
        },
        SessionStatus::Thinking => {
            assert(classify(none, false, false, false, false, true) == status);
        },
        SessionStatus::Idle => {
            assert(classify(none, false, false, false, false, false) == status);
        },
    }
}

/// Sort priority of a status; lower comes first in the list.
pub fn status_sort_priority(status: &SessionStatus) -> (p: u8)
    ensures
        p == priority_of(*status),
{
    match status {
        SessionStatus::Thinking => 0,
        SessionStatus::Processing => 0,
        SessionStatus::Waiting => 1,
        SessionStatus::Idle => 2,
    }
}

/// The status of a session, from the type of its latest message with
/// content, four facts about that content, and the freshness of the log.
pub fn determine_status(
    last_msg_type: Option<&str>,
    has_tool_use: bool,
    has_tool_result: bool,
    is_local_command: bool,
    is_interrupted: bool,
    file_recently_modified: bool,
) -> (status: SessionStatus)
    ensures
        status == classify(
            last_msg_type.deep_view(),
            has_tool_use,
            has_tool_result,
            is_local_command,
            is_interrupted,
            file_recently_modified,
        ),
{
    let by_assistant = match last_msg_type {
        Some(kind) => str_eq(kind, "assistant"),
        None => false,
    };
    let by_user = match last_msg_type {
        Some(kind) => str_eq(kind, "user"),
        None => false,
    };
    if by_assistant {
        if has_tool_use || file_recently_modified {
            SessionStatus::Processing
        } else {
            SessionStatus::Waiting
        }
    } else if by_user {
        if is_local_command || is_interrupted {
            SessionStatus::Waiting
        } else if has_tool_result && !file_recently_modified {
            SessionStatus::Processing
        } else {
            SessionStatus::Thinking
        }
    } else if file_recently_modified {
        SessionStatus::Thinking
    } else {
        SessionStatus::Idle
    }
}

/// Whether some block has the given type.
fn any_block_of_kind(content: &Content, kind: &str) -> (r: bool)
    ensures
        r == has_block_of_kind(content.deep_view(), kind@),
{
    match content {
        Content::Blocks(blocks) => {
            assert(content.deep_view() == ContentModel::Blocks(blocks.deep_view()));
            let mut i: usize = 0;
            while i < blocks.len()
                invariant
                    i <= blocks.len(),
                    content.deep_view() == ContentModel::Blocks(blocks.deep_view()),
                    forall|j: int|
                        0 <= j < i ==> (#[trigger] blocks.deep_view()[j]).kind != Some(kind@),
                decreases blocks.len() - i,
            {
                let found = match &blocks[i].kind {
                    Some(k) => str_eq(k.as_str(), kind),
                    None => false,
                };
                if found {
                    assert(blocks.deep_view()[i as int].kind == Some(kind@));
                    return true;
                }
                i += 1;
            }
            false
        },
        _ => false,
    }
}

/// Whether the content holds a block that invokes a tool.
pub fn has_tool_use(content: &Content) -> (r: bool)
    ensures
        r == has_block_of_kind(content.deep_view(), "tool_use"@),
{
    any_block_of_kind(content, "tool_use")
}

/// Whether the content holds a block that carries a tool's result.
pub fn has_tool_result(content: &Content) -> (r: bool)
    ensures
        r == has_block_of_kind(content.deep_view(), "tool_result"@),
{
    any_block_of_kind(content, "tool_result")
}

/// The characters of the first block text, if any block has a text.
fn first_block_text(blocks: &Vec<ContentBlock>) -> (r: Option<Vec<char>>)
    ensures
        match r {
            Some(t) => first_text(blocks.deep_view()) == Some(t@),
            None => first_text(blocks.deep_view()) is None,
        },
{
    let mut i: usize = 0;
    assert(blocks.deep_view().skip(0) == blocks.deep_view());
    while i < blocks.len()
        invariant
            i <= blocks.len(),
            first_text(blocks.deep_view()) == first_text(blocks.deep_view().skip(i as int)),
        decreases blocks.len() - i,
    {
        let ghost rest = blocks.deep_view().skip(i as int);
        assert(rest[0] == blocks.deep_view()[i as int]);
        assert(rest.drop_first() == blocks.deep_view().skip(i + 1));
        match &blocks[i].text {
            Some(t) => {
                return Some(to_chars(t.as_str()));
            },
            None => {},
        }
        i += 1;
    }
    None
}

/// The characters of the first block text that is not empty.
pub fn first_filled_block_text(blocks: &Vec<ContentBlock>) -> (r: Option<Vec<char>>)
    ensures
        match r {
            Some(t) => first_filled_text(blocks.deep_view()) == Some(t@),
            None => first_filled_text(blocks.deep_view()) is None,
        },
{
    let mut i: usize = 0;
    assert(blocks.deep_view().skip(0) == blocks.deep_view());
    while i < blocks.len()
        invariant
            i <= blocks.len(),
            first_filled_text(blocks.deep_view()) == first_filled_text(
                blocks.deep_view().skip(i as int),
            ),
        decreases blocks.len() - i,
    {
        let ghost rest = blocks.deep_view().skip(i as int);
        assert(rest[0] == blocks.deep_view()[i as int]);
        assert(rest.drop_first() == blocks.deep_view().skip(i + 1));
        match &blocks[i].text {
            Some(t) => {
                let chars = to_chars(t.as_str());
                if chars.len() > 0 {
                    return Some(chars);
                }
            },
            None => {},
        }
        i += 1;
    }
    None
}

/// The characters of what the message says.
fn spoken_chars(content: &Content) -> (r: Option<Vec<char>>)
    ensures
        match r {
            Some(t) => spoken_text(content.deep_view()) == Some(t@),
            None => spoken_text(content.deep_view()) is None,
        },
{
    match content {
        Content::Text(s) => Some(to_chars(s.as_str())),
        Content::Blocks(blocks) => {
            match first_block_text(blocks) {
                Some(t) => Some(t),
                None => Some(Vec::new()),
            }
        },
        Content::Other => None,
    }
}

/// The `i`-th local command.
fn local_command(i: usize) -> (name: &'static str)
    requires
        i < LOCAL_COMMAND_COUNT,
    ensures
        name@ == local_command_name(i as int),
{
    if i == 0 {
        "/clear"
    } else if i == 1 {
        "/compact"
    } else if i == 2 {
        "/help"
    } else if i == 3 {
        "/config"
    } else if i == 4 {
        "/cost"
    } else if i == 5 {
        "/doctor"
    } else if i == 6 {
        "/init"
    } else if i == 7 {
        "/login"
    } else if i == 8 {
        "/logout"
    } else if i == 9 {
        "/memory"
    } else if i == 10 {
        "/model"
    } else if i == 11 {
        "/permissions"
    } else if i == 12 {
        "/pr-comments"
    } else if i == 13 {
        "/review"
    } else if i == 14 {
        "/status"
    } else if i == 15 {
        "/terminal-setup"
    } else {
        "/vim"
    }
}

/// Whether a text, already trimmed, is a local command.
pub fn is_local_command_line(text: &Vec<char>) -> (r: bool)
    ensures
        r == is_local_command_text(text@),
{
    let mut i: usize = 0;
    while i < LOCAL_COMMAND_COUNT
        invariant
            i <= LOCAL_COMMAND_COUNT,
            forall|j: int|
                0 <= j < i ==> !(text@ == #[trigger] local_command_name(j) || has_prefix(
                    text@,
                    local_command_name(j).push(' '),
                )),
        decreases LOCAL_COMMAND_COUNT - i,
    {
        let mut name = to_chars(local_command(i));
        if chars_eq(text, &name) {
            return true;
        }
        name.push(' ');
        if starts_with(text, &name) {
            return true;
        }
        i += 1;
    }
    false
}

/// Whether the message is a command that the command-line program
/// answers by itself, so that no answer of the assistant follows.
pub fn is_local_slash_command(content: &Content) -> (r: bool)
    ensures
        r == is_local_command(content.deep_view()),
{
    match spoken_chars(content) {
        Some(text) => {
            let line = trim(&text);
            is_local_command_line(&line)
        },
        None => false,
    }
}

/// Whether the message records that the user interrupted the request.
pub fn is_interrupted_request(content: &Content) -> (r: bool)
    ensures
        r == is_interrupted(content.deep_view()),
{
    match spoken_chars(content) {
        Some(text) => {
            let marker = to_chars("[Request interrupted by user]");
            contains(&text, &marker)
        },
        None => false,
    }
}

} // verus!
