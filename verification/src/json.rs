//! Decoding of one log line into a record.
//!
//! The JSON text is parsed by `serde_json`. Verus sees a parsed value only
//! through [`json_tree`], the tree it stands for; the rules that turn such
//! a tree into a record are stated and verified here.

use vstd::prelude::*;
use crate::model::{
    BlockModel, Content, ContentBlock, ContentModel, JsonlMessage, MessageContent, MessageModel,
    RecordModel,
};

verus! {

/// A JSON document as a tree. Booleans and numbers are kept without their
/// value: nothing in a log record depends on it.
pub enum JsonTree {
    Null,
    Bool,
    Number,
    Text(Seq<char>),
    List(Seq<JsonTree>),
    Object(Map<Seq<char>, JsonTree>),
}

#[verifier::external_type_specification]
#[verifier::external_body]
pub struct ExValue(serde_json::Value);

/// The tree that a parsed value stands for.
pub uninterp spec fn json_tree(v: serde_json::Value) -> JsonTree;

/// The tree that a text parses to, where it is well-formed JSON.
pub uninterp spec fn parsed_json(text: Seq<char>) -> Option<JsonTree>;

/// `serde_json::from_str` for `serde_json::Value`: succeeds exactly on the
/// texts that [`parsed_json`] names, with the tree that it names.
#[verifier::external_body]
fn parse_json(text: &str) -> (r: Option<serde_json::Value>)
    ensures
        r is Some <==> parsed_json(text@) is Some,
        r matches Some(v) ==> Some(json_tree(v)) == parsed_json(text@),
{
    serde_json::from_str(text).ok()
}

/// `serde_json::Value::get` with a string key: the member of an object
/// under that key; nothing for a missing key and for any other value.
#[verifier::external_body]
fn member<'a>(v: &'a serde_json::Value, key: &str) -> (r: Option<&'a serde_json::Value>)
    ensures
        match r {
            Some(m) => json_tree(*v) matches JsonTree::Object(fields) && fields.contains_key(key@)
                && json_tree(*m) == fields[key@],
            None => !(json_tree(*v) matches JsonTree::Object(fields) && fields.contains_key(
                key@,
            )),
        },
{
    v.get(key)
}

/// `serde_json::Value::as_str`: the text of a string; nothing for any
/// other value.
#[verifier::external_body]
fn as_text<'a>(v: &'a serde_json::Value) -> (r: Option<&'a str>)
    ensures
        match r {
            Some(s) => json_tree(*v) == JsonTree::Text(s@),
            None => !(json_tree(*v) is Text),
        },
{
    v.as_str()
}

/// `serde_json::Value::as_array`: the items of an array, in order;
/// nothing for any other value.
#[verifier::external_body]
fn as_list<'a>(v: &'a serde_json::Value) -> (r: Option<&'a Vec<serde_json::Value>>)
    ensures
        match r {
            Some(items) => json_tree(*v) matches JsonTree::List(trees) && trees.len()
                == items@.len() && forall|i: int|
                0 <= i < items@.len() ==> json_tree(#[trigger] items@[i]) == trees[i],
            None => !(json_tree(*v) is List),
        },
{
    v.as_array()
}

/// `serde_json::Value::is_null`.
#[verifier::external_body]
fn is_null(v: &serde_json::Value) -> (r: bool)
    ensures
        r == (json_tree(*v) is Null),
{
    v.is_null()
}

/// `serde_json::Value::is_object`.
#[verifier::external_body]
fn is_object(v: &serde_json::Value) -> (r: bool)
    ensures
        r == (json_tree(*v) is Object),
{
    v.is_object()
}

/// The member under `key` where the tree is an object that has one.
pub open spec fn member_of(tree: JsonTree, key: Seq<char>) -> Option<JsonTree> {
    match tree {
        JsonTree::Object(fields) => if fields.contains_key(key) {
            Some(fields[key])
        } else {
            None
        },
        _ => None,
    }
}

/// The member under `key` where it is a string.
pub open spec fn text_member(tree: JsonTree, key: Seq<char>) -> Option<Seq<char>> {
    match member_of(tree, key) {
        Some(JsonTree::Text(s)) => Some(s),
        _ => None,
    }
}

/// An optional string field of a record. A missing member and `null`
/// are no value; a string is a value; anything else breaks the schema
/// (the outer `None`).
pub open spec fn optional_text(tree: JsonTree, key: Seq<char>) -> Option<Option<Seq<char>>> {
    match member_of(tree, key) {
        None => Some(None),
        Some(JsonTree::Null) => Some(None),
        Some(JsonTree::Text(s)) => Some(Some(s)),
        Some(_) => None,
    }
}

/// One item of a content list as a block: its `type` and `text`, each
/// only where it is a string.
pub open spec fn block_of(tree: JsonTree) -> BlockModel {
    BlockModel { kind: text_member(tree, "type"@), text: text_member(tree, "text"@) }
}

/// The content that a `content` member stands for.
pub open spec fn content_of(tree: JsonTree) -> ContentModel {
    match tree {
        JsonTree::Text(s) => ContentModel::Text(s),
        JsonTree::List(items) => ContentModel::Blocks(
            Seq::new(items.len(), |i: int| block_of(items[i])),
        ),
        _ => ContentModel::Other,
    }
}

/// The content of a message: none where the member is missing or `null`.
pub open spec fn optional_content(tree: JsonTree) -> Option<ContentModel> {
    match member_of(tree, "content"@) {
        None => None,
        Some(JsonTree::Null) => None,
        Some(c) => Some(content_of(c)),
    }
}

/// The message that a `message` member stands for: an object with an
/// optional string `role` and an optional `content`. Anything else breaks
/// the schema.
pub open spec fn message_of(tree: JsonTree) -> Option<MessageModel> {
    if tree is Object {
        match optional_text(tree, "role"@) {
            Some(role) => Some(MessageModel { role, content: optional_content(tree) }),
            None => None,
        }
    } else {
        None
    }
}

/// The optional message of a record. A missing member and `null` are no
/// message; a member that is no message breaks the schema.
pub open spec fn optional_message(tree: JsonTree) -> Option<Option<MessageModel>> {
    match member_of(tree, "message"@) {
        None => Some(None),
        Some(JsonTree::Null) => Some(None),
        Some(m) => match message_of(m) {
            Some(message) => Some(Some(message)),
            None => None,
        },
    }
}

/// The record that a tree stands for: an object whose members
/// `sessionId`, `gitBranch`, `timestamp` and `type` are optional strings
/// and whose member `message` is an optional message. Further members are
/// ignored. `None` where the tree does not follow this schema.
pub open spec fn record_of(tree: JsonTree) -> Option<RecordModel> {
    if !(tree is Object) {
        None
    } else if optional_text(tree, "sessionId"@) is None || optional_text(tree, "gitBranch"@)
        is None || optional_text(tree, "timestamp"@) is None || optional_text(tree, "type"@)
        is None || optional_message(tree) is None {
        None
    } else {
        Some(
            RecordModel {
                session_id: optional_text(tree, "sessionId"@)->0,
                git_branch: optional_text(tree, "gitBranch"@)->0,
                timestamp: optional_text(tree, "timestamp"@)->0,
                msg_type: optional_text(tree, "type"@)->0,
                message: optional_message(tree)->0,
            },
        )
    }
}

/// The record that a line of a log stands for: `None` where the line is
/// no JSON or does not follow the schema.
pub open spec fn decoded(line: Seq<char>) -> Option<RecordModel> {
    match parsed_json(line) {
        Some(tree) => record_of(tree),
        None => None,
    }
}

/// The string member under `key`, if there is one.
fn text_member_from(v: &serde_json::Value, key: &str) -> (r: Option<String>)
    ensures
        r.deep_view() == text_member(json_tree(*v), key@),
{
    match member(v, key) {
        Some(m) => match as_text(m) {
            Some(s) => Some(s.to_owned()),
            None => None,
        },
        None => None,
    }
}

/// The optional string field under `key`.
fn optional_text_from(v: &serde_json::Value, key: &str) -> (r: Option<Option<String>>)
    ensures
        r.deep_view() == optional_text(json_tree(*v), key@),
{
    match member(v, key) {
        Some(m) => {
            if is_null(m) {
                Some(None)
            } else {
                match as_text(m) {
                    Some(s) => Some(Some(s.to_owned())),
                    None => None,
                }
            }
        },
        None => Some(None),
    }
}

/// The content that a parsed `content` member stands for.
pub fn content_from_json(v: &serde_json::Value) -> (r: Content)
    ensures
        r.deep_view() == content_of(json_tree(*v)),
{
    match as_text(v) {
        Some(s) => Content::Text(s.to_owned()),
        None => match as_list(v) {
            Some(items) => {
                let ghost trees = json_tree(*v)->List_0;
                let mut blocks: Vec<ContentBlock> = Vec::new();
                let mut i: usize = 0;
                while i < items.len()
                    invariant
                        i <= items.len(),
                        trees.len() == items@.len(),
                        forall|j: int|
                            0 <= j < items@.len() ==> json_tree(#[trigger] items@[j]) == trees[j],
                        blocks.len() == i,
                        forall|j: int|
                            0 <= j < i ==> (#[trigger] blocks@[j]).deep_view() == block_of(
                                trees[j],
                            ),
                    decreases items.len() - i,
                {
                    let item = &items[i];
                    let block = ContentBlock {
                        kind: text_member_from(item, "type"),
                        text: text_member_from(item, "text"),
                    };
                    blocks.push(block);
                    i += 1;
                }
                assert(blocks.deep_view() =~= Seq::new(trees.len(), |j: int| block_of(trees[j])));
                Content::Blocks(blocks)
            },
            None => Content::Other,
        },
    }
}

/// The optional content of a parsed message.
fn optional_content_from(v: &serde_json::Value) -> (r: Option<Content>)
    ensures
        r.deep_view() == optional_content(json_tree(*v)),
{
    match member(v, "content") {
        Some(c) => {
            if is_null(c) {
                None
            } else {
                Some(content_from_json(c))
            }
        },
        None => None,
    }
}

/// The optional message of a parsed record.
fn optional_message_from(v: &serde_json::Value) -> (r: Option<Option<MessageContent>>)
    ensures
        r.deep_view() == optional_message(json_tree(*v)),
{
    match member(v, "message") {
        Some(m) => {
            if is_null(m) {
                Some(None)
            } else if !is_object(m) {
                None
            } else {
                match optional_text_from(m, "role") {
                    Some(role) => Some(
                        Some(MessageContent { role, content: optional_content_from(m) }),
                    ),
                    None => None,
                }
            }
        },
        None => Some(None),
    }
}

/// The record that a parsed value stands for, if it follows the schema.
pub fn record_from_json(v: &serde_json::Value) -> (r: Option<JsonlMessage>)
    ensures
        r.deep_view() == record_of(json_tree(*v)),
{
    if !is_object(v) {
        return None;
    }
    let session_id = match optional_text_from(v, "sessionId") {
        Some(x) => x,
        None => { return None; },
    };
    let git_branch = match optional_text_from(v, "gitBranch") {
        Some(x) => x,
        None => { return None; },
    };
    let timestamp = match optional_text_from(v, "timestamp") {
        Some(x) => x,
        None => { return None; },
    };
    let msg_type = match optional_text_from(v, "type") {
        Some(x) => x,
        None => { return None; },
    };
    let message = match optional_message_from(v) {
        Some(x) => x,
        None => { return None; },
    };
    Some(JsonlMessage { session_id, git_branch, timestamp, msg_type, message })
}

/// The record that a line of a log stands for, if it is one.
pub fn decode_record(line: &str) -> (r: Option<JsonlMessage>)
    ensures
        r.deep_view() == decoded(line@),
{
    match parse_json(line) {
        Some(v) => record_from_json(&v),
        None => None,
    }
}

} // verus!
