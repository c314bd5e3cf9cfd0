//! One JSONL record of a session log, typed.
use vstd::prelude::*;
use crate::json::{json_doc, parse_json, Json};
use crate::time::{parse_rfc3339, rfc3339_instant, Timestamp};

verus! {

/// One block of an array-valued message content.
#[derive(Debug, PartialEq, Eq)]
pub enum ContentBlock {
    Text(String),
    Thinking,
    ToolUse { name: String },
    ToolResult,
    Other,
}

/// The `message.content` of a record.
#[derive(Debug, PartialEq, Eq)]
pub enum MessageContent {
    /// No usable content (absent, null or of another JSON kind).
    Absent,
    Text(String),
    Blocks(Vec<ContentBlock>),
}

/// The `message` of a user or assistant record.
#[derive(Debug, PartialEq, Eq)]
pub struct MessageRecord {
    pub role: String,
    pub content: MessageContent,
}

/// A record of a session log.
#[derive(Debug)]
pub enum ParsedRecord {
    UserOrAssistant {
        kind: RecordKind,
        message: MessageRecord,
        cwd: Option<String>,
        timestamp: Option<Timestamp>,
    },
    Summary,
    Other,
}

/// Who produced a user or assistant record.
#[derive(Debug, PartialEq, Eq, Structural, Clone, Copy)]
pub enum RecordKind {
    User,
    Assistant,
}

// ---------------------------------------------------------------------------
// Mathematical models
// ---------------------------------------------------------------------------

/// A content block with its text as a sequence of characters.
pub enum BlockModel {
    Text(Seq<char>),
    Thinking,
    ToolUse(Seq<char>),
    ToolResult,
    Other,
}

/// Message content as sequences of characters.
pub enum ContentModel {
    Absent,
    Text(Seq<char>),
    Blocks(Seq<BlockModel>),
}

/// A message: its role and its content.
pub struct MessageModel {
    pub role: Seq<char>,
    pub content: ContentModel,
}

/// A record, with the timestamp as (seconds, nanoseconds) in UTC.
pub enum RecordModel {
    UserOrAssistant {
        kind: RecordKind,
        message: MessageModel,
        cwd: Option<Seq<char>>,
        timestamp: Option<(i64, u32)>,
    },
    Summary,
    Other,
}

impl View for ContentBlock {
    type V = BlockModel;

    open spec fn view(&self) -> BlockModel {
        match self {
            ContentBlock::Text(s) => BlockModel::Text(s@),
            ContentBlock::Thinking => BlockModel::Thinking,
            ContentBlock::ToolUse { name } => BlockModel::ToolUse(name@),
            ContentBlock::ToolResult => BlockModel::ToolResult,
            ContentBlock::Other => BlockModel::Other,
        }
    }
}

/// The models of a sequence of blocks.
pub open spec fn blocks_model(blocks: Seq<ContentBlock>) -> Seq<BlockModel> {
    blocks.map_values(|b: ContentBlock| b@)
}

impl View for MessageContent {
    type V = ContentModel;

    open spec fn view(&self) -> ContentModel {
        match self {
            MessageContent::Absent => ContentModel::Absent,
            MessageContent::Text(s) => ContentModel::Text(s@),
            MessageContent::Blocks(b) => ContentModel::Blocks(blocks_model(b@)),
        }
    }
}

impl View for MessageRecord {
    type V = MessageModel;

    open spec fn view(&self) -> MessageModel {
        MessageModel { role: self.role@, content: self.content@ }
    }
}

/// The (seconds, nanoseconds) pair of an optional instant.
pub open spec fn instant_model(t: Option<Timestamp>) -> Option<(i64, u32)> {
    match t {
        Some(t) => Some((t.unix_secs(), t.subsec_nanos())),
        None => None,
    }
}

/// The view of an optional string.
pub open spec fn opt_text(s: Option<String>) -> Option<Seq<char>> {
    match s {
        Some(s) => Some(s@),
        None => None,
    }
}

impl View for ParsedRecord {
    type V = RecordModel;

    open spec fn view(&self) -> RecordModel {
        match self {
            ParsedRecord::UserOrAssistant { kind, message, cwd, timestamp } => {
                RecordModel::UserOrAssistant {
                    kind: *kind,
                    message: message@,
                    cwd: opt_text(*cwd),
                    timestamp: instant_model(*timestamp),
                }
            },
            ParsedRecord::Summary => RecordModel::Summary,
            ParsedRecord::Other => RecordModel::Other,
        }
    }
}

// ---------------------------------------------------------------------------
// What a record means
// ---------------------------------------------------------------------------

/// The block that a content array item describes: known `type`s map to
/// their block; a `text` block without string `text`, an item without a
/// string `type`, and unknown types are `Other`; a tool use without a string
/// `name` has the empty name.
pub open spec fn block_of(v: Json) -> BlockModel {
    match v.member_text("type"@) {
        None => BlockModel::Other,
        Some(t) => if t == "text"@ {
            match v.member_text("text"@) {
                Some(s) => BlockModel::Text(s),
                None => BlockModel::Other,
            }
        } else if t == "thinking"@ {
            BlockModel::Thinking
        } else if t == "tool_use"@ {
            BlockModel::ToolUse(
                match v.member_text("name"@) {
                    Some(n) => n,
                    None => ""@,
                },
            )
        } else if t == "tool_result"@ {
            BlockModel::ToolResult
        } else {
            BlockModel::Other
        },
    }
}

/// `message.content` read as content: a string is text, an array is a list
/// of blocks, and anything else (absent, null, number, object, ...) is none.
pub open spec fn content_of(c: Option<Json>) -> ContentModel {
    match c {
        Some(Json::Str(s)) => ContentModel::Text(s@),
        Some(Json::Array(items)) => ContentModel::Blocks(items@.map_values(|j: Json| block_of(j))),
        _ => ContentModel::Absent,
    }
}

/// The role name that a record of this kind gets when it names none.
pub open spec fn default_role(kind: RecordKind) -> Seq<char> {
    match kind {
        RecordKind::User => "user"@,
        RecordKind::Assistant => "assistant"@,
    }
}

/// `v.get("message").and_then(|m| m.get(key))`.
pub open spec fn message_member(doc: Json, key: Seq<char>) -> Option<Json> {
    match doc.member("message"@) {
        Some(m) => m.member(key),
        None => None,
    }
}

/// A user or assistant record read from `doc`.
pub open spec fn turn_record_of(doc: Json, kind: RecordKind) -> RecordModel {
    RecordModel::UserOrAssistant {
        kind,
        message: MessageModel {
            role: match message_member(doc, "role"@) {
                Some(r) => match r.text() {
                    Some(t) => t,
                    None => default_role(kind),
                },
                None => default_role(kind),
            },
            content: content_of(message_member(doc, "content"@)),
        },
        cwd: doc.member_text("cwd"@),
        timestamp: match doc.member_text("timestamp"@) {
            Some(t) => rfc3339_instant(t),
            None => None,
        },
    }
}

/// What `parse_line` makes of a document: nothing without a string `type`;
/// `user` and `assistant` records with their message, cwd and timestamp;
/// `summary` records; and every other type as `Other`.
pub open spec fn record_of(doc: Json) -> Option<RecordModel> {
    match doc.member_text("type"@) {
        None => None,
        Some(t) => if t == "user"@ {
            Some(turn_record_of(doc, RecordKind::User))
        } else if t == "assistant"@ {
            Some(turn_record_of(doc, RecordKind::Assistant))
        } else if t == "summary"@ {
            Some(RecordModel::Summary)
        } else {
            Some(RecordModel::Other)
        },
    }
}

/// Read a content block from one item of a content array.
pub fn parse_block(v: &Json) -> (r: ContentBlock)
    ensures
        r@ == block_of(*v),
{
    let ty = match v.get_str("type") {
        Some(t) => t,
        None => {
            return ContentBlock::Other;
        },
    };
    if crate::text::text_eq(ty.as_str(), "text") {
        match v.get_str("text") {
            Some(s) => ContentBlock::Text(s.clone()),
            None => ContentBlock::Other,
        }
    } else if crate::text::text_eq(ty.as_str(), "thinking") {
        ContentBlock::Thinking
    } else if crate::text::text_eq(ty.as_str(), "tool_use") {
        let name = match v.get_str("name") {
            Some(n) => n.clone(),
            None => String::from_str(""),
        };
        ContentBlock::ToolUse { name }
    } else if crate::text::text_eq(ty.as_str(), "tool_result") {
        ContentBlock::ToolResult
    } else {
        ContentBlock::Other
    }
}

/// Read the `message.content` member.
fn parse_content(c: Option<&Json>) -> (r: MessageContent)
    ensures
        r@ == content_of(
            match c {
                Some(j) => Some(*j),
                None => None,
            },
        ),
{
    match c {
        Some(Json::Str(s)) => MessageContent::Text(s.clone()),
        Some(Json::Array(items)) => {
            let mut blocks: Vec<ContentBlock> = Vec::new();
            let mut i: usize = 0;
            while i < items.len()
                invariant
                    i <= items.len(),
                    blocks@.len() == i,
                    forall|k: int| 0 <= k < i ==> (#[trigger] blocks@[k])@ == block_of(items@[k]),
                decreases items.len() - i,
            {
                let b = parse_block(&items[i]);
                blocks.push(b);
                i = i + 1;
            }
            assert(blocks_model(blocks@) == items@.map_values(|j: Json| block_of(j)));
            MessageContent::Blocks(blocks)
        },
        _ => MessageContent::Absent,
    }
}

/// `v.get("message").and_then(|m| m.get(key))`.
fn get_message_member<'a>(doc: &'a Json, key: &str) -> (r: Option<&'a Json>)
    ensures
        r is None <==> message_member(*doc, key@) is None,
        r matches Some(v) ==> message_member(*doc, key@) == Some(*v),
{
    match doc.get("message") {
        Some(m) => m.get(key),
        None => None,
    }
}

/// Read a user or assistant record.
fn parse_turn_record(doc: &Json, kind: RecordKind) -> (r: ParsedRecord)
    ensures
        r@ == turn_record_of(*doc, kind),
{
    let role = match get_message_member(doc, "role") {
        Some(r) => match r.as_str() {
            Some(t) => t.clone(),
            None => default_role_text(kind),
        },
        None => default_role_text(kind),
    };
    let content = parse_content(get_message_member(doc, "content"));
    let cwd = match doc.get_str("cwd") {
        Some(c) => Some(c.clone()),
        None => None,
    };
    let timestamp = match doc.get_str("timestamp") {
        Some(t) => parse_rfc3339(t.as_str()),
        None => None,
    };
    let r = ParsedRecord::UserOrAssistant {
        kind,
        message: MessageRecord { role, content },
        cwd,
        timestamp,
    };
    r
}

/// The role name that a record of this kind gets when it names none.
fn default_role_text(kind: RecordKind) -> (r: String)
    ensures
        r@ == default_role(kind),
{
    match kind {
        RecordKind::User => String::from_str("user"),
        RecordKind::Assistant => String::from_str("assistant"),
    }
}

/// Type one record of a session log, given the line read as JSON. `None`
/// when the document has no string `type`; otherwise `user`/`assistant`
/// records with their message, cwd and timestamp, `Summary` for summaries and
/// `Other` for every other type.
pub fn parse_record(doc: &Json) -> (r: Option<ParsedRecord>)
    ensures
        match r {
            Some(rec) => record_of(*doc) == Some(rec@),
            None => record_of(*doc) is None,
        },
{
    let ty = match doc.get_str("type") {
        Some(t) => t,
        None => {
            return None;
        },
    };
    if crate::text::text_eq(ty.as_str(), "user") {
        Some(parse_turn_record(doc, RecordKind::User))
    } else if crate::text::text_eq(ty.as_str(), "assistant") {
        Some(parse_turn_record(doc, RecordKind::Assistant))
    } else if crate::text::text_eq(ty.as_str(), "summary") {
        Some(ParsedRecord::Summary)
    } else {
        Some(ParsedRecord::Other)
    }
}

/// Read one line of a session log as a record: `None` when the line is not
/// JSON or its document is not a record.
pub fn parse_line(line: &str) -> (r: Option<ParsedRecord>)
    ensures
        match json_doc(line@) {
            None => r is None,
            Some(doc) => match r {
                Some(rec) => record_of(doc) == Some(rec@),
                None => record_of(doc) is None,
            },
        },
{
    match parse_json(line) {
        Some(doc) => parse_record(&doc),
        None => None,
    }
}

/// A user or assistant record, whichever it is, carries the document's
/// string `cwd` member as its cwd, and a `type` of `user` or `assistant`
/// always gives a record of that kind.
pub proof fn law_record_keeps_cwd(doc: Json)
    ensures
        record_of(doc) matches Some(RecordModel::UserOrAssistant { cwd, .. }) ==> cwd
            == doc.member_text("cwd"@),
        doc.member_text("type"@) == Some("user"@) ==> (record_of(doc) matches Some(
            RecordModel::UserOrAssistant { kind: RecordKind::User, cwd, .. },
        ) && cwd == doc.member_text("cwd"@)),
        doc.member_text("type"@) == Some("assistant"@) ==> (record_of(doc) matches Some(
            RecordModel::UserOrAssistant { kind: RecordKind::Assistant, cwd, .. },
        ) && cwd == doc.member_text("cwd"@)),
{
    reveal_strlit("user");
    reveal_strlit("assistant");
    assert("assistant"@[0] != "user"@[0]);
}

} // verus!
