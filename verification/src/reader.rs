//! The conversation of one session as a sequence of turns.
use vstd::prelude::*;
use crate::json::{docs_of, parse_lines, Json};
use crate::parser::{
    parse_record, record_of, BlockModel, ContentBlock, ContentModel, MessageContent,
    ParsedRecord, RecordKind, RecordModel,
};
use crate::text::{blank, is_blank, join, push_str};

verus! {

/// One user or assistant turn with its rendered body.
#[derive(Debug, Clone)]
pub struct Turn {
    pub role: Role,
    pub body: String,
}

/// Who spoke a turn.
#[derive(Debug, Clone, Copy, PartialEq, Eq, Structural)]
pub enum Role {
    User,
    Assistant,
}

/// A turn as a role and the characters of its body.
pub struct TurnModel {
    pub role: Role,
    pub body: Seq<char>,
}

impl View for Turn {
    type V = TurnModel;

    open spec fn view(&self) -> TurnModel {
        TurnModel { role: self.role, body: self.body@ }
    }
}

/// The models of a sequence of turns.
pub open spec fn turns_model(turns: Seq<Turn>) -> Seq<TurnModel> {
    turns.map_values(|t: Turn| t@)
}

/// How one block shows in a turn: text as it is, tool uses and results as
/// bracketed markers; thinking and unknown blocks do not show.
pub open spec fn block_part(b: BlockModel) -> Option<Seq<char>> {
    match b {
        BlockModel::Text(s) => Some(s),
        BlockModel::ToolUse(name) => Some("[tool: "@ + name + "]"@),
        BlockModel::ToolResult => Some("[tool result]"@),
        BlockModel::Thinking => None,
        BlockModel::Other => None,
    }
}

/// The parts that a sequence of blocks shows, in order.
pub open spec fn block_parts(bs: Seq<BlockModel>) -> Seq<Seq<char>>
    decreases bs.len(),
{
    if bs.len() == 0 {
        seq![]
    } else {
        match block_part(bs.last()) {
            Some(p) => block_parts(bs.drop_last()).push(p),
            None => block_parts(bs.drop_last()),
        }
    }
}

/// The text of a list of blocks: its parts, one per line.
pub open spec fn blocks_text(bs: Seq<BlockModel>) -> Seq<char> {
    join(block_parts(bs), "\n"@)
}

/// The role of a record of the given kind.
pub open spec fn role_of(kind: RecordKind) -> Role {
    match kind {
        RecordKind::User => Role::User,
        RecordKind::Assistant => Role::Assistant,
    }
}

/// The turn that a document holds: user and assistant records with
/// content whose rendered body is not blank.
pub open spec fn turn_of(doc: Json) -> Option<TurnModel> {
    match record_of(doc) {
        Some(RecordModel::UserOrAssistant { kind, message, .. }) => {
            let body = match message.content {
                ContentModel::Absent => None,
                ContentModel::Text(s) => Some(s),
                ContentModel::Blocks(b) => Some(blocks_text(b)),
            };
            match body {
                Some(b) => if is_blank(b) {
                    None
                } else {
                    Some(TurnModel { role: role_of(kind), body: b })
                },
                None => None,
            }
        },
        _ => None,
    }
}

/// The turns of a session log, one line (read as JSON, or not JSON at all)
/// after the other.
pub open spec fn turns_of(lines: Seq<Option<Json>>) -> Seq<TurnModel>
    decreases lines.len(),
{
    if lines.len() == 0 {
        seq![]
    } else {
        let prev = turns_of(lines.drop_last());
        match lines.last() {
            Some(doc) => match turn_of(doc) {
                Some(t) => prev.push(t),
                None => prev,
            },
            None => prev,
        }
    }
}

/// Render blocks as the lines of a turn body: text blocks as they are,
/// `[tool: <name>]`, `[tool result]`; thinking and unknown blocks dropped.
pub fn format_blocks(blocks: &Vec<ContentBlock>) -> (r: String)
    ensures
        r@ == blocks_text(crate::parser::blocks_model(blocks@)),
{
    let ghost bm = crate::parser::blocks_model(blocks@);
    let mut out = String::new();
    let mut any = false;
    let mut i: usize = 0;
    while i < blocks.len()
        invariant
            i <= blocks.len(),
            bm == crate::parser::blocks_model(blocks@),
            out@ == join(block_parts(bm.take(i as int)), "\n"@),
            any == (block_parts(bm.take(i as int)).len() > 0),
        decreases blocks.len() - i,
    {
        assert(bm.take(i + 1).drop_last() == bm.take(i as int));
        assert(bm.take(i + 1).last() == blocks@[i as int]@);
        let ghost before = block_parts(bm.take(i as int));
        let part: Option<String> = match &blocks[i] {
            ContentBlock::Text(s) => Some(s.clone()),
            ContentBlock::ToolUse { name } => {
                let mut p = String::from_str("[tool: ");
                push_str(&mut p, name.as_str());
                push_str(&mut p, "]");
                Some(p)
            },
            ContentBlock::ToolResult => Some(String::from_str("[tool result]")),
            ContentBlock::Thinking => None,
            ContentBlock::Other => None,
        };
        match part {
            Some(p) => {
                assert(block_part(blocks@[i as int]@) == Some(p@));
                if any {
                    push_str(&mut out, "\n");
                }
                push_str(&mut out, p.as_str());
                assert(block_parts(bm.take(i + 1)) == before.push(p@));
                assert(before.push(p@).drop_last() == before);
                any = true;
            },
            None => {
                assert(block_parts(bm.take(i + 1)) == before);
            },
        }
        i = i + 1;
    }
    assert(bm.take(blocks.len() as int) == bm);
    out
}

/// The turn that one record holds, if it is a user or assistant record
/// whose rendered body is not blank.
pub fn parse_turn(doc: &Json) -> (r: Option<Turn>)
    ensures
        match r {
            Some(t) => turn_of(*doc) == Some(t@),
            None => turn_of(*doc) is None,
        },
{
    let record = match parse_record(doc) {
        Some(rec) => rec,
        None => {
            return None;
        },
    };
    let (kind, message) = match record {
        ParsedRecord::UserOrAssistant { kind, message, .. } => (kind, message),
        _ => {
            return None;
        },
    };
    let role = match kind {
        RecordKind::User => Role::User,
        RecordKind::Assistant => Role::Assistant,
    };
    let body = match message.content {
        MessageContent::Absent => {
            return None;
        },
        MessageContent::Text(s) => s,
        MessageContent::Blocks(blocks) => format_blocks(&blocks),
    };
    if blank(body.as_str()) {
        return None;
    }
    Some(Turn { role, body })
}

/// Load up to `limit` turns from the start of a session log, given its lines
/// in order. `limit = None` means all turns. Every turn that comes back has a
/// body that is not blank.
pub fn load_turns(lines: &Vec<String>, limit: Option<usize>) -> (r: Vec<Turn>)
    ensures
        match limit {
            None => turns_model(r@) == turns_of(docs_of(lines@)),
            Some(n) => turns_model(r@) == turns_of(docs_of(lines@)).take(
                if n <= turns_of(docs_of(lines@)).len() {
                    n as int
                } else {
                    turns_of(docs_of(lines@)).len() as int
                },
            ),
        },
        forall|i: int| 0 <= i < r@.len() ==> !is_blank((#[trigger] r@[i]).body@),
{
    let docs = parse_lines(lines);
    turns_from_docs(&docs, limit)
}

/// Up to `limit` turns of a session log, given its lines read as JSON
/// (`None` for a line that is not JSON).
pub fn turns_from_docs(lines: &Vec<Option<Json>>, limit: Option<usize>) -> (r: Vec<Turn>)
    ensures
        match limit {
            None => turns_model(r@) == turns_of(lines@),
            Some(n) => turns_model(r@) == turns_of(lines@).take(
                if n <= turns_of(lines@).len() {
                    n as int
                } else {
                    turns_of(lines@).len() as int
                },
            ),
        },
        forall|i: int| 0 <= i < r@.len() ==> !is_blank((#[trigger] r@[i]).body@),
{
    let mut turns: Vec<Turn> = Vec::new();
    let mut i: usize = 0;
    while i < lines.len()
        invariant
            i <= lines.len(),
            turns_model(turns@) == turns_of(lines@.take(i as int)),
            forall|k: int| 0 <= k < turns@.len() ==> !is_blank((#[trigger] turns@[k]).body@),
            match limit {
                Some(n) => turns@.len() <= n,
                None => true,
            },
        decreases lines.len() - i,
    {
        match limit {
            Some(n) => {
                if turns.len() >= n {
                    proof {
                        lemma_turns_of_prefix(lines@, i as int, lines@.len() as int);
                        assert(lines@.take(lines@.len() as int) == lines@);
                    }
                    return turns;
                }
            },
            None => {},
        }
        assert(lines@.take(i + 1).drop_last() == lines@.take(i as int));
        assert(lines@.take(i + 1).last() == lines@[i as int]);
        match &lines[i] {
            Some(doc) => {
                match parse_turn(doc) {
                    Some(t) => {
                        turns.push(t);
                        assert(turns_model(turns@) == turns_of(lines@.take(i + 1)));
                    },
                    None => {},
                }
            },
            None => {},
        }
        i = i + 1;
    }
    assert(lines@.take(lines.len() as int) == lines@);
    proof {
        lemma_turns_of_prefix(lines@, lines@.len() as int, lines@.len() as int);
    }
    turns
}

/// The turns of a prefix of the lines are a prefix of the turns of the
/// longer prefix.
pub proof fn lemma_turns_of_prefix(lines: Seq<Option<Json>>, i: int, j: int)
    requires
        0 <= i <= j <= lines.len(),
    ensures
        turns_of(lines.take(i)).len() <= turns_of(lines.take(j)).len(),
        turns_of(lines.take(j)).take(turns_of(lines.take(i)).len() as int) == turns_of(
            lines.take(i),
        ),
    decreases j - i,
{
    if i < j {
        lemma_turns_of_prefix(lines, i, j - 1);
        assert(lines.take(j).drop_last() == lines.take(j - 1));
        let a = turns_of(lines.take(i));
        let b = turns_of(lines.take(j - 1));
        let c = turns_of(lines.take(j));
        assert(c.take(a.len() as int) == b.take(a.len() as int));
    } else {
        assert(turns_of(lines.take(j)).take(turns_of(lines.take(i)).len() as int) == turns_of(
            lines.take(i),
        ));
    }
}

/// A user or assistant message whose content is a string that is not blank
/// is one turn whose body is that string exactly, as written: a log of that
/// one line has exactly that turn.
pub proof fn law_text_turn_is_verbatim(doc: Json)
    requires
        record_of(doc) matches Some(RecordModel::UserOrAssistant { message, .. })
            && message.content matches ContentModel::Text(s) && !is_blank(s),
    ensures
        record_of(doc) matches Some(RecordModel::UserOrAssistant { kind, message, .. })
            && message.content matches ContentModel::Text(s) && turns_of(seq![Some(doc)])
            == seq![TurnModel { role: role_of(kind), body: s }],
{
    let lines = seq![Some(doc)];
    assert(lines.drop_last() =~= Seq::<Option<Json>>::empty());
    assert(lines.last() == Some(doc));
    assert(turns_of(lines.drop_last()) == Seq::<TurnModel>::empty());
    if let Some(RecordModel::UserOrAssistant { kind, message, .. }) = record_of(doc) {
        if let ContentModel::Text(s) = message.content {
            let t = TurnModel { role: role_of(kind), body: s };
            assert(turn_of(doc) == Some(t));
            assert(turns_of(lines) == Seq::<TurnModel>::empty().push(t));
            assert(Seq::<TurnModel>::empty().push(t) =~= seq![t]);
        }
    }
}

/// Thinking blocks never show in a turn's body, and a message of one text
/// block shows exactly that text.
pub proof fn law_thinking_is_hidden(bs: Seq<BlockModel>, a: Seq<char>)
    ensures
        blocks_text(bs.push(BlockModel::Thinking)) == blocks_text(bs),
        blocks_text(seq![BlockModel::Text(a)]) == a,
{
    assert(bs.push(BlockModel::Thinking).drop_last() == bs);
    let one = seq![BlockModel::Text(a)];
    assert(one.drop_last() =~= Seq::<BlockModel>::empty());
    assert(one.last() == BlockModel::Text(a));
    assert(block_parts(one.drop_last()) == Seq::<Seq<char>>::empty());
    assert(block_parts(one) =~= seq![a]);
    assert(seq![a][0] == a);
}

} // verus!
