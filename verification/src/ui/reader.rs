//! The text of the reader screen.
use vstd::prelude::*;
use crate::reader::{Role, Turn};
use crate::session::SessionMeta;
use crate::text::{push_str, split_lines, text_lines};

verus! {

/// What the reader screen shows: a session, its conversation and how far
/// it is scrolled.
pub struct ReaderView<'a> {
    pub meta: &'a SessionMeta,
    pub turns: &'a Vec<Turn>,
    pub scroll: u16,
}

/// One line of the reader: its text, and whether it is a turn header.
pub struct ReaderLine {
    pub text: String,
    pub header: bool,
}

/// A reader line as its characters and header flag.
pub open spec fn line_model(l: ReaderLine) -> (Seq<char>, bool) {
    (l.text@, l.header)
}

/// The header of a turn.
pub open spec fn role_header(role: Role) -> Seq<char> {
    match role {
        Role::User => "\u{258d} user"@,
        Role::Assistant => "\u{258d} assistant"@,
    }
}

/// The lines that show one turn: its header, the lines of its body, and an
/// empty line.
pub open spec fn turn_lines(t: Turn) -> Seq<(Seq<char>, bool)> {
    seq![(role_header(t.role), true)] + text_lines(t.body@).map_values(
        |l: Seq<char>| (l, false),
    ) + seq![(Seq::<char>::empty(), false)]
}

/// The lines that show a conversation, turn after turn.
pub open spec fn conversation_lines(turns: Seq<Turn>) -> Seq<(Seq<char>, bool)>
    decreases turns.len(),
{
    if turns.len() == 0 {
        seq![]
    } else {
        conversation_lines(turns.drop_last()) + turn_lines(turns.last())
    }
}

/// The header of a turn.
pub fn turn_header(role: Role) -> (r: String)
    ensures
        r@ == role_header(role),
{
    match role {
        Role::User => String::from_str("\u{258d} user"),
        Role::Assistant => String::from_str("\u{258d} assistant"),
    }
}

/// The lines of the reader for a conversation.
pub fn build_text(turns: &Vec<Turn>) -> (r: Vec<ReaderLine>)
    ensures
        r@.map_values(|l: ReaderLine| line_model(l)) == conversation_lines(turns@),
{
    let mut out: Vec<ReaderLine> = Vec::new();
    let mut i: usize = 0;
    while i < turns.len()
        invariant
            i <= turns.len(),
            out@.map_values(|l: ReaderLine| line_model(l)) == conversation_lines(
                turns@.take(i as int),
            ),
        decreases turns.len() - i,
    {
        assert(turns@.take(i + 1).drop_last() == turns@.take(i as int));
        let ghost start = out@.map_values(|l: ReaderLine| line_model(l));
        let t = &turns[i];
        out.push(ReaderLine { text: turn_header(t.role), header: true });
        let body = split_lines(t.body.as_str());
        let ghost bl = text_lines(t.body@);
        let mut j: usize = 0;
        while j < body.len()
            invariant
                j <= body.len(),
                body@.map_values(|l: String| l@) == bl,
                out@.map_values(|l: ReaderLine| line_model(l)) == start + seq![
                    (role_header(t.role), true),
                ] + bl.take(j as int).map_values(|l: Seq<char>| (l, false)),
            decreases body.len() - j,
        {
            let ghost before = out@.map_values(|l: ReaderLine| line_model(l));
            let line = body[j].clone();
            let ghost lv = line@;
            assert(lv == bl[j as int]);
            out.push(ReaderLine { text: line, header: false });
            assert(out@.map_values(|l: ReaderLine| line_model(l)) =~= before.push((lv, false)));
            assert(bl.take(j + 1).map_values(|l: Seq<char>| (l, false)) =~= bl.take(
                j as int,
            ).map_values(|l: Seq<char>| (l, false)).push((lv, false)));
            j = j + 1;
        }
        let ghost before2 = out@.map_values(|l: ReaderLine| line_model(l));
        out.push(ReaderLine { text: String::new(), header: false });
        assert(out@.map_values(|l: ReaderLine| line_model(l)) =~= before2.push(
            (Seq::<char>::empty(), false),
        ));
        assert(bl.take(body.len() as int) == bl);
        assert(out@.map_values(|l: ReaderLine| line_model(l)) =~= start + turn_lines(*t));
        i = i + 1;
    }
    assert(turns@.take(turns.len() as int) == turns@);
    out
}

/// ` <session id> — <cwd> `, or `(no cwd)` without one.
pub open spec fn reader_title_text(m: SessionMeta) -> Seq<char> {
    let cwd = match m.cwd {
        Some(c) => c@,
        None => "(no cwd)"@,
    };
    " "@ + m.session_id@ + " \u{2014} "@ + cwd + " "@
}

/// The title of the reader's frame.
pub fn reader_title(m: &SessionMeta) -> (r: String)
    ensures
        r@ == reader_title_text(*m),
{
    let mut t = String::from_str(" ");
    push_str(&mut t, m.session_id.as_str());
    push_str(&mut t, " \u{2014} ");
    match &m.cwd {
        Some(c) => push_str(&mut t, c.as_str()),
        None => push_str(&mut t, "(no cwd)"),
    }
    push_str(&mut t, " ");
    t
}

} // verus!
