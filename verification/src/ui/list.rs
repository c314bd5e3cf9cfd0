//! The text of the list screen: row layout, frame title, status line and
//! preview.
use vstd::prelude::*;
use crate::reader::Turn;
use crate::scan::{file_name, file_name_of};
use crate::session::SessionMeta;
use crate::text::{decimal, push_char, push_decimal, push_str};
use crate::time::wall_clock_text;
use crate::ui::reader::{role_header, turn_header};
use crate::util::{format_local_short, truncate_to_width, truncated};

verus! {

/// What the list screen shows: the sessions, which of them are visible and
/// in what order, the cursor (a position among the visible rows), whether
/// the preview shows, the filter query while it is being typed, a status
/// message that replaces the usual status line, and whether body search is
/// on.
pub struct ListView<'a> {
    pub sessions: &'a Vec<SessionMeta>,
    pub indices: &'a Vec<usize>,
    pub cursor: usize,
    pub show_preview: bool,
    pub filter_input: Option<&'a String>,
    pub status_override: Option<&'a String>,
    pub body_scope: bool,
}

/// `✓` when the session's working directory exists, `✗` otherwise.
pub open spec fn mark_text(m: SessionMeta) -> Seq<char> {
    if m.cwd_exists {
        "\u{2713}"@
    } else {
        "\u{2717}"@
    }
}

/// The last component of the session's cwd, or `?`.
pub open spec fn base_name(m: SessionMeta) -> Seq<char> {
    match m.cwd {
        Some(c) => match file_name_of(c@) {
            Some(n) => n,
            None => "?"@,
        },
        None => "?"@,
    }
}

/// `s` padded with spaces to at least `w` characters (`{:<w}`).
pub open spec fn pad_right(s: Seq<char>, w: nat) -> Seq<char> {
    if s.len() >= w {
        s
    } else {
        s + Seq::new((w - s.len()) as nat, |i: int| ' ')
    }
}

/// The columns left for the title: what remains of the width after the
/// fixed columns (49), but at least 10.
pub open spec fn title_cols(width: usize) -> nat {
    let rest: int = if width > 49 {
        width - 49
    } else {
        0
    };
    if rest > 10 {
        rest as nat
    } else {
        10
    }
}

/// `<mark>  <date>  <base, 24 columns>  <title>` for a row whose date reads
/// `date`.
pub open spec fn row_text(m: SessionMeta, width: usize, date: Seq<char>) -> Seq<char> {
    mark_text(m) + "  "@ + date + "  "@ + pad_right(truncated(base_name(m), 24), 24) + "  "@
        + truncated(m.title@, title_cols(width))
}

/// One row of the session list for a frame `width` columns wide. The date is
/// the last activity in local time: the clock reading of the instant shifted
/// by the local offset from UTC, which is less than a day.
pub fn format_row(m: &SessionMeta, width: usize) -> (r: String)
    ensures
        exists|w: int|
            -86400 < w - m.last_activity.unix_secs() < 86400 && r@ == row_text(
                *m,
                width,
                #[trigger] wall_clock_text(w),
            ),
{
    let mut row = if m.cwd_exists {
        String::from_str("\u{2713}")
    } else {
        String::from_str("\u{2717}")
    };
    push_str(&mut row, "  ");
    let date = format_local_short(&m.last_activity);
    let ghost w = choose|w: int|
        -86400 < w - m.last_activity.unix_secs() < 86400 && date@ == #[trigger] wall_clock_text(w);
    push_str(&mut row, date.as_str());
    push_str(&mut row, "  ");
    let base = match &m.cwd {
        Some(c) => match file_name(c.as_str()) {
            Some(n) => n,
            None => String::from_str("?"),
        },
        None => String::from_str("?"),
    };
    let base_trim = truncate_to_width(base.as_str(), 24);
    let ghost before_pad = row@;
    push_str(&mut row, base_trim.as_str());
    let n = base_trim.as_str().unicode_len();
    if n < 24 {
        let mut k: usize = n;
        while k < 24
            invariant
                n <= k <= 24,
                n == base_trim@.len(),
                row@ == before_pad + base_trim@ + Seq::new((k - n) as nat, |i: int| ' '),
            decreases 24 - k,
        {
            push_char(&mut row, ' ');
            k = k + 1;
            assert(row@ =~= before_pad + base_trim@ + Seq::new((k - n) as nat, |i: int| ' '));
        }
    }
    assert(row@ =~= before_pad + pad_right(base_trim@, 24));
    push_str(&mut row, "  ");
    let rest: usize = if width > 49 {
        width - 49
    } else {
        0
    };
    let title_width: usize = if rest > 10 {
        rest
    } else {
        10
    };
    let title = truncate_to_width(m.title.as_str(), title_width);
    push_str(&mut row, title.as_str());
    assert(row@ =~= row_text(*m, width, wall_clock_text(w)));
    row
}

/// ` Sessions `, with `/<query>` while the filter takes input and
/// `[+body]` while body search is on.
pub open spec fn list_title_text(filter_input: Option<Seq<char>>, body_scope: bool) -> Seq<char> {
    match filter_input {
        Some(q) => if body_scope {
            " Sessions   /"@ + q + " [+body] "@
        } else {
            " Sessions   /"@ + q + " "@
        },
        None => " Sessions "@,
    }
}

/// The view of an optional borrowed string.
pub open spec fn opt_ref_text(s: Option<&String>) -> Option<Seq<char>> {
    match s {
        Some(t) => Some(t@),
        None => None,
    }
}

/// The title of the list's frame.
pub fn list_title(view: &ListView) -> (r: String)
    ensures
        r@ == list_title_text(opt_ref_text(view.filter_input), view.body_scope),
{
    match view.filter_input {
        Some(q) => {
            let mut t = String::from_str(" Sessions   /");
            push_str(&mut t, q.as_str());
            if view.body_scope {
                push_str(&mut t, " [+body] ");
            } else {
                push_str(&mut t, " ");
            }
            t
        },
        None => String::from_str(" Sessions "),
    }
}

/// The session under the cursor, if the cursor is on a visible row.
pub open spec fn cursor_session(view: ListView) -> Option<usize> {
    if view.cursor < view.indices@.len() && view.indices@[view.cursor as int]
        < view.sessions@.len() {
        Some(view.indices@[view.cursor as int])
    } else {
        None
    }
}

/// The status line: the status message if there is one; else the cwd of
/// the session under the cursor, its position among the visible rows and
/// its message count; else `(no sessions found)`.
pub open spec fn status_text(view: ListView) -> Seq<char> {
    match view.status_override {
        Some(s) => s@,
        None => match cursor_session(view) {
            Some(i) => {
                let m = view.sessions@[i as int];
                let cwd = match m.cwd {
                    Some(c) => c@,
                    None => "(no cwd)"@,
                };
                cwd + "    "@ + decimal((view.cursor + 1) as nat) + "/"@ + decimal(
                    view.indices@.len(),
                ) + "    "@ + decimal(m.message_count as nat) + " msgs"@
            },
            None => "(no sessions found)"@,
        },
    }
}

/// The index of the session under the cursor, if the cursor is on a visible
/// row.
pub fn selected_session(view: &ListView) -> (r: Option<usize>)
    ensures
        r == cursor_session(*view),
{
    if view.cursor < view.indices.len() && view.indices[view.cursor] < view.sessions.len() {
        Some(view.indices[view.cursor])
    } else {
        None
    }
}

/// The status line of the list screen.
pub fn status_line(view: &ListView) -> (r: String)
    ensures
        r@ == status_text(*view),
{
    match view.status_override {
        Some(s) => s.clone(),
        None => match selected_session(view) {
            Some(i) => {
                let shown: usize = view.indices.len();
                assert(view.cursor < shown);
                let m = &view.sessions[i];
                let mut line = match &m.cwd {
                    Some(c) => c.clone(),
                    None => String::from_str("(no cwd)"),
                };
                push_str(&mut line, "    ");
                let pos: usize = view.cursor + 1;
                push_decimal(&mut line, pos as u64);
                push_str(&mut line, "/");
                push_decimal(&mut line, shown as u64);
                push_str(&mut line, "    ");
                push_decimal(&mut line, m.message_count as u64);
                push_str(&mut line, " msgs");
                line
            },
            None => String::from_str("(no sessions found)"),
        },
    }
}

/// The visible row that the list highlights: the cursor, kept within the
/// rows.
pub fn highlighted_row(view: &ListView) -> (r: Option<usize>)
    ensures
        view.indices@.len() == 0 ==> r is None,
        view.indices@.len() > 0 ==> r == Some(
            if view.cursor < view.indices@.len() {
                view.cursor
            } else {
                (view.indices@.len() - 1) as usize
            },
        ),
{
    if view.indices.len() == 0 {
        None
    } else if view.cursor < view.indices.len() {
        Some(view.cursor)
    } else {
        Some(view.indices.len() - 1)
    }
}

/// The preview of a conversation: each turn's header on its own line, its
/// body, and a blank line.
pub open spec fn preview_text(turns: Seq<Turn>) -> Seq<char>
    decreases turns.len(),
{
    if turns.len() == 0 {
        seq![]
    } else {
        preview_text(turns.drop_last()) + role_header(turns.last().role) + "\n"@
            + turns.last().body@ + "\n\n"@
    }
}

/// The text of the preview pane for the first turns of a session.
pub fn format_preview(turns: &Vec<Turn>) -> (r: String)
    ensures
        r@ == preview_text(turns@),
{
    let mut s = String::new();
    let mut i: usize = 0;
    while i < turns.len()
        invariant
            i <= turns.len(),
            s@ == preview_text(turns@.take(i as int)),
        decreases turns.len() - i,
    {
        assert(turns@.take(i + 1).drop_last() == turns@.take(i as int));
        let header = turn_header(turns[i].role);
        push_str(&mut s, header.as_str());
        push_str(&mut s, "\n");
        push_str(&mut s, turns[i].body.as_str());
        push_str(&mut s, "\n\n");
        i = i + 1;
    }
    assert(turns@.take(turns.len() as int) == turns@);
    s
}

} // verus!
