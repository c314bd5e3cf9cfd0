//! Moving a session log to the trash: the trashed file's name and the line
//! that the trash index records.
use vstd::prelude::*;
use crate::scan::{extension_of, last_dot, stem_of};
use crate::text::push_str;
use crate::time::{rfc3339_text, utc_stamp_text, Timestamp};

verus! {

/// The lower-case hexadecimal digit for `n < 16`.
pub open spec fn hex_digit(n: int) -> char {
    if n < 10 {
        (n + 48) as char
    } else {
        (n + 87) as char
    }
}

/// How serde_json writes one character inside a JSON string: `"` and `\`
/// behind a backslash; backspace, tab, line feed, form feed and carriage
/// return as `\b`, `\t`, `\n`, `\f`, `\r`; any other character below
/// U+0020 as `\u00` and two lower-case hex digits; every other character as
/// itself.
pub open spec fn json_char(c: char) -> Seq<char> {
    let n = c as int;
    if c == '"' {
        seq!['\\', '"']
    } else if c == '\\' {
        seq!['\\', '\\']
    } else if n == 8 {
        seq!['\\', 'b']
    } else if n == 9 {
        seq!['\\', 't']
    } else if n == 10 {
        seq!['\\', 'n']
    } else if n == 12 {
        seq!['\\', 'f']
    } else if n == 13 {
        seq!['\\', 'r']
    } else if n < 32 {
        seq!['\\', 'u', '0', '0', hex_digit(n / 16), hex_digit(n % 16)]
    } else {
        seq![c]
    }
}

/// The characters of `s`, each written as serde_json writes it in a string.
pub open spec fn json_escaped(s: Seq<char>) -> Seq<char>
    decreases s.len(),
{
    if s.len() == 0 {
        seq![]
    } else {
        json_escaped(s.drop_last()) + json_char(s.last())
    }
}

/// The JSON string literal that serde_json writes for `s`.
pub open spec fn json_string_text(s: Seq<char>) -> Seq<char> {
    seq!['"'] + json_escaped(s) + seq!['"']
}

/// Calls `serde_json::to_string` on a string slice: a quote, each character
/// escaped by serde_json's table, and a quote. Writing a `str` into memory
/// cannot fail.
#[verifier::external_body]
fn json_string(s: &str) -> (r: String)
    ensures
        r@ == json_string_text(s@),
{
    serde_json::to_string(s).expect("writing a string into memory cannot fail")
}

/// A session log that was moved to the trash.
#[derive(Debug)]
pub struct TrashEntry {
    pub trashed_path: String,
    pub original_path: String,
    pub session_id: String,
    pub deleted_at: Timestamp,
}

/// `<stamp>-<session_id>.jsonl`, with the deletion time as the stamp.
pub open spec fn trashed_name_of(session_id: Seq<char>, deleted_at: Timestamp) -> Seq<char> {
    utc_stamp_text(deleted_at.unix_secs(), deleted_at.subsec_nanos()) + "-"@ + session_id
        + ".jsonl"@
}

/// The file name that a session log gets in the trash: the deletion time in
/// UTC, a dash, the session id and `.jsonl`. Whatever the id holds, the name
/// has the extension `jsonl` and the stem `<stamp>-<session_id>`.
pub fn trashed_file_name(session_id: &str, deleted_at: &Timestamp) -> (r: String)
    ensures
        r@ == trashed_name_of(session_id@, *deleted_at),
        extension_of(r@) == Some("jsonl"@),
        stem_of(r@) == utc_stamp_text(deleted_at.unix_secs(), deleted_at.subsec_nanos()) + "-"@
            + session_id@,
{
    proof {
        use_type_invariant(deleted_at);
    }
    let mut name = deleted_at.utc_stamp();
    push_str(&mut name, "-");
    push_str(&mut name, session_id);
    push_str(&mut name, ".jsonl");
    proof {
        reveal_strlit(".jsonl");
        reveal_strlit("jsonl");
        reveal_strlit("-");
        let base = utc_stamp_text(deleted_at.unix_secs(), deleted_at.subsec_nanos()) + "-"@
            + session_id@;
        let n = name@;
        assert(n == base + ".jsonl"@);
        assert(n.drop_last().drop_last().drop_last().drop_last().drop_last() =~= base.push('.'));
        assert(n[n.len() - 6] == '.');
        assert(n.last() == 'l');
        assert(last_dot(n) == n.len() - 6) by {
            let n1 = n.drop_last();
            let n2 = n1.drop_last();
            let n3 = n2.drop_last();
            let n4 = n3.drop_last();
            let n5 = n4.drop_last();
            assert(n.last() == 'l' && n1.last() == 'n' && n2.last() == 'o');
            assert(n3.last() == 's' && n4.last() == 'j' && n5.last() == '.');
            assert(last_dot(n5) == n5.len() - 1);
            assert(last_dot(n4) == last_dot(n5));
            assert(last_dot(n3) == last_dot(n4));
            assert(last_dot(n2) == last_dot(n3));
            assert(last_dot(n1) == last_dot(n2));
            assert(last_dot(n) == last_dot(n1));
        }
        assert(n.subrange(n.len() - 5, n.len() as int) =~= "jsonl"@);
        assert(n.subrange(0, n.len() - 6) =~= base);
    }
    name
}

/// The line that the trash index records for a moved log.
pub open spec fn index_line_of(
    trashed_path: Seq<char>,
    original_path: Seq<char>,
    session_id: Seq<char>,
    deleted_at: Timestamp,
) -> Seq<char> {
    "{\"trashed_path\":"@ + json_string_text(trashed_path) + ",\"original_path\":"@
        + json_string_text(original_path) + ",\"session_id\":"@ + json_string_text(session_id)
        + ",\"deleted_at\":"@ + json_string_text(
        rfc3339_text(deleted_at.unix_secs(), deleted_at.subsec_nanos()),
    ) + "}"@
}

/// The JSON object that the trash index gets for a moved log: its trashed
/// and original paths, its session id and the deletion time in RFC 3339.
pub fn index_line(entry: &TrashEntry) -> (r: String)
    ensures
        r@ == index_line_of(
            entry.trashed_path@,
            entry.original_path@,
            entry.session_id@,
            entry.deleted_at,
        ),
{
    let mut line = String::from_str("{\"trashed_path\":");
    let t = json_string(entry.trashed_path.as_str());
    push_str(&mut line, t.as_str());
    push_str(&mut line, ",\"original_path\":");
    let o = json_string(entry.original_path.as_str());
    push_str(&mut line, o.as_str());
    push_str(&mut line, ",\"session_id\":");
    let s = json_string(entry.session_id.as_str());
    push_str(&mut line, s.as_str());
    push_str(&mut line, ",\"deleted_at\":");
    proof {
        use_type_invariant(&entry.deleted_at);
    }
    let stamp = entry.deleted_at.to_rfc3339();
    let d = json_string(stamp.as_str());
    push_str(&mut line, d.as_str());
    push_str(&mut line, "}");
    line
}

} // verus!
