//! A JSON document as plain data: what one line of a session log holds once
//! it has been read as JSON.
use vstd::prelude::*;
use crate::text::text_eq;

verus! {

/// A JSON value. Object members keep their keys; a JSON object never holds
/// one key twice, so a lookup finds at most one member.
#[derive(Debug)]
pub enum Json {
    Null,
    Bool(bool),
    /// The number's decimal text.
    Number(String),
    Str(String),
    Array(Vec<Json>),
    Object(Vec<(String, Json)>),
}

/// serde_json's JSON value, which a line is read into before it becomes a
/// `Json`.
#[verifier::external_type_specification]
#[verifier::external_body]
pub struct ExJsonValue(serde_json::Value);

/// The document that `serde_json::from_str::<serde_json::Value>` reads from a
/// line, as a `Json` (numbers as their decimal text); `None` when the line is
/// not JSON.
pub uninterp spec fn json_doc(line: Seq<char>) -> Option<Json>;

/// The documents that the lines of a log hold, one per line.
pub open spec fn docs_of(lines: Seq<String>) -> Seq<Option<Json>> {
    lines.map_values(|l: String| json_doc(l@))
}

/// Turns serde_json's value into a `Json`, variant by variant; a number
/// keeps the text serde_json writes for it.
#[verifier::external_body]
fn json_from_value(v: serde_json::Value) -> Json {
    match v {
        serde_json::Value::Null => Json::Null,
        serde_json::Value::Bool(b) => Json::Bool(b),
        serde_json::Value::Number(n) => Json::Number(n.to_string()),
        serde_json::Value::String(s) => Json::Str(s),
        serde_json::Value::Array(a) => Json::Array(a.into_iter().map(json_from_value).collect()),
        serde_json::Value::Object(m) => {
            Json::Object(m.into_iter().map(|(k, x)| (k, json_from_value(x))).collect())
        },
    }
}

/// Calls `serde_json::from_str::<serde_json::Value>` on one line; the
/// contract names the document it reads.
#[verifier::external_body]
pub(crate) fn parse_json(line: &str) -> (r: Option<Json>)
    ensures
        r == json_doc(line@),
{
    serde_json::from_str::<serde_json::Value>(line).ok().map(json_from_value)
}

/// Read each line of a log as JSON, in order.
pub fn parse_lines(lines: &Vec<String>) -> (r: Vec<Option<Json>>)
    ensures
        r@ == docs_of(lines@),
{
    let mut out: Vec<Option<Json>> = Vec::new();
    let mut i: usize = 0;
    while i < lines.len()
        invariant
            i <= lines.len(),
            out@ == docs_of(lines@.take(i as int)),
        decreases lines.len() - i,
    {
        out.push(parse_json(lines[i].as_str()));
        i = i + 1;
        assert(docs_of(lines@.take(i as int)) =~= docs_of(lines@.take(i - 1)).push(
            json_doc(lines@[i - 1]@),
        ));
    }
    assert(lines@.take(lines.len() as int) == lines@);
    out
}

/// The value stored under `key` among `fields` (the first match).
pub open spec fn field_of(fields: Seq<(String, Json)>, key: Seq<char>) -> Option<Json>
    decreases fields.len(),
{
    if fields.len() == 0 {
        None
    } else if fields[0].0@ == key {
        Some(fields[0].1)
    } else {
        field_of(fields.drop_first(), key)
    }
}

impl Json {
    /// `Value::get(key)`: the member `key` of an object; nothing for any
    /// other kind of value.
    pub open spec fn member(self, key: Seq<char>) -> Option<Json> {
        match self {
            Json::Object(fields) => field_of(fields@, key),
            _ => None,
        }
    }

    /// `Value::as_str()`: the text of a string value.
    pub open spec fn text(self) -> Option<Seq<char>> {
        match self {
            Json::Str(s) => Some(s@),
            _ => None,
        }
    }

    /// `v.get(key).and_then(|x| x.as_str())`.
    pub open spec fn member_text(self, key: Seq<char>) -> Option<Seq<char>> {
        match self.member(key) {
            Some(m) => m.text(),
            None => None,
        }
    }

    /// The member `key` of an object.
    pub fn get(&self, key: &str) -> (r: Option<&Json>)
        ensures
            r is None <==> self.member(key@) is None,
            r matches Some(v) ==> self.member(key@) == Some(*v),
    {
        match self {
            Json::Object(fields) => {
                let mut i: usize = 0;
                assert(fields@.skip(0) == fields@);
                while i < fields.len()
                    invariant
                        i <= fields.len(),
                        self.member(key@) == field_of(fields@, key@),
                        field_of(fields@, key@) == field_of(fields@.skip(i as int), key@),
                    decreases fields.len() - i,
                {
                    assert(fields@.skip(i as int).drop_first() == fields@.skip(i + 1));
                    assert(fields@.skip(i as int)[0] == fields@[i as int]);
                    if text_eq(fields[i].0.as_str(), key) {
                        assert(field_of(fields@.skip(i as int), key@) == Some(fields@[i as int].1));
                        return Some(&fields[i].1);
                    }
                    i = i + 1;
                }
                assert(fields@.skip(i as int).len() == 0);
                None
            },
            _ => None,
        }
    }

    /// The text of a string value.
    pub fn as_str(&self) -> (r: Option<&String>)
        ensures
            r is None <==> self.text() is None,
            r matches Some(s) ==> self.text() == Some(s@),
    {
        match self {
            Json::Str(s) => Some(s),
            _ => None,
        }
    }

    /// The text of the string member `key`.
    pub fn get_str(&self, key: &str) -> (r: Option<&String>)
        ensures
            r is None <==> self.member_text(key@) is None,
            r matches Some(s) ==> self.member_text(key@) == Some(s@),
    {
        match self.get(key) {
            Some(v) => v.as_str(),
            None => None,
        }
    }
}

} // verus!
