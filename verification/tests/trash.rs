use ccpast::time::Timestamp;
use ccpast::trash::{index_line, trashed_file_name, TrashEntry};
use ccpast::scan::{extension, file_stem};

#[test]
fn trashed_name_is_stamp_dash_id_jsonl() {
    let t = Timestamp::from_unix(1_767_323_045, 123_456_789).unwrap();
    let name = trashed_file_name("session-x", &t);
    assert_eq!(name, "20260102T030405.123Z-session-x.jsonl");
    assert_eq!(extension(&name), Some("jsonl".to_string()));
    assert_eq!(file_stem(&name), "20260102T030405.123Z-session-x");
}

#[test]
fn index_line_is_a_json_object_with_escaped_fields() {
    let t = Timestamp::from_unix(1_767_323_045, 0).unwrap();
    let entry = TrashEntry {
        trashed_path: "/t/.trash/x.jsonl".into(),
        original_path: "/p/\"q\"/x.jsonl".into(),
        session_id: "session-x".into(),
        deleted_at: t,
    };
    let line = index_line(&entry);
    assert_eq!(
        line,
        r#"{"trashed_path":"/t/.trash/x.jsonl","original_path":"/p/\"q\"/x.jsonl","session_id":"session-x","deleted_at":"2026-01-02T03:04:05+00:00"}"#
    );
    let v: serde_json::Value = serde_json::from_str(&line).unwrap();
    assert_eq!(v["session_id"], "session-x");
    assert!(line.contains("\"session_id\":\"session-x\""));
    assert!(line.contains("\"original_path\""));
}

#[test]
fn index_line_escapes_controls_like_serde_json() {
    let t = Timestamp::from_unix(0, 0).unwrap();
    let entry = TrashEntry {
        trashed_path: "a\\b".into(),
        original_path: "tab\there\nnl\u{1}\u{1f}".into(),
        session_id: "\u{8}\u{c}\r".into(),
        deleted_at: t,
    };
    assert_eq!(
        index_line(&entry),
        r#"{"trashed_path":"a\\b","original_path":"tab\there\nnl\u0001\u001f","session_id":"\b\f\r","deleted_at":"1970-01-01T00:00:00+00:00"}"#
    );
}
