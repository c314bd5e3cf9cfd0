use ccpast::session::{extract_meta, scan_lines, sort_by_recent, title_from_user, NO_TITLE};
use ccpast::parser::{ContentBlock, MessageContent};
use ccpast::time::Timestamp;


/// The lines of a session log.
fn lines(text: &[&str]) -> Vec<String> {
    text.iter().map(|l| l.to_string()).collect()
}

const SESSION_WITH_TEXT: &[&str] = &[
    r#"{"type":"user","message":{"role":"user","content":"explain Box<T>\n  please"},"cwd":"/tmp/proj","timestamp":"2026-01-01T10:00:00.000Z","sessionId":"session_with_text"}"#,
    r#"{"type":"assistant","message":{"role":"assistant","content":[{"type":"thinking","thinking":"hmm"},{"type":"text","text":"sure"}]},"cwd":"/tmp/proj","timestamp":"2026-01-01T10:00:30.000Z"}"#,
    r#"{"type":"assistant","message":{"role":"assistant","content":[{"type":"tool_use","name":"Bash","input":{}}]},"timestamp":"2026-01-01T10:00:10.000Z"}"#,
    r#"{"type":"summary","summary":"Box explanation","leafUuid":"x"}"#,
];

const SESSION_ONLY_TOOL_RESULTS: &[&str] = &[
    r#"{"type":"user","message":{"role":"user","content":[{"type":"tool_result","content":"done"}]},"cwd":"/tmp/proj"}"#,
    r#"{"type":"assistant","message":{"role":"assistant","content":[{"type":"tool_use","name":"Bash"}]}}"#,
];

fn mtime() -> Timestamp {
    Timestamp::from_unix(1_750_000_000, 0).unwrap()
}

fn fixture(name: &str) -> String {
    format!("/work/tests/fixtures/{name}.jsonl")
}

#[test]
fn extracts_first_user_text_as_title() {
    let m = extract_meta(&fixture("session_with_text"), &lines(SESSION_WITH_TEXT), mtime()).unwrap();
    assert_eq!(m.session_id, "session_with_text");
    assert_eq!(m.cwd.as_deref(), Some("/tmp/proj"));
    assert_eq!(m.title, "explain Box<T> please");
    assert_eq!(m.message_count, 3);
}

#[test]
fn last_activity_is_max_timestamp() {
    let m = extract_meta(&fixture("session_with_text"), &lines(SESSION_WITH_TEXT), mtime()).unwrap();
    // 2026-01-01T10:00:30.000Z
    let expected = Timestamp::from_unix(1_767_261_630, 0).unwrap();
    assert_eq!(m.last_activity, expected);
}

#[test]
fn falls_back_when_first_user_is_tool_result_only() {
    let m = extract_meta(
        &fixture("session_only_tool_results"),
        &lines(SESSION_ONLY_TOOL_RESULTS),
        mtime(),
    )
    .unwrap();
    assert_eq!(m.title, NO_TITLE);
    assert_eq!(m.message_count, 2);
}

#[test]
fn empty_file_uses_mtime_and_no_title() {
    let m = extract_meta(&fixture("session_empty"), &lines(&[]), mtime()).unwrap();
    assert_eq!(m.title, NO_TITLE);
    assert_eq!(m.message_count, 0);
    // last_activity is the file's mtime; we only assert it's not the unix epoch
    assert!(m.last_activity.secs() > 1_700_000_000);
}

#[test]
fn path_without_file_name_has_no_meta() {
    assert!(extract_meta("/", &lines(SESSION_WITH_TEXT), mtime()).is_none());
    assert!(extract_meta("a/..", &lines(SESSION_WITH_TEXT), mtime()).is_none());
}

#[test]
fn cwd_exists_needs_a_cwd_and_a_directory() {
    let mut m = extract_meta(&fixture("s"), &lines(SESSION_WITH_TEXT), mtime()).unwrap();
    assert!(!m.cwd_exists);
    m.set_cwd_exists(true);
    assert!(m.cwd_exists);
    let mut e = extract_meta(&fixture("e"), &lines(&[]), mtime()).unwrap();
    e.set_cwd_exists(true);
    assert!(!e.cwd_exists);
}

#[test]
fn scan_takes_first_cwd_and_latest_time() {
    let text: &[&str] = &[
        r#"{"type":"summary","summary":"s"}"#,
        r#"{"type":"assistant","message":{"content":"x"},"timestamp":"2026-01-02T00:00:00Z"}"#,
        r#"{"type":"user","message":{"content":"  "},"cwd":"/first","timestamp":"2026-01-01T00:00:00Z"}"#,
        r#"{"type":"user","message":{"content":[{"type":"text","text":" "},{"type":"text","text":"  Second\ttitle "}]},"cwd":"/second"}"#,
    ];
    let s = scan_lines(&lines(text));
    assert_eq!(s.cwd.as_deref(), Some("/first"));
    assert_eq!(s.message_count, 3);
    assert_eq!(s.title.as_deref(), Some("Second title"));
    assert_eq!(s.last.unwrap().secs(), 1767312000);
}

#[test]
fn title_from_user_skips_blank_text() {
    assert_eq!(title_from_user(&MessageContent::Text(" \n".into())), None);
    assert_eq!(title_from_user(&MessageContent::Text("hi".into())), Some("hi".to_string()));
    assert_eq!(
        title_from_user(&MessageContent::Blocks(vec![
            ContentBlock::ToolResult,
            ContentBlock::Text("\t".into()),
            ContentBlock::Text("go".into()),
        ])),
        Some("go".to_string())
    );
    assert_eq!(title_from_user(&MessageContent::Absent), None);
}

#[test]
fn sessions_sort_most_recent_first() {
    let at = |name: &str, secs: i64, nanos: u32| {
        extract_meta(&fixture(name), &lines(&[]), Timestamp::from_unix(secs, nanos).unwrap()).unwrap()
    };
    let sessions = vec![
        at("old", 1_700_000_000, 0),
        at("newest", 1_800_000_000, 0),
        at("middle", 1_750_000_000, 5),
        at("middle_earlier", 1_750_000_000, 4),
    ];
    let sorted = sort_by_recent(sessions);
    let ids: Vec<&str> = sorted.iter().map(|m| m.session_id.as_str()).collect();
    assert_eq!(ids, vec!["newest", "middle", "middle_earlier", "old"]);
    assert!(sort_by_recent(Vec::new()).is_empty());
}

#[test]
fn lines_that_are_not_json_hold_no_record() {
    let text: &[&str] = &[
        "garbage",
        r#"{"type":"user","message":{"content":"first question"},"cwd":"/p"}"#,
        "{\"type\":",
        r#"{"type":"assistant","message":{"content":"answer"}}"#,
    ];
    let m = extract_meta(&fixture("mixed"), &lines(text), mtime()).unwrap();
    assert_eq!(m.message_count, 2);
    assert_eq!(m.title, "first question");
    assert_eq!(m.cwd.as_deref(), Some("/p"));
}
