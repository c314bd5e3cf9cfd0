use ccpast::reader::{format_blocks, load_turns, Role};
use ccpast::parser::ContentBlock;


/// The lines of a session log.
fn lines(text: &[&str]) -> Vec<String> {
    text.iter().map(|l| l.to_string()).collect()
}

/// A small session with a user question, a thinking-then-text answer, a tool
/// call and a summary line.
const SESSION_WITH_TEXT: &[&str] = &[
    r#"{"type":"user","message":{"role":"user","content":"explain Box<T>\n  please"},"cwd":"/tmp/proj","timestamp":"2026-01-01T10:00:00.000Z","sessionId":"session_with_text"}"#,
    r#"{"type":"assistant","message":{"role":"assistant","content":[{"type":"thinking","thinking":"hmm"},{"type":"text","text":"sure"}]},"cwd":"/tmp/proj","timestamp":"2026-01-01T10:00:30.000Z"}"#,
    r#"{"type":"assistant","message":{"role":"assistant","content":[{"type":"tool_use","name":"Bash","input":{}}]},"timestamp":"2026-01-01T10:00:10.000Z"}"#,
    r#"{"type":"summary","summary":"Box explanation","leafUuid":"x"}"#,
];

#[test]
fn loads_turns_in_order_and_renders_tool_blocks() {
    let turns = load_turns(&lines(SESSION_WITH_TEXT), None);
    assert_eq!(turns.len(), 3);
    assert_eq!(turns[0].role, Role::User);
    assert!(turns[0].body.contains("explain Box<T>"));
    assert_eq!(turns[1].role, Role::Assistant);
    assert_eq!(turns[1].body, "sure");
    assert_eq!(turns[2].body, "[tool: Bash]");
}

#[test]
fn limit_caps_the_count() {
    let turns = load_turns(&lines(SESSION_WITH_TEXT), Some(1));
    assert_eq!(turns.len(), 1);
}

#[test]
fn limit_zero_gives_no_turns_and_large_limit_gives_all() {
    assert_eq!(load_turns(&lines(SESSION_WITH_TEXT), Some(0)).len(), 0);
    assert_eq!(load_turns(&lines(SESSION_WITH_TEXT), Some(99)).len(), 3);
}

#[test]
fn limited_turns_are_a_prefix_of_all_turns() {
    let all = load_turns(&lines(SESSION_WITH_TEXT), None);
    let two = load_turns(&lines(SESSION_WITH_TEXT), Some(2));
    assert_eq!(two.len(), 2);
    for (a, b) in all.iter().zip(two.iter()) {
        assert_eq!(a.role, b.role);
        assert_eq!(a.body, b.body);
    }
}

#[test]
fn blank_and_contentless_records_give_no_turn() {
    let text: &[&str] = &[
        r#"{"type":"user","message":{"role":"user"}}"#,
        r#"{"type":"user","message":{"content":"   
	"}}"#,
        r#"{"type":"assistant","message":{"content":[{"type":"thinking"}]}}"#,
        "{not json",
        r#"{"type":"attachment"}"#,
    ];
    assert!(load_turns(&lines(text), None).is_empty());
}

#[test]
fn blocks_render_one_part_per_line() {
    let blocks = vec![
        ContentBlock::Text("a".into()),
        ContentBlock::Thinking,
        ContentBlock::ToolUse { name: "Read".into() },
        ContentBlock::Other,
        ContentBlock::ToolResult,
    ];
    assert_eq!(format_blocks(&blocks), "a\n[tool: Read]\n[tool result]");
    assert_eq!(format_blocks(&vec![]), "");
}

#[test]
fn tool_result_only_user_turn_shows_marker() {
    let turns = load_turns(
        &lines(&[r#"{"type":"user","message":{"content":[{"type":"tool_result","content":"x"}]}}"#]),
        None,
    );
    assert_eq!(turns.len(), 1);
    let t = &turns[0];
    assert_eq!(t.role, Role::User);
    assert_eq!(t.body, "[tool result]");
}
