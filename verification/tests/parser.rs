use ccpast::parser::{parse_line, ContentBlock, MessageContent, ParsedRecord, RecordKind};


/// One line of a session log, read by the library.
fn parse_text(line: &str) -> Option<ParsedRecord> {
    parse_line(line)
}

fn parse(s: &str) -> ParsedRecord {
    parse_text(s).expect("expected Some")
}

#[test]
fn parses_user_with_string_content() {
    let line = r#"{"type":"user","message":{"role":"user","content":"hi"},"cwd":"/p","timestamp":"2026-01-01T00:00:00.000Z"}"#;
    let r = parse(line);
    match r {
        ParsedRecord::UserOrAssistant {
            kind,
            message,
            cwd,
            timestamp,
        } => {
            assert_eq!(kind, RecordKind::User);
            assert_eq!(message.role, "user");
            assert_eq!(message.content, MessageContent::Text("hi".into()));
            assert_eq!(cwd.as_deref(), Some("/p"));
            assert!(timestamp.is_some());
        }
        _ => panic!("wrong variant"),
    }
}

#[test]
fn parses_user_with_array_content_and_first_text() {
    let line = r#"{"type":"user","message":{"role":"user","content":[{"type":"text","text":"hello"},{"type":"tool_use","name":"Bash"}]}}"#;
    let r = parse(line);
    match r {
        ParsedRecord::UserOrAssistant { message, .. } => match message.content {
            MessageContent::Blocks(blocks) => {
                assert_eq!(blocks.first(), Some(&ContentBlock::Text("hello".into())));
                assert!(
                    matches!(blocks.get(1), Some(ContentBlock::ToolUse { name }) if name == "Bash")
                );
            }
            other => panic!("expected blocks, got {other:?}"),
        },
        _ => panic!("wrong variant"),
    }
}

#[test]
fn parses_tool_result_only_user() {
    let line = r#"{"type":"user","message":{"role":"user","content":[{"type":"tool_result","content":"x"}]}}"#;
    match parse(line) {
        ParsedRecord::UserOrAssistant { message, .. } => match message.content {
            MessageContent::Blocks(blocks) => {
                assert_eq!(blocks, vec![ContentBlock::ToolResult]);
            }
            other => panic!("expected blocks, got {other:?}"),
        },
        _ => panic!("wrong variant"),
    }
}

#[test]
fn parses_user_without_content_as_none() {
    let line = r#"{"type":"user","message":{"role":"user"}}"#;
    match parse(line) {
        ParsedRecord::UserOrAssistant { message, .. } => {
            assert_eq!(message.content, MessageContent::Absent);
        }
        _ => panic!("wrong variant"),
    }
}

#[test]
fn summary_returns_summary_variant() {
    let line = r#"{"type":"summary","summary":"s","leafUuid":"x"}"#;
    assert!(matches!(parse(line), ParsedRecord::Summary));
}

#[test]
fn unknown_type_returns_other() {
    let line = r#"{"type":"attachment","cwd":"/p"}"#;
    assert!(matches!(parse(line), ParsedRecord::Other));
}

#[test]
fn malformed_json_returns_none() {
    assert!(parse_text("{not json").is_none());
}

#[test]
fn record_without_string_type_is_none() {
    assert!(parse_text(r#"{"type":3,"cwd":"/p"}"#).is_none());
    assert!(parse_text(r#"{"cwd":"/p"}"#).is_none());
    assert!(parse_text(r#"[1,2]"#).is_none());
}

#[test]
fn assistant_without_role_gets_default_role() {
    match parse(r#"{"type":"assistant","message":{"content":"ok"}}"#) {
        ParsedRecord::UserOrAssistant { kind, message, cwd, timestamp } => {
            assert_eq!(kind, RecordKind::Assistant);
            assert_eq!(message.role, "assistant");
            assert_eq!(message.content, MessageContent::Text("ok".into()));
            assert!(cwd.is_none());
            assert!(timestamp.is_none());
        }
        _ => panic!("wrong variant"),
    }
}

#[test]
fn content_of_other_kinds_is_absent_and_blocks_classify() {
    match parse(r#"{"type":"user","message":{"content":null}}"#) {
        ParsedRecord::UserOrAssistant { message, .. } => {
            assert_eq!(message.content, MessageContent::Absent)
        }
        _ => panic!("wrong variant"),
    }
    match parse(r#"{"type":"user","message":{"content":{"a":1}}}"#) {
        ParsedRecord::UserOrAssistant { message, .. } => {
            assert_eq!(message.content, MessageContent::Absent)
        }
        _ => panic!("wrong variant"),
    }
    let line = r#"{"type":"assistant","message":{"content":[{"type":"thinking"},{"type":"text"},{"type":"tool_use"},{"type":"image"},{"text":"x"},7]}}"#;
    match parse(line) {
        ParsedRecord::UserOrAssistant { message, .. } => assert_eq!(
            message.content,
            MessageContent::Blocks(vec![
                ContentBlock::Thinking,
                ContentBlock::Other,
                ContentBlock::ToolUse { name: String::new() },
                ContentBlock::Other,
                ContentBlock::Other,
                ContentBlock::Other,
            ])
        ),
        _ => panic!("wrong variant"),
    }
}

#[test]
fn timestamp_is_read_in_utc() {
    match parse(r#"{"type":"user","timestamp":"2026-01-01T09:00:00+09:00"}"#) {
        ParsedRecord::UserOrAssistant { timestamp: Some(t), .. } => {
            assert_eq!(t.secs(), 1767225600);
            assert_eq!(t.nanos(), 0);
        }
        _ => panic!("wrong variant"),
    }
    match parse(r#"{"type":"user","timestamp":"yesterday"}"#) {
        ParsedRecord::UserOrAssistant { timestamp, .. } => assert!(timestamp.is_none()),
        _ => panic!("wrong variant"),
    }
}
