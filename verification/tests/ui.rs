use ccpast::reader::{Role, Turn};
use ccpast::session::SessionMeta;
use ccpast::time::Timestamp;
use ccpast::ui::list::{format_preview, format_row, list_title, status_line, ListView};
use ccpast::ui::reader::{build_text, reader_title};
use ccpast::ui::confirm::confirm_message;
use ccpast::ui::{body_text, effective_preview, handle_key, match_session, Action, App, BodyCache, Key, Mode};

fn meta(title: &str, cwd: Option<&str>, path: &str) -> SessionMeta {
    SessionMeta {
        session_id: "id".into(),
        path: path.into(),
        cwd: cwd.map(String::from),
        cwd_exists: true,
        last_activity: Timestamp::from_unix(1_767_225_600, 0).unwrap(),
        title: title.into(),
        message_count: 0,
    }
}

fn cache_with(path: &str, body: &str) -> BodyCache {
    let mut c = BodyCache::new();
    c.insert(path.into(), body.into());
    c
}

#[test]
fn title_substring_matches_case_insensitive() {
    let m = meta("Implement TASK 4", Some("/p"), "/p/x.jsonl");
    assert!(match_session(&m, "task", false, None));
}

#[test]
fn cwd_substring_matches() {
    let m = meta("(no title)", Some("/home/user/proj"), "/x.jsonl");
    assert!(match_session(&m, "proj", false, None));
}

#[test]
fn body_scope_off_ignores_body_cache() {
    let m = meta("(no title)", Some("/p"), "/x.jsonl");
    let cache = cache_with("/x.jsonl", "hello world");
    assert!(!match_session(&m, "hello", false, Some(&cache)));
}

#[test]
fn body_scope_on_with_body_hit_matches() {
    let m = meta("(no title)", Some("/p"), "/x.jsonl");
    let cache = cache_with("/x.jsonl", "hello world");
    assert!(match_session(&m, "hello", true, Some(&cache)));
}

#[test]
fn body_scope_on_with_missing_cache_entry_does_not_match() {
    let m = meta("(no title)", Some("/p"), "/x.jsonl");
    let cache = BodyCache::new();
    assert!(!match_session(&m, "hello", true, Some(&cache)));
}

#[test]
fn body_scope_on_still_matches_title() {
    let m = meta("Hello World", Some("/p"), "/x.jsonl");
    let cache = BodyCache::new();
    assert!(match_session(&m, "hello", true, Some(&cache)));
}

#[test]
fn cache_insert_replaces_earlier_body() {
    let mut c = cache_with("/x.jsonl", "old");
    c.insert("/y.jsonl".into(), "other".into());
    c.insert("/x.jsonl".into(), "new".into());
    assert_eq!(c.get("/x.jsonl").map(|s| s.as_str()), Some("new"));
    assert_eq!(c.get("/y.jsonl").map(|s| s.as_str()), Some("other"));
    assert!(c.get("/z.jsonl").is_none());
}

fn app() -> App {
    App::new(vec![
        meta("Fix parser", Some("/work/a"), "/a.jsonl"),
        meta("Write docs", Some("/work/b"), "/b.jsonl"),
        meta("Parser tests", None, "/c.jsonl"),
    ])
}

#[test]
fn empty_query_shows_every_session() {
    assert_eq!(app().filtered_indices(), vec![0, 1, 2]);
}

#[test]
fn typed_query_filters_in_order() {
    let mut a = app();
    assert_eq!(handle_key(Key::Char('/'), &mut a), Action::Nothing);
    for c in "PARSER".chars() {
        handle_key(Key::Char(c), &mut a);
    }
    assert_eq!(a.filter.query, "PARSER");
    assert_eq!(a.filtered_indices(), vec![0, 2]);
    handle_key(Key::Backspace, &mut a);
    assert_eq!(a.filter.query, "PARSE");
    handle_key(Key::Enter, &mut a);
    assert!(!a.filter.active);
    assert_eq!(a.filter.query, "PARSE");
}

#[test]
fn tab_loads_bodies_once_then_toggles_scope() {
    let mut a = app();
    handle_key(Key::Char('/'), &mut a);
    assert_eq!(handle_key(Key::Tab, &mut a), Action::LoadBodies);
    a.start_load_bodies();
    assert_eq!(a.status.as_deref(), Some("reading bodies (3 sessions)\u{2026}"));
    let mut cache = BodyCache::new();
    for m in &a.sessions {
        let body = if m.path == "/b.jsonl" { "the parser was wrong" } else { "" };
        cache.insert(m.path.clone(), body.into());
    }
    a.finish_load_bodies(cache);
    assert!(a.filter.body_scope);
    assert_eq!(a.status.as_deref(), Some("body search enabled (3 sessions)"));
    for c in "parser".chars() {
        handle_key(Key::Char(c), &mut a);
    }
    assert_eq!(a.filtered_indices(), vec![0, 1, 2]);
    assert_eq!(handle_key(Key::Tab, &mut a), Action::Nothing);
    assert!(!a.filter.body_scope);
    assert_eq!(a.filtered_indices(), vec![0, 2]);
    handle_key(Key::Tab, &mut a);
    assert!(a.filter.body_scope);
    handle_key(Key::Esc, &mut a);
    assert!(!a.filter.active);
    assert!(!a.filter.body_scope);
    assert_eq!(a.filter.query, "");
    assert!(a.filter.body_cache.is_some());
}

#[test]
fn cursor_moves_within_visible_rows() {
    let mut a = app();
    handle_key(Key::Up, &mut a);
    assert_eq!(a.selected, 0);
    handle_key(Key::Down, &mut a);
    handle_key(Key::Char('j'), &mut a);
    handle_key(Key::Down, &mut a);
    assert_eq!(a.selected, 2);
    handle_key(Key::Char('k'), &mut a);
    assert_eq!(a.selected, 1);
}

#[test]
fn enter_opens_reader_and_scroll_saturates() {
    let mut a = app();
    handle_key(Key::Down, &mut a);
    assert_eq!(handle_key(Key::Enter, &mut a), Action::OpenReader { index: 1 });
    a.open_reader(1, vec![Turn { role: Role::User, body: "hi".into() }]);
    handle_key(Key::Up, &mut a);
    handle_key(Key::PageDown, &mut a);
    handle_key(Key::Down, &mut a);
    match &a.mode {
        Mode::Reader { scroll, .. } => assert_eq!(*scroll, 11),
        Mode::List => panic!("expected reader"),
    }
    assert_eq!(handle_key(Key::Char('f'), &mut a), Action::Resume { fork: true });
    handle_key(Key::Esc, &mut a);
    assert!(matches!(a.mode, Mode::List));
}

#[test]
fn delete_asks_then_trashes_and_keeps_cursor_visible() {
    let mut a = app();
    handle_key(Key::Down, &mut a);
    handle_key(Key::Down, &mut a);
    handle_key(Key::Char('d'), &mut a);
    assert_eq!(a.pending_delete, Some(2));
    assert_eq!(handle_key(Key::Char('x'), &mut a), Action::Nothing);
    assert_eq!(a.pending_delete, Some(2));
    assert_eq!(handle_key(Key::Char('y'), &mut a), Action::Trash { index: 2 });
    assert_eq!(a.pending_delete, None);
    a.delete_done(2);
    assert_eq!(a.sessions.len(), 2);
    assert_eq!(a.selected, 1);
    assert_eq!(a.status.as_deref(), Some("moved id to trash"));
    handle_key(Key::Char('d'), &mut a);
    handle_key(Key::Char('n'), &mut a);
    assert_eq!(a.pending_delete, None);
    a.delete_failed("disk full");
    assert_eq!(a.status.as_deref(), Some("delete failed: disk full"));
}

#[test]
fn preview_toggle_flips_the_effective_setting() {
    let mut a = app();
    a.begin_frame(120);
    assert!(effective_preview(&a, a.last_width));
    handle_key(Key::Char('p'), &mut a);
    assert!(!effective_preview(&a, 120));
    handle_key(Key::Char('p'), &mut a);
    assert!(effective_preview(&a, 80));
    assert!(!effective_preview(&App::new(vec![]), 99));
}

#[test]
fn quit_and_resume_targets() {
    let mut a = app();
    assert_eq!(handle_key(Key::Char('r'), &mut a), Action::Resume { fork: false });
    assert_eq!(a.resume_target(), Some(("/work/a".to_string(), "id".to_string())));
    handle_key(Key::Down, &mut a);
    handle_key(Key::Down, &mut a);
    assert_eq!(a.resume_target(), None);
    assert_eq!(a.status.as_deref(), Some("session has no recorded cwd"));
    handle_key(Key::Char('q'), &mut a);
    assert!(a.should_quit);
}

#[test]
fn frame_clamps_cursor_after_filtering() {
    let mut a = app();
    handle_key(Key::Down, &mut a);
    handle_key(Key::Down, &mut a);
    handle_key(Key::Char('/'), &mut a);
    for c in "docs".chars() {
        handle_key(Key::Char(c), &mut a);
    }
    assert_eq!(a.begin_frame(90), Some(vec![1]));
    assert_eq!(a.selected, 0);
    assert_eq!(a.last_width, 90);
}

#[test]
fn list_texts() {
    let sessions = vec![meta("Fix parser", Some("/work/alpha/"), "/a.jsonl")];
    let indices = vec![0usize];
    let q = String::from("fix");
    let view = ListView {
        sessions: &sessions,
        indices: &indices,
        cursor: 0,
        show_preview: false,
        filter_input: Some(&q),
        status_override: None,
        body_scope: true,
    };
    assert_eq!(list_title(&view), " Sessions   /fix [+body] ");
    assert_eq!(status_line(&view), "/work/alpha/    1/1    0 msgs");
    let row = format_row(&sessions[0], 80);
    assert!(row.starts_with("\u{2713}  "));
    assert!(row.ends_with(&format!("  alpha{}Fix parser", " ".repeat(21))));
    assert_eq!(row.chars().count(), 3 + 16 + 2 + 24 + 2 + 10);
    let empty: Vec<usize> = vec![];
    let none = ListView { indices: &empty, filter_input: None, ..view };
    assert_eq!(status_line(&none), "(no sessions found)");
    assert_eq!(list_title(&none), " Sessions ");
}

#[test]
fn preview_and_reader_texts() {
    let turns = vec![
        Turn { role: Role::User, body: "q1\r\nq2\n".into() },
        Turn { role: Role::Assistant, body: "a".into() },
    ];
    assert_eq!(format_preview(&turns), "\u{258d} user\nq1\r\nq2\n\n\n\u{258d} assistant\na\n\n");
    let lines: Vec<(String, bool)> = build_text(&turns).into_iter().map(|l| (l.text, l.header)).collect();
    assert_eq!(
        lines,
        vec![
            ("\u{258d} user".to_string(), true),
            ("q1".to_string(), false),
            ("q2".to_string(), false),
            ("".to_string(), false),
            ("\u{258d} assistant".to_string(), true),
            ("a".to_string(), false),
            ("".to_string(), false),
        ]
    );
    assert_eq!(body_text(&turns), "q1\r\nq2\n\na");
    let loud = vec![Turn { role: Role::User, body: "ÄbC".into() }];
    assert_eq!(body_text(&loud), "äbc");
    let m = meta("A very long title that goes on and on and on and on forever", None, "/x.jsonl");
    assert_eq!(reader_title(&m), " id \u{2014} (no cwd) ");
    assert_eq!(
        confirm_message(&m, ".agent"),
        "Move session \"A very long title that goes on and on and on and \u{2026}\" (id) to ~/.agent/.trash/ ?"
    );
}

#[test]
fn body_cache_counts_each_path_once() {
    let mut c = cache_with("/a.jsonl", "one");
    c.insert("/b.jsonl".into(), "two".into());
    c.insert("/a.jsonl".into(), "three".into());
    assert_eq!(c.len(), 2);
    assert_eq!(c.get("/a.jsonl").map(|s| s.as_str()), Some("three"));
    assert_eq!(c.get("/b.jsonl").map(|s| s.as_str()), Some("two"));
    assert_eq!(c.get("/c.jsonl"), None);
    let mut a = App::new(vec![meta("x", None, "/a.jsonl"), meta("y", None, "/a.jsonl")]);
    a.finish_load_bodies(cache_with("/a.jsonl", "body"));
    assert_eq!(a.status.as_deref(), Some("body search enabled (2 sessions)"));
}

#[test]
fn longer_query_narrows_and_body_scope_widens() {
    let mut a = app();
    handle_key(Key::Char('/'), &mut a);
    let mut shown = a.filtered_indices();
    for c in "parser".chars() {
        handle_key(Key::Char(c), &mut a);
        let now = a.filtered_indices();
        assert!(now.iter().all(|i| shown.contains(i)));
        shown = now;
    }
    assert_eq!(shown, vec![0, 2]);
    a.filter.body_cache = Some(cache_with("/b.jsonl", "the parser was wrong"));
    a.filter.body_scope = true;
    let wide = a.filtered_indices();
    assert!(shown.iter().all(|i| wide.contains(i)));
    assert_eq!(wide, vec![0, 1, 2]);
}

#[test]
fn ascii_query_matches_any_case() {
    let m = meta("HeLLo There", None, "/x.jsonl");
    assert!(match_session(&m, "hello", false, None));
    assert!(!match_session(&m, "HELLO", false, None));
}

#[test]
fn body_cache_compares_paths_as_paths() {
    let c = cache_with("/p/./x.jsonl", "body");
    assert_eq!(c.get("/p/x.jsonl").map(|s| s.as_str()), Some("body"));
    assert_eq!(c.get("/p//x.jsonl").map(|s| s.as_str()), Some("body"));
    assert_eq!(c.get("p/x.jsonl"), None);
    let mut c = c;
    c.insert("/p/x.jsonl".into(), "new".into());
    assert_eq!(c.len(), 1);
    assert_eq!(c.get("/p/./x.jsonl").map(|s| s.as_str()), Some("new"));
}
