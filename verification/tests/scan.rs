use ccpast::scan::{entry_step, extension, file_name, file_stem, is_jsonl, path_eq, session_id_of, EntryStep};

#[test]
fn jsonl_files_are_recognised_by_extension() {
    assert!(is_jsonl("/p/-proj-a/aaaa.jsonl"));
    assert!(is_jsonl("bbbb.jsonl"));
    assert!(!is_jsonl("/p/-proj-a/notes.txt"));
    assert!(!is_jsonl("/p/.jsonl"));
    assert!(!is_jsonl("/p/a.jsonl.bak"));
    assert!(!is_jsonl("/p/a.JSONL"));
    assert!(is_jsonl("/p/a.jsonl/"));
    assert!(!is_jsonl("/"));
}

#[test]
fn file_names_follow_path_components() {
    assert_eq!(file_name("/home/user/proj"), Some("proj".to_string()));
    assert_eq!(file_name("/home/user/proj/"), Some("proj".to_string()));
    assert_eq!(file_name("/home//user/./"), Some("user".to_string()));
    assert_eq!(file_name("/home/.."), None);
    assert_eq!(file_name("/"), None);
    assert_eq!(file_name(""), None);
    assert_eq!(file_name("."), None);
}

#[test]
fn stems_and_extensions_split_at_the_last_dot() {
    assert_eq!(file_stem("a.b.c"), "a.b");
    assert_eq!(extension("a.b.c"), Some("c".to_string()));
    assert_eq!(file_stem(".bashrc"), ".bashrc");
    assert_eq!(extension(".bashrc"), None);
    assert_eq!(file_stem("noext"), "noext");
    assert_eq!(extension("trail."), Some("".to_string()));
    assert_eq!(session_id_of("/p/x/0f3c-uuid.jsonl"), Some("0f3c-uuid".to_string()));
    assert_eq!(session_id_of("/"), None);
}

#[test]
fn walk_descends_into_directories_and_lists_logs() {
    assert_eq!(entry_step(true, "/p/-proj-a"), EntryStep::Descend);
    assert_eq!(entry_step(false, "/p/-proj-a/aaaa.jsonl"), EntryStep::Collect);
    assert_eq!(entry_step(false, "/p/-proj-a/notes.txt"), EntryStep::Skip);
}

#[test]
fn paths_compare_by_components() {
    assert!(path_eq("/a/./b", "/a/b"));
    assert!(path_eq("/a//b/", "/a/b"));
    assert!(path_eq("./a", "./a/"));
    assert!(!path_eq("./a", "a"));
    assert!(!path_eq("/a", "a"));
    assert!(!path_eq("/a/../b", "/b"));
    assert!(path_eq(".", "./"));
}
