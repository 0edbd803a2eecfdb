use hummingbird::error::HummingbirdError;
use hummingbird::forge::{
    build_unified_diff, colorize_diff, no_backup_error, stable_sort_desc, undo_paths, EditResult,
    EditSpec, ForgeEngine,
};

fn spec(path: &str, a: usize, b: usize, text: &str) -> EditSpec {
    EditSpec { path: path.into(), line_start: a, line_end: b, new_content: text.into() }
}

#[test]
fn colorizes_added_lines() {
    let colored = colorize_diff("+fn added() {}");
    assert!(colored.contains("\x1b[32m"));
}

#[test]
fn colorizes_removed_lines() {
    let colored = colorize_diff("-fn removed() {}");
    assert!(colored.contains("\x1b[31m"));
}

#[test]
fn passes_through_context_lines() {
    assert_eq!(colorize_diff(" context line"), " context line");
}

#[test]
fn colorizes_a_whole_diff() {
    let diff = "--- a/x\n+++ b/x\n@@ -1,1 +1,1 @@\n-old\n+new";
    assert_eq!(
        colorize_diff(diff),
        "--- a/x\n+++ b/x\n\x1b[36m@@ -1,1 +1,1 @@\x1b[0m\n\x1b[31m-old\x1b[0m\n\x1b[32m+new\x1b[0m"
    );
}

#[test]
fn detects_overlapping_edits() {
    let engine = ForgeEngine::new("/tmp/ws");
    let err = engine.apply_edits(
        vec![spec("x.rs", 1, 5, "a"), spec("x.rs", 3, 7, "b")],
        |_s: &EditSpec| Ok(EditResult { unified_diff: String::new(), backup_path: String::new() }),
    );
    assert!(err.is_err());
}

#[test]
fn overlapping_edits_are_refused_before_any_is_applied() {
    let engine = ForgeEngine::new("/tmp/ws");
    let r = engine.apply_edits(vec![spec("x.rs", 1, 5, "a"), spec("x.rs", 3, 7, "b")], |_s: &EditSpec| -> Result<
        EditResult,
        HummingbirdError,
    > { panic!("no edit may be applied when two overlap") });
    match r {
        Err(HummingbirdError::Tool(m)) => assert_eq!(m, "Overlapping edits at lines 3-7 and 1-5"),
        other => panic!("unexpected {:?}", other),
    }
}

#[test]
fn plan_edits_orders_from_the_bottom_up() {
    let engine = ForgeEngine::new("/tmp/ws");
    let plan = engine
        .plan_edits(vec![spec("x.rs", 1, 2, "a"), spec("x.rs", 10, 12, "b"), spec("y.rs", 1, 3, "c")])
        .unwrap();
    let order: Vec<(String, usize)> = plan.into_iter().map(|s| (s.path, s.line_start)).collect();
    assert_eq!(order, vec![("x.rs".to_string(), 10), ("x.rs".to_string(), 1), ("y.rs".to_string(), 1)]);
    match engine.plan_edits(vec![spec("x.rs", 1, 5, "a"), spec("x.rs", 3, 7, "b")]) {
        Err(HummingbirdError::Tool(m)) => assert_eq!(m, "Overlapping edits at lines 3-7 and 1-5"),
        other => panic!("unexpected {:?}", other),
    }
}

#[test]
fn applies_edits_bottom_up() {
    let engine = ForgeEngine::new("/tmp/ws");
    let out = engine
        .apply_edits(
            vec![spec("x.rs", 1, 2, "a"), spec("x.rs", 10, 12, "b"), spec("y.rs", 1, 3, "c")],
            |s: &EditSpec| Ok(EditResult { unified_diff: format!("{}:{}", s.path, s.line_start), backup_path: String::new() }),
        )
        .unwrap();
    let order: Vec<String> = out.into_iter().map(|r| r.unified_diff).collect();
    assert_eq!(order, vec!["x.rs:10", "x.rs:1", "y.rs:1"]);
}

#[test]
fn stops_at_the_first_failed_edit() {
    let engine = ForgeEngine::new("/tmp/ws");
    let r = engine.apply_edits(vec![spec("a", 5, 5, "x"), spec("b", 1, 1, "y")], |s: &EditSpec| {
        if s.path == "a" {
            Err(HummingbirdError::Tool("boom".into()))
        } else {
            Ok(EditResult { unified_diff: String::new(), backup_path: String::new() })
        }
    });
    match r {
        Err(HummingbirdError::Tool(m)) => assert_eq!(m, "boom"),
        other => panic!("unexpected {:?}", other),
    }
}

#[test]
fn overlap_message_names_the_pair() {
    let engine = ForgeEngine::new("/ws");
    match engine.check_no_overlaps(&[spec("x.rs", 3, 7, "b"), spec("x.rs", 1, 5, "a")]) {
        Err(HummingbirdError::Tool(m)) => assert_eq!(m, "Overlapping edits at lines 3-7 and 1-5"),
        other => panic!("unexpected {:?}", other),
    }
    assert!(engine.check_no_overlaps(&[spec("x.rs", 1, 3, "a"), spec("x.rs", 3, 5, "b")]).is_ok());
    assert!(engine.check_no_overlaps(&[spec("x.rs", 1, 5, "a"), spec("y.rs", 1, 5, "b")]).is_ok());
}

#[test]
fn sort_is_descending_and_stable() {
    let v = vec![spec("a", 1, 1, "1"), spec("b", 3, 3, "2"), spec("c", 1, 1, "3"), spec("d", 2, 2, "4")];
    let s = stable_sort_desc(v);
    let names: Vec<&str> = s.iter().map(|e| e.path.as_str()).collect();
    assert_eq!(names, vec!["b", "d", "a", "c"]);
}

#[test]
fn applies_single_edit_to_text() {
    let engine = ForgeEngine::new("/ws");
    let (diff, text) = engine.edit_text(&spec("src.rs", 2, 2, "REPLACED"), "line1\nline2\nline3\n", true).unwrap();
    assert_eq!(text, "line1\nREPLACED\nline3\n");
    assert!(text.contains("REPLACED"));
    assert!(!diff.is_empty());
    assert!(diff.contains("-line2"));
    assert!(diff.contains("+REPLACED"));
}

#[test]
fn creates_new_file_text_when_missing() {
    let engine = ForgeEngine::new("/ws");
    let (_diff, text) = engine.edit_text(&spec("new.rs", 1, 1, "fn new() {}"), "", false).unwrap();
    assert_eq!(text, "fn new() {}");
}

#[test]
fn edit_past_the_end_is_refused() {
    let engine = ForgeEngine::new("/ws");
    assert!(engine.edit_text(&spec("f.rs", 5, 6, "x"), "one\ntwo\n", true).is_err());
}

#[test]
fn unified_diff_shape() {
    let d = build_unified_diff("f.rs", &["old".to_string()], &["new".to_string()], 0);
    assert_eq!(d, "--- a/f.rs\n+++ b/f.rs\n@@ -1,1 +1,1 @@\n-old\n+new\n");
}

#[test]
fn undo_paths_and_missing_backup() {
    let (backup, target) = undo_paths("/ws", "nofile.rs");
    assert_eq!(target, "/ws/nofile.rs");
    assert_eq!(backup, "/ws/nofile.rs.bak");
    match no_backup_error("nofile.rs") {
        HummingbirdError::Tool(m) => assert_eq!(m, "No backup found for 'nofile.rs'"),
        other => panic!("unexpected {:?}", other),
    }
}

#[test]
fn an_edit_saves_where_undo_looks() {
    let engine = ForgeEngine::new("/ws");
    let w = engine.plan_edit(&spec("src/a.rs", 2, 2, "X"), "a\nb\nc\n", true).unwrap();
    assert_eq!(w.target, "/ws/src/a.rs");
    assert_eq!(w.backup_path, "/ws/src/a.rs.bak");
    assert!(w.save_backup);
    assert_eq!(w.text, "a\nX\nc\n");
    let (backup, target) = hummingbird::forge::undo_paths("/ws", "src/a.rs");
    assert_eq!(backup, w.backup_path);
    assert_eq!(target, w.target);
    let fresh = engine.plan_edit(&spec("new.rs", 1, 1, "fn new() {}"), "", false).unwrap();
    assert!(!fresh.save_backup);
    assert_eq!(fresh.text, "fn new() {}");
    assert!(engine.plan_edit(&spec("f.rs", 5, 6, "x"), "one\ntwo\n", true).is_err());
}

#[test]
fn edit_targets_follow_path_join() {
    let slash = ForgeEngine::new("/ws/");
    let w = slash.plan_edit(&spec("a.rs", 1, 1, "x"), "old\n", true).unwrap();
    assert_eq!(w.target, "/ws/a.rs");
    assert_eq!(w.backup_path, "/ws/a.rs.bak");
    let abs = ForgeEngine::new("/ws");
    let w = abs.plan_edit(&spec("/etc/a.rs", 1, 1, "x"), "old\n", true).unwrap();
    assert_eq!(w.target, "/etc/a.rs");
    let bare = ForgeEngine::new("");
    let w = bare.plan_edit(&spec("a.rs", 1, 1, "x"), "", false).unwrap();
    assert_eq!(w.target, "a.rs");
    assert!(!w.save_backup);
}
