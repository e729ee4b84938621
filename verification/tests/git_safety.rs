use apiari::git_safety::{GitSafetyHooks, GitSnapshot};

#[test]
fn test_empty_snapshot_diff() {
    let a = GitSnapshot::new();
    let b = GitSnapshot::new();
    assert!(b.diff(&a).is_empty());
}

#[test]
fn test_diff_finds_new_files() {
    let mut a = GitSnapshot::new();
    a.insert("repo", "existing.rs");

    let mut b = GitSnapshot::new();
    b.insert("repo", "existing.rs");
    b.insert("repo", "new_file.rs");

    let diff = b.diff(&a);
    assert_eq!(diff.len(), 1);
    assert_eq!(diff[0], ("repo".to_string(), "new_file.rs".to_string()));
}

#[test]
fn test_diff_ignores_cleaned_files() {
    let mut a = GitSnapshot::new();
    a.insert("repo", "was_dirty.rs");

    let b = GitSnapshot::new();

    assert!(b.diff(&a).is_empty());
}

#[test]
fn status_lines_become_files_in_order() {
    let mut before = GitSnapshot::new();
    before.add_status("web", " M src/a.ts\n");
    let mut after = GitSnapshot::new();
    after.add_status("web", "?? notes.md\n M src/a.ts\n");
    after.add_status("api", " M lib.rs\n");
    after.add_status("api", " M lib.rs\n");
    let hooks = GitSafetyHooks { workspace_root: "/ws".to_string() };
    assert_eq!(
        hooks.post_turn(&before, &after),
        vec![
            ("api".to_string(), "lib.rs".to_string()),
            ("web".to_string(), "notes.md".to_string()),
        ]
    );
    assert!(!after.is_empty());
}
