use apiari::docs::{
    doc_dir, doc_title_from_content, doc_title_from_filename, docs_dir, file_stem, is_markdown,
    list_docs, sanitize_doc_name, FoundFile,
};

fn file(name: &str, content: &str) -> FoundFile {
    FoundFile {
        name: name.to_string(),
        content: Some(content.to_string()),
        updated_at: "2026-05-02T00:00:00+00:00".to_string(),
    }
}

#[test]
fn docs_endpoints_list_get_save_and_delete_workspace_docs() {
    let docs = list_docs(&vec![
        file("setup-guide.md", "Getting started"),
        file("architecture.md", "# Architecture\n\nDetails"),
        file("notes.txt", "no document"),
    ]);
    assert_eq!(docs.len(), 2);
    assert_eq!(docs[0].name, "architecture.md");
    assert_eq!(docs[0].title, "Architecture");
    assert_eq!(docs[1].title, "Setup Guide");
    assert_eq!(sanitize_doc_name("notes.md").as_deref(), Some("notes.md"));
    assert_eq!(docs_dir(false, true), "docs");
}

#[test]
fn docs_endpoints_prefer_apiari_docs_directory_when_present() {
    let docs = list_docs(&vec![
        file("architecture.md", "# Apiari Architecture\n\nDetails"),
        file("architecture.md", "# Legacy Architecture\n\nOld details"),
    ]);
    assert_eq!(docs.len(), 1);
    assert_eq!(docs[0].title, "Apiari Architecture");
    assert_eq!(doc_dir(true, true, true, true), ".apiari/docs");
    assert_eq!(docs_dir(true, true), ".apiari/docs");
}

#[test]
fn docs_endpoints_reject_path_traversal() {
    assert_eq!(sanitize_doc_name("../secret.md"), None);
}

#[test]
fn names_of_other_places_are_refused() {
    assert_eq!(sanitize_doc_name("a/b.md"), None);
    assert_eq!(sanitize_doc_name("a\\b.md"), None);
    assert_eq!(sanitize_doc_name(""), None);
}

#[test]
fn documents_are_read_where_they_are() {
    assert_eq!(doc_dir(false, true, true, true), "docs");
    assert_eq!(doc_dir(false, false, false, true), "docs");
    assert_eq!(doc_dir(false, false, false, false), ".apiari/docs");
}

#[test]
fn titles_come_from_headings_or_names() {
    assert_eq!(doc_title_from_filename("mobile_web-guide.md"), "Mobile Web Guide");
    assert_eq!(doc_title_from_filename("straße.md"), "Straße");
    assert_eq!(doc_title_from_filename("ßx.md"), "SSx");
    assert_eq!(doc_title_from_content("a.md", "intro\n# Real Title\n"), "Real Title");
    assert_eq!(doc_title_from_content("a-b.md", "no heading"), "A B");
}

#[test]
fn stems_and_extensions() {
    assert_eq!(file_stem("a.b.md"), "a.b");
    assert_eq!(file_stem(".hidden"), ".hidden");
    assert!(is_markdown("a.md"));
    assert!(!is_markdown(".md"));
    assert!(!is_markdown("a.MD"));
}

#[test]
fn unreadable_documents_are_left_out() {
    let mut f = file("a.md", "");
    f.content = None;
    assert_eq!(list_docs(&vec![f, file("b.md", "x")]).len(), 1);
}
