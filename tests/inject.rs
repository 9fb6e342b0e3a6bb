use wardwell::inject::{inject_text, END_MARKER, START_MARKER};

#[test]
fn inject_into_empty_file() {
    let content = inject_text("", "wardwell context here");
    assert!(content.contains(START_MARKER));
    assert!(content.contains(END_MARKER));
    assert!(content.contains("wardwell context here"));
    assert_eq!(content, format!("{START_MARKER}\nwardwell context here\n{END_MARKER}"));
}

#[test]
fn inject_appends_to_existing_file() {
    let content = inject_text("# Existing Content\n\nKeep this.\n", "injected content");
    assert!(content.contains("# Existing Content"));
    assert!(content.contains("Keep this."));
    assert!(content.contains("injected content"));
    assert!(content.contains(START_MARKER));
    assert_eq!(
        content,
        format!("# Existing Content\n\nKeep this.\n\n\n{START_MARKER}\ninjected content\n{END_MARKER}")
    );
}

#[test]
fn inject_replaces_between_markers() {
    let existing = format!("# Header\n\n{START_MARKER}\nold content\n{END_MARKER}\n\n# Footer\n");
    let content = inject_text(&existing, "new content");
    assert!(content.contains("# Header"));
    assert!(content.contains("# Footer"));
    assert!(content.contains("new content"));
    assert!(!content.contains("old content"));
}

#[test]
fn inject_preserves_content_outside_markers() {
    let existing =
        format!("# Before\nImportant stuff.\n\n{START_MARKER}\nold\n{END_MARKER}\n\n# After\nMore stuff.\n");
    let content = inject_text(&existing, "replaced");
    assert_eq!(
        content,
        format!("# Before\nImportant stuff.\n\n{START_MARKER}\nreplaced\n{END_MARKER}\n\n# After\nMore stuff.\n")
    );
}

#[test]
fn inject_is_idempotent() {
    let once = inject_text("# Existing\n", "content v1");
    let twice = inject_text(&once, "content v2");
    assert!(twice.contains("content v2"));
    assert!(!twice.contains("content v1"));
    assert_eq!(twice.matches(START_MARKER).count(), 1);
    assert_eq!(twice.matches(END_MARKER).count(), 1);
}

#[test]
fn inject_without_end_marker_replaces_to_end() {
    let existing = format!("# Top\n{START_MARKER}\ndangling");
    assert_eq!(inject_text(&existing, "x"), format!("# Top\n{START_MARKER}\nx\n{END_MARKER}"));
}
