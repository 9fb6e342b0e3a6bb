use wardwell::notes::{extract_domain_project, extract_section, strip_frontmatter};

#[test]
fn extract_domain_project_from_path() {
    let result = extract_domain_project("work/sentry-bot/current_state.md");
    assert_eq!(result, Some(("work".to_string(), "sentry-bot".to_string())));
}

#[test]
fn extract_domain_project_short_path() {
    let result = extract_domain_project("work");
    assert!(result.is_none());
}

#[test]
fn extract_domain_project_deep_path() {
    let result = extract_domain_project("personal/fitness/history.jsonl");
    assert_eq!(result, Some(("personal".to_string(), "fitness".to_string())));
}

#[test]
fn extract_domain_project_two_parts() {
    assert_eq!(extract_domain_project("a/b"), Some(("a".to_string(), "b".to_string())));
    assert_eq!(extract_domain_project("a/"), Some(("a".to_string(), String::new())));
}

#[test]
fn strip_frontmatter_removes_yaml() {
    let content = "---\ntype: thread\nproject: test\n---\n\n## Summary\n\nContent here.";
    let result = strip_frontmatter(content);
    assert!(result.starts_with("## Summary"));
    assert!(!result.contains("type: thread"));
}

#[test]
fn strip_frontmatter_no_frontmatter() {
    let content = "Just plain content.";
    let result = strip_frontmatter(content);
    assert_eq!(result, content);
}

#[test]
fn strip_frontmatter_keeps_note_without_body() {
    assert_eq!(strip_frontmatter("---\na: b\n---"), "---\na: b\n---");
    assert_eq!(strip_frontmatter("---\nunclosed"), "---\nunclosed");
}

#[test]
fn extract_section_cases() {
    let body = "## Focus\nShip the thing.\n\n## Next Action\n  Write tests  \n## Other\nx";
    assert_eq!(extract_section(body, "Focus"), "Ship the thing.");
    assert_eq!(extract_section(body, "Next Action"), "Write tests");
    assert_eq!(extract_section(body, "Other"), "x");
    assert_eq!(extract_section(body, "Missing"), "");
    assert_eq!(extract_section("## Last", "Last"), "");
}
