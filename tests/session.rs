use wardwell::session::{
    build_conversation_payload, build_summary_frontmatter, decode_project_dir, resolve_domain, ConversationMessage,
    UnsummarizedSession,
};
use wardwell::config::{DomainName, PathGlob};
use wardwell::model::Domain;
use wardwell::paths::PathContext;

#[test]
fn decode_project_dir_standard() {
    assert_eq!(decode_project_dir("-Users-jack-Code-wardwell"), "/Users/jack/Code/wardwell");
}

#[test]
fn decode_project_dir_keeps_other_names() {
    assert_eq!(decode_project_dir("plain-name"), "plain-name");
    assert_eq!(decode_project_dir(""), "");
}

#[test]
fn build_summary_frontmatter_with_domain() {
    let session = UnsummarizedSession {
        session_id: "abc-123".to_string(),
        project_dir: "-Users-test".to_string(),
        project_path: "/Users/test/project".to_string(),
        domain: Some("work".to_string()),
        user_message_count: 10,
        file_size: 2048,
    };
    let fm = build_summary_frontmatter(&session);
    assert!(fm.contains("domain: work"));
    assert!(fm.contains("type: thread"));
    assert!(fm.contains("confidence: inferred"));
}

#[test]
fn build_summary_frontmatter_without_domain() {
    let session = UnsummarizedSession {
        session_id: "def-456".to_string(),
        project_dir: "-Users-test".to_string(),
        project_path: "/Users/test".to_string(),
        domain: None,
        user_message_count: 5,
        file_size: 1024,
    };
    let fm = build_summary_frontmatter(&session);
    assert!(!fm.contains("domain:"));
    assert_eq!(
        fm,
        "---\ntype: thread\nproject: /Users/test\nstatus: resolved\nconfidence: inferred\nsummary: Session summary for /Users/test\n---\n"
    );
}

#[test]
fn build_conversation_payload_basic() {
    let msgs = vec![
        ConversationMessage { role: "user".to_string(), text: "Hello".to_string() },
        ConversationMessage { role: "assistant".to_string(), text: "Hi there".to_string() },
    ];
    let payload = build_conversation_payload(&msgs);
    assert!(payload.contains("**User:** Hello"));
    assert!(payload.contains("**Assistant:** Hi there"));
    assert_eq!(payload, "**User:** Hello\n\n**Assistant:** Hi there\n\n");
}

#[test]
fn build_conversation_payload_truncates_long_messages() {
    let long_msg = "x".repeat(10000);
    let msgs = vec![ConversationMessage { role: "user".to_string(), text: long_msg }];
    let payload = build_conversation_payload(&msgs);
    assert!(payload.contains("[truncated]"));
    assert!(payload.len() < 10000);
    assert_eq!(payload, format!("**User:** {}...[truncated]\n\n", "x".repeat(5000)));
}

#[test]
fn payload_cuts_at_character_boundary() {
    // 2-byte characters: 2500 of them fill the message limit exactly.
    let text = "\u{e9}".repeat(2600);
    let msgs = vec![ConversationMessage { role: "user".to_string(), text }];
    let payload = build_conversation_payload(&msgs);
    assert_eq!(payload, format!("**User:** {}...[truncated]\n\n", "\u{e9}".repeat(2500)));
}

#[test]
fn payload_stops_at_its_limit() {
    let msg = ConversationMessage { role: "user".to_string(), text: "y".repeat(4900) };
    let msgs: Vec<ConversationMessage> = (0..30).map(|_| msg.clone()).collect();
    let payload = build_conversation_payload(&msgs);
    let entry = format!("**User:** {}\n\n", "y".repeat(4900));
    let fitting = 100000 / entry.len();
    assert_eq!(payload, format!("{}\n[...conversation truncated for length...]\n", entry.repeat(fitting)));
    assert!(build_conversation_payload(&Vec::new()).is_empty());
}

#[test]
fn resolve_domain_names_first_owner() {
    let d = |n: &str, g: &str| Domain {
        name: DomainName::new(n).unwrap(),
        paths: vec![PathGlob::new(g).unwrap()],
        aliases: Vec::new(),
        can_read: Vec::new(),
    };
    let domains = vec![d("work", "/Users/test/work/*"), d("all", "/Users/test/*")];
    let ctx = PathContext::new(None);
    assert_eq!(resolve_domain("/Users/test/work/app", &domains, &ctx), Some("work".to_string()));
    assert_eq!(resolve_domain("/Users/test/other", &domains, &ctx), Some("all".to_string()));
    assert_eq!(resolve_domain("/opt/x", &domains, &ctx), None);
}
