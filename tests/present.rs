use wardwell::guide::build_injection_content;
use wardwell::present::{extract_section_simple, format_size, slug_to_title};

#[test]
fn build_injection_content_returns_expected() {
    let content = build_injection_content(&Vec::new());
    assert!(content.contains("wardwell_search"), "missing wardwell_search");
    assert!(content.contains("wardwell_write"), "missing wardwell_write");
    assert!(content.contains("wardwell_clipboard"), "missing wardwell_clipboard");
}

#[test]
fn format_size_units() {
    assert_eq!(format_size(0), "0B");
    assert_eq!(format_size(999), "999B");
    assert_eq!(format_size(1000), "1KB");
    assert_eq!(format_size(2048), "2KB");
    assert_eq!(format_size(1_999_999), "1MB");
    assert_eq!(format_size(u64::MAX), "18446744073709MB");
}

#[test]
fn slug_to_title_words() {
    assert_eq!(slug_to_title("my-project"), "My Project");
    assert_eq!(slug_to_title("a--b"), "A  B");
    assert_eq!(slug_to_title(""), "");
    assert_eq!(slug_to_title("\u{df}eta"), "SSeta");
}

#[test]
fn extract_section_simple_finds_text() {
    let body = "# T\n## Focus\n  ship it  \n## Next Action\nwrite tests\n";
    assert_eq!(extract_section_simple(body, "Focus"), "ship it");
    assert_eq!(extract_section_simple(body, "Next Action"), "write tests");
    assert_eq!(extract_section_simple(body, "Missing"), "");
}
