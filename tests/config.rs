use wardwell::config::{ConfigError, DomainName, PathGlob, SessionId};
use wardwell::paths::PathContext;

#[test]
fn domain_name_rejects_empty() {
    let r1 = DomainName::new("");
    assert!(r1.is_err(), "{r1:?}");
    let r2 = DomainName::new("  ");
    assert!(r2.is_err(), "{r2:?}");
}

#[test]
fn domain_name_rejects_path_separators() {
    let r1 = DomainName::new("foo/bar");
    assert!(r1.is_err(), "{r1:?}");
    let r2 = DomainName::new("foo\\bar");
    assert!(r2.is_err(), "{r2:?}");
}

#[test]
fn domain_name_accepts_valid() {
    let name = DomainName::new("personal").ok();
    assert!(name.is_some());
    assert_eq!(name.as_ref().map(|n| n.as_str()), Some("personal"));
}

#[test]
fn path_glob_rejects_empty() {
    let result = PathGlob::new("");
    assert!(result.is_err(), "{result:?}");
}

#[test]
fn path_glob_accepts_valid() {
    let r1 = PathGlob::new("~/projects/*");
    assert!(r1.is_ok(), "{r1:?}");
    let r2 = PathGlob::new("/tmp/test");
    assert!(r2.is_ok(), "{r2:?}");
}

#[test]
fn session_id_unique() {
    let a = SessionId::new();
    let b = SessionId::new();
    assert!(!a.same_as(&b));
    assert_ne!(a.as_str(), b.as_str());
}

#[test]
fn domain_name_is_trimmed_and_reasons_given() {
    let n = DomainName::new("  work  ").unwrap();
    assert_eq!(n.as_str(), "work");
    match DomainName::new("   ") {
        Err(ConfigError::InvalidDomainName { name, reason }) => {
            assert_eq!(name, "   ");
            assert_eq!(reason, "domain name cannot be empty");
        }
        other => panic!("unexpected {other:?}"),
    }
    match DomainName::new("a\\b") {
        Err(ConfigError::InvalidDomainName { reason, .. }) => {
            assert_eq!(reason, "domain name cannot contain path separators");
        }
        other => panic!("unexpected {other:?}"),
    }
}

#[test]
fn path_glob_rejects_bad_syntax() {
    match PathGlob::new("/tmp/[") {
        Err(ConfigError::InvalidPathGlob { pattern, reason }) => {
            assert_eq!(pattern, "/tmp/[");
            assert_eq!(reason, "invalid glob syntax");
        }
        other => panic!("unexpected {other:?}"),
    }
    assert_eq!(PathGlob::new("  /tmp/x/*  ").unwrap().as_str(), "/tmp/x/*");
}

#[test]
fn path_glob_expands_home_and_roots() {
    let ctx = PathContext::new(Some("/home/me".to_string()));
    let g = PathGlob::new("~/projects/*").unwrap();
    assert_eq!(g.expand(&ctx), "/home/me/projects/*");
    assert_eq!(g.root(&ctx), "/home/me/projects");
    let none = PathContext::new(None);
    assert_eq!(g.expand(&none), "~/projects/*");
    let abs = PathGlob::new("/tmp/a/**/*.rs").unwrap();
    assert_eq!(abs.root(&ctx), "/tmp/a");
}

#[test]
fn path_glob_matching_tiers() {
    let ctx = PathContext::new(None);
    let g = PathGlob::new("/tmp/test/*.md").unwrap();
    assert!(g.matches("/tmp/test/a.md", &ctx));
    assert!(g.matches("/tmp/test/deep/nested/b.txt", &ctx));
    assert!(!g.matches("/tmp/test-evil/x.md", &ctx));
    assert!(!g.matches("/etc/passwd", &ctx));
    let mut aliased = PathContext::new(None);
    aliased.record("/tmp/test".to_string(), "/private/tmp/test".to_string());
    assert!(g.matches("/private/tmp/test/x", &aliased));
    assert!(!g.matches("/private/tmp/test/x", &ctx));
}

#[test]
fn path_glob_matches_by_glob_semantics_alone() {
    let ctx = PathContext::new(None);
    let g = PathGlob::new("/a?c/[xy].md").unwrap();
    assert!(g.matches("/abc/x.md", &ctx));
    assert!(g.matches("/a-c/y.md", &ctx));
    assert!(!g.matches("/abc/z.md", &ctx));
}

#[test]
fn names_trim_unicode_whitespace_and_revalidate() {
    let n = DomainName::new("\u{a0}\twork\u{3000}\n").unwrap();
    assert_eq!(n.as_str(), "work");
    assert_eq!(DomainName::new(n.as_str()).unwrap().as_str(), n.as_str());
    assert!(DomainName::new("\u{2003}\u{85}").is_err());
    let g = PathGlob::new("\u{2028}/tmp/x/*\r\n").unwrap();
    assert_eq!(g.as_str(), "/tmp/x/*");
    assert_eq!(DomainName::new("a\u{200b}").unwrap().as_str(), "a\u{200b}");
}
