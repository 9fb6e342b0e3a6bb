use wardwell::alias::{glob_base, AliasError, AliasResolver};
use wardwell::paths::PathContext;

fn test_resolver() -> AliasResolver {
    let aliases = vec![
        ("vault".to_string(), "/tmp/test-vault".to_string()),
        ("agents".to_string(), "/tmp/test-vault/personal".to_string()),
    ];

    AliasResolver::new(&aliases, "personal", &vec!["/tmp/test-vault/*".to_string()], &PathContext::new(None))
}

fn ctx() -> PathContext {
    PathContext::new(None)
}

#[test]
fn resolve_alias_basic() {
    let resolver = test_resolver();
    let result = resolver.resolve("{alias:vault}/INDEX.md", &ctx());
    assert!(result.is_ok(), "{result:?}");
    assert_eq!(result.ok(), Some("/tmp/test-vault/INDEX.md".to_string()));
}

#[test]
fn resolve_alias_nested() {
    let resolver = test_resolver();
    let result = resolver.resolve("{alias:agents}/wardwell.md", &ctx());
    assert!(result.is_ok(), "{result:?}");
    assert_eq!(result.ok(), Some("/tmp/test-vault/personal/wardwell.md".to_string()));
}

#[test]
fn resolve_domain_reference() {
    let resolver = test_resolver();
    let result = resolver.resolve("{domain:personal}/notes.md", &ctx());
    assert!(result.is_ok(), "{result:?}");
    assert_eq!(result.ok(), Some("/tmp/test-vault/notes.md".to_string()));
}

#[test]
fn resolve_unknown_alias_errors() {
    let resolver = test_resolver();
    let result = resolver.resolve("{alias:nonexistent}/file.md", &ctx());
    assert!(result.is_err(), "{result:?}");
    let err = result.err().unwrap_or(AliasError::UnknownAlias { name: String::new() }).message();
    assert!(err.contains("nonexistent"));
}

#[test]
fn resolve_cross_domain_rejection() {
    let resolver = test_resolver();
    let result = resolver.resolve("/etc/passwd", &ctx());
    assert!(result.is_err(), "{result:?}");
}

#[test]
fn resolve_plain_path_within_boundary() {
    let resolver = test_resolver();
    let result = resolver.resolve("/tmp/test-vault/some/file.md", &ctx());
    assert!(result.is_ok(), "{result:?}");
}

#[test]
fn resolve_unchecked_skips_boundary() {
    let resolver = test_resolver();
    let result = resolver.resolve_unchecked("/etc/passwd", &ctx());
    assert!(result.is_ok(), "{result:?}");
}

#[test]
fn glob_base_extracts_directory() {
    assert_eq!(glob_base("/tmp/test/*", &ctx()), "/tmp/test");
    assert_eq!(glob_base("/tmp/test/**/*.rs", &ctx()), "/tmp/test");
    assert_eq!(glob_base("/tmp/test", &ctx()), "/tmp/test");
}

#[test]
fn aliases_returns_configured() {
    let resolver = test_resolver();
    assert_eq!(resolver.aliases().len(), 2);
    assert!(resolver.aliases().iter().any(|(k, _)| k == "vault"));
    assert!(resolver.aliases().iter().any(|(k, _)| k == "agents"));
}

#[test]
fn unknown_alias_names_exact_name() {
    match test_resolver().resolve("{alias:nonexistent}/file.md", &ctx()) {
        Err(AliasError::UnknownAlias { name }) => assert_eq!(name, "nonexistent"),
        other => panic!("unexpected {other:?}"),
    }
    match test_resolver().resolve("{domain:work}/x", &ctx()) {
        Err(AliasError::UnknownDomain { name }) => assert_eq!(name, "work"),
        other => panic!("unexpected {other:?}"),
    }
}

#[test]
fn cross_domain_error_is_outside_boundary() {
    match test_resolver().resolve("/etc/passwd", &ctx()) {
        Err(AliasError::OutsideBoundary { path }) => assert_eq!(path, "/etc/passwd"),
        other => panic!("unexpected {other:?}"),
    }
    assert_eq!(test_resolver().resolve_unchecked("/etc/passwd", &ctx()).unwrap(), "/etc/passwd");
}

#[test]
fn unclosed_placeholders_fail() {
    match test_resolver().resolve("{alias:vault/x", &ctx()) {
        Err(AliasError::ExpansionFailed { path, reason }) => {
            assert_eq!(path, "{alias:vault/x");
            assert_eq!(reason, "unclosed {alias:...} reference");
        }
        other => panic!("unexpected {other:?}"),
    }
    match test_resolver().resolve_unchecked("{domain:personal", &ctx()) {
        Err(e) => assert_eq!(e.message(), "path expansion failed for '{domain:personal': unclosed {domain:...} reference"),
        other => panic!("unexpected {other:?}"),
    }
}

#[test]
fn aliases_expand_before_domains_and_home() {
    let home = PathContext::new(Some("/home/me".to_string()));
    let aliases = vec![("notes".to_string(), "~/notes".to_string()), ("root".to_string(), "{domain:d}/sub".to_string())];
    let r = AliasResolver::new(&aliases, "d", &vec!["~/vault/*".to_string()], &home);
    assert_eq!(r.resolve("{alias:notes}/a.md", &home).ok(), None);
    assert_eq!(r.resolve_unchecked("{alias:notes}/a.md", &home).unwrap(), "/home/me/notes/a.md");
    assert_eq!(r.resolve("{alias:root}/b.md", &home).unwrap(), "/home/me/vault/sub/b.md");
    assert_eq!(r.resolve("~/vault/c.md", &home).unwrap(), "/home/me/vault/c.md");
}

#[test]
fn no_bounds_means_no_boundary_check() {
    let r = AliasResolver::new(&Vec::new(), "d", &Vec::new(), &ctx());
    assert_eq!(r.resolve("/anywhere", &ctx()).unwrap(), "/anywhere");
}
