use wardwell::boundary::{BoundaryEnforcer, EnforcementResult};
use wardwell::config::{DomainName, PathGlob};
use wardwell::model::Domain;
use wardwell::paths::PathContext;

/// A stand-in for the operating system's canonicalization: each existing
/// path with its canonical form (a symlink maps to its final target).
struct FakeFs {
    entries: Vec<(&'static str, &'static str)>,
}

impl FakeFs {
    fn canonicalize(&self, p: &str) -> Result<String, String> {
        self.entries
            .iter()
            .find(|(k, _)| *k == p)
            .map(|(_, v)| v.to_string())
            .ok_or_else(|| "No such file or directory (os error 2)".to_string())
    }
}

fn setup() -> (FakeFs, Domain) {
    let fs = FakeFs {
        entries: vec![
            ("/tmp/wtest", "/tmp/wtest"),
            ("/tmp/wtest/allowed.txt", "/tmp/wtest/allowed.txt"),
            ("/tmp/wtest/sneaky.txt", "/tmp/outside/secret.txt"),
            ("/etc/passwd", "/etc/passwd"),
        ],
    };
    let domain = Domain {
        name: DomainName::new("test").unwrap(),
        paths: vec![PathGlob::new("/tmp/wtest/*").unwrap()],
        aliases: Vec::new(),
        can_read: Vec::new(),
    };
    (fs, domain)
}

/// Screens first, canonicalizes only what passed, then decides.
fn check(fs: &FakeFs, enforcer: &BoundaryEnforcer, path_str: &str) -> EnforcementResult {
    if let Some(blocked) = enforcer.screen(path_str) {
        return blocked;
    }
    enforcer.check_path(path_str, fs.canonicalize(path_str), &PathContext::new(None))
}

fn reason(r: &EnforcementResult) -> String {
    match r {
        EnforcementResult::Block { reason } => reason.clone(),
        EnforcementResult::Allow => panic!("expected a block"),
    }
}

#[test]
fn allows_file_within_boundary() {
    let (fs, domain) = setup();
    let enforcer = BoundaryEnforcer::new(&domain);
    let result = check(&fs, &enforcer, "/tmp/wtest/allowed.txt");
    assert!(result.is_allowed());
}

#[test]
fn blocks_file_outside_boundary() {
    let (fs, domain) = setup();
    let enforcer = BoundaryEnforcer::new(&domain);
    let result = check(&fs, &enforcer, "/etc/passwd");
    assert!(!result.is_allowed());
}

#[test]
fn blocks_traversal_attack() {
    let (fs, domain) = setup();
    let enforcer = BoundaryEnforcer::new(&domain);
    let result = check(&fs, &enforcer, "../../../etc/passwd");
    assert!(!result.is_allowed());
}

#[test]
fn boundary_blocks_url_encoded_traversal() {
    let (fs, domain) = setup();
    let enforcer = BoundaryEnforcer::new(&domain);
    let result = check(&fs, &enforcer, "%2e%2e/%2e%2e/etc/passwd");
    assert!(!result.is_allowed());
}

#[test]
fn blocks_null_byte() {
    let (fs, domain) = setup();
    let enforcer = BoundaryEnforcer::new(&domain);
    let result = check(&fs, &enforcer, "/tmp/test\x00.txt");
    assert!(!result.is_allowed());
}

#[test]
fn blocks_symlink_outside_boundary() {
    let (fs, domain) = setup();
    let enforcer = BoundaryEnforcer::new(&domain);
    let result = check(&fs, &enforcer, "/tmp/wtest/sneaky.txt");
    assert!(!result.is_allowed(), "symlink to outside should be blocked");
    assert_eq!(
        reason(&result),
        "path '/tmp/wtest/sneaky.txt' is outside domain boundary (resolved: '/tmp/outside/secret.txt')"
    );
}

#[test]
fn dangerous_string_is_blocked_before_resolution() {
    let (_fs, domain) = setup();
    let enforcer = BoundaryEnforcer::new(&domain);
    let ctx = PathContext::new(None);
    let a = enforcer.check_path("/nonexistent/../x", Err("No such file".to_string()), &ctx);
    let b = enforcer.check_path("/nonexistent/../x", Ok("/anything".to_string()), &ctx);
    assert_eq!(reason(&a), "dangerous path detected: '/nonexistent/../x' \u{2014} directory traversal");
    assert_eq!(reason(&a), reason(&b));
    assert!(enforcer.screen("/tmp/wtest/allowed.txt").is_none());
}

#[test]
fn reasons_distinguish_resolution_and_boundary() {
    let (fs, domain) = setup();
    let enforcer = BoundaryEnforcer::new(&domain);
    let unresolved = check(&fs, &enforcer, "/no/such");
    assert_eq!(
        reason(&unresolved),
        "path resolution failed: path resolution failed for '/no/such': No such file or directory (os error 2)"
    );
}

#[test]
fn canonical_root_alias_is_allowed() {
    let (_fs, domain) = setup();
    let enforcer = BoundaryEnforcer::new(&domain);
    let mut ctx = PathContext::new(None);
    ctx.record("/tmp/wtest".to_string(), "/private/tmp/wtest".to_string());
    let r = enforcer.check_path("/tmp/wtest/a.txt", Ok("/private/tmp/wtest/a.txt".to_string()), &ctx);
    assert!(r.is_allowed());
}
