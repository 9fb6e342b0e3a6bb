use wardwell::config::{DomainName, PathGlob};
use wardwell::model::Domain;
use wardwell::paths::PathContext;
use wardwell::vault::{
    default_frontmatter, parse_confidence, parse_status, parse_vault_type, split_frontmatter, Confidence, Frontmatter, Status, VaultError, VaultFile,
    VaultType,
};

fn test_domain() -> Domain {
    let name = DomainName::new("test").unwrap();
    Domain {
        name,
        paths: vec![PathGlob::new("/tmp/test/*").unwrap()],
        aliases: Vec::new(),
        can_read: Vec::new(),
    }
}

fn frontmatter(file_type: VaultType, domain: Option<&str>, status: Option<Status>, confidence: Option<Confidence>, can_read: Vec<String>) -> Frontmatter {
    Frontmatter {
        file_type,
        domain: domain.map(|d| d.to_string()),
        status,
        confidence,
        updated: None,
        summary: None,
        related: Vec::new(),
        tags: Vec::new(),
        can_read,
    }
}

fn alias<'a>(d: &'a Domain, key: &str) -> Option<&'a str> {
    d.aliases.iter().find(|(k, _)| k == key).map(|(_, v)| v.as_str())
}

#[test]
fn path_allowed_within_domain() {
    let domain = test_domain();
    assert!(domain.path_allowed("/tmp/test/file.txt", &PathContext::new(None)));
}

#[test]
fn path_denied_outside_domain() {
    let domain = test_domain();
    assert!(!domain.path_allowed("/etc/passwd", &PathContext::new(None)));
}

#[test]
fn from_vault_file_parses_domain() {
    let vf = VaultFile {
        path: "/vault/domains/myapp.md".to_string(),
        frontmatter: frontmatter(VaultType::Domain, Some("myapp"), Some(Status::Active), Some(Confidence::Confirmed), Vec::new()),
        body: "## Paths\n- ~/Code/myapp-*/*\n- ~/Code/mycompany/*\n\n## Aliases\n- repos: ~/Code\n- docs: ~/Documents/myapp\n".to_string(),
    };

    let domain = Domain::from_vault_file(&vf);
    assert!(domain.is_ok(), "{domain:?}");
    let domain = domain.unwrap();
    assert_eq!(domain.name.as_str(), "myapp");
    assert_eq!(domain.paths.len(), 2);
    assert_eq!(alias(&domain, "repos"), Some("~/Code"));
    assert_eq!(alias(&domain, "docs"), Some("~/Documents/myapp"));
}

#[test]
fn from_vault_file_uses_filename_stem_when_no_domain_field() {
    let vf = VaultFile {
        path: "/vault/domains/personal.md".to_string(),
        frontmatter: frontmatter(VaultType::Domain, None, None, Some(Confidence::Confirmed), Vec::new()),
        body: "## Paths\n- ~/projects/*\n".to_string(),
    };

    let domain = Domain::from_vault_file(&vf);
    assert!(domain.is_ok(), "{domain:?}");
    assert_eq!(domain.unwrap().name.as_str(), "personal");
}

#[test]
fn from_vault_file_rejects_non_domain_type() {
    let vf = VaultFile {
        path: "/vault/project.md".to_string(),
        frontmatter: frontmatter(VaultType::Project, None, None, Some(Confidence::Confirmed), Vec::new()),
        body: String::new(),
    };

    let result = Domain::from_vault_file(&vf);
    assert!(result.is_err(), "{result:?}");
}

#[test]
fn from_vault_file_rejects_unconfirmed() {
    let vf = VaultFile {
        path: "/vault/domains/test.md".to_string(),
        frontmatter: frontmatter(VaultType::Domain, Some("test"), None, Some(Confidence::Inferred), Vec::new()),
        body: "## Paths\n- /tmp/*\n".to_string(),
    };

    let result = Domain::from_vault_file(&vf);
    assert!(result.is_err(), "{result:?}");
}

#[test]
fn from_vault_file_parses_can_read() {
    let vf = VaultFile {
        path: "/vault/domains/wardwell.md".to_string(),
        frontmatter: frontmatter(
            VaultType::Domain,
            Some("wardwell"),
            Some(Status::Active),
            Some(Confidence::Confirmed),
            vec!["personal".to_string(), "general".to_string()],
        ),
        body: "## Paths\n- ~/Code/wardwell/*\n".to_string(),
    };

    let domain = Domain::from_vault_file(&vf);
    assert!(domain.is_ok(), "{domain:?}");
    let domain = domain.unwrap();
    assert_eq!(domain.name.as_str(), "wardwell");
    assert_eq!(domain.can_read, vec!["personal", "general"]);
}

#[test]
fn from_vault_file_empty_can_read_defaults() {
    let vf = VaultFile {
        path: "/vault/domains/solo.md".to_string(),
        frontmatter: frontmatter(VaultType::Domain, Some("solo"), None, Some(Confidence::Confirmed), Vec::new()),
        body: "## Paths\n- /tmp/solo/*\n".to_string(),
    };

    let domain = Domain::from_vault_file(&vf);
    assert!(domain.is_ok(), "{domain:?}");
    assert!(domain.unwrap().can_read.is_empty());
}

#[test]
fn from_vault_file_skips_whole_domain_on_bad_glob() {
    let vf = VaultFile {
        path: "/vault/domains/bad.md".to_string(),
        frontmatter: frontmatter(VaultType::Domain, Some("bad"), None, Some(Confidence::Confirmed), Vec::new()),
        body: "## Paths\n- /tmp/ok/*\n- /tmp/[\n".to_string(),
    };
    assert!(Domain::from_vault_file(&vf).is_err());
}

#[test]
fn from_vault_file_ignores_other_sections_and_non_bullets() {
    let vf = VaultFile {
        path: "/vault/domains/x.md".to_string(),
        frontmatter: frontmatter(VaultType::Domain, Some("x"), None, Some(Confidence::Confirmed), Vec::new()),
        body: "intro\n- /not/a/path\r\n## Paths\r\n- /tmp/x/*\r\nnot a bullet\n## Notes\n- /tmp/ignored/*\n## Aliases\n- a: /one\n- nokey\n- a: /two\n".to_string(),
    };
    let d = Domain::from_vault_file(&vf).unwrap();
    assert_eq!(d.paths.len(), 1);
    assert_eq!(d.paths[0].as_str(), "/tmp/x/*");
    assert_eq!(d.aliases.len(), 1);
    assert_eq!(alias(&d, "a"), Some("/two"));
}

#[test]
fn proposed_domain_is_rejected() {
    let vf = VaultFile {
        path: "/vault/domains/p.md".to_string(),
        frontmatter: frontmatter(VaultType::Domain, Some("p"), None, Some(Confidence::Proposed), Vec::new()),
        body: "## Paths\n- /tmp/p/*\n".to_string(),
    };
    assert!(Domain::from_vault_file(&vf).is_err());
}

#[test]
fn parse_names_of_vault_metadata() {
    assert_eq!(parse_vault_type("domain"), VaultType::Domain);
    assert_eq!(parse_vault_type("thread"), VaultType::Thread);
    assert_eq!(parse_vault_type("whatever"), VaultType::Reference);
    assert_eq!(parse_status("active"), Some(Status::Active));
    assert_eq!(parse_status("completed"), None);
    assert_eq!(parse_confidence("confirmed"), Some(Confidence::Confirmed));
    assert_eq!(parse_confidence("maybe"), None);
}

#[test]
fn split_frontmatter_cases() {

    let (fm, body) = split_frontmatter("\n  ---\ntype: domain\n---\n\n## Paths\n- /x/*\n").unwrap();
    assert_eq!(fm, "\ntype: domain");
    assert_eq!(body, "## Paths\n- /x/*\n");
    assert!(matches!(split_frontmatter("no front matter"), Err(VaultError::NoFrontmatter)));
    assert!(matches!(split_frontmatter("---\ntype: domain\n"), Err(VaultError::UnclosedFrontmatter)));
}

#[test]
fn default_frontmatter_infers_summary() {

    let fm = default_frontmatter("\n   \n# My Title\nbody\n");
    assert_eq!(fm.file_type, VaultType::Reference);
    assert_eq!(fm.summary.as_deref(), Some("My Title"));
    assert!(default_frontmatter("").summary.is_none());
}
