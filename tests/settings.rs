use wardwell::config::{ConfigError, DomainName, PathGlob};
use wardwell::model::Domain;
use wardwell::registry::DomainRegistry;
use wardwell::paths::PathContext;
use wardwell::settings::{choose_registry, domain_from_entry, expand_tilde, AiConfig, ConfigDomainEntry};

fn entry(name: &str, paths: &[&str]) -> ConfigDomainEntry {
    ConfigDomainEntry {
        name: name.to_string(),
        paths: paths.iter().map(|p| p.to_string()).collect(),
        aliases: vec![("code".to_string(), "~/Code".to_string())],
        can_read: vec!["general".to_string()],
    }
}

#[test]
fn vault_domains_take_precedence() {
    let vault = DomainRegistry::from_domains(vec![Domain {
        name: DomainName::new("vaulted").unwrap(),
        paths: vec![PathGlob::new("/v/*").unwrap()],
        aliases: Vec::new(),
        can_read: Vec::new(),
    }]);
    let reg = choose_registry(vault, &vec![entry("cfg", &["/c/*"])]).unwrap();
    assert_eq!(reg.names(), vec!["vaulted"]);
}

#[test]
fn config_domains_are_the_fallback() {
    let reg = choose_registry(DomainRegistry::empty(), &vec![entry("cfg", &["/c/*", " /d/* "])]).unwrap();
    assert_eq!(reg.names(), vec!["cfg"]);
    let d = &reg.all()[0];
    assert_eq!(d.paths[1].as_str(), "/d/*");
    assert_eq!(d.aliases, vec![("code".to_string(), "~/Code".to_string())]);
    assert_eq!(d.can_read, vec!["general"]);
    assert!(choose_registry(DomainRegistry::empty(), &Vec::new()).unwrap().is_empty());
}

#[test]
fn invalid_config_entry_fails() {
    assert!(matches!(domain_from_entry(&entry("a/b", &["/x/*"])), Err(ConfigError::InvalidDomainName { .. })));
    assert!(matches!(
        choose_registry(DomainRegistry::empty(), &vec![entry("ok", &["  "])]),
        Err(ConfigError::InvalidPathGlob { .. })
    ));
}

#[test]
fn ai_defaults_to_haiku() {
    assert_eq!(AiConfig::default().summarize_model, "haiku");
    assert_eq!(AiConfig::with_model(None).summarize_model, "haiku");
    assert_eq!(AiConfig::with_model(Some("sonnet".to_string())).summarize_model, "sonnet");
}

#[test]
fn expand_tilde_with_home() {
    let result = expand_tilde("~/documents", &PathContext::new(Some("/home/me".to_string())));
    assert_eq!(result, "/home/me/documents");
}

#[test]
fn expand_tilde_absolute_path() {
    let result = expand_tilde("/absolute/path", &PathContext::new(Some("/home/me".to_string())));
    assert_eq!(result, "/absolute/path");
    assert_eq!(expand_tilde("~/x", &PathContext::new(None)), "~/x");
}
