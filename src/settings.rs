//! Assembly of the loaded configuration: the registry is taken from the vault
//! when it defines any confirmed domain, and from the configured domains only
//! otherwise.
use vstd::prelude::*;
use crate::config::{glob_syntax_ok, valid_domain_name, ConfigError, DomainName, PathGlob};
use crate::model::{globs_view, pairs_view, strings_view, Domain};
use crate::registry::DomainRegistry;
use crate::paths::{expand_home, expand_home_exec, PathContext};
use crate::text::{chars_of, string_of, trim_of};

verus! {

/// `path` with a leading `~/` replaced by the home directory of `ctx`.
pub fn expand_tilde(path: &str, ctx: &PathContext) -> (r: String)
    ensures
        r@ == expand_home(path@, ctx.home_view()),
{
    let home = ctx.home_chars();
    let p = chars_of(path);
    string_of(expand_home_exec(&p, &home).as_slice())
}

/// Settings of session summarization.
#[derive(Debug, Clone)]
pub struct AiConfig {
    /// Model used for summaries.
    pub summarize_model: String,
}

impl AiConfig {
    /// The settings with `summarize_model` when given, else the default model.
    pub fn with_model(summarize_model: Option<String>) -> (r: Self)
        ensures
            r.summarize_model@ == match summarize_model {
                Some(m) => m@,
                None => "haiku"@,
            },
    {
        match summarize_model {
            Some(m) => AiConfig { summarize_model: m },
            None => AiConfig { summarize_model: "haiku".to_string() },
        }
    }
}

impl Default for AiConfig {
    fn default() -> (r: Self)
        ensures
            r.summarize_model@ == "haiku"@,
    {
        AiConfig { summarize_model: "haiku".to_string() }
    }
}

/// The loaded configuration.
#[derive(Debug, Clone)]
pub struct WardwellConfig {
    pub vault_path: String,
    pub registry: DomainRegistry,
    pub session_sources: Vec<String>,
    pub exclude: Vec<String>,
    pub ai: AiConfig,
}

/// A domain as the configuration file lists it.
#[derive(Debug, Clone)]
pub struct ConfigDomainEntry {
    pub name: String,
    pub paths: Vec<String>,
    pub aliases: Vec<(String, String)>,
    pub can_read: Vec<String>,
}

/// The entry is valid: a valid name and valid globs.
pub open spec fn entry_valid(e: ConfigDomainEntry) -> bool {
    &&& valid_domain_name(trim_of(e.name@))
    &&& forall|j: int| 0 <= j < e.paths@.len() ==> trim_of(#[trigger] e.paths@[j]@).len() > 0
        && glob_syntax_ok(trim_of(e.paths@[j]@))
}

/// `d` is the domain that entry `e` describes.
pub open spec fn domain_of_entry(d: Domain, e: ConfigDomainEntry) -> bool {
    &&& d.name@ == trim_of(e.name@)
    &&& globs_view(d.paths@) == strings_view(e.paths@).map_values(|l: Seq<char>| trim_of(l))
    &&& pairs_view(d.aliases@) == pairs_view(e.aliases@)
    &&& strings_view(d.can_read@) == strings_view(e.can_read@)
}

fn copy_pairs(v: &Vec<(String, String)>) -> (r: Vec<(String, String)>)
    ensures
        r@ == v@,
{
    let mut r: Vec<(String, String)> = Vec::new();
    let mut i: usize = 0;
    while i < v.len()
        invariant
            i <= v@.len(),
            r@ == v@.take(i as int),
        decreases v.len() - i,
    {
        r.push((v[i].0.clone(), v[i].1.clone()));
        i = i + 1;
        proof {
            assert(r@ =~= v@.take(i as int));
        }
    }
    proof {
        assert(v@.take(v@.len() as int) =~= v@);
    }
    r
}

/// Builds the domain a configuration entry describes; the first invalid name
/// or glob fails it.
pub fn domain_from_entry(e: &ConfigDomainEntry) -> (r: Result<Domain, ConfigError>)
    ensures
        r is Ok <==> entry_valid(*e),
        r is Ok ==> domain_of_entry(r->Ok_0, *e),
{
    let name = match DomainName::new(e.name.as_str()) {
        Ok(n) => n,
        Err(err) => return Err(err),
    };
    let mut paths: Vec<PathGlob> = Vec::new();
    let mut j: usize = 0;
    while j < e.paths.len()
        invariant
            j <= e.paths@.len(),
            valid_domain_name(trim_of(e.name@)),
            name@ == trim_of(e.name@),
            globs_view(paths@) == strings_view(e.paths@).take(j as int).map_values(|l: Seq<char>| trim_of(l)),
            forall|m: int| 0 <= m < j ==> trim_of(#[trigger] e.paths@[m]@).len() > 0 && glob_syntax_ok(trim_of(e.paths@[m]@)),
        decreases e.paths.len() - j,
    {
        match PathGlob::new(e.paths[j].as_str()) {
            Ok(g) => {
                let ghost old_paths = paths@;
                proof {
                    assert(g@ == trim_of(e.paths@[j as int]@));
                    assert(globs_view(old_paths).len() == old_paths.len());
                    assert(strings_view(e.paths@).take(j as int).len() == j);
                }
                paths.push(g);
                j = j + 1;
                proof {
                    let a = globs_view(paths@);
                    let b = strings_view(e.paths@).take(j as int).map_values(|l: Seq<char>| trim_of(l));
                    assert(paths@ == old_paths.push(g));
                    assert forall|m: int| 0 <= m < a.len() implies a[m] == b[m] by {
                        if m < j - 1 {
                            assert(paths@[m] == old_paths[m]);
                            assert(a[m] == globs_view(old_paths)[m]);
                        } else {
                            assert(paths@[m] == g);
                            assert(strings_view(e.paths@)[m] == e.paths@[m]@);
                        }
                    }
                    assert(a =~= b);
                }
            },
            Err(err) => return Err(err),
        }
    }
    proof {
        assert(strings_view(e.paths@).take(j as int) =~= strings_view(e.paths@));
    }
    Ok(Domain { name, paths, aliases: copy_pairs(&e.aliases), can_read: crate::model::copy_strings(&e.can_read) })
}

/// The registry in force: the vault's when it holds any domain; otherwise the
/// configured domains, in order, failing on the first invalid entry.
pub fn choose_registry(vault: DomainRegistry, entries: &Vec<ConfigDomainEntry>) -> (r: Result<DomainRegistry, ConfigError>)
    ensures
        vault@.len() > 0 ==> r is Ok && r->Ok_0@ == vault@,
        vault@.len() == 0 ==> (r is Ok <==> forall|i: int| 0 <= i < entries@.len() ==> entry_valid(#[trigger] entries@[i])),
        vault@.len() == 0 && r is Ok ==> r->Ok_0@.len() == entries@.len() && forall|i: int|
            0 <= i < entries@.len() ==> domain_of_entry(#[trigger] r->Ok_0@[i], entries@[i]),
{
    if !vault.is_empty() {
        return Ok(vault);
    }
    let mut domains: Vec<Domain> = Vec::new();
    let mut i: usize = 0;
    while i < entries.len()
        invariant
            vault@.len() == 0,
            i <= entries@.len(),
            domains@.len() == i,
            forall|k: int| 0 <= k < i ==> entry_valid(#[trigger] entries@[k]),
            forall|k: int| 0 <= k < i ==> domain_of_entry(#[trigger] domains@[k], entries@[k]),
        decreases entries.len() - i,
    {
        match domain_from_entry(&entries[i]) {
            Ok(d) => domains.push(d),
            Err(err) => return Err(err),
        }
        i = i + 1;
    }
    Ok(DomainRegistry::from_domains(domains))
}

} // verus!
