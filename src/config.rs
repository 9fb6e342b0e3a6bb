//! Validated configuration values: domain names, path globs and session ids.
use vstd::prelude::*;
use crate::paths::{expand_home, expand_home_exec, glob_root, glob_root_exec, within, within_exec, view_opt, PathContext};
use crate::text::{chars_of, has_char, lacks, string_of, trim, trim_of};

verus! {

/// Failures of configuration values and of loading them.
#[derive(Debug, Clone)]
pub enum ConfigError {
    InvalidDomainName { name: String, reason: String },
    InvalidPathGlob { pattern: String, reason: String },
    Io(String),
    Yaml(String),
    NotFound { path: String },
    EmptyConfig,
}

/// Whether `glob::Pattern::new` accepts `p`.
pub uninterp spec fn glob_syntax_ok(p: Seq<char>) -> bool;

/// Whether a pattern compiled from `pattern` matches `path`.
pub uninterp spec fn glob_accepts(pattern: Seq<char>, path: Seq<char>) -> bool;

/// Relies on `glob::Pattern::new`: whether it compiles `p`.
#[verifier::external_body]
fn glob_compiles(p: &str) -> (r: bool)
    ensures
        r == glob_syntax_ok(p@),
{
    glob::Pattern::new(p).is_ok()
}

/// Relies on `glob::Pattern::new` and `glob::Pattern::matches`: whether the
/// compiled `pattern` matches `path`; false where `pattern` does not compile.
#[verifier::external_body]
fn glob_match(pattern: &str, path: &str) -> (r: bool)
    ensures
        r == glob_accepts(pattern@, path@),
        !glob_syntax_ok(pattern@) ==> !r,
{
    match glob::Pattern::new(pattern) {
        Ok(p) => p.matches(path),
        Err(_) => false,
    }
}

/// Relies on `uuid::Uuid::new_v4` and its hyphenated text form: a fresh
/// random identifier.
#[verifier::external_body]
fn random_uuid_text() -> (r: String) {
    uuid::Uuid::new_v4().to_string()
}

/// A valid domain name: non-empty, with no path separator.
pub open spec fn valid_domain_name(s: Seq<char>) -> bool {
    s.len() > 0 && lacks(s, '/') && lacks(s, '\\')
}

/// Validated domain name, held trimmed.
#[derive(Debug)]
pub struct DomainName(String);

impl Clone for DomainName {
    fn clone(&self) -> (r: Self)
        ensures
            r@ == self@,
    {
        proof {
            use_type_invariant(self);
        }
        DomainName(self.0.clone())
    }
}

impl View for DomainName {
    type V = Seq<char>;

    closed spec fn view(&self) -> Seq<char> {
        self.0@
    }
}

impl DomainName {
    #[verifier::type_invariant]
    spec fn inv(&self) -> bool {
        valid_domain_name(self.0@) && trim_of(self.0@) == self.0@
    }

    /// Validates `name` after trimming it.
    pub fn new(name: &str) -> (r: Result<Self, ConfigError>)
        ensures
            r is Ok <==> valid_domain_name(trim_of(name@)),
            r is Ok ==> r->Ok_0@ == trim_of(name@),
            r is Err ==> (r->Err_0 matches ConfigError::InvalidDomainName { name: n, reason }
                && n@ == name@ && reason@ == (if trim_of(name@).len() == 0 {
                "domain name cannot be empty"@
            } else {
                "domain name cannot contain path separators"@
            })),
    {
        let trimmed = trim(name);
        let cs = chars_of(trimmed.as_str());
        if cs.len() == 0 {
            return Err(ConfigError::InvalidDomainName {
                name: name.to_string(),
                reason: "domain name cannot be empty".to_string(),
            });
        }
        if has_char(&cs, '/') || has_char(&cs, '\\') {
            return Err(ConfigError::InvalidDomainName {
                name: name.to_string(),
                reason: "domain name cannot contain path separators".to_string(),
            });
        }
        proof {
            crate::text::lemma_trim_idempotent(name@);
        }
        Ok(DomainName(trimmed))
    }

    pub fn as_str(&self) -> (r: &str)
        ensures
            r@ == self@,
            valid_domain_name(r@),
            trim_of(r@) == r@,
    {
        proof {
            use_type_invariant(self);
        }
        self.0.as_str()
    }
}

/// Validated glob pattern, held trimmed.
#[derive(Debug)]
pub struct PathGlob(String);

impl Clone for PathGlob {
    fn clone(&self) -> (r: Self)
        ensures
            r@ == self@,
    {
        proof {
            use_type_invariant(self);
        }
        PathGlob(self.0.clone())
    }
}

impl View for PathGlob {
    type V = Seq<char>;

    closed spec fn view(&self) -> Seq<char> {
        self.0@
    }
}

/// The expansion of glob `g` under the home directory of `ctx`.
pub open spec fn expanded_glob(g: Seq<char>, ctx: PathContext) -> Seq<char> {
    expand_home(g, ctx.home_view())
}

/// The literal root of glob `g`, expanded under `ctx`.
pub open spec fn expanded_root(g: Seq<char>, ctx: PathContext) -> Seq<char> {
    glob_root(expanded_glob(g, ctx))
}

/// Glob `g` admits path `p`: by glob semantics, by lying at or below the
/// glob's literal root, or by lying at or below the canonical form of that
/// root.
pub open spec fn glob_allows(g: Seq<char>, p: Seq<char>, ctx: PathContext) -> bool {
    let root = expanded_root(g, ctx);
    ||| glob_accepts(expanded_glob(g, ctx), p)
    ||| within(p, root)
    ||| (ctx.canon(root) is Some && within(p, ctx.canon(root)->0))
}

impl PathGlob {
    #[verifier::type_invariant]
    spec fn inv(&self) -> bool {
        self.0@.len() > 0 && glob_syntax_ok(self.0@) && trim_of(self.0@) == self.0@
    }

    /// Validates `pattern` after trimming it.
    pub fn new(pattern: &str) -> (r: Result<Self, ConfigError>)
        ensures
            r is Ok <==> trim_of(pattern@).len() > 0 && glob_syntax_ok(trim_of(pattern@)),
            r is Ok ==> r->Ok_0@ == trim_of(pattern@),
            r is Err ==> (r->Err_0 matches ConfigError::InvalidPathGlob { pattern: p, reason }
                && p@ == pattern@ && reason@ == (if trim_of(pattern@).len() == 0 {
                "path glob cannot be empty"@
            } else {
                "invalid glob syntax"@
            })),
    {
        let trimmed = trim(pattern);
        if trimmed.as_str().is_empty() {
            return Err(ConfigError::InvalidPathGlob {
                pattern: pattern.to_string(),
                reason: "path glob cannot be empty".to_string(),
            });
        }
        if !glob_compiles(trimmed.as_str()) {
            return Err(ConfigError::InvalidPathGlob {
                pattern: pattern.to_string(),
                reason: "invalid glob syntax".to_string(),
            });
        }
        proof {
            crate::text::lemma_trim_idempotent(pattern@);
        }
        Ok(PathGlob(trimmed))
    }

    pub fn as_str(&self) -> (r: &str)
        ensures
            r@ == self@,
            r@.len() > 0,
            glob_syntax_ok(r@),
            trim_of(r@) == r@,
    {
        proof {
            use_type_invariant(self);
        }
        self.0.as_str()
    }

    /// The pattern with a leading `~/` replaced by the home directory of `ctx`.
    pub fn expand(&self, ctx: &PathContext) -> (r: String)
        ensures
            r@ == expanded_glob(self@, *ctx),
    {
        let home = ctx.home_chars();
        let cs = chars_of(self.0.as_str());
        let e = expand_home_exec(&cs, &home);
        string_of(e.as_slice())
    }

    /// The literal root of the expanded pattern: everything before the first
    /// `*`, without trailing separators.
    pub fn root(&self, ctx: &PathContext) -> (r: String)
        ensures
            r@ == expanded_root(self@, *ctx),
    {
        let home = ctx.home_chars();
        let cs = chars_of(self.0.as_str());
        let e = expand_home_exec(&cs, &home);
        let root = glob_root_exec(&e);
        string_of(root.as_slice())
    }

    /// Whether canonical path `path` is admitted by this glob.
    pub fn matches(&self, path: &str, ctx: &PathContext) -> (r: bool)
        ensures
            r == glob_allows(self@, path@, *ctx),
    {
        let pattern = self.expand(ctx);
        if glob_match(pattern.as_str(), path) {
            return true;
        }
        let p = chars_of(path);
        let e = chars_of(pattern.as_str());
        let root = glob_root_exec(&e);
        if within_exec(&p, &root) {
            return true;
        }
        match ctx.canonical_of(&root) {
            Some(c) => within_exec(&p, &c),
            None => false,
        }
    }
}

/// Unique session identifier.
#[derive(Debug, Clone)]
pub struct SessionId(String);

impl View for SessionId {
    type V = Seq<char>;

    closed spec fn view(&self) -> Seq<char> {
        self.0@
    }
}

impl SessionId {
    /// A fresh random identifier.
    pub fn new() -> (r: Self) {
        SessionId(random_uuid_text())
    }

    pub fn from_string(s: String) -> (r: Self)
        ensures
            r@ == s@,
    {
        SessionId(s)
    }

    pub fn as_str(&self) -> (r: &str)
        ensures
            r@ == self@,
    {
        self.0.as_str()
    }

    /// Whether two identifiers are the same text.
    pub fn same_as(&self, other: &SessionId) -> (r: bool)
        ensures
            r == (self@ == other@),
    {
        let a = chars_of(self.0.as_str());
        let b = chars_of(other.0.as_str());
        crate::text::same_chars(&a, &b)
    }
}

} // verus!
