//! Expansion of `{alias:NAME}` and `{domain:NAME}` placeholders into absolute
//! paths, with the domain boundary checked again on the result.
use vstd::prelude::*;
use vstd::string::*;
use crate::paths::{expand_home, expand_home_exec, glob_root, glob_root_exec, within, within_exec, view_opt, PathContext};
use crate::model::pairs_view;
use crate::text::{chars_of, find_exec, find_from, occurs_at, occurs_at_exec, same_chars, slice_chars, string_of, concat_chars};

verus! {

/// Failures of placeholder expansion.
#[derive(Debug, Clone)]
pub enum AliasError {
    UnknownAlias { name: String },
    UnknownDomain { name: String },
    OutsideBoundary { path: String },
    ExpansionFailed { path: String, reason: String },
}

/// The human-readable text of error `e`.
pub open spec fn alias_error_text(e: AliasError) -> Seq<char> {
    match e {
        AliasError::UnknownAlias { name } => "unknown alias '"@ + name@ + "'"@,
        AliasError::UnknownDomain { name } => "unknown domain '"@ + name@ + "'"@,
        AliasError::OutsideBoundary { path } => "resolved path '"@ + path@
            + "' is outside domain boundaries"@,
        AliasError::ExpansionFailed { path, reason } => "path expansion failed for '"@ + path@
            + "': "@ + reason@,
    }
}

impl AliasError {
    /// The human-readable text of the error.
    pub fn message(&self) -> (r: String)
        ensures
            r@ == alias_error_text(*self),
    {
        match self {
            AliasError::UnknownAlias { name } => {
                let mut r = String::from_str("unknown alias '");
                r.append(name.as_str());
                r.append("'");
                r
            },
            AliasError::UnknownDomain { name } => {
                let mut r = String::from_str("unknown domain '");
                r.append(name.as_str());
                r.append("'");
                r
            },
            AliasError::OutsideBoundary { path } => {
                let mut r = String::from_str("resolved path '");
                r.append(path.as_str());
                r.append("' is outside domain boundaries");
                r
            },
            AliasError::ExpansionFailed { path, reason } => crate::patterns::text4(
                "path expansion failed for '",
                path.as_str(),
                "': ",
                reason.as_str(),
            ),
        }
    }
}

/// Why one expansion pass stopped.
pub enum Fault {
    Unclosed,
    Unknown(Seq<char>),
}

/// The value bound first to `name` in `table`.
pub open spec fn lookup(table: Seq<(Seq<char>, Seq<char>)>, name: Seq<char>) -> Option<Seq<char>>
    decreases table.len(),
{
    if table.len() == 0 {
        None
    } else if table[0].0 == name {
        Some(table[0].1)
    } else {
        lookup(table.drop_first(), name)
    }
}

pub open spec fn prepend(p: Seq<char>, r: Result<Seq<char>, Fault>) -> Result<Seq<char>, Fault> {
    match r {
        Ok(s) => Ok(p + s),
        Err(f) => Err(f),
    }
}

/// One pass over `s` from index `i`, left to right: each `tag NAME }` is
/// replaced by the value of NAME in `table`; text taken from the table is not
/// scanned again.
pub open spec fn expand_at(s: Seq<char>, i: int, tag: Seq<char>, table: Seq<(Seq<char>, Seq<char>)>) -> Result<Seq<char>, Fault>
    decreases s.len() - i,
{
    if i < 0 || i >= s.len() {
        Ok(Seq::empty())
    } else if occurs_at(s, tag, i) {
        match find_from(s, "}"@, i + tag.len()) {
            Some(j) => if i < j + 1 <= s.len() {
                match lookup(table, s.subrange(i + tag.len(), j)) {
                    Some(v) => prepend(v, expand_at(s, j + 1, tag, table)),
                    None => Err(Fault::Unknown(s.subrange(i + tag.len(), j))),
                }
            } else {
                Err(Fault::Unclosed)
            },
            None => Err(Fault::Unclosed),
        }
    } else {
        prepend(seq![s[i]], expand_at(s, i + 1, tag, table))
    }
}

/// The literal root of `glob` under home directory `home`.
pub open spec fn root_under(glob: Seq<char>, home: Option<Seq<char>>) -> Seq<char> {
    glob_root(expand_home(glob, home))
}

/// The resolver's tables: aliases with their expanded paths, the domain's
/// root, and the roots of all its globs.
pub struct AliasView {
    pub aliases: Seq<(Seq<char>, Seq<char>)>,
    pub roots: Seq<(Seq<char>, Seq<char>)>,
    pub bounds: Seq<Seq<char>>,
}

/// The outcome of expanding `raw` without the boundary check.
pub open spec fn expansion(v: AliasView, raw: Seq<char>, home: Option<Seq<char>>) -> Result<Seq<char>, (bool, Fault)> {
    match expand_at(raw, 0, "{alias:"@, v.aliases) {
        Err(f) => Err((true, f)),
        Ok(a) => match expand_at(a, 0, "{domain:"@, v.roots) {
            Err(f) => Err((false, f)),
            Ok(b) => Ok(expand_home(b, home)),
        },
    }
}

/// Path `p` lies within the resolver's bounds: there are none, or `p` lies at
/// or below one of them, directly or by the canonical forms of both.
pub open spec fn in_bounds(v: AliasView, p: Seq<char>, ctx: PathContext) -> bool {
    v.bounds.len() == 0 || exists|i: int| 0 <= i < v.bounds.len() && (within(p, #[trigger] v.bounds[i])
        || (ctx.canon(v.bounds[i]) is Some && ctx.canon(p) is Some && within(ctx.canon(p)->0, ctx.canon(v.bounds[i])->0)))
}

/// `r` is the error for expansion fault `f` on `raw`, in the alias pass or the domain pass.
pub open spec fn fault_error(raw: Seq<char>, alias_pass: bool, f: Fault, r: AliasError) -> bool {
    match f {
        Fault::Unclosed => r matches AliasError::ExpansionFailed { path, reason } && path@ == raw
            && reason@ == (if alias_pass {
            "unclosed {alias:...} reference"@
        } else {
            "unclosed {domain:...} reference"@
        }),
        Fault::Unknown(name) => if alias_pass {
            r matches AliasError::UnknownAlias { name: n } && n@ == name
        } else {
            r matches AliasError::UnknownDomain { name: n } && n@ == name
        },
    }
}

/// `r` is the outcome of resolving `raw` without the boundary check.
pub open spec fn unchecked_outcome(v: AliasView, raw: Seq<char>, ctx: PathContext, r: Result<String, AliasError>) -> bool {
    match expansion(v, raw, ctx.home_view()) {
        Ok(p) => r is Ok && r->Ok_0@ == p,
        Err((pass, f)) => r is Err && fault_error(raw, pass, f, r->Err_0),
    }
}

/// Resolves placeholders for one domain.
pub struct AliasResolver {
    aliases: Vec<(String, String)>,
    domain_roots: Vec<(String, String)>,
    domain_paths: Vec<String>,
}

impl View for AliasResolver {
    type V = AliasView;

    closed spec fn view(&self) -> AliasView {
        AliasView {
            aliases: pairs_view(self.aliases@),
            roots: pairs_view(self.domain_roots@),
            bounds: self.domain_paths@.map_values(|s: String| s@),
        }
    }
}

enum ScanFault {
    Unclosed,
    Unknown(Vec<char>),
}

spec fn scan_view(r: Result<Vec<char>, ScanFault>) -> Result<Seq<char>, Fault> {
    match r {
        Ok(v) => Ok(v@),
        Err(ScanFault::Unclosed) => Err(Fault::Unclosed),
        Err(ScanFault::Unknown(n)) => Err(Fault::Unknown(n@)),
    }
}

proof fn lemma_prepend_assoc(a: Seq<char>, b: Seq<char>, r: Result<Seq<char>, Fault>)
    ensures
        prepend(a, prepend(b, r)) == prepend(a + b, r),
{
    if let Ok(s) = r {
        assert(a + (b + s) =~= (a + b) + s);
    }
}

fn lookup_exec(table: &Vec<(String, String)>, name: &Vec<char>) -> (r: Option<Vec<char>>)
    ensures
        view_opt(r) == lookup(pairs_view(table@), name@),
{
    let mut i: usize = 0;
    proof {
        assert(pairs_view(table@).skip(0) =~= pairs_view(table@));
    }
    while i < table.len()
        invariant
            i <= table@.len(),
            lookup(pairs_view(table@), name@) == lookup(pairs_view(table@).skip(i as int), name@),
        decreases table.len() - i,
    {
        proof {
            assert(pairs_view(table@).skip(i as int).drop_first() =~= pairs_view(table@).skip(i + 1));
        }
        let key = chars_of(table[i].0.as_str());
        if same_chars(&key, name) {
            return Some(chars_of(table[i].1.as_str()));
        }
        i = i + 1;
    }
    None
}

fn expand_pass(s: &Vec<char>, tag: &Vec<char>, table: &Vec<(String, String)>) -> (r: Result<Vec<char>, ScanFault>)
    ensures
        scan_view(r) == expand_at(s@, 0, tag@, pairs_view(table@)),
{
    let close: Vec<char> = vec!['}'];
    proof {
        assert(close@ =~= "}"@) by {
            reveal_strlit("}");
        }
    }
    let ghost tv = pairs_view(table@);
    let mut out: Vec<char> = Vec::new();
    let mut i: usize = 0;
    proof {
        assert(Seq::<char>::empty() + Seq::<char>::empty() =~= Seq::<char>::empty());
        if let Ok(x) = expand_at(s@, 0, tag@, tv) {
            assert(Seq::<char>::empty() + x =~= x);
        }
    }
    while i < s.len()
        invariant
            i <= s@.len(),
            close@ == "}"@,
            tv == pairs_view(table@),
            expand_at(s@, 0, tag@, tv) == prepend(out@, expand_at(s@, i as int, tag@, tv)),
        decreases s.len() - i,
    {
        if occurs_at_exec(s, tag, i) {
            let n = s.len();
            let start: usize = i + tag.len();
            match find_exec(s, &close, start) {
                Some(j) => {
                    proof {
                        crate::model::lemma_find_occurs(s@, close@, start as int, j as int);
                        reveal_strlit("}");
                    }
                    let name = slice_chars(s, start, j);
                    match lookup_exec(table, &name) {
                        Some(v) => {
                            proof {
                                lemma_prepend_assoc(out@, v@, expand_at(s@, j + 1, tag@, tv));
                            }
                            out = concat_chars(&out, &v);
                            i = j + 1;
                        },
                        None => {
                            return Err(ScanFault::Unknown(name));
                        },
                    }
                },
                None => {
                    return Err(ScanFault::Unclosed);
                },
            }
        } else {
            proof {
                lemma_prepend_assoc(out@, seq![s@[i as int]], expand_at(s@, i + 1, tag@, tv));
                assert(out@.push(s@[i as int]) =~= out@ + seq![s@[i as int]]);
            }
            out.push(s[i]);
            i = i + 1;
        }
    }
    proof {
        assert(out@ + Seq::<char>::empty() =~= out@);
    }
    Ok(out)
}

/// The literal root of `glob` with a leading `~/` expanded under the home
/// directory of `ctx`: everything before the first `*`, without trailing
/// separators.
pub fn glob_base(glob: &str, ctx: &PathContext) -> (r: String)
    ensures
        r@ == root_under(glob@, ctx.home_view()),
{
    let home = ctx.home_chars();
    let g = chars_of(glob);
    let e = expand_home_exec(&g, &home);
    string_of(glob_root_exec(&e).as_slice())
}

fn fault_to_error(raw: &str, alias_pass: bool, f: ScanFault) -> (r: AliasError)
    ensures
        match scan_view(Err(f)) {
            Err(sf) => fault_error(raw@, alias_pass, sf, r),
            Ok(_) => false,
        },
{
    match f {
        ScanFault::Unclosed => AliasError::ExpansionFailed {
            path: raw.to_string(),
            reason: if alias_pass {
                "unclosed {alias:...} reference".to_string()
            } else {
                "unclosed {domain:...} reference".to_string()
            },
        },
        ScanFault::Unknown(n) => {
            let name = string_of(n.as_slice());
            if alias_pass {
                AliasError::UnknownAlias { name }
            } else {
                AliasError::UnknownDomain { name }
            }
        },
    }
}

impl AliasResolver {
    /// A resolver for one domain: each alias path is expanded for `~/` now;
    /// the domain's root is the literal root of its first glob, and its
    /// bounds are the literal roots of all its globs.
    pub fn new(aliases: &Vec<(String, String)>, domain_name: &str, domain_path_globs: &Vec<String>, ctx: &PathContext) -> (r: Self)
        ensures
            r@.aliases.len() == aliases@.len(),
            forall|i: int| 0 <= i < aliases@.len() ==> (#[trigger] r@.aliases[i]).0 == aliases@[i].0@
                && r@.aliases[i].1 == expand_home(aliases@[i].1@, ctx.home_view()),
            r@.bounds.len() == domain_path_globs@.len(),
            forall|i: int| 0 <= i < domain_path_globs@.len() ==> #[trigger] r@.bounds[i] == root_under(domain_path_globs@[i]@, ctx.home_view()),
            domain_path_globs@.len() == 0 ==> r@.roots.len() == 0,
            domain_path_globs@.len() > 0 ==> r@.roots == seq![(domain_name@, root_under(domain_path_globs@[0]@, ctx.home_view()))],
    {
        let home = ctx.home_chars();
        let mut resolved: Vec<(String, String)> = Vec::new();
        let mut i: usize = 0;
        while i < aliases.len()
            invariant
                view_opt(home) == ctx.home_view(),
                i <= aliases@.len(),
                resolved@.len() == i,
                forall|k: int| 0 <= k < i ==> (#[trigger] resolved@[k]).0@ == aliases@[k].0@
                    && resolved@[k].1@ == expand_home(aliases@[k].1@, ctx.home_view()),
            decreases aliases.len() - i,
        {
            let p = chars_of(aliases[i].1.as_str());
            let e = expand_home_exec(&p, &home);
            resolved.push((aliases[i].0.clone(), string_of(e.as_slice())));
            i = i + 1;
        }
        let mut roots: Vec<(String, String)> = Vec::new();
        let mut paths: Vec<String> = Vec::new();
        let mut j: usize = 0;
        while j < domain_path_globs.len()
            invariant
                j <= domain_path_globs@.len(),
                paths@.len() == j,
                forall|k: int| 0 <= k < j ==> (#[trigger] paths@[k])@ == root_under(domain_path_globs@[k]@, ctx.home_view()),
                j == 0 ==> roots@.len() == 0,
                j > 0 ==> pairs_view(roots@) == seq![(domain_name@, root_under(domain_path_globs@[0]@, ctx.home_view()))],
            decreases domain_path_globs.len() - j,
        {
            let base = glob_base(domain_path_globs[j].as_str(), ctx);
            if j == 0 {
                roots.push((domain_name.to_string(), base.clone()));
                proof {
                    assert(pairs_view(roots@) =~= seq![(domain_name@, root_under(domain_path_globs@[0]@, ctx.home_view()))]);
                }
            }
            paths.push(base);
            j = j + 1;
        }
        let r = AliasResolver { aliases: resolved, domain_roots: roots, domain_paths: paths };
        proof {
            assert(r@.aliases.len() == aliases@.len());
        }
        r
    }

    /// Expands placeholders in `raw` and then a leading `~/`, without the
    /// boundary check: for entry points that may name the domain root itself.
    pub fn resolve_unchecked(&self, raw: &str, ctx: &PathContext) -> (r: Result<String, AliasError>)
        ensures
            unchecked_outcome(self@, raw@, *ctx, r),
    {
        let s = chars_of(raw);
        let alias_tag = chars_of("{alias:");
        let domain_tag = chars_of("{domain:");
        let a = match expand_pass(&s, &alias_tag, &self.aliases) {
            Ok(a) => a,
            Err(f) => return Err(fault_to_error(raw, true, f)),
        };
        let b = match expand_pass(&a, &domain_tag, &self.domain_roots) {
            Ok(b) => b,
            Err(f) => return Err(fault_to_error(raw, false, f)),
        };
        let home = ctx.home_chars();
        let p = expand_home_exec(&b, &home);
        Ok(string_of(p.as_slice()))
    }

    fn check_boundary(&self, path: &str, ctx: &PathContext) -> (r: bool)
        ensures
            r == in_bounds(self@, path@, *ctx),
    {
        if self.domain_paths.len() == 0 {
            return true;
        }
        let p = chars_of(path);
        let cp = ctx.canonical_of(&p);
        let mut i: usize = 0;
        while i < self.domain_paths.len()
            invariant
                p@ == path@,
                view_opt(cp) == ctx.canon(path@),
                i <= self.domain_paths@.len(),
                forall|k: int| 0 <= k < i ==> !(within(path@, #[trigger] self@.bounds[k])
                    || (ctx.canon(self@.bounds[k]) is Some && ctx.canon(path@) is Some
                    && within(ctx.canon(path@)->0, ctx.canon(self@.bounds[k])->0))),
            decreases self.domain_paths.len() - i,
        {
            let d = chars_of(self.domain_paths[i].as_str());
            assert(d@ == self@.bounds[i as int]);
            if within_exec(&p, &d) {
                return true;
            }
            match (ctx.canonical_of(&d), &cp) {
                (Some(cd), Some(c)) => {
                    if within_exec(c, &cd) {
                        return true;
                    }
                },
                _ => {},
            }
            i = i + 1;
        }
        false
    }

    /// Expands placeholders in `raw` as `resolve_unchecked` does, then
    /// requires the result to lie within the domain's bounds.
    pub fn resolve(&self, raw: &str, ctx: &PathContext) -> (r: Result<String, AliasError>)
        ensures
            match expansion(self@, raw@, ctx.home_view()) {
                Ok(p) => if in_bounds(self@, p, *ctx) {
                    r is Ok && r->Ok_0@ == p
                } else {
                    r matches Err(AliasError::OutsideBoundary { path }) && path@ == p
                },
                Err((pass, f)) => r is Err && fault_error(raw@, pass, f, r->Err_0),
            },
    {
        let p = match self.resolve_unchecked(raw, ctx) {
            Ok(p) => p,
            Err(e) => return Err(e),
        };
        if self.check_boundary(p.as_str(), ctx) {
            Ok(p)
        } else {
            Err(AliasError::OutsideBoundary { path: p })
        }
    }

    /// The configured aliases with their expanded paths.
    pub fn aliases(&self) -> (r: &Vec<(String, String)>)
        ensures
            pairs_view(r@) == self@.aliases,
    {
        &self.aliases
    }
}

} // verus!
