//! The domain registry: an ordered, immutable collection of domains, built
//! whole from vault documents or from configuration, and replaced whole.
use vstd::prelude::*;
use crate::config::{expanded_root, glob_allows};
use crate::model::{built_from, confirmed_domain, domain_loads, globs_allow, globs_view, Domain};
use crate::paths::{within, within_exec, PathContext};
use crate::text::{chars_of, same_chars, slice_chars};
use crate::vault::VaultFile;

verus! {

/// Ordered collection of active domains.
#[derive(Debug, Clone)]
pub struct DomainRegistry {
    domains: Vec<Domain>,
}

impl View for DomainRegistry {
    type V = Seq<Domain>;

    closed spec fn view(&self) -> Seq<Domain> {
        self.domains@
    }
}

/// The documents among `files` that yield a domain, in order.
pub open spec fn loading_files(files: Seq<VaultFile>) -> Seq<VaultFile>
    decreases files.len(),
{
    if files.len() == 0 {
        Seq::empty()
    } else if domain_loads(files.last()) {
        loading_files(files.drop_last()).push(files.last())
    } else {
        loading_files(files.drop_last())
    }
}

/// `ds` are the domains that `files` define, in order.
pub open spec fn built_from_files(ds: Seq<Domain>, files: Seq<VaultFile>) -> bool {
    &&& ds.len() == loading_files(files).len()
    &&& forall|i: int| 0 <= i < ds.len() ==> built_from(#[trigger] ds[i], loading_files(files)[i])
}

/// Domain `d` claims working directory `cwd`: it lies at or below the literal
/// root of one of its globs.
pub open spec fn claims(d: Domain, cwd: Seq<char>, ctx: PathContext) -> bool {
    exists|j: int| 0 <= j < d.paths@.len() && within(cwd, #[trigger] expanded_root(d.paths@[j]@, ctx))
}

/// Index `i` holds the first domain of `ds` that claims `cwd`.
pub open spec fn first_claim(ds: Seq<Domain>, cwd: Seq<char>, ctx: PathContext, i: int) -> bool {
    &&& 0 <= i < ds.len()
    &&& claims(ds[i], cwd, ctx)
    &&& forall|k: int| 0 <= k < i ==> !claims(#[trigger] ds[k], cwd, ctx)
}

/// Index `i` holds the first domain of `ds` named `name`.
pub open spec fn first_named(ds: Seq<Domain>, name: Seq<char>, i: int) -> bool {
    &&& 0 <= i < ds.len()
    &&& ds[i].name@ == name
    &&& forall|k: int| 0 <= k < i ==> (#[trigger] ds[k]).name@ != name
}

proof fn lemma_loading_step(files: Seq<VaultFile>, i: int)
    requires
        0 <= i < files.len(),
    ensures
        loading_files(files.take(i + 1)) == if domain_loads(files[i]) {
            loading_files(files.take(i)).push(files[i])
        } else {
            loading_files(files.take(i))
        },
{
    assert(files.take(i + 1).drop_last() =~= files.take(i));
}

pub(crate) fn domain_claims(d: &Domain, cwd: &Vec<char>, ctx: &PathContext) -> (r: bool)
    ensures
        r == claims(*d, cwd@, *ctx),
{
    let mut j: usize = 0;
    while j < d.paths.len()
        invariant
            j <= d.paths@.len(),
            forall|m: int| 0 <= m < j ==> !within(cwd@, #[trigger] expanded_root(d.paths@[m]@, *ctx)),
        decreases d.paths.len() - j,
    {
        let root = chars_of(d.paths[j].root(ctx).as_str());
        if within_exec(cwd, &root) {
            return true;
        }
        j = j + 1;
    }
    false
}

/// The file name of `path` (after its last `/`) has the extension `md`: it
/// ends in `.md` with at least one character before the dot.
pub open spec fn is_markdown(path: Seq<char>) -> bool {
    let n = path.skip(crate::model::last_index(path, '/') + 1);
    n.len() > 3 && n.skip(n.len() - 3) == ".md"@
}

/// Whether `path` names a markdown document, the kind that holds a domain
/// definition.
pub fn is_markdown_path(path: &str) -> (r: bool)
    ensures
        r == is_markdown(path@),
{
    let p = chars_of(path);
    let slash = crate::model::last_index_exec(&p, '/');
    let n = slice_chars(&p, slash, p.len());
    proof {
        assert(n@ =~= p@.skip(crate::model::last_index(p@, '/') + 1));
        reveal_strlit(".md");
    }
    if n.len() <= 3 {
        return false;
    }
    let tail = slice_chars(&n, n.len() - 3, n.len());
    proof {
        assert(tail@ =~= n@.skip(n@.len() - 3));
    }
    same_chars(&tail, &chars_of(".md"))
}

impl DomainRegistry {
    /// Builds the registry from vault documents: every document that yields a
    /// domain contributes it, in order; the others are skipped.
    pub fn from_vault_files(files: &Vec<VaultFile>) -> (r: Self)
        ensures
            built_from_files(r@, files@),
    {
        let mut domains: Vec<Domain> = Vec::new();
        let mut i: usize = 0;
        while i < files.len()
            invariant
                i <= files@.len(),
                built_from_files(domains@, files@.take(i as int)),
            decreases files.len() - i,
        {
            proof {
                lemma_loading_step(files@, i as int);
            }
            match Domain::from_vault_file(&files[i]) {
                Ok(d) => {
                    domains.push(d);
                },
                Err(_) => {},
            }
            i = i + 1;
        }
        proof {
            assert(files@.take(files@.len() as int) =~= files@);
        }
        DomainRegistry { domains }
    }

    /// Builds the registry from given domains, in order.
    pub fn from_domains(domains: Vec<Domain>) -> (r: Self)
        ensures
            r@ == domains@,
    {
        DomainRegistry { domains }
    }

    /// A registry with no domains.
    pub fn empty() -> (r: Self)
        ensures
            r@.len() == 0,
    {
        DomainRegistry { domains: Vec::new() }
    }

    /// The first domain claiming working directory `cwd`, if any.
    pub fn resolve(&self, cwd: &str, ctx: &PathContext) -> (r: Option<&Domain>)
        ensures
            match r {
                Some(d) => exists|i: int| first_claim(self@, cwd@, *ctx, i) && self@[i] == *d,
                None => forall|i: int| 0 <= i < self@.len() ==> !claims(#[trigger] self@[i], cwd@, *ctx),
            },
    {
        let c = chars_of(cwd);
        let mut i: usize = 0;
        while i < self.domains.len()
            invariant
                c@ == cwd@,
                i <= self.domains@.len(),
                forall|k: int| 0 <= k < i ==> !claims(#[trigger] self.domains@[k], cwd@, *ctx),
            decreases self.domains.len() - i,
        {
            if domain_claims(&self.domains[i], &c, ctx) {
                proof {
                    assert(first_claim(self@, cwd@, *ctx, i as int));
                }
                return Some(&self.domains[i]);
            }
            i = i + 1;
        }
        None
    }

    pub fn is_empty(&self) -> (r: bool)
        ensures
            r == (self@.len() == 0),
    {
        self.domains.len() == 0
    }

    /// The domains, in order.
    pub fn all(&self) -> (r: &[Domain])
        ensures
            r@ == self@,
    {
        self.domains.as_slice()
    }

    /// The domain names, in order.
    pub fn names(&self) -> (r: Vec<String>)
        ensures
            r@.len() == self@.len(),
            forall|i: int| 0 <= i < r@.len() ==> (#[trigger] r@[i])@ == self@[i].name@,
    {
        let mut r: Vec<String> = Vec::new();
        let mut i: usize = 0;
        while i < self.domains.len()
            invariant
                i <= self.domains@.len(),
                r@.len() == i,
                forall|k: int| 0 <= k < i ==> (#[trigger] r@[k])@ == self.domains@[k].name@,
            decreases self.domains.len() - i,
        {
            r.push(self.domains[i].name.as_str().to_string());
            i = i + 1;
        }
        r
    }

    /// The first domain named `name`, if any.
    pub fn find(&self, name: &str) -> (r: Option<&Domain>)
        ensures
            match r {
                Some(d) => exists|i: int| first_named(self@, name@, i) && self@[i] == *d,
                None => forall|i: int| 0 <= i < self@.len() ==> (#[trigger] self@[i]).name@ != name@,
            },
    {
        let n = chars_of(name);
        let mut i: usize = 0;
        while i < self.domains.len()
            invariant
                n@ == name@,
                i <= self.domains@.len(),
                forall|k: int| 0 <= k < i ==> (#[trigger] self.domains@[k]).name@ != name@,
            decreases self.domains.len() - i,
        {
            let own = chars_of(self.domains[i].name.as_str());
            if same_chars(&own, &n) {
                proof {
                    assert(first_named(self@, name@, i as int));
                }
                return Some(&self.domains[i]);
            }
            i = i + 1;
        }
        None
    }
}

/// Every domain that a registry built from vault documents holds comes from a
/// document of type `domain` whose confidence is `confirmed`: a proposed or
/// inferred document never contributes one.
pub proof fn lemma_only_confirmed(files: Seq<VaultFile>, ds: Seq<Domain>)
    requires
        built_from_files(ds, files),
    ensures
        forall|i: int| 0 <= i < ds.len() ==> from_confirmed(#[trigger] ds[i], files),
{
    assert forall|i: int| 0 <= i < ds.len() implies from_confirmed(#[trigger] ds[i], files) by {
        let j = lemma_loading_member(files, i);
        assert(confirmed_domain(files[j]));
        assert(built_from(ds[i], files[j]));
    }
}

/// `d` is built from a confirmed domain document among `files`.
pub open spec fn from_confirmed(d: Domain, files: Seq<VaultFile>) -> bool {
    exists|j: int| 0 <= j < files.len() && confirmed_domain(#[trigger] files[j]) && built_from(d, files[j])
}

/// Element `i` of the loading documents is a loading document of `files`.
proof fn lemma_loading_member(files: Seq<VaultFile>, i: int) -> (j: int)
    requires
        0 <= i < loading_files(files).len(),
    ensures
        0 <= j < files.len(),
        files[j] == loading_files(files)[i],
        domain_loads(files[j]),
    decreases files.len(),
{
    let prev = loading_files(files.drop_last());
    if domain_loads(files.last()) && i == prev.len() {
        files.len() - 1
    } else {
        let j = lemma_loading_member(files.drop_last(), i);
        j
    }
}

/// Rebuilding from unchanged documents is idempotent: two registries built
/// from the same documents hold the same names, in the same order, and allow
/// the same paths.
pub proof fn lemma_rebuild_idempotent(files: Seq<VaultFile>, a: Seq<Domain>, b: Seq<Domain>)
    requires
        built_from_files(a, files),
        built_from_files(b, files),
    ensures
        a.len() == b.len(),
        forall|i: int| 0 <= i < a.len() ==> (#[trigger] a[i]).name@ == b[i].name@,
        forall|i: int, p: Seq<char>, ctx: PathContext|
            0 <= i < a.len() ==> (#[trigger] globs_allow(a[i].paths@, p, ctx) == globs_allow(b[i].paths@, p, ctx)),
{
    assert forall|i: int, p: Seq<char>, ctx: PathContext|
        0 <= i < a.len() implies (#[trigger] globs_allow(a[i].paths@, p, ctx) == globs_allow(b[i].paths@, p, ctx)) by {
        let ga = a[i].paths@;
        let gb = b[i].paths@;
        assert(globs_view(ga) == globs_view(gb));
        assert(ga.len() == gb.len()) by {
            assert(globs_view(ga).len() == ga.len());
            assert(globs_view(gb).len() == gb.len());
        }
        assert forall|m: int| 0 <= m < ga.len() implies ga[m]@ == gb[m]@ by {
            assert(globs_view(ga)[m] == ga[m]@);
            assert(globs_view(gb)[m] == gb[m]@);
        }
        if globs_allow(ga, p, ctx) {
            let m = choose|m: int| 0 <= m < ga.len() && #[trigger] glob_allows(ga[m]@, p, ctx);
            assert(glob_allows(gb[m]@, p, ctx));
        }
        if globs_allow(gb, p, ctx) {
            let m = choose|m: int| 0 <= m < gb.len() && #[trigger] glob_allows(gb[m]@, p, ctx);
            assert(glob_allows(ga[m]@, p, ctx));
        }
    }
}

} // verus!
