//! The domain: a named set of path globs with aliases and read grants, and
//! its definition in a vault document.
use vstd::prelude::*;
use crate::config::{glob_allows, glob_syntax_ok, valid_domain_name, ConfigError, DomainName, PathGlob};
use crate::paths::PathContext;
use crate::text::{
    chars_of, find_exec, find_from, has_prefix, has_prefix_exec, lines_exec, lines_of, same_chars,
    slice_chars, string_of, trim, trim_of, views,
};
use crate::vault::{Confidence, VaultFile, VaultType};

verus! {

/// A domain: name, filesystem boundaries, path aliases (unique keys), and the
/// other domains it may read from.
#[derive(Debug, Clone)]
pub struct Domain {
    pub name: DomainName,
    pub paths: Vec<PathGlob>,
    pub aliases: Vec<(String, String)>,
    pub can_read: Vec<String>,
}

pub open spec fn pairs_view(v: Seq<(String, String)>) -> Seq<(Seq<char>, Seq<char>)> {
    v.map_values(|p: (String, String)| (p.0@, p.1@))
}

pub open spec fn strings_view(v: Seq<String>) -> Seq<Seq<char>> {
    v.map_values(|s: String| s@)
}

pub open spec fn globs_view(v: Seq<PathGlob>) -> Seq<Seq<char>> {
    v.map_values(|g: PathGlob| g@)
}

/// Some glob of `paths` admits `p`.
pub open spec fn globs_allow(paths: Seq<PathGlob>, p: Seq<char>, ctx: PathContext) -> bool {
    exists|i: int| 0 <= i < paths.len() && #[trigger] glob_allows(paths[i]@, p, ctx)
}

/// Sections of a domain document's body.
#[derive(Debug, Clone, Copy, PartialEq, Eq, Structural)]
pub enum Section {
    Paths,
    Aliases,
    Elsewhere,
}

pub open spec fn is_heading(l: Seq<char>) -> bool {
    has_prefix(l, "## Paths"@) || has_prefix(l, "## Aliases"@) || has_prefix(l, "## "@)
}

pub open spec fn section_after(l: Seq<char>) -> Section {
    if has_prefix(l, "## Paths"@) {
        Section::Paths
    } else if has_prefix(l, "## Aliases"@) {
        Section::Aliases
    } else {
        Section::Elsewhere
    }
}

/// The item of a `- ` bullet line.
pub open spec fn bullet_of(l: Seq<char>) -> Option<Seq<char>> {
    if has_prefix(trim_of(l), "- "@) {
        Some(trim_of(l).skip(2))
    } else {
        None
    }
}

/// A `key: value` item, split at its first `": "`, both sides trimmed.
pub open spec fn pair_of(item: Seq<char>) -> Option<(Seq<char>, Seq<char>)> {
    match find_from(item, ": "@, 0) {
        Some(k) => Some((trim_of(item.take(k)), trim_of(item.skip(k + 2)))),
        None => None,
    }
}

/// The bullet items of the `## Paths` sections, from line `i` on.
pub open spec fn path_items(ls: Seq<Seq<char>>, i: int, cur: Section) -> Seq<Seq<char>>
    decreases ls.len() - i,
{
    if i < 0 || i >= ls.len() {
        Seq::empty()
    } else if is_heading(ls[i]) {
        path_items(ls, i + 1, section_after(ls[i]))
    } else if cur == Section::Paths && bullet_of(ls[i]) is Some {
        seq![bullet_of(ls[i])->0] + path_items(ls, i + 1, cur)
    } else {
        path_items(ls, i + 1, cur)
    }
}

/// The `key: value` items of the `## Aliases` sections, from line `i` on.
pub open spec fn alias_items(ls: Seq<Seq<char>>, i: int, cur: Section) -> Seq<
    (Seq<char>, Seq<char>),
>
    decreases ls.len() - i,
{
    if i < 0 || i >= ls.len() {
        Seq::empty()
    } else if is_heading(ls[i]) {
        alias_items(ls, i + 1, section_after(ls[i]))
    } else if cur == Section::Aliases && bullet_of(ls[i]) is Some && pair_of(bullet_of(ls[i])->0) is Some {
        seq![pair_of(bullet_of(ls[i])->0)->0] + alias_items(ls, i + 1, cur)
    } else {
        alias_items(ls, i + 1, cur)
    }
}

/// The first position of key `k` in `m`.
pub open spec fn key_index(m: Seq<(Seq<char>, Seq<char>)>, k: Seq<char>) -> Option<int>
    decreases m.len(),
{
    if m.len() == 0 {
        None
    } else if m.last().0 == k && key_index(m.drop_last(), k) is None {
        Some(m.len() - 1)
    } else {
        key_index(m.drop_last(), k)
    }
}

/// `m` with key `k` bound to `v`: an existing binding is replaced in place.
pub open spec fn upsert(m: Seq<(Seq<char>, Seq<char>)>, k: Seq<char>, v: Seq<char>) -> Seq<
    (Seq<char>, Seq<char>),
> {
    match key_index(m, k) {
        Some(j) => m.update(j, (k, v)),
        None => m.push((k, v)),
    }
}

/// The bindings of `pairs`, a later pair replacing an earlier one of the same key.
pub open spec fn assoc(pairs: Seq<(Seq<char>, Seq<char>)>) -> Seq<(Seq<char>, Seq<char>)>
    decreases pairs.len(),
{
    if pairs.len() == 0 {
        Seq::empty()
    } else {
        upsert(assoc(pairs.drop_last()), pairs.last().0, pairs.last().1)
    }
}

/// Index of the last `c` in `s`, or -1.
pub open spec fn last_index(s: Seq<char>, c: char) -> int
    decreases s.len(),
{
    if s.len() == 0 {
        -1
    } else if s.last() == c {
        s.len() - 1
    } else {
        last_index(s.drop_last(), c)
    }
}

/// The file name of `p` without its extension.
pub open spec fn file_stem(p: Seq<char>) -> Seq<char> {
    let n = p.skip(last_index(p, '/') + 1);
    let d = last_index(n, '.');
    if d > 0 {
        n.take(d)
    } else {
        n
    }
}

pub open spec fn body_paths(body: Seq<char>) -> Seq<Seq<char>> {
    path_items(lines_of(body), 0, Section::Elsewhere)
}

pub open spec fn body_aliases(body: Seq<char>) -> Seq<(Seq<char>, Seq<char>)> {
    assoc(alias_items(lines_of(body), 0, Section::Elsewhere))
}

/// The document declares a confirmed domain.
pub open spec fn confirmed_domain(vf: VaultFile) -> bool {
    vf.frontmatter.file_type == VaultType::Domain && vf.frontmatter.confidence == Some(
        Confidence::Confirmed,
    )
}

/// The name a domain document declares: its `domain` field, else its file stem.
pub open spec fn declared_name(vf: VaultFile) -> Seq<char> {
    match vf.frontmatter.domain {
        Some(d) => d@,
        None => file_stem(vf.path@),
    }
}

pub open spec fn glob_line_ok(l: Seq<char>) -> bool {
    trim_of(l).len() > 0 && glob_syntax_ok(trim_of(l))
}

/// The document yields a domain: confirmed, with a valid name and valid globs.
pub open spec fn domain_loads(vf: VaultFile) -> bool {
    &&& confirmed_domain(vf)
    &&& valid_domain_name(trim_of(declared_name(vf)))
    &&& forall|j: int| 0 <= j < body_paths(vf.body@).len() ==> #[trigger] glob_line_ok(body_paths(vf.body@)[j])
}

/// The domain built from document `vf`.
pub open spec fn built_from(d: Domain, vf: VaultFile) -> bool {
    &&& d.name@ == trim_of(declared_name(vf))
    &&& globs_view(d.paths@) == body_paths(vf.body@).map_values(|l: Seq<char>| trim_of(l))
    &&& pairs_view(d.aliases@) == body_aliases(vf.body@)
    &&& strings_view(d.can_read@) == strings_view(vf.frontmatter.can_read@)
}

/// A path strictly inside the literal root of one of the globs (the root, a
/// separator, and a non-empty rest) is allowed.
pub proof fn lemma_inside_allowed(paths: Seq<PathGlob>, i: int, rest: Seq<char>, ctx: PathContext)
    requires
        0 <= i < paths.len(),
        rest.len() > 0,
    ensures
        globs_allow(paths, crate::config::expanded_root(paths[i]@, ctx) + seq!['/'] + rest, ctx),
{
    let root = crate::config::expanded_root(paths[i]@, ctx);
    let p = root + seq!['/'] + rest;
    crate::paths::lemma_strip_slashes_idempotent(
        crate::paths::upto_star(crate::config::expanded_glob(paths[i]@, ctx)),
    );
    assert(p.subrange(0, root.len() as int) =~= root);
    assert(p[root.len() as int] == '/');
    assert(glob_allows(paths[i]@, p, ctx));
}

/// A glob written as an absolute directory `b` followed by `/*` (`b` holding
/// no `*` and not ending in `/`) admits every path strictly inside `b`; and
/// `PathGlob::new` keeps that text as it is.
pub proof fn lemma_dir_glob_allows(g: Seq<char>, b: Seq<char>, rest: Seq<char>, ctx: PathContext)
    requires
        g == b + "/*"@,
        b.len() > 0,
        b[0] == '/',
        b.last() != '/',
        crate::text::lacks(b, '*'),
        rest.len() > 0,
    ensures
        crate::text::trim_of(g) == g,
        crate::config::expanded_root(g, ctx) == b,
        glob_allows(g, b + seq!['/'] + rest, ctx),
{
    reveal_strlit("/*");
    let d = b + seq!['/'];
    assert(g =~= d + seq!['*']);
    assert(g[0] == '/' && g.last() == '*');
    crate::text::lemma_trim_fixed(g);
    assert(!has_prefix(g, seq!['~', '/'])) by {
        assert(g.subrange(0, 2)[0] == '/');
    }
    assert(crate::config::expanded_glob(g, ctx) == g);
    assert(g.take(d.len() as int) =~= d);
    assert(crate::text::lacks(g.take(d.len() as int), '*')) by {
        assert forall|j: int| 0 <= j < g.take(d.len() as int).len() implies #[trigger] g.take(d.len() as int)[j] != '*' by {
            if j < b.len() {
                assert(g.take(d.len() as int)[j] == b[j]);
            }
        }
    }
    crate::paths::lemma_upto_star_take(g, d.len() as int);
    assert(g.skip(d.len() as int) =~= seq!['*']);
    assert(crate::paths::upto_star(seq!['*']) =~= Seq::<char>::empty());
    assert(crate::paths::upto_star(g) =~= d);
    assert(d.drop_last() =~= b);
    assert(crate::paths::strip_slashes(d) == crate::paths::strip_slashes(b));
    assert(crate::paths::strip_slashes(b) == b);
    let p = b + seq!['/'] + rest;
    assert(p.subrange(0, b.len() as int) =~= b);
    assert(crate::paths::within(p, b));
}

/// A path that no glob accepts, and that lies neither at or below any glob's
/// literal root nor at or below its canonical form, is not allowed.
pub proof fn lemma_outside_refused(paths: Seq<PathGlob>, p: Seq<char>, ctx: PathContext)
    requires
        forall|i: int| 0 <= i < paths.len() ==> {
            let root = #[trigger] crate::config::expanded_root(paths[i]@, ctx);
            &&& !crate::config::glob_accepts(crate::config::expanded_glob(paths[i]@, ctx), p)
            &&& !crate::paths::within(p, root)
            &&& !(ctx.canon(root) is Some && crate::paths::within(p, ctx.canon(root)->0))
        },
    ensures
        !globs_allow(paths, p, ctx),
{
    assert forall|i: int| 0 <= i < paths.len() implies !#[trigger] glob_allows(paths[i]@, p, ctx) by {
        let root = crate::config::expanded_root(paths[i]@, ctx);
    }
}

pub(crate) fn last_index_exec(s: &Vec<char>, c: char) -> (r: usize)
    ensures
        r as int == last_index(s@, c) + 1,
        r <= s@.len(),
{
    let mut k: usize = s.len();
    proof {
        assert(s@.take(k as int) =~= s@);
    }
    while k > 0 && s[k - 1] != c
        invariant
            k <= s@.len(),
            last_index(s@, c) == last_index(s@.take(k as int), c),
        decreases k,
    {
        proof {
            assert(s@.take(k as int).drop_last() =~= s@.take(k - 1));
        }
        k = k - 1;
    }
    k
}

fn file_stem_exec(p: &Vec<char>) -> (r: Vec<char>)
    ensures
        r@ == file_stem(p@),
{
    let slash = last_index_exec(p, '/');
    let n = slice_chars(p, slash, p.len());
    proof {
        assert(n@ =~= p@.skip(last_index(p@, '/') + 1));
    }
    let dot = last_index_exec(&n, '.');
    if dot > 1 {
        let r = slice_chars(&n, 0, dot - 1);
        proof {
            assert(r@ =~= n@.take(dot - 1));
        }
        r
    } else {
        n
    }
}

pub(crate) fn copy_strings(v: &Vec<String>) -> (r: Vec<String>)
    ensures
        r@ == v@,
{
    let mut r: Vec<String> = Vec::new();
    let mut i: usize = 0;
    while i < v.len()
        invariant
            i <= v@.len(),
            r@ == v@.take(i as int),
        decreases v.len() - i,
    {
        r.push(v[i].clone());
        i = i + 1;
        proof {
            assert(r@ =~= v@.take(i as int));
        }
    }
    proof {
        assert(v@.take(v@.len() as int) =~= v@);
    }
    r
}

fn trim_chars(l: &Vec<char>) -> (r: Vec<char>)
    ensures
        r@ == trim_of(l@),
{
    let s = string_of(l.as_slice());
    chars_of(trim(s.as_str()).as_str())
}

fn is_heading_exec(l: &Vec<char>) -> (r: bool)
    ensures
        r == is_heading(l@),
        r ==> section_after(l@) == (if has_prefix(l@, "## Paths"@) {
            Section::Paths
        } else if has_prefix(l@, "## Aliases"@) {
            Section::Aliases
        } else {
            Section::Elsewhere
        }),
{
    has_prefix_exec(l, &chars_of("## Paths")) || has_prefix_exec(l, &chars_of("## Aliases"))
        || has_prefix_exec(l, &chars_of("## "))
}

fn section_after_exec(l: &Vec<char>) -> (r: Section)
    ensures
        r == section_after(l@),
{
    if has_prefix_exec(l, &chars_of("## Paths")) {
        Section::Paths
    } else if has_prefix_exec(l, &chars_of("## Aliases")) {
        Section::Aliases
    } else {
        Section::Elsewhere
    }
}

fn bullet_exec(l: &Vec<char>) -> (r: Option<Vec<char>>)
    ensures
        crate::paths::view_opt(r) == bullet_of(l@),
{
    let t = trim_chars(l);
    proof {
        reveal_strlit("- ");
    }
    if has_prefix_exec(&t, &chars_of("- ")) {
        let item = slice_chars(&t, 2, t.len());
        proof {
            assert(item@ =~= t@.skip(2));
        }
        Some(item)
    } else {
        None
    }
}

fn pair_exec(item: &Vec<char>) -> (r: Option<(Vec<char>, Vec<char>)>)
    ensures
        match r {
            Some(kv) => pair_of(item@) == Some((kv.0@, kv.1@)),
            None => pair_of(item@) is None,
        },
{
    let sep = chars_of(": ");
    proof {
        reveal_strlit(": ");
    }
    match find_exec(item, &sep, 0) {
        Some(k) => {
            proof {
                assert(sep@.len() == 2);
                assert(crate::text::occurs_at(item@, sep@, k as int)) by {
                    lemma_find_occurs(item@, sep@, 0, k as int);
                }
            }
            assert(k + 2 <= item@.len());
            let key = trim_chars(&slice_chars(item, 0, k));
            let n = item.len();
            let start: usize = k + 2;
            let value = trim_chars(&slice_chars(item, start, n));
            proof {
                assert(item@.subrange(0, k as int) =~= item@.take(k as int));
                assert(item@.subrange(k + 2, item@.len() as int) =~= item@.skip(k + 2));
            }
            Some((key, value))
        },
        None => None,
    }
}

pub proof fn lemma_find_occurs(s: Seq<char>, t: Seq<char>, i: int, k: int)
    requires
        find_from(s, t, i) == Some(k),
    ensures
        crate::text::occurs_at(s, t, k),
        i <= k,
    decreases s.len() + 1 - i,
{
    if !crate::text::occurs_at(s, t, i) {
        lemma_find_occurs(s, t, i + 1, k);
    }
}

fn key_index_exec(m: &Vec<(String, String)>, k: &Vec<char>) -> (r: Option<usize>)
    ensures
        match r {
            Some(j) => key_index(pairs_view(m@), k@) == Some(j as int) && j < m@.len(),
            None => key_index(pairs_view(m@), k@) is None,
        },
{
    let mut i: usize = 0;
    while i < m.len()
        invariant
            i <= m@.len(),
            key_index(pairs_view(m@.take(i as int)), k@) is None,
        decreases m.len() - i,
    {
        let key = chars_of(m[i].0.as_str());
        proof {
            assert(pairs_view(m@.take(i + 1)).drop_last() =~= pairs_view(m@.take(i as int)));
        }
        if same_chars(&key, k) {
            proof {
                lemma_key_index_extend(m@, k@, i as int + 1, i as int);
            }
            return Some(i);
        }
        i = i + 1;
    }
    proof {
        assert(m@.take(m@.len() as int) =~= m@);
    }
    None
}

proof fn lemma_key_index_extend(m: Seq<(String, String)>, k: Seq<char>, n: int, j: int)
    requires
        0 <= j < n <= m.len(),
        key_index(pairs_view(m.take(j)), k) is None,
        m[j].0@ == k,
    ensures
        key_index(pairs_view(m), k) == Some(j),
    decreases m.len() - n,
{
    if n == j + 1 {
        assert(pairs_view(m.take(n)).drop_last() =~= pairs_view(m.take(j)));
        if n < m.len() {
            lemma_key_index_extend(m, k, n + 1, j);
        } else {
            assert(m.take(n) =~= m);
        }
    } else {
        assert(key_index(pairs_view(m.take(n - 1)), k) == Some(j)) by {
            lemma_key_index_take(m, k, n - 1, j);
        }
        lemma_key_index_take(m, k, m.len() as int, j);
        assert(m.take(m.len() as int) =~= m);
    }
}

proof fn lemma_key_index_take(m: Seq<(String, String)>, k: Seq<char>, n: int, j: int)
    requires
        0 <= j < n <= m.len(),
        key_index(pairs_view(m.take(j)), k) is None,
        m[j].0@ == k,
    ensures
        key_index(pairs_view(m.take(n)), k) == Some(j),
    decreases n,
{
    assert(pairs_view(m.take(n)).drop_last() =~= pairs_view(m.take(n - 1)));
    if n == j + 1 {
    } else {
        lemma_key_index_take(m, k, n - 1, j);
    }
}

fn upsert_exec(m: &mut Vec<(String, String)>, k: Vec<char>, v: Vec<char>)
    ensures
        pairs_view(final(m)@) == upsert(pairs_view(old(m)@), k@, v@),
{
    let key = string_of(k.as_slice());
    let value = string_of(v.as_slice());
    match key_index_exec(m, &k) {
        Some(j) => {
            m.set(j, (key, value));
            proof {
                assert(pairs_view(m@) =~= pairs_view(old(m)@).update(j as int, (k@, v@)));
            }
        },
        None => {
            m.push((key, value));
            proof {
                assert(pairs_view(m@) =~= pairs_view(old(m)@).push((k@, v@)));
            }
        },
    }
}

impl Domain {
    /// Whether canonical path `path` is admitted by any of the domain's globs.
    pub fn path_allowed(&self, path: &str, ctx: &PathContext) -> (r: bool)
        ensures
            r == globs_allow(self.paths@, path@, *ctx),
    {
        let mut i: usize = 0;
        while i < self.paths.len()
            invariant
                i <= self.paths@.len(),
                forall|j: int| 0 <= j < i ==> !#[trigger] glob_allows(self.paths@[j]@, path@, *ctx),
            decreases self.paths.len() - i,
        {
            if self.paths[i].matches(path, ctx) {
                return true;
            }
            i = i + 1;
        }
        false
    }

    /// Builds the domain that vault document `vf` defines. The document must
    /// be of type `domain` and confirmed; the name is its `domain` field or,
    /// failing that, its file stem; the globs are the bullets of its
    /// `## Paths` sections and the aliases the `key: value` bullets of its
    /// `## Aliases` sections. An invalid glob fails the whole document.
    pub fn from_vault_file(vf: &VaultFile) -> (r: Result<Domain, ConfigError>)
        ensures
            r is Ok <==> domain_loads(*vf),
            r is Ok ==> built_from(r->Ok_0, *vf),
            !confirmed_domain(*vf) ==> (r matches Err(ConfigError::InvalidDomainName { name, reason })
                && name@ == vf.path@ && reason@ == (if vf.frontmatter.file_type != VaultType::Domain {
                "not a domain vault file"@
            } else {
                "domain not confirmed"@
            })),
            confirmed_domain(*vf) && !valid_domain_name(trim_of(declared_name(*vf))) ==> (r matches Err(
                ConfigError::InvalidDomainName { name, reason },
            ) && name@ == declared_name(*vf)),
            confirmed_domain(*vf) && valid_domain_name(trim_of(declared_name(*vf))) && r is Err ==> (r matches Err(
                ConfigError::InvalidPathGlob { pattern, reason },
            )),
    {
        if vf.frontmatter.file_type != VaultType::Domain {
            return Err(ConfigError::InvalidDomainName {
                name: vf.path.clone(),
                reason: "not a domain vault file".to_string(),
            });
        }
        if vf.frontmatter.confidence != Some(Confidence::Confirmed) {
            return Err(ConfigError::InvalidDomainName {
                name: vf.path.clone(),
                reason: "domain not confirmed".to_string(),
            });
        }
        let name_str = match &vf.frontmatter.domain {
            Some(d) => d.clone(),
            None => {
                let p = chars_of(vf.path.as_str());
                string_of(file_stem_exec(&p).as_slice())
            },
        };
        let name = match DomainName::new(name_str.as_str()) {
            Ok(n) => n,
            Err(e) => return Err(e),
        };

        let body = chars_of(vf.body.as_str());
        let ls = lines_exec(&body);
        let ghost lsv = views(ls@);
        let mut items: Vec<Vec<char>> = Vec::new();
        let mut aliases: Vec<(String, String)> = Vec::new();
        let ghost mut raw: Seq<(Seq<char>, Seq<char>)> = Seq::empty();
        let mut cur = Section::Elsewhere;
        let mut i: usize = 0;
        while i < ls.len()
            invariant
                i <= ls@.len(),
                lsv == views(ls@),
                lsv == lines_of(vf.body@),
                body_paths(vf.body@) == views(items@) + path_items(lsv, i as int, cur),
                alias_items(lsv, 0, Section::Elsewhere) == raw + alias_items(lsv, i as int, cur),
                pairs_view(aliases@) == assoc(raw),
            decreases ls.len() - i,
        {
            let line = &ls[i];
            assert(line@ == lsv[i as int]);
            if is_heading_exec(line) {
                cur = section_after_exec(line);
            } else {
                match bullet_exec(line) {
                    Some(item) => {
                        if cur == Section::Paths {
                            proof {
                                assert(views(items@.push(item)) =~= views(items@) + seq![item@]);
                            }
                            items.push(item);
                        } else if cur == Section::Aliases {
                            match pair_exec(&item) {
                                Some(kv) => {
                                    let (k, v) = kv;
                                    proof {
                                        assert((raw + seq![(k@, v@)]).drop_last() =~= raw);
                                        assert(raw + seq![(k@, v@)] + alias_items(lsv, i + 1, cur) =~= raw + (seq![(k@, v@)] + alias_items(lsv, i + 1, cur)));
                                    }
                                    upsert_exec(&mut aliases, k, v);
                                    proof {
                                        raw = raw + seq![(k@, v@)];
                                    }
                                },
                                None => {},
                            }
                        }
                    },
                    None => {},
                }
            }
            i = i + 1;
            proof {
                assert(views(items@) + path_items(lsv, i as int, cur) =~= body_paths(vf.body@)) by {
                    assert(views(items@) + Seq::<Seq<char>>::empty() =~= views(items@));
                }
            }
        }
        proof {
            assert(raw + Seq::<(Seq<char>, Seq<char>)>::empty() =~= raw);
            assert(views(items@) + Seq::<Seq<char>>::empty() =~= views(items@));
        }

        let mut paths: Vec<PathGlob> = Vec::new();
        let mut j: usize = 0;
        while j < items.len()
            invariant
                j <= items@.len(),
                confirmed_domain(*vf),
                views(items@) == body_paths(vf.body@),
                valid_domain_name(trim_of(declared_name(*vf))),
                globs_view(paths@) == views(items@).take(j as int).map_values(|l: Seq<char>| trim_of(l)),
                forall|m: int| 0 <= m < j ==> #[trigger] glob_line_ok(views(items@)[m]),
            decreases items.len() - j,
        {
            let text = string_of(items[j].as_slice());
            match PathGlob::new(text.as_str()) {
                Ok(g) => {
                    let ghost before = globs_view(paths@);
                    let ghost old_paths = paths@;
                    proof {
                        assert(before.len() == old_paths.len());
                        assert(views(items@).take(j as int).len() == j);
                    }
                    proof {
                        assert(g@ == trim_of(views(items@)[j as int]));
                    }
                    paths.push(g);
                    j = j + 1;
                    proof {
                        assert(paths@ == old_paths.push(g));
                        assert(old_paths.len() == j - 1);
                        let a = globs_view(paths@);
                        let b = views(items@).take(j as int).map_values(|l: Seq<char>| trim_of(l));
                        assert forall|m: int| 0 <= m < a.len() implies a[m] == b[m] by {
                            if m < j - 1 {
                                assert(paths@[m] == old_paths[m]);
                                assert(a[m] == before[m]);
                            } else {
                                assert(paths@[m] == g);
                            }
                        }
                        assert(a =~= b);
                    }
                },
                Err(e) => {
                    proof {
                        assert(!glob_line_ok(body_paths(vf.body@)[j as int]));
                    }
                    return Err(e);
                },
            }
        }
        proof {
            assert(views(items@).take(j as int) =~= views(items@));
        }
        let can_read = copy_strings(&vf.frontmatter.can_read);
        Ok(Domain { name, paths, aliases, can_read })
    }
}

} // verus!
