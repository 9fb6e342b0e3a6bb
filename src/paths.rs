//! Paths as character sequences: containment, glob roots, home expansion,
//! and the filesystem facts (home directory, canonical forms) that the
//! decisions read.
use vstd::prelude::*;
use crate::text::{has_prefix, has_prefix_exec, chars_of, concat_chars, slice_chars, lacks};

verus! {

/// `p` lies at or below `b`, component by component as `Path::starts_with`
/// compares: `/tmp/test` contains `/tmp/test/a` but not `/tmp/test-evil/a`,
/// and trailing separators of `b` do not count (`/etc/passwd/` contains
/// `/etc/passwd`). A `b` made of separators alone is the root, which holds
/// every absolute path; an empty `b` contains every path.
pub open spec fn within(p: Seq<char>, b: Seq<char>) -> bool {
    let s = strip_slashes(b);
    if b.len() == 0 {
        true
    } else if s.len() == 0 {
        p.len() > 0 && p[0] == '/'
    } else {
        has_prefix(p, s) && (p.len() == s.len() || p[s.len() as int] == '/')
    }
}

/// The part of `s` before its first `*`.
pub open spec fn upto_star(s: Seq<char>) -> Seq<char>
    decreases s.len(),
{
    if s.len() == 0 {
        s
    } else if s[0] == '*' {
        Seq::empty()
    } else {
        seq![s[0]] + upto_star(s.drop_first())
    }
}

/// `s` without its trailing `/` characters.
pub open spec fn strip_slashes(s: Seq<char>) -> Seq<char>
    decreases s.len(),
{
    if s.len() > 0 && s.last() == '/' {
        strip_slashes(s.drop_last())
    } else {
        s
    }
}

/// The literal root of a glob: everything before the first `*`, without
/// trailing separators.
pub open spec fn glob_root(g: Seq<char>) -> Seq<char> {
    strip_slashes(upto_star(g))
}

/// `rest` joined below `base`, as `PathBuf::join` does: an absolute `rest`
/// replaces `base`, and a separator is put between them where needed.
pub open spec fn join(base: Seq<char>, rest: Seq<char>) -> Seq<char> {
    if rest.len() > 0 && rest[0] == '/' {
        rest
    } else if base.len() == 0 || base.last() == '/' {
        base + rest
    } else {
        base + seq!['/'] + rest
    }
}

/// `p` with a leading `~/` replaced by the home directory, when one is known.
pub open spec fn expand_home(p: Seq<char>, home: Option<Seq<char>>) -> Seq<char> {
    if has_prefix(p, seq!['~', '/']) && home is Some {
        join(home->0, p.skip(2))
    } else {
        p
    }
}

pub open spec fn view_opt(o: Option<Vec<char>>) -> Option<Seq<char>> {
    match o {
        Some(v) => Some(v@),
        None => None,
    }
}

pub open spec fn view_opt_string(o: Option<String>) -> Option<Seq<char>> {
    match o {
        Some(v) => Some(v@),
        None => None,
    }
}

/// The canonical form recorded first for `p` among `entries`.
pub open spec fn lookup_canonical(entries: Seq<(String, String)>, p: Seq<char>) -> Option<
    Seq<char>,
>
    decreases entries.len(),
{
    if entries.len() == 0 {
        None
    } else if entries[0].0@ == p {
        Some(entries[0].1@)
    } else {
        lookup_canonical(entries.drop_first(), p)
    }
}

/// What the decisions know of the filesystem and the environment: the home
/// directory, and canonical forms that the operating system gave for paths.
#[derive(Debug, Clone)]
pub struct PathContext {
    pub home: Option<String>,
    pub canonical: Vec<(String, String)>,
}

impl PathContext {
    pub open spec fn home_view(&self) -> Option<Seq<char>> {
        view_opt_string(self.home)
    }

    pub open spec fn canon(&self, p: Seq<char>) -> Option<Seq<char>> {
        lookup_canonical(self.canonical@, p)
    }

    /// A context with the given home directory and no canonical forms.
    pub fn new(home: Option<String>) -> (r: Self)
        ensures
            r.home_view() == view_opt_string(home),
            r.canonical@.len() == 0,
    {
        PathContext { home, canonical: Vec::new() }
    }

    /// Records that `path` canonicalizes to `canonical`; a form recorded
    /// earlier for the same path is kept.
    pub fn record(&mut self, path: String, canonical: String)
        ensures
            final(self).home == old(self).home,
            final(self).canonical@ == old(self).canonical@.push((path, canonical)),
    {
        self.canonical.push((path, canonical));
    }

    /// The home directory as characters.
    pub fn home_chars(&self) -> (r: Option<Vec<char>>)
        ensures
            view_opt(r) == self.home_view(),
    {
        match &self.home {
            Some(h) => Some(chars_of(h.as_str())),
            None => None,
        }
    }

    /// The canonical form recorded for `p`, if any.
    pub fn canonical_of(&self, p: &Vec<char>) -> (r: Option<Vec<char>>)
        ensures
            view_opt(r) == self.canon(p@),
    {
        let mut i: usize = 0;
        proof {
            assert(self.canonical@.skip(0) =~= self.canonical@);
        }
        while i < self.canonical.len()
            invariant
                i <= self.canonical@.len(),
                self.canon(p@) == lookup_canonical(self.canonical@.skip(i as int), p@),
            decreases self.canonical.len() - i,
        {
            let key = chars_of(self.canonical[i].0.as_str());
            proof {
                assert(self.canonical@.skip(i as int).drop_first() =~= self.canonical@.skip(
                    i + 1,
                ));
            }
            if crate::text::same_chars(&key, p) {
                return Some(chars_of(self.canonical[i].1.as_str()));
            }
            i = i + 1;
        }
        None
    }
}

/// Whether `p` lies at or below `b`.
pub fn within_exec(p: &Vec<char>, b: &Vec<char>) -> (r: bool)
    ensures
        r == within(p@, b@),
{
    if b.len() == 0 {
        return true;
    }
    let s = strip_slashes_exec(b);
    if s.len() == 0 {
        return p.len() > 0 && p[0] == '/';
    }
    if !has_prefix_exec(p, &s) {
        return false;
    }
    p.len() == s.len() || p[s.len()] == '/'
}

/// `s` without its trailing `/` characters.
pub fn strip_slashes_exec(s: &Vec<char>) -> (r: Vec<char>)
    ensures
        r@ == strip_slashes(s@),
{
    let mut n: usize = s.len();
    proof {
        assert(s@.take(n as int) =~= s@);
    }
    while n > 0 && s[n - 1] == '/'
        invariant
            n <= s@.len(),
            strip_slashes(s@) == strip_slashes(s@.take(n as int)),
        decreases n,
    {
        proof {
            assert(s@.take(n as int).drop_last() =~= s@.take(n - 1));
        }
        n = n - 1;
    }
    proof {
        assert(strip_slashes(s@.take(n as int)) == s@.take(n as int));
        assert(s@.take(n as int) =~= s@.subrange(0, n as int));
    }
    slice_chars(s, 0, n)
}

/// Stripping trailing separators twice changes nothing more.
pub proof fn lemma_strip_slashes_idempotent(s: Seq<char>)
    ensures
        strip_slashes(strip_slashes(s)) == strip_slashes(s),
        strip_slashes(s).len() == 0 || strip_slashes(s).last() != '/',
    decreases s.len(),
{
    if s.len() > 0 && s.last() == '/' {
        lemma_strip_slashes_idempotent(s.drop_last());
    }
}

pub proof fn lemma_upto_star_take(s: Seq<char>, i: int)
    requires
        0 <= i <= s.len(),
        lacks(s.take(i), '*'),
    ensures
        upto_star(s) == s.take(i) + upto_star(s.skip(i)),
    decreases i,
{
    if i == 0 {
        assert(s.skip(0) =~= s);
        assert(s.take(0) + upto_star(s) =~= upto_star(s));
    } else {
        assert(s[0] == s.take(i)[0]);
        let t = s.drop_first();
        assert(t.take(i - 1) =~= s.take(i).drop_first());
        let u = t.take(i - 1);
        assert(lacks(u, '*')) by {
            assert forall|j: int| 0 <= j < u.len() implies #[trigger] u[j] != '*' by {
                assert(u[j] == s.take(i)[j + 1]);
            }
        }
        lemma_upto_star_take(t, i - 1);
        assert(t.skip(i - 1) =~= s.skip(i));
        assert(s.take(i) =~= seq![s[0]] + t.take(i - 1));
    }
}

proof fn lemma_strip_take(s: Seq<char>, n: int)
    requires
        0 <= n <= s.len(),
        forall|j: int| n <= j < s.len() ==> s[j] == '/',
    ensures
        strip_slashes(s) == strip_slashes(s.take(n)),
    decreases s.len() - n,
{
    if n < s.len() {
        assert(s.len() > 0 && s.last() == '/');
        assert(s.drop_last().take(n) =~= s.take(n));
        lemma_strip_take(s.drop_last(), n);
    } else {
        assert(s.take(n) =~= s);
    }
}

/// The literal root of glob `g`.
pub fn glob_root_exec(g: &Vec<char>) -> (r: Vec<char>)
    ensures
        r@ == glob_root(g@),
{
    let mut i: usize = 0;
    while i < g.len() && g[i] != '*'
        invariant
            i <= g@.len(),
            lacks(g@.take(i as int), '*'),
        decreases g.len() - i,
    {
        i = i + 1;
        proof {
            let u = g@.take(i as int);
            assert forall|j: int| 0 <= j < u.len() implies #[trigger] u[j] != '*' by {
                if j < i - 1 {
                    assert(u[j] == g@.take(i - 1)[j]);
                }
            }
        }
    }
    proof {
        lemma_upto_star_take(g@, i as int);
        if i < g@.len() {
            assert(upto_star(g@.skip(i as int)) =~= Seq::<char>::empty());
        } else {
            assert(g@.skip(i as int) =~= Seq::<char>::empty());
        }
        assert(upto_star(g@) =~= g@.take(i as int));
    }
    let mut n: usize = i;
    while n > 0 && g[n - 1] == '/'
        invariant
            n <= i <= g@.len(),
            upto_star(g@) == g@.take(i as int),
            strip_slashes(g@.take(i as int)) == strip_slashes(g@.take(n as int)),
        decreases n,
    {
        proof {
            let t = g@.take(n as int);
            assert(t.drop_last() =~= g@.take(n - 1));
        }
        n = n - 1;
    }
    proof {
        assert(strip_slashes(g@.take(n as int)) == g@.take(n as int));
        assert(g@.take(n as int) =~= g@.subrange(0, n as int));
    }
    slice_chars(g, 0, n)
}

/// `rest` joined below `base`.
pub fn join_exec(base: &Vec<char>, rest: &Vec<char>) -> (r: Vec<char>)
    ensures
        r@ == join(base@, rest@),
{
    if rest.len() > 0 && rest[0] == '/' {
        slice_chars(rest, 0, rest.len())
    } else if base.len() == 0 || base[base.len() - 1] == '/' {
        concat_chars(base, rest)
    } else {
        let mut b = slice_chars(base, 0, base.len());
        b.push('/');
        concat_chars(&b, rest)
    }
}

/// `p` with a leading `~/` replaced by `home`, when one is known.
pub fn expand_home_exec(p: &Vec<char>, home: &Option<Vec<char>>) -> (r: Vec<char>)
    ensures
        r@ == expand_home(p@, view_opt(*home)),
{
    let tilde: Vec<char> = vec!['~', '/'];
    proof {
        assert(tilde@ =~= seq!['~', '/']);
    }
    if has_prefix_exec(p, &tilde) {
        match home {
            Some(h) => {
                let rest = slice_chars(p, 2, p.len());
                proof {
                    assert(rest@ =~= p@.skip(2));
                }
                return join_exec(h, &rest);
            },
            None => {},
        }
    }
    slice_chars(p, 0, p.len())
}

/// Whether the canonical path `path` lies at or below any of `boundaries`.
pub fn is_within_boundaries(path: &str, boundaries: &Vec<String>) -> (r: bool)
    ensures
        r == exists|i: int| 0 <= i < boundaries@.len() && within(path@, #[trigger] boundaries@[i]@),
{
    let p = chars_of(path);
    let mut i: usize = 0;
    while i < boundaries.len()
        invariant
            p@ == path@,
            i <= boundaries@.len(),
            forall|j: int| 0 <= j < i ==> !within(path@, #[trigger] boundaries@[j]@),
        decreases boundaries.len() - i,
    {
        let b = chars_of(boundaries[i].as_str());
        if within_exec(&p, &b) {
            return true;
        }
        i = i + 1;
    }
    false
}

} // verus!
