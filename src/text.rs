//! Character-level helpers shared by the path logic.
use vstd::prelude::*;

verus! {

/// `needle` occurs in `hay` starting at index `i`.
pub open spec fn occurs_at(hay: Seq<char>, needle: Seq<char>, i: int) -> bool {
    0 <= i && i + needle.len() <= hay.len() && hay.subrange(i, i + needle.len()) == needle
}

/// `needle` occurs somewhere in `hay`.
pub open spec fn contains(hay: Seq<char>, needle: Seq<char>) -> bool {
    exists|i: int| occurs_at(hay, needle, i)
}

/// `prefix` is a prefix of `s`.
pub open spec fn has_prefix(s: Seq<char>, prefix: Seq<char>) -> bool {
    occurs_at(s, prefix, 0)
}

/// `c` does not occur in `s`.
pub open spec fn lacks(s: Seq<char>, c: char) -> bool {
    forall|i: int| 0 <= i < s.len() ==> s[i] != c
}

/// What `str::to_lowercase` makes of a character sequence.
pub uninterp spec fn lower_of(s: Seq<char>) -> Seq<char>;

/// Relies on `Iterator::collect` over `str::chars`: the characters of `s`, in order.
#[verifier::external_body]
pub fn chars_of(s: &str) -> (r: Vec<char>)
    ensures
        r@ == s@,
{
    s.chars().collect()
}

/// Relies on `Iterator::collect` into a `String`: the string made of `v`, in order.
#[verifier::external_body]
pub fn string_of(v: &[char]) -> (r: String)
    ensures
        r@ == v@,
{
    v.iter().collect()
}

/// Relies on `str::to_lowercase`: the result depends on the characters alone.
#[verifier::external_body]
pub fn to_lowercase(s: &str) -> (r: String)
    ensures
        r@ == lower_of(s@),
{
    s.to_lowercase()
}

/// `c` is whitespace as `char::is_whitespace` defines it: the characters
/// with the Unicode `White_Space` property.
pub open spec fn is_white(c: char) -> bool {
    let v = c as u32;
    (9 <= v <= 13) || v == 32 || v == 0x85 || v == 0xa0 || v == 0x1680 || (0x2000 <= v <= 0x200a)
        || v == 0x2028 || v == 0x2029 || v == 0x202f || v == 0x205f || v == 0x3000
}

/// `s` without its leading whitespace, as `str::trim_start` gives it.
pub open spec fn trim_start_of(s: Seq<char>) -> Seq<char>
    decreases s.len(),
{
    if s.len() > 0 && is_white(s[0]) {
        trim_start_of(s.drop_first())
    } else {
        s
    }
}

/// `s` without its trailing whitespace, as `str::trim_end` gives it.
pub open spec fn trim_end_of(s: Seq<char>) -> Seq<char>
    decreases s.len(),
{
    if s.len() > 0 && is_white(s.last()) {
        trim_end_of(s.drop_last())
    } else {
        s
    }
}

/// `s` without leading and trailing whitespace, as `str::trim` gives it.
pub open spec fn trim_of(s: Seq<char>) -> Seq<char> {
    trim_end_of(trim_start_of(s))
}

/// Whether `c` is whitespace.
pub fn is_white_exec(c: char) -> (r: bool)
    ensures
        r == is_white(c),
{
    let v = c as u32;
    (9 <= v && v <= 13) || v == 32 || v == 0x85 || v == 0xa0 || v == 0x1680 || (0x2000 <= v && v <= 0x200a)
        || v == 0x2028 || v == 0x2029 || v == 0x202f || v == 0x205f || v == 0x3000
}

/// `v` without its leading whitespace.
pub fn trim_start_chars(v: &Vec<char>) -> (r: Vec<char>)
    ensures
        r@ == trim_start_of(v@),
{
    let mut i: usize = 0;
    proof {
        assert(v@.skip(0) =~= v@);
    }
    while i < v.len() && is_white_exec(v[i])
        invariant
            i <= v@.len(),
            trim_start_of(v@) == trim_start_of(v@.skip(i as int)),
        decreases v.len() - i,
    {
        proof {
            assert(v@.skip(i as int).drop_first() =~= v@.skip(i + 1));
        }
        i = i + 1;
    }
    proof {
        assert(v@.skip(i as int) =~= v@.subrange(i as int, v@.len() as int));
    }
    slice_chars(v, i, v.len())
}

/// `v` without its trailing whitespace.
pub fn trim_end_chars(v: &Vec<char>) -> (r: Vec<char>)
    ensures
        r@ == trim_end_of(v@),
{
    let mut n: usize = v.len();
    proof {
        assert(v@.take(n as int) =~= v@);
    }
    while n > 0 && is_white_exec(v[n - 1])
        invariant
            n <= v@.len(),
            trim_end_of(v@) == trim_end_of(v@.take(n as int)),
        decreases n,
    {
        proof {
            assert(v@.take(n as int).drop_last() =~= v@.take(n - 1));
        }
        n = n - 1;
    }
    proof {
        assert(v@.take(n as int) =~= v@.subrange(0, n as int));
    }
    slice_chars(v, 0, n)
}

/// `s` without leading and trailing whitespace.
pub fn trim(s: &str) -> (r: String)
    ensures
        r@ == trim_of(s@),
{
    let v = chars_of(s);
    let a = trim_start_chars(&v);
    string_of(trim_end_chars(&a).as_slice())
}

/// `s` without leading whitespace.
pub fn trim_start(s: &str) -> (r: String)
    ensures
        r@ == trim_start_of(s@),
{
    let v = chars_of(s);
    string_of(trim_start_chars(&v).as_slice())
}

proof fn lemma_trim_start_shape(s: Seq<char>)
    ensures
        trim_start_of(s).len() == 0 || !is_white(trim_start_of(s)[0]),
    decreases s.len(),
{
    if s.len() > 0 && is_white(s[0]) {
        lemma_trim_start_shape(s.drop_first());
    }
}

proof fn lemma_trim_end_shape(s: Seq<char>)
    ensures
        trim_end_of(s) == s.take(trim_end_of(s).len() as int),
        trim_end_of(s).len() <= s.len(),
        trim_end_of(s).len() == 0 || !is_white(trim_end_of(s).last()),
    decreases s.len(),
{
    if s.len() > 0 && is_white(s.last()) {
        lemma_trim_end_shape(s.drop_last());
        let t = trim_end_of(s.drop_last());
        assert(s.drop_last().take(t.len() as int) =~= s.take(t.len() as int));
    } else {
        assert(s.take(s.len() as int) =~= s);
    }
}

/// A text whose first and last characters are not whitespace is its own trim.
pub proof fn lemma_trim_fixed(s: Seq<char>)
    requires
        s.len() > 0,
        !is_white(s[0]),
        !is_white(s.last()),
    ensures
        trim_of(s) == s,
{
    assert(trim_start_of(s) == s);
}

/// Trimming a trimmed text changes nothing: its ends are not whitespace.
pub proof fn lemma_trim_idempotent(s: Seq<char>)
    ensures
        trim_of(trim_of(s)) == trim_of(s),
        trim_start_of(trim_of(s)) == trim_of(s),
        trim_end_of(trim_of(s)) == trim_of(s),
{
    let a = trim_start_of(s);
    let t = trim_of(s);
    lemma_trim_start_shape(s);
    lemma_trim_end_shape(a);
    if t.len() > 0 {
        assert(t[0] == a[0]);
    }
    assert(trim_start_of(t) == t);
    assert(trim_end_of(t) == t);
}

/// Whether `needle` occurs in `hay` at index `i`.
pub fn occurs_at_exec(hay: &Vec<char>, needle: &Vec<char>, i: usize) -> (r: bool)
    ensures
        r == occurs_at(hay@, needle@, i as int),
{
    if i > hay.len() || needle.len() > hay.len() - i {
        proof {
            assert(!occurs_at(hay@, needle@, i as int));
        }
        return false;
    }
    let mut k: usize = 0;
    while k < needle.len()
        invariant
            i + needle@.len() <= hay@.len(),
            hay@.len() <= usize::MAX,
            k <= needle@.len(),
            forall|m: int| 0 <= m < k ==> hay@[i + m] == needle@[m],
        decreases needle.len() - k,
    {
        if hay[i + k] != needle[k] {
            proof {
                assert(hay@.subrange(i as int, i + needle@.len())[k as int] != needle@[k as int]);
            }
            return false;
        }
        k = k + 1;
    }
    proof {
        assert(hay@.subrange(i as int, i + needle@.len()) =~= needle@);
    }
    true
}

/// Whether `needle` occurs anywhere in `hay`.
pub fn contains_exec(hay: &Vec<char>, needle: &Vec<char>) -> (r: bool)
    ensures
        r == contains(hay@, needle@),
{
    if needle.len() > hay.len() {
        proof {
            assert forall|i: int| !occurs_at(hay@, needle@, i) by {}
        }
        return false;
    }
    let last = hay.len() - needle.len();
    let mut i: usize = 0;
    loop
        invariant
            needle@.len() <= hay@.len(),
            last == hay@.len() - needle@.len(),
            i <= last,
            forall|j: int| 0 <= j < i ==> !occurs_at(hay@, needle@, j),
        decreases last - i,
    {
        if occurs_at_exec(hay, needle, i) {
            return true;
        }
        if i == last {
            proof {
                assert forall|j: int| !occurs_at(hay@, needle@, j) by {
                    if 0 <= j < i {
                    }
                }
            }
            return false;
        }
        i = i + 1;
    }
}

/// Whether `s` begins with `prefix`.
pub fn has_prefix_exec(s: &Vec<char>, prefix: &Vec<char>) -> (r: bool)
    ensures
        r == has_prefix(s@, prefix@),
{
    occurs_at_exec(s, prefix, 0)
}

/// Whether the character sequences of `a` and `b` are equal.
pub fn same_chars(a: &Vec<char>, b: &Vec<char>) -> (r: bool)
    ensures
        r == (a@ == b@),
{
    if a.len() != b.len() {
        return false;
    }
    let r = occurs_at_exec(a, b, 0);
    proof {
        if r {
            assert(a@.subrange(0, b@.len() as int) =~= a@);
        } else {
            assert(a@.subrange(0, b@.len() as int) =~= a@);
        }
    }
    r
}

/// Whether `c` occurs in `s`.
pub fn has_char(s: &Vec<char>, c: char) -> (r: bool)
    ensures
        r == !lacks(s@, c),
{
    let mut i: usize = 0;
    while i < s.len()
        invariant
            i <= s@.len(),
            forall|j: int| 0 <= j < i ==> s@[j] != c,
        decreases s.len() - i,
    {
        if s[i] == c {
            return true;
        }
        i = i + 1;
    }
    false
}

/// The elements of `v` from `from` up to `to`.
pub fn slice_chars(v: &Vec<char>, from: usize, to: usize) -> (r: Vec<char>)
    requires
        from <= to <= v@.len(),
    ensures
        r@ == v@.subrange(from as int, to as int),
{
    let mut r: Vec<char> = Vec::new();
    let mut i: usize = from;
    while i < to
        invariant
            from <= i <= to <= v@.len(),
            r@ == v@.subrange(from as int, i as int),
        decreases to - i,
    {
        r.push(v[i]);
        i = i + 1;
        proof {
            assert(r@ =~= v@.subrange(from as int, i as int));
        }
    }
    r
}

/// `b` appended to `a`.
pub fn concat_chars(a: &Vec<char>, b: &Vec<char>) -> (r: Vec<char>)
    ensures
        r@ == a@ + b@,
{
    let mut r = slice_chars(a, 0, a.len());
    let mut i: usize = 0;
    while i < b.len()
        invariant
            i <= b@.len(),
            r@ == a@ + b@.subrange(0, i as int),
        decreases b.len() - i,
    {
        r.push(b[i]);
        i = i + 1;
        proof {
            assert(r@ =~= a@ + b@.subrange(0, i as int));
        }
    }
    proof {
        assert(a@.subrange(0, a@.len() as int) =~= a@);
        assert(b@.subrange(0, b@.len() as int) =~= b@);
    }
    r
}

/// The first index at or after `i` where `t` occurs in `s`.
pub open spec fn find_from(s: Seq<char>, t: Seq<char>, i: int) -> Option<int>
    decreases s.len() + 1 - i,
{
    if i < 0 || i + t.len() > s.len() {
        None
    } else if occurs_at(s, t, i) {
        Some(i)
    } else {
        find_from(s, t, i + 1)
    }
}

/// The first index at or after `i` where `t` occurs in `s`.
pub fn find_exec(s: &Vec<char>, t: &Vec<char>, i: usize) -> (r: Option<usize>)
    ensures
        match r {
            Some(k) => find_from(s@, t@, i as int) == Some(k as int),
            None => find_from(s@, t@, i as int) is None,
        },
{
    let mut k: usize = i;
    loop
        invariant
            i <= k,
            find_from(s@, t@, i as int) == find_from(s@, t@, k as int),
        decreases s.len() + 1 - k,
    {
        if k > s.len() || t.len() > s.len() - k {
            return None;
        }
        if occurs_at_exec(s, t, k) {
            return Some(k);
        }
        if k >= s.len() {
            proof {
                assert(find_from(s@, t@, k + 1) is None);
            }
            return None;
        }
        k = k + 1;
    }
}

/// A line without its trailing carriage return.
pub open spec fn strip_cr(l: Seq<char>) -> Seq<char> {
    if l.len() > 0 && l.last() == '\r' {
        l.drop_last()
    } else {
        l
    }
}

/// The lines of `s` from the line that starts at `start`, scanning from `i`:
/// split at `\n`, each without a trailing `\r`, with no empty last line after
/// a final `\n`.
pub open spec fn lines_from(s: Seq<char>, start: int, i: int) -> Seq<Seq<char>>
    decreases s.len() - i,
{
    if i >= s.len() {
        if 0 <= start < s.len() {
            seq![strip_cr(s.subrange(start, s.len() as int))]
        } else {
            Seq::empty()
        }
    } else if s[i] == '\n' {
        seq![strip_cr(s.subrange(start, i))] + lines_from(s, i + 1, i + 1)
    } else {
        lines_from(s, start, i + 1)
    }
}

/// The lines of `s`, as `str::lines` gives them.
pub open spec fn lines_of(s: Seq<char>) -> Seq<Seq<char>> {
    lines_from(s, 0, 0)
}

pub open spec fn views(v: Seq<Vec<char>>) -> Seq<Seq<char>> {
    v.map_values(|x: Vec<char>| x@)
}

fn strip_cr_exec(l: Vec<char>) -> (r: Vec<char>)
    ensures
        r@ == strip_cr(l@),
{
    if l.len() > 0 && l[l.len() - 1] == '\r' {
        slice_chars(&l, 0, l.len() - 1)
    } else {
        l
    }
}

/// The lines of `s`.
pub fn lines_exec(s: &Vec<char>) -> (r: Vec<Vec<char>>)
    ensures
        views(r@) == lines_of(s@),
{
    let mut out: Vec<Vec<char>> = Vec::new();
    let mut start: usize = 0;
    let mut i: usize = 0;
    while i < s.len()
        invariant
            start <= i <= s@.len(),
            lines_of(s@) == views(out@) + lines_from(s@, start as int, i as int),
        decreases s.len() - i,
    {
        if s[i] == '\n' {
            let line = strip_cr_exec(slice_chars(s, start, i));
            proof {
                assert(views(out@.push(line)) =~= views(out@) + seq![line@]);
            }
            out.push(line);
            i = i + 1;
            start = i;
        } else {
            i = i + 1;
        }
    }
    if start < s.len() {
        let line = strip_cr_exec(slice_chars(s, start, s.len()));
        proof {
            assert(views(out@.push(line)) =~= views(out@) + seq![line@]);
        }
        out.push(line);
    } else {
        proof {
            assert(views(out@) + Seq::<Seq<char>>::empty() =~= views(out@));
        }
    }
    out
}

} // verus!
