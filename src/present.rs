//! Small text renderings used by the command line: sizes, titles and note
//! sections.
use vstd::prelude::*;
use vstd::string::*;
use crate::text::{chars_of, find_exec, find_from, slice_chars, string_of, concat_chars, trim_of, trim_start, trim_start_of};

verus! {

/// What `char::to_uppercase` makes of `c`.
pub uninterp spec fn upper_of(c: char) -> Seq<char>;

/// Relies on `char::to_uppercase`: the upper-case form of `c`, depending on
/// `c` alone.
#[verifier::external_body]
fn uppercase_char(c: char) -> (r: Vec<char>)
    ensures
        r@ == upper_of(c),
{
    c.to_uppercase().collect()
}

pub open spec fn digit_char(d: nat) -> char {
    if d == 0 { '0' }
    else if d == 1 { '1' }
    else if d == 2 { '2' }
    else if d == 3 { '3' }
    else if d == 4 { '4' }
    else if d == 5 { '5' }
    else if d == 6 { '6' }
    else if d == 7 { '7' }
    else if d == 8 { '8' }
    else { '9' }
}

/// The decimal digits of `n`.
pub open spec fn decimal(n: nat) -> Seq<char>
    decreases n,
{
    if n < 10 {
        seq![digit_char(n)]
    } else {
        decimal(n / 10) + seq![digit_char(n % 10)]
    }
}

fn digit_exec(d: u64) -> (r: char)
    requires
        d < 10,
    ensures
        r == digit_char(d as nat),
{
    if d == 0 { '0' }
    else if d == 1 { '1' }
    else if d == 2 { '2' }
    else if d == 3 { '3' }
    else if d == 4 { '4' }
    else if d == 5 { '5' }
    else if d == 6 { '6' }
    else if d == 7 { '7' }
    else if d == 8 { '8' }
    else { '9' }
}

fn decimal_exec(n: u64) -> (r: Vec<char>)
    ensures
        r@ == decimal(n as nat),
    decreases n,
{
    if n < 10 {
        let r = vec![digit_exec(n)];
        proof {
            assert(r@ =~= seq![digit_char(n as nat)]);
        }
        r
    } else {
        let mut r = decimal_exec(n / 10);
        r.push(digit_exec(n % 10));
        proof {
            assert(r@ =~= decimal((n / 10) as nat) + seq![digit_char((n % 10) as nat)]);
        }
        r
    }
}

/// A byte count in whole megabytes, kilobytes or bytes.
pub open spec fn size_text(bytes: nat) -> Seq<char> {
    if bytes >= 1000000 {
        decimal(bytes / 1000000) + "MB"@
    } else if bytes >= 1000 {
        decimal(bytes / 1000) + "KB"@
    } else {
        decimal(bytes) + "B"@
    }
}

/// Renders a byte count for display, rounding down.
pub fn format_size(bytes: u64) -> (r: String)
    ensures
        r@ == size_text(bytes as nat),
{
    let (n, unit) = if bytes >= 1000000 {
        (bytes / 1000000, "MB")
    } else if bytes >= 1000 {
        (bytes / 1000, "KB")
    } else {
        (bytes, "B")
    };
    let mut r = string_of(decimal_exec(n).as_slice());
    r.append(unit);
    r
}

/// The title form of `s` from index `i` on: each `-` becomes a space and the
/// first character of each word is upper-cased.
pub open spec fn title_from(s: Seq<char>, i: int) -> Seq<char>
    decreases s.len() - i,
{
    if i < 0 || i >= s.len() {
        Seq::empty()
    } else if s[i] == '-' {
        seq![' '] + title_from(s, i + 1)
    } else if i == 0 || s[i - 1] == '-' {
        upper_of(s[i]) + title_from(s, i + 1)
    } else {
        seq![s[i]] + title_from(s, i + 1)
    }
}

/// Turns a slug such as `my-project` into a title such as `My Project`.
pub fn slug_to_title(slug: &str) -> (r: String)
    ensures
        r@ == title_from(slug@, 0),
{
    let s = chars_of(slug);
    let mut out: Vec<char> = Vec::new();
    let mut i: usize = 0;
    while i < s.len()
        invariant
            i <= s@.len(),
            s@ == slug@,
            title_from(s@, 0) == out@ + title_from(s@, i as int),
        decreases s.len() - i,
    {
        let piece: Vec<char> = if s[i] == '-' {
            vec![' ']
        } else if i == 0 || s[i - 1] == '-' {
            uppercase_char(s[i])
        } else {
            vec![s[i]]
        };
        proof {
            if s@[i as int] == '-' {
                assert(piece@ =~= seq![' ']);
            } else if !(i == 0 || s@[i - 1] == '-') {
                assert(piece@ =~= seq![s@[i as int]]);
            }
            assert(out@ + (piece@ + title_from(s@, i + 1)) =~= (out@ + piece@) + title_from(s@, i + 1));
        }
        out = concat_chars(&out, &piece);
        i = i + 1;
    }
    proof {
        assert(out@ + Seq::<char>::empty() =~= out@);
    }
    string_of(out.as_slice())
}

/// The text of section `## heading` in `body`: from after the heading to the
/// next `\n## ` (or the end), trimmed; empty when there is no such heading.
pub open spec fn section_text(body: Seq<char>, heading: Seq<char>) -> Seq<char> {
    let marker = "## "@ + heading;
    match find_from(body, marker, 0) {
        None => Seq::empty(),
        Some(pos) => {
            let rest = trim_start_of(body.skip(pos + marker.len()));
            match find_from(rest, "\n## "@, 0) {
                Some(end) => trim_of(rest.take(end)),
                None => trim_of(rest),
            }
        },
    }
}

/// Extracts the text of section `## heading` from a note body.
pub fn extract_section_simple(body: &str, heading: &str) -> (r: String)
    ensures
        r@ == section_text(body@, heading@),
{
    let mut marker = String::from_str("## ");
    marker.append(heading);
    let b = chars_of(body);
    let m = chars_of(marker.as_str());
    match find_exec(&b, &m, 0) {
        None => String::new(),
        Some(pos) => {
            proof {
                crate::model::lemma_find_occurs(b@, m@, 0, pos as int);
            }
            let n = b.len();
            let start: usize = pos + m.len();
            let after = string_of(slice_chars(&b, start, n).as_slice());
            proof {
                assert(after@ =~= b@.skip(pos + m@.len()));
            }
            let rest = chars_of(trim_start(after.as_str()).as_str());
            let sep = chars_of("\n## ");
            let cut = match find_exec(&rest, &sep, 0) {
                Some(end) => {
                    proof {
                        crate::model::lemma_find_occurs(rest@, sep@, 0, end as int);
                    }
                    let c = slice_chars(&rest, 0, end);
                    proof {
                        assert(c@ =~= rest@.take(end as int));
                    }
                    c
                },
                None => rest,
            };
            let text = string_of(cut.as_slice());
            crate::text::trim(text.as_str())
        },
    }
}

} // verus!
