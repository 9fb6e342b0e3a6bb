//! Reading project notes in the vault: where a note lives, its body without
//! front matter, and its sections.
use vstd::prelude::*;
use vstd::string::*;
use crate::model::lemma_find_occurs;
use crate::text::{chars_of, find_exec, find_from, has_prefix, has_prefix_exec, slice_chars, string_of, trim, trim_of};
use crate::vault::strip_leading_newlines;

verus! {

/// The first two `/`-separated parts of a vault-relative path, when it has
/// at least two.
pub open spec fn domain_project_of(p: Seq<char>) -> Option<(Seq<char>, Seq<char>)> {
    match find_from(p, "/"@, 0) {
        None => None,
        Some(i) => {
            let rest = p.skip(i + 1);
            Some((p.take(i), match find_from(rest, "/"@, 0) {
                Some(j) => rest.take(j),
                None => rest,
            }))
        },
    }
}

/// Splits a vault-relative path such as `work/app/current_state.md` into its
/// domain and project.
pub fn extract_domain_project(path: &str) -> (r: Option<(String, String)>)
    ensures
        match domain_project_of(path@) {
            Some((d, p)) => r matches Some((a, b)) && a@ == d && b@ == p,
            None => r is None,
        },
{
    let p = chars_of(path);
    let slash = chars_of("/");
    proof {
        reveal_strlit("/");
    }
    match find_exec(&p, &slash, 0) {
        None => None,
        Some(i) => {
            proof {
                lemma_find_occurs(p@, slash@, 0, i as int);
            }
            let n = p.len();
            let first = slice_chars(&p, 0, i);
            let rest = slice_chars(&p, i + 1, n);
            proof {
                assert(first@ =~= p@.take(i as int));
                assert(rest@ =~= p@.skip(i + 1));
            }
            let second = match find_exec(&rest, &slash, 0) {
                Some(j) => {
                    proof {
                        lemma_find_occurs(rest@, slash@, 0, j as int);
                    }
                    let s = slice_chars(&rest, 0, j);
                    proof {
                        assert(s@ =~= rest@.take(j as int));
                    }
                    s
                },
                None => rest,
            };
            Some((string_of(first.as_slice()), string_of(second.as_slice())))
        },
    }
}

/// A note's body without its front matter: for a note opening with `---`
/// that has a closing `\n---` followed by more text, the text after it
/// without leading newlines; any other note unchanged.
pub open spec fn without_frontmatter(c: Seq<char>) -> Seq<char> {
    if !has_prefix(c, "---"@) {
        c
    } else {
        match find_from(c.skip(3), "\n---"@, 0) {
            Some(end) => if end + 7 < c.len() {
                strip_leading_newlines(c.skip(end + 7))
            } else {
                c
            },
            None => c,
        }
    }
}

/// Removes the front matter of a note.
pub fn strip_frontmatter(content: &str) -> (r: String)
    ensures
        r@ == without_frontmatter(content@),
{
    let c = chars_of(content);
    proof {
        reveal_strlit("---");
        reveal_strlit("\n---");
    }
    if !has_prefix_exec(&c, &chars_of("---")) {
        return content.to_string();
    }
    let tail = slice_chars(&c, 3, c.len());
    proof {
        assert(tail@ =~= c@.skip(3));
    }
    let close = chars_of("\n---");
    match find_exec(&tail, &close, 0) {
        Some(end) => {
            proof {
                lemma_find_occurs(tail@, close@, 0, end as int);
            }
            let n = c.len();
            if end + 7 < n {
                let mut b: usize = end + 7;
                proof {
                    assert(c@.skip(end + 7) =~= c@.subrange(b as int, n as int));
                }
                while b < n && c[b] == '\n'
                    invariant
                        end + 7 <= b <= n == c@.len(),
                        strip_leading_newlines(c@.skip(end + 7)) == strip_leading_newlines(c@.subrange(b as int, n as int)),
                    decreases n - b,
                {
                    proof {
                        assert(c@.subrange(b as int, n as int).drop_first() =~= c@.subrange(b + 1, n as int));
                    }
                    b = b + 1;
                }
                string_of(slice_chars(&c, b, n).as_slice())
            } else {
                content.to_string()
            }
        },
        None => content.to_string(),
    }
}

/// Where the heading line `## heading` begins: at the very start of the body,
/// or after the first `\n` that precedes one.
pub open spec fn heading_start(body: Seq<char>, heading: Seq<char>) -> Option<int> {
    if has_prefix(body, "## "@ + heading) {
        Some(0)
    } else {
        match find_from(body, "\n## "@ + heading, 0) {
            Some(p) => Some(p + 1),
            None => None,
        }
    }
}

/// The text under heading `## heading` of a note: from the line after the
/// heading to the next `\n## ` (or the end), trimmed; empty when the heading
/// is missing or is the last line.
pub open spec fn section_under(body: Seq<char>, heading: Seq<char>) -> Seq<char> {
    match heading_start(body, heading) {
        None => Seq::empty(),
        Some(pos) => {
            let start = pos + 3 + heading.len();
            match find_from(body, "\n"@, start) {
                None => Seq::empty(),
                Some(nl) => {
                    let rest = body.skip(nl + 1);
                    match find_from(rest, "\n## "@, 0) {
                        Some(end) => trim_of(rest.take(end)),
                        None => trim_of(rest),
                    }
                },
            }
        },
    }
}

/// Extracts the text under a `## heading` of a note.
pub fn extract_section(body: &str, heading: &str) -> (r: String)
    ensures
        r@ == section_under(body@, heading@),
{
    let b = chars_of(body);
    let h = chars_of(heading);
    let mut head = String::from_str("## ");
    head.append(heading);
    let mut marker = String::from_str("\n## ");
    marker.append(heading);
    let hc = chars_of(head.as_str());
    let mc = chars_of(marker.as_str());
    proof {
        reveal_strlit("## ");
        reveal_strlit("\n## ");
        reveal_strlit("\n");
    }
    let bn = b.len();
    assert(hc@ == "## "@ + h@);
    assert(mc@ == "\n## "@ + h@);
    assert(hc@.len() == 3 + h@.len());
    assert(mc@.len() == 4 + h@.len());
    let pos: usize = if has_prefix_exec(&b, &hc) {
        0
    } else {
        match find_exec(&b, &mc, 0) {
            Some(p) => {
                proof {
                    lemma_find_occurs(b@, mc@, 0, p as int);
                }
                p + 1
            },
            None => return String::new(),
        }
    };
    proof {
        assert(pos + 3 + h@.len() <= b@.len());
    }
    let start: usize = pos + 3 + h.len();
    let nl_seq = chars_of("\n");
    let nl = match find_exec(&b, &nl_seq, start) {
        Some(nl) => nl,
        None => return String::new(),
    };
    proof {
        lemma_find_occurs(b@, nl_seq@, start as int, nl as int);
    }
    let rest = slice_chars(&b, nl + 1, b.len());
    proof {
        assert(rest@ =~= b@.skip(nl + 1));
    }
    let sep = chars_of("\n## ");
    let cut = match find_exec(&rest, &sep, 0) {
        Some(end) => {
            proof {
                lemma_find_occurs(rest@, sep@, 0, end as int);
            }
            let c = slice_chars(&rest, 0, end);
            proof {
                assert(c@ =~= rest@.take(end as int));
            }
            c
        },
        None => rest,
    };
    let text = string_of(cut.as_slice());
    trim(text.as_str())
}

} // verus!
