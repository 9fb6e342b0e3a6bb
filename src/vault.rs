//! Metadata of vault documents, as the vault reader hands it over.
use vstd::prelude::*;
use crate::text::{
    chars_of, find_exec, find_from, has_prefix, has_prefix_exec, lines_exec, lines_of, same_chars, slice_chars, string_of, trim,
    trim_of, trim_start, trim_start_of, views,
};

verus! {

/// The kind of a vault document; unknown kinds read as `Reference`.
#[derive(Debug, Clone, Copy, PartialEq, Eq, Structural)]
pub enum VaultType {
    Project,
    Decision,
    Insight,
    Thread,
    Domain,
    Reference,
}

/// Status of a vault entry.
#[derive(Debug, Clone, Copy, PartialEq, Eq, Structural)]
pub enum Status {
    Active,
    Completed,
    Blocked,
    Resolved,
    Abandoned,
    Superseded,
}

/// How firmly the user stands behind a vault entry.
#[derive(Debug, Clone, Copy, PartialEq, Eq, Structural)]
pub enum Confidence {
    Inferred,
    Proposed,
    Confirmed,
}

/// A calendar date.
#[derive(Debug, Clone, Copy, PartialEq, Eq, Structural)]
pub struct CalendarDate {
    pub year: i32,
    pub month: u32,
    pub day: u32,
}

/// Front matter of a vault document.
#[derive(Debug, Clone)]
pub struct Frontmatter {
    pub file_type: VaultType,
    pub domain: Option<String>,
    pub status: Option<Status>,
    pub confidence: Option<Confidence>,
    pub updated: Option<CalendarDate>,
    pub summary: Option<String>,
    pub related: Vec<String>,
    pub tags: Vec<String>,
    /// Other domains a domain document may read from.
    pub can_read: Vec<String>,
}

/// A vault document: its path, front matter and body.
#[derive(Debug, Clone)]
pub struct VaultFile {
    pub path: String,
    pub frontmatter: Frontmatter,
    pub body: String,
}

/// Failures of reading a vault document.
#[derive(Debug, Clone)]
pub enum VaultError {
    NoFrontmatter,
    UnclosedFrontmatter,
    Parse(String),
    Io { path: String, source: String },
}

/// `s` without its leading `\n` characters.
pub open spec fn strip_leading_newlines(s: Seq<char>) -> Seq<char>
    decreases s.len(),
{
    if s.len() > 0 && s[0] == '\n' {
        strip_leading_newlines(s.drop_first())
    } else {
        s
    }
}

/// A document split into its front matter text and its body: the document,
/// past leading whitespace, opens with `---`; the front matter runs to the
/// first `\n---`, and the body follows it without leading newlines.
pub open spec fn split_document(content: Seq<char>) -> Result<(Seq<char>, Seq<char>), VaultError> {
    let t = trim_start_of(content);
    if !has_prefix(t, "---"@) {
        Err(VaultError::NoFrontmatter)
    } else {
        let after = t.skip(3);
        match find_from(after, "\n---"@, 0) {
            None => Err(VaultError::UnclosedFrontmatter),
            Some(pos) => Ok((after.take(pos), strip_leading_newlines(after.skip(pos + 4)))),
        }
    }
}

/// Splits a vault document into its front matter text and its body.
pub fn split_frontmatter(content: &str) -> (r: Result<(String, String), VaultError>)
    ensures
        match split_document(content@) {
            Ok((fm, body)) => r matches Ok((a, b)) && a@ == fm && b@ == body,
            Err(VaultError::NoFrontmatter) => r matches Err(VaultError::NoFrontmatter),
            Err(_) => r matches Err(VaultError::UnclosedFrontmatter),
        },
{
    let t = chars_of(trim_start(content).as_str());
    let open = chars_of("---");
    if !has_prefix_exec(&t, &open) {
        return Err(VaultError::NoFrontmatter);
    }
    proof {
        reveal_strlit("---");
        reveal_strlit("\n---");
    }
    let after = slice_chars(&t, 3, t.len());
    proof {
        assert(after@ =~= t@.skip(3));
    }
    let close = chars_of("\n---");
    match find_exec(&after, &close, 0) {
        None => Err(VaultError::UnclosedFrontmatter),
        Some(pos) => {
            proof {
                crate::model::lemma_find_occurs(after@, close@, 0, pos as int);
            }
            let fm = slice_chars(&after, 0, pos);
            let n = after.len();
            let mut b: usize = pos + 4;
            proof {
                assert(fm@ =~= after@.take(pos as int));
                assert(after@.skip(pos + 4) =~= after@.subrange(pos + 4, n as int));
            }
            while b < n && after[b] == '\n'
                invariant
                    pos + 4 <= b <= n == after@.len(),
                    strip_leading_newlines(after@.skip(pos + 4)) == strip_leading_newlines(after@.subrange(b as int, n as int)),
                decreases n - b,
            {
                proof {
                    assert(after@.subrange(b as int, n as int).drop_first() =~= after@.subrange(b + 1, n as int));
                }
                b = b + 1;
            }
            let body = slice_chars(&after, b, n);
            Ok((string_of(fm.as_slice()), string_of(body.as_slice())))
        },
    }
}

/// `s` without its leading `#` characters.
pub open spec fn strip_hashes(s: Seq<char>) -> Seq<char>
    decreases s.len(),
{
    if s.len() > 0 && s[0] == '#' {
        strip_hashes(s.drop_first())
    } else {
        s
    }
}

/// The summary inferred for a document without front matter, from line `i`
/// on: its first non-blank line, without leading `#` and trimmed.
pub open spec fn inferred_summary(ls: Seq<Seq<char>>, i: int) -> Option<Seq<char>>
    decreases ls.len() - i,
{
    if i < 0 || i >= ls.len() {
        None
    } else if trim_of(ls[i]).len() > 0 {
        Some(trim_of(strip_hashes(ls[i])))
    } else {
        inferred_summary(ls, i + 1)
    }
}

/// The metadata given to a document without front matter: a reference, with
/// the summary taken from its first non-blank line.
pub fn default_frontmatter(content: &str) -> (r: Frontmatter)
    ensures
        r.file_type == VaultType::Reference,
        r.domain is None && r.status is None && r.confidence is None && r.updated is None,
        r.related@.len() == 0 && r.tags@.len() == 0 && r.can_read@.len() == 0,
        crate::paths::view_opt_string(r.summary) == inferred_summary(lines_of(content@), 0),
{
    let cs = chars_of(content);
    let ls = lines_exec(&cs);
    let mut i: usize = 0;
    while i < ls.len()
        invariant
            i <= ls@.len(),
            views(ls@) == lines_of(content@),
            inferred_summary(lines_of(content@), 0) == inferred_summary(lines_of(content@), i as int),
        decreases ls.len() - i,
    {
        let line = string_of(ls[i].as_slice());
        assert(line@ == views(ls@)[i as int]);
        let t = trim(line.as_str());
        if !t.as_str().is_empty() {
            let l = &ls[i];
            let mut k: usize = 0;
            proof {
                assert(l@.skip(0) =~= l@);
            }
            while k < l.len() && l[k] == '#'
                invariant
                    k <= l@.len(),
                    strip_hashes(l@) == strip_hashes(l@.skip(k as int)),
                decreases l.len() - k,
            {
                proof {
                    assert(l@.skip(k as int).drop_first() =~= l@.skip(k + 1));
                }
                k = k + 1;
            }
            proof {
                assert(l@.skip(k as int) =~= l@.subrange(k as int, l@.len() as int));
            }
            let rest = string_of(slice_chars(l, k, l.len()).as_slice());
            return reference_meta(Some(trim(rest.as_str())));
        }
        i = i + 1;
    }
    reference_meta(None)
}

fn reference_meta(summary: Option<String>) -> (r: Frontmatter)
    ensures
        r.file_type == VaultType::Reference,
        r.domain is None && r.status is None && r.confidence is None && r.updated is None,
        r.related@.len() == 0 && r.tags@.len() == 0 && r.can_read@.len() == 0,
        r.summary == summary,
{
    Frontmatter {
        file_type: VaultType::Reference,
        domain: None,
        status: None,
        confidence: None,
        updated: None,
        summary,
        related: Vec::new(),
        tags: Vec::new(),
        can_read: Vec::new(),
    }
}

pub open spec fn vault_type_of(s: Seq<char>) -> VaultType {
    if s == "project"@ {
        VaultType::Project
    } else if s == "decision"@ {
        VaultType::Decision
    } else if s == "insight"@ {
        VaultType::Insight
    } else if s == "thread"@ {
        VaultType::Thread
    } else if s == "domain"@ {
        VaultType::Domain
    } else {
        VaultType::Reference
    }
}

pub open spec fn status_of(s: Seq<char>) -> Option<Status> {
    if s == "active"@ {
        Some(Status::Active)
    } else if s == "resolved"@ {
        Some(Status::Resolved)
    } else if s == "abandoned"@ {
        Some(Status::Abandoned)
    } else if s == "superseded"@ {
        Some(Status::Superseded)
    } else {
        None
    }
}

pub open spec fn confidence_of(s: Seq<char>) -> Option<Confidence> {
    if s == "inferred"@ {
        Some(Confidence::Inferred)
    } else if s == "proposed"@ {
        Some(Confidence::Proposed)
    } else if s == "confirmed"@ {
        Some(Confidence::Confirmed)
    } else {
        None
    }
}

fn is_word(s: &Vec<char>, w: &str) -> (r: bool)
    ensures
        r == (s@ == w@),
{
    let cs = chars_of(w);
    same_chars(s, &cs)
}

/// The document kind named by `s`; unknown names give `Reference`.
pub fn parse_vault_type(s: &str) -> (r: VaultType)
    ensures
        r == vault_type_of(s@),
{
    let cs = chars_of(s);
    if is_word(&cs, "project") {
        VaultType::Project
    } else if is_word(&cs, "decision") {
        VaultType::Decision
    } else if is_word(&cs, "insight") {
        VaultType::Insight
    } else if is_word(&cs, "thread") {
        VaultType::Thread
    } else if is_word(&cs, "domain") {
        VaultType::Domain
    } else {
        VaultType::Reference
    }
}

/// The status named by `s`, if it is one that documents may declare.
pub fn parse_status(s: &str) -> (r: Option<Status>)
    ensures
        r == status_of(s@),
{
    let cs = chars_of(s);
    if is_word(&cs, "active") {
        Some(Status::Active)
    } else if is_word(&cs, "resolved") {
        Some(Status::Resolved)
    } else if is_word(&cs, "abandoned") {
        Some(Status::Abandoned)
    } else if is_word(&cs, "superseded") {
        Some(Status::Superseded)
    } else {
        None
    }
}

/// The confidence named by `s`, if any.
pub fn parse_confidence(s: &str) -> (r: Option<Confidence>)
    ensures
        r == confidence_of(s@),
{
    let cs = chars_of(s);
    if is_word(&cs, "inferred") {
        Some(Confidence::Inferred)
    } else if is_word(&cs, "proposed") {
        Some(Confidence::Proposed)
    } else if is_word(&cs, "confirmed") {
        Some(Confidence::Confirmed)
    } else {
        None
    }
}

} // verus!
