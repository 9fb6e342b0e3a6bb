//! Session transcripts as the indexer and summarizer see them: decoding of
//! project directory names, domain attribution, and the text handed to the
//! summarizer.
use vstd::prelude::*;
use vstd::string::*;
use crate::config::expanded_root;
use crate::model::Domain;
use crate::paths::{within, within_exec, PathContext};
use crate::text::{chars_of, concat_chars, same_chars, slice_chars, string_of};

verus! {

/// Metadata of one session transcript.
#[derive(Debug, Clone)]
pub struct SessionMeta {
    pub session_id: String,
    pub project_dir: String,
    pub project_path: String,
    pub domain: Option<String>,
    pub message_count: i64,
    pub user_message_count: i64,
    pub assistant_message_count: i64,
    pub first_message_at: Option<String>,
    pub last_message_at: Option<String>,
    pub file_size: i64,
    pub file_hash: String,
}

/// A session waiting for its summary.
#[derive(Debug, Clone)]
pub struct UnsummarizedSession {
    pub session_id: String,
    pub project_dir: String,
    pub project_path: String,
    pub domain: Option<String>,
    pub user_message_count: i64,
    pub file_size: i64,
}

/// Counts of an indexing run.
#[derive(Debug, Clone, Copy, PartialEq, Eq, Structural)]
pub struct IndexStats {
    pub scanned: usize,
    pub indexed: usize,
    pub skipped: usize,
    pub errors: usize,
}

/// Counts of a summarizing run.
#[derive(Debug, Clone, Copy, PartialEq, Eq, Structural)]
pub struct SummaryStats {
    pub summarized: usize,
    pub skipped: usize,
    pub errors: usize,
}

/// One message of a conversation.
#[derive(Debug, Clone)]
pub struct ConversationMessage {
    pub role: String,
    pub text: String,
}

/// A project directory name decoded into a path: a name starting with `-`
/// has every `-` turned into `/`; any other name is kept.
pub open spec fn decoded_dir(s: Seq<char>) -> Seq<char> {
    if s.len() > 0 && s[0] == '-' {
        s.map_values(|c: char| if c == '-' { '/' } else { c })
    } else {
        s
    }
}

/// Decodes a project directory name into the project's path.
pub fn decode_project_dir(dir_name: &str) -> (r: String)
    ensures
        r@ == decoded_dir(dir_name@),
{
    let cs = chars_of(dir_name);
    if cs.len() == 0 || cs[0] != '-' {
        return dir_name.to_string();
    }
    let mut out: Vec<char> = Vec::new();
    let mut i: usize = 0;
    while i < cs.len()
        invariant
            i <= cs@.len(),
            out@ == cs@.take(i as int).map_values(|c: char| if c == '-' { '/' } else { c }),
        decreases cs.len() - i,
    {
        let c = cs[i];
        out.push(if c == '-' { '/' } else { c });
        i = i + 1;
        proof {
            assert(out@ =~= cs@.take(i as int).map_values(|c: char| if c == '-' { '/' } else { c }));
        }
    }
    proof {
        assert(cs@.take(cs@.len() as int) =~= cs@);
    }
    string_of(out.as_slice())
}

/// Index `i` holds the first domain claiming project path `p`.
pub open spec fn first_owner(ds: Seq<Domain>, p: Seq<char>, ctx: PathContext, i: int) -> bool {
    &&& 0 <= i < ds.len()
    &&& crate::registry::claims(ds[i], p, ctx)
    &&& forall|k: int| 0 <= k < i ==> !crate::registry::claims(#[trigger] ds[k], p, ctx)
}

/// The name of the first domain that claims `project_path`, if any.
pub fn resolve_domain(project_path: &str, domains: &Vec<Domain>, ctx: &PathContext) -> (r: Option<String>)
    ensures
        match r {
            Some(n) => exists|i: int| first_owner(domains@, project_path@, *ctx, i) && n@ == domains@[i].name@,
            None => forall|i: int| 0 <= i < domains@.len() ==> !crate::registry::claims(#[trigger] domains@[i], project_path@, *ctx),
        },
{
    let p = chars_of(project_path);
    let mut i: usize = 0;
    while i < domains.len()
        invariant
            p@ == project_path@,
            i <= domains@.len(),
            forall|k: int| 0 <= k < i ==> !crate::registry::claims(#[trigger] domains@[k], project_path@, *ctx),
        decreases domains.len() - i,
    {
        if crate::registry::domain_claims(&domains[i], &p, ctx) {
            proof {
                assert(first_owner(domains@, project_path@, *ctx, i as int));
            }
            return Some(domains[i].name.as_str().to_string());
        }
        i = i + 1;
    }
    None
}

/// The front matter of a session summary document.
pub open spec fn summary_frontmatter(domain: Option<Seq<char>>, project: Seq<char>) -> Seq<char> {
    "---\ntype: thread\n"@ + (match domain {
        Some(d) => "domain: "@ + d + "\n"@,
        None => Seq::empty(),
    }) + "project: "@ + project + "\nstatus: resolved\nconfidence: inferred\nsummary: Session summary for "@
        + project + "\n---\n"@
}

/// Builds the front matter of the summary document for `session`.
pub fn build_summary_frontmatter(session: &UnsummarizedSession) -> (r: String)
    ensures
        r@ == summary_frontmatter(crate::paths::view_opt_string(session.domain), session.project_path@),
{
    let mut r = String::from_str("---\ntype: thread\n");
    match &session.domain {
        Some(d) => {
            r.append("domain: ");
            r.append(d.as_str());
            r.append("\n");
        },
        None => {},
    }
    r.append("project: ");
    r.append(session.project_path.as_str());
    r.append("\nstatus: resolved\nconfidence: inferred\nsummary: Session summary for ");
    r.append(session.project_path.as_str());
    r.append("\n---\n");
    proof {
        let dpart = match crate::paths::view_opt_string(session.domain) {
            Some(d) => "domain: "@ + d + "\n"@,
            None => Seq::<char>::empty(),
        };
        assert(r@ =~= summary_frontmatter(crate::paths::view_opt_string(session.domain), session.project_path@));
    }
    r
}

/// Number of bytes of the UTF-8 encoding of `c`.
pub open spec fn utf8_width(c: char) -> nat {
    let v = c as u32;
    if v < 0x80 {
        1
    } else if v < 0x800 {
        2
    } else if v < 0x10000 {
        3
    } else {
        4
    }
}

/// Number of bytes of the UTF-8 encoding of `s`.
pub open spec fn byte_len(s: Seq<char>) -> nat
    decreases s.len(),
{
    if s.len() == 0 {
        0
    } else {
        byte_len(s.drop_last()) + utf8_width(s.last())
    }
}

/// Largest per-message size, in bytes, before a message is cut.
pub const MESSAGE_LIMIT: usize = 5000;

/// Largest payload size, in bytes.
pub const PAYLOAD_LIMIT: usize = 100000;

/// The number of leading characters of `s`, from `k` on with `used` bytes
/// already taken, that fit in the message limit.
pub open spec fn fit_from(s: Seq<char>, k: int, used: nat) -> int
    decreases s.len() - k,
{
    if 0 <= k < s.len() && used + utf8_width(s[k]) <= MESSAGE_LIMIT {
        fit_from(s, k + 1, used + utf8_width(s[k]))
    } else {
        k
    }
}

/// The text of a message as shown: cut at the last character boundary within
/// the message limit and marked, when it is longer.
pub open spec fn shown_text(t: Seq<char>) -> Seq<char> {
    if byte_len(t) > MESSAGE_LIMIT {
        t.take(fit_from(t, 0, 0)) + "...[truncated]"@
    } else {
        t
    }
}

pub open spec fn role_label(role: Seq<char>) -> Seq<char> {
    if role == "user"@ {
        "User"@
    } else {
        "Assistant"@
    }
}

/// The payload entry of one message.
pub open spec fn entry_text(m: ConversationMessage) -> Seq<char> {
    "**"@ + role_label(m.role@) + ":** "@ + shown_text(m.text@) + "\n\n"@
}

/// The payload from message `i` on, after `acc`: entries are added while the
/// payload stays within its limit; the first that would not fit ends it
/// with a truncation note.
pub open spec fn payload_from(ms: Seq<ConversationMessage>, i: int, acc: Seq<char>) -> Seq<char>
    decreases ms.len() - i,
{
    if i < 0 || i >= ms.len() {
        acc
    } else if byte_len(acc) + byte_len(entry_text(ms[i])) > PAYLOAD_LIMIT {
        acc + "\n[...conversation truncated for length...]\n"@
    } else {
        payload_from(ms, i + 1, acc + entry_text(ms[i]))
    }
}

proof fn lemma_byte_len_concat(a: Seq<char>, b: Seq<char>)
    ensures
        byte_len(a + b) == byte_len(a) + byte_len(b),
    decreases b.len(),
{
    if b.len() == 0 {
        assert(a + b =~= a);
    } else {
        assert((a + b).drop_last() =~= a + b.drop_last());
        lemma_byte_len_concat(a, b.drop_last());
    }
}

proof fn lemma_byte_len_prefix(s: Seq<char>, k: int)
    requires
        0 <= k <= s.len(),
    ensures
        byte_len(s.take(k)) <= byte_len(s),
    decreases s.len() - k,
{
    if k < s.len() {
        assert(s.take(k + 1).drop_last() =~= s.take(k));
        lemma_byte_len_prefix(s, k + 1);
    } else {
        assert(s.take(k) =~= s);
    }
}

proof fn lemma_byte_len_bound(s: Seq<char>)
    ensures
        byte_len(s) <= 4 * s.len(),
    decreases s.len(),
{
    if s.len() > 0 {
        lemma_byte_len_bound(s.drop_last());
    }
}

fn width(c: char) -> (r: usize)
    ensures
        r == utf8_width(c),
{
    let v = c as u32;
    if v < 0x80 {
        1
    } else if v < 0x800 {
        2
    } else if v < 0x10000 {
        3
    } else {
        4
    }
}

fn byte_count(s: &Vec<char>) -> (r: usize)
    requires
        s@.len() <= 1000000,
    ensures
        r == byte_len(s@),
{
    let mut r: usize = 0;
    let mut i: usize = 0;
    while i < s.len()
        invariant
            i <= s@.len() <= 1000000,
            r == byte_len(s@.take(i as int)),
            r <= 4 * i,
        decreases s.len() - i,
    {
        proof {
            assert(s@.take(i + 1).drop_last() =~= s@.take(i as int));
        }
        r = r + width(s[i]);
        i = i + 1;
    }
    proof {
        assert(s@.take(s@.len() as int) =~= s@);
    }
    r
}

fn shown_text_exec(t: &Vec<char>) -> (r: Vec<char>)
    ensures
        r@ == shown_text(t@),
        r@.len() <= MESSAGE_LIMIT + 14 || r@ == t@,
{
    let mut k: usize = 0;
    let mut used: usize = 0;
    proof {
        assert(t@.take(0) =~= Seq::<char>::empty());
    }
    while k < t.len() && used + width(t[k]) <= MESSAGE_LIMIT
        invariant
            k <= t@.len(),
            used <= MESSAGE_LIMIT,
            used == byte_len(t@.take(k as int)),
            k <= used,
            fit_from(t@, 0, 0) == fit_from(t@, k as int, used as nat),
        decreases t.len() - k,
    {
        proof {
            assert(t@.take(k + 1).drop_last() =~= t@.take(k as int));
        }
        used = used + width(t[k]);
        k = k + 1;
    }
    if k == t.len() {
        proof {
            assert(t@.take(k as int) =~= t@);
        }
        slice_chars(t, 0, t.len())
    } else {
        proof {
            assert(t@.take(k + 1).drop_last() =~= t@.take(k as int));
            lemma_byte_len_prefix(t@, k + 1);
            assert(fit_from(t@, k as int, used as nat) == k);
        }
        let head = slice_chars(t, 0, k);
        proof {
            assert(head@ =~= t@.take(k as int));
            reveal_strlit("...[truncated]");
        }
        concat_chars(&head, &chars_of("...[truncated]"))
    }
}

fn entry_exec(m: &ConversationMessage) -> (r: Vec<char>)
    ensures
        r@ == entry_text(*m),
{
    let role = chars_of(m.role.as_str());
    let label = if same_chars(&role, &chars_of("user")) {
        chars_of("User")
    } else {
        chars_of("Assistant")
    };
    let text = chars_of(m.text.as_str());
    let shown = shown_text_exec(&text);
    let a = concat_chars(&chars_of("**"), &label);
    let b = concat_chars(&a, &chars_of(":** "));
    let c = concat_chars(&b, &shown);
    concat_chars(&c, &chars_of("\n\n"))
}

/// The conversation condensed for the summarizer: one `**Role:** text`
/// entry per message, each message cut to the message limit, and the whole
/// kept within the payload limit.
pub fn build_conversation_payload(conversation: &Vec<ConversationMessage>) -> (r: String)
    ensures
        r@ == payload_from(conversation@, 0, Seq::empty()),
{
    let mut out: Vec<char> = Vec::new();
    let mut plen: usize = 0;
    let mut i: usize = 0;
    while i < conversation.len()
        invariant
            i <= conversation@.len(),
            plen == byte_len(out@),
            plen <= PAYLOAD_LIMIT,
            out@.len() <= plen,
            payload_from(conversation@, 0, Seq::empty()) == payload_from(conversation@, i as int, out@),
        decreases conversation.len() - i,
    {
        let entry = entry_exec(&conversation[i]);
        let elen: usize = if entry.len() <= 1000000 {
            proof {
                lemma_byte_len_bound(entry@);
            }
            byte_count(&entry)
        } else {
            proof {
                lemma_len_le_bytes(entry@);
            }
            PAYLOAD_LIMIT + 1
        };
        assert(elen <= 4000000);
        assert(entry@.len() > 1000000 ==> byte_len(entry@) > PAYLOAD_LIMIT);
        if plen + elen > PAYLOAD_LIMIT {
            let note = chars_of("\n[...conversation truncated for length...]\n");
            let done = concat_chars(&out, &note);
            return string_of(done.as_slice());
        }
        proof {
            lemma_byte_len_concat(out@, entry@);
            lemma_len_le_bytes(entry@);
        }
        out = concat_chars(&out, &entry);
        plen = plen + elen;
        i = i + 1;
    }
    string_of(out.as_slice())
}

proof fn lemma_len_le_bytes(s: Seq<char>)
    ensures
        s.len() <= byte_len(s),
    decreases s.len(),
{
    if s.len() > 0 {
        lemma_len_le_bytes(s.drop_last());
    }
}

} // verus!
