//! The boundary enforcer: an allow-or-block decision for one raw path string
//! and one domain.
use vstd::prelude::*;
use vstd::string::*;
use crate::model::{globs_allow, Domain};
use crate::paths::PathContext;
use crate::patterns::{check_dangerous_patterns, is_dangerous, PathError};
use crate::text::lower_of;

verus! {

/// Outcome of an enforcement check; a block always carries its reason.
#[derive(Debug, Clone)]
pub enum EnforcementResult {
    Allow,
    Block { reason: String },
}

/// The reason carried by an outcome, or `None` for `Allow`.
pub open spec fn block_reason(r: EnforcementResult) -> Option<Seq<char>> {
    match r {
        EnforcementResult::Allow => None,
        EnforcementResult::Block { reason } => Some(reason@),
    }
}

impl EnforcementResult {
    pub fn is_allowed(&self) -> (r: bool)
        ensures
            r == (self is Allow),
    {
        match self {
            EnforcementResult::Allow => true,
            EnforcementResult::Block { .. } => false,
        }
    }
}

/// The reason given when `raw`, resolved to `canonical`, lies outside the domain.
pub open spec fn outside_reason(raw: Seq<char>, canonical: Seq<char>) -> Seq<char> {
    "path '"@ + raw + "' is outside domain boundary (resolved: '"@ + canonical + "')"@
}

/// The reason given for a raw path `raw` that holds an attack sequence: the
/// screening error's text, naming the first matching table entry.
pub open spec fn screen_reason(raw: Seq<char>) -> Seq<char> {
    let k = choose|k: int| #[trigger] crate::patterns::first_hit(lower_of(raw), k);
    "dangerous path detected: '"@ + raw + "' \u{2014} "@ + crate::patterns::dangerous_reason(k)
}

/// The decision for raw path `raw` in domain `d`, given the
/// operating system's resolution `resolved` of it: `None` to allow, else the
/// reason to block. Screening comes first, then resolution, then the globs.
pub open spec fn decision(d: Domain, raw: Seq<char>, resolved: Result<Seq<char>, Seq<char>>, ctx: PathContext) -> Option<Seq<char>> {
    if is_dangerous(lower_of(raw)) {
        Some(screen_reason(raw))
    } else {
        match resolved {
            Err(os) => Some("path resolution failed: "@ + "path resolution failed for '"@ + raw + "': "@ + os),
            Ok(c) => if globs_allow(d.paths@, c, ctx) {
                None
            } else {
                Some(outside_reason(raw, c))
            },
        }
    }
}

/// The characters of a resolution outcome.
pub open spec fn result_view(r: Result<String, String>) -> Result<Seq<char>, Seq<char>> {
    match r {
        Ok(s) => Ok(s@),
        Err(s) => Err(s@),
    }
}

/// Checks path strings against the boundary of one domain.
pub struct BoundaryEnforcer<'a> {
    domain: &'a Domain,
}

impl<'a> BoundaryEnforcer<'a> {
    pub closed spec fn domain(&self) -> Domain {
        *self.domain
    }

    pub fn new(domain: &'a Domain) -> (r: Self)
        ensures
            r.domain() == *domain,
    {
        BoundaryEnforcer { domain }
    }

    /// The decision that can be made before the filesystem is touched: a block
    /// for a string that holds an attack sequence, `None` where resolution
    /// must follow.
    pub fn screen(&self, path_str: &str) -> (r: Option<EnforcementResult>)
        ensures
            r is Some <==> is_dangerous(lower_of(path_str@)),
            r is Some ==> block_reason(r->0) == Some(screen_reason(path_str@)),
    {
        match check_dangerous_patterns(path_str) {
            Ok(()) => None,
            Err(e) => {
                proof {
                    let k = choose|k: int| #![trigger crate::patterns::first_hit(lower_of(path_str@), k)]
                        crate::patterns::first_hit(lower_of(path_str@), k) && (e matches PathError::DangerousPath { path, reason }
                        && path@ == path_str@ && reason@ == crate::patterns::dangerous_reason(k));
                    lemma_first_hit_unique(lower_of(path_str@), k);
                }
                Some(EnforcementResult::Block { reason: e.message() })
            },
        }
    }

    /// Decides for raw path `path_str`, given what the operating system made
    /// of it (`resolved`: its canonical form, or the failure message). A string
    /// holding an attack sequence is blocked whatever `resolved` holds.
    pub fn check_path(&self, path_str: &str, resolved: Result<String, String>, ctx: &PathContext) -> (r: EnforcementResult)
        ensures
            block_reason(r) == decision(self.domain(), path_str@, result_view(resolved), *ctx),
    {
        match self.screen(path_str) {
            Some(b) => {
                return b;
            },
            None => {},
        }
        match resolved {
            Err(os) => {
                let mut reason = String::from_str("path resolution failed: ");
                let e = PathError::Resolution { path: path_str.to_string(), source: os };
                let m = e.message();
                reason.append(m.as_str());
                EnforcementResult::Block { reason }
            },
            Ok(canonical) => {
                if self.domain.path_allowed(canonical.as_str(), ctx) {
                    EnforcementResult::Allow
                } else {
                    let mut reason = crate::patterns::text4(
                        "path '",
                        path_str,
                        "' is outside domain boundary (resolved: '",
                        canonical.as_str(),
                    );
                    reason.append("')");
                    EnforcementResult::Block { reason }
                }
            },
        }
    }
}

/// A raw string holding an attack sequence, in any letter case, is blocked
/// with the screening reason whatever the filesystem would have said of it
/// and whatever the domain: the decision is made before resolution.
pub proof fn lemma_screen_precedes_resolution(
    raw: Seq<char>,
    k: int,
    d1: Domain,
    d2: Domain,
    resolved1: Result<Seq<char>, Seq<char>>,
    resolved2: Result<Seq<char>, Seq<char>>,
    ctx1: PathContext,
    ctx2: PathContext,
)
    requires
        0 <= k < crate::patterns::PATTERN_COUNT,
        crate::text::contains(lower_of(raw), crate::patterns::dangerous_pattern(k)),
    ensures
        decision(d1, raw, resolved1, ctx1) == Some(screen_reason(raw)),
        decision(d2, raw, resolved2, ctx2) == Some(screen_reason(raw)),
{
    assert(is_dangerous(lower_of(raw)));
}

/// At most one table entry is the first to match.
pub proof fn lemma_first_hit_unique(l: Seq<char>, k: int)
    requires
        crate::patterns::first_hit(l, k),
    ensures
        forall|j: int| #[trigger] crate::patterns::first_hit(l, j) ==> j == k,
{
    assert forall|j: int| #[trigger] crate::patterns::first_hit(l, j) implies j == k by {
        if j < k {
            assert(crate::text::contains(l, crate::patterns::dangerous_pattern(j)));
        } else if j > k {
            assert(crate::text::contains(l, crate::patterns::dangerous_pattern(k)));
        }
    }
}

} // verus!
