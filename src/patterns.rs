//! Screening of raw path strings for known attack sequences, done before any
//! filesystem call is made.
use vstd::prelude::*;
use vstd::string::*;
use crate::text::{chars_of, contains, contains_exec, lower_of, to_lowercase};

verus! {

/// Failures of path screening, resolution and verified opening.
#[derive(Debug, Clone)]
pub enum PathError {
    /// The operating system could not resolve the path.
    Resolution { path: String, source: String },
    /// Opening, canonicalizing or inspecting the path failed.
    ResolutionFailed { path: String, reason: String },
    /// The raw string holds a known attack sequence.
    DangerousPath { path: String, reason: String },
    /// The canonical path lies outside every boundary.
    OutsideBoundary { path: String, boundary: String },
    /// The opened handle and the canonical path name different files.
    TraversalDetected { path: String, reason: String },
    /// Reading an opened file failed.
    ReadFailed { path: String, reason: String },
}

/// The human-readable text of error `e`.
pub open spec fn error_text(e: PathError) -> Seq<char> {
    match e {
        PathError::Resolution { path, source } => "path resolution failed for '"@ + path@ + "': "@
            + source@,
        PathError::ResolutionFailed { path, reason } => "path resolution failed for '"@ + path@
            + "': "@ + reason@,
        PathError::DangerousPath { path, reason } => "dangerous path detected: '"@ + path@
            + "' \u{2014} "@ + reason@,
        PathError::OutsideBoundary { path, boundary } => "path '"@ + path@
            + "' is outside domain boundary ("@ + boundary@ + ")"@,
        PathError::TraversalDetected { path, reason } => "TOCTOU traversal detected for '"@ + path@
            + "': "@ + reason@,
        PathError::ReadFailed { path, reason } => "failed to read file '"@ + path@ + "': "@
            + reason@,
    }
}

/// `a`, `b`, `c` and `d` in sequence.
pub fn text4(a: &str, b: &str, c: &str, d: &str) -> (r: String)
    ensures
        r@ == a@ + b@ + c@ + d@,
{
    let mut r = String::from_str(a);
    r.append(b);
    r.append(c);
    r.append(d);
    r
}

impl PathError {
    /// The human-readable text of the error.
    pub fn message(&self) -> (r: String)
        ensures
            r@ == error_text(*self),
    {
        match self {
            PathError::Resolution { path, source } => text4(
                "path resolution failed for '",
                path.as_str(),
                "': ",
                source.as_str(),
            ),
            PathError::ResolutionFailed { path, reason } => text4(
                "path resolution failed for '",
                path.as_str(),
                "': ",
                reason.as_str(),
            ),
            PathError::DangerousPath { path, reason } => text4(
                "dangerous path detected: '",
                path.as_str(),
                "' \u{2014} ",
                reason.as_str(),
            ),
            PathError::OutsideBoundary { path, boundary } => {
                let mut r = text4("path '", path.as_str(), "' is outside domain boundary (", boundary.as_str());
                r.append(")");
                r
            },
            PathError::TraversalDetected { path, reason } => text4(
                "TOCTOU traversal detected for '",
                path.as_str(),
                "': ",
                reason.as_str(),
            ),
            PathError::ReadFailed { path, reason } => text4(
                "failed to read file '",
                path.as_str(),
                "': ",
                reason.as_str(),
            ),
        }
    }
}

/// Number of entries in the attack-sequence table.
pub const PATTERN_COUNT: usize = 17;

/// The attack sequence of table entry `k`, in lower case: the form in which
/// it is compared with the lower-cased input.
pub open spec fn dangerous_pattern(k: int) -> Seq<char> {
    if k == 0 { "../"@ }
    else if k == 1 { "..\\"@ }
    else if k == 2 { "%2e%2e"@ }
    else if k == 3 { "%2e%2e"@ }
    else if k == 4 { "%2e%2e%2f"@ }
    else if k == 5 { "%2e%2e%5c"@ }
    else if k == 6 { "%2e%2e/"@ }
    else if k == 7 { "%2e%2e\\"@ }
    else if k == 8 { "%252e%252e"@ }
    else if k == 9 { "..%2f"@ }
    else if k == 10 { "..%5c"@ }
    else if k == 11 { "%2e%2e/"@ }
    else if k == 12 { "\x00"@ }
    else if k == 13 { "%00"@ }
    else if k == 14 { "\u{FF0E}\u{FF0E}/"@ }
    else if k == 15 { "\u{FF0E}\u{FF0E}\\"@ }
    else { "\u{2025}"@ }
}

/// The human-readable reason of table entry `k`.
pub open spec fn dangerous_reason(k: int) -> Seq<char> {
    if k == 0 { "directory traversal"@ }
    else if k == 1 { "directory traversal (backslash)"@ }
    else if k == 2 { "URL-encoded traversal (lowercase)"@ }
    else if k == 3 { "URL-encoded traversal (uppercase)"@ }
    else if k == 4 { "URL-encoded traversal with slash (lowercase)"@ }
    else if k == 5 { "URL-encoded traversal with backslash"@ }
    else if k == 6 { "URL-encoded dots with raw slash"@ }
    else if k == 7 { "URL-encoded dots with raw backslash"@ }
    else if k == 8 { "double-encoded traversal"@ }
    else if k == 9 { "mixed traversal (dots + encoded slash)"@ }
    else if k == 10 { "mixed traversal (dots + encoded backslash)"@ }
    else if k == 11 { "mixed traversal (encoded dots + raw slash)"@ }
    else if k == 12 { "null byte injection"@ }
    else if k == 13 { "URL-encoded null byte"@ }
    else if k == 14 { "fullwidth period traversal"@ }
    else if k == 15 { "fullwidth period traversal (backslash)"@ }
    else { "two-dot leader (unicode traversal)"@ }
}

/// The lower-cased text `l` holds some attack sequence of the table.
pub open spec fn is_dangerous(l: Seq<char>) -> bool {
    exists|k: int| 0 <= k < PATTERN_COUNT && #[trigger] contains(l, dangerous_pattern(k))
}

/// Entry `k` is the first table entry whose sequence occurs in `l`.
pub open spec fn first_hit(l: Seq<char>, k: int) -> bool {
    &&& 0 <= k < PATTERN_COUNT
    &&& contains(l, dangerous_pattern(k))
    &&& forall|j: int| 0 <= j < k ==> !#[trigger] contains(l, dangerous_pattern(j))
}

/// The outcome of screening `raw`: the error names the first matching entry.
pub open spec fn screened(raw: Seq<char>, r: Result<(), PathError>) -> bool {
    screened_as(raw, lower_of(raw), r)
}

fn table_entry(k: usize) -> (r: (&'static str, &'static str))
    requires
        k < PATTERN_COUNT,
    ensures
        r.0@ == dangerous_pattern(k as int),
        r.1@ == dangerous_reason(k as int),
{
    if k == 0 { ("../", "directory traversal") }
    else if k == 1 { ("..\\", "directory traversal (backslash)") }
    else if k == 2 { ("%2e%2e", "URL-encoded traversal (lowercase)") }
    else if k == 3 { ("%2e%2e", "URL-encoded traversal (uppercase)") }
    else if k == 4 { ("%2e%2e%2f", "URL-encoded traversal with slash (lowercase)") }
    else if k == 5 { ("%2e%2e%5c", "URL-encoded traversal with backslash") }
    else if k == 6 { ("%2e%2e/", "URL-encoded dots with raw slash") }
    else if k == 7 { ("%2e%2e\\", "URL-encoded dots with raw backslash") }
    else if k == 8 { ("%252e%252e", "double-encoded traversal") }
    else if k == 9 { ("..%2f", "mixed traversal (dots + encoded slash)") }
    else if k == 10 { ("..%5c", "mixed traversal (dots + encoded backslash)") }
    else if k == 11 { ("%2e%2e/", "mixed traversal (encoded dots + raw slash)") }
    else if k == 12 { ("\x00", "null byte injection") }
    else if k == 13 { ("%00", "URL-encoded null byte") }
    else if k == 14 { ("\u{FF0E}\u{FF0E}/", "fullwidth period traversal") }
    else if k == 15 { ("\u{FF0E}\u{FF0E}\\", "fullwidth period traversal (backslash)") }
    else { ("\u{2025}", "two-dot leader (unicode traversal)") }
}

/// The outcome of screening `raw`, whose lower-cased form is `lowered`: the
/// error names the first matching table entry.
pub open spec fn screened_as(raw: Seq<char>, lowered: Seq<char>, r: Result<(), PathError>) -> bool {
    match r {
        Ok(_) => !is_dangerous(lowered),
        Err(e) => exists|k: int|
            #![trigger first_hit(lowered, k)]
            first_hit(lowered, k) && (e matches PathError::DangerousPath { path, reason }
                && path@ == raw && reason@ == dangerous_reason(k)),
    }
}

/// Screens `path_str` given its lower-cased form `lowered` against the table
/// of attack sequences.
pub fn screen_lowered(path_str: &str, lowered: &str) -> (r: Result<(), PathError>)
    ensures
        screened_as(path_str@, lowered@, r),
        r is Err <==> is_dangerous(lowered@),
{
    let hay = chars_of(lowered);
    let mut k: usize = 0;
    while k < PATTERN_COUNT
        invariant
            k <= PATTERN_COUNT,
            hay@ == lowered@,
            forall|j: int| 0 <= j < k ==> !#[trigger] contains(hay@, dangerous_pattern(j)),
        decreases PATTERN_COUNT - k,
    {
        let (pattern, reason) = table_entry(k);
        let needle = chars_of(pattern);
        if contains_exec(&hay, &needle) {
            let e = PathError::DangerousPath { path: path_str.to_string(), reason: reason.to_string() };
            proof {
                assert(first_hit(lowered@, k as int));
            }
            return Err(e);
        }
        k = k + 1;
    }
    Ok(())
}

/// Screens the unresolved string `path_str`, lower-cased, against the table of
/// attack sequences. Pure: it touches no filesystem.
pub fn check_dangerous_patterns(path_str: &str) -> (r: Result<(), PathError>)
    ensures
        screened(path_str@, r),
        r is Err <==> is_dangerous(lower_of(path_str@)),
{
    let lowered = to_lowercase(path_str);
    screen_lowered(path_str, lowered.as_str())
}

} // verus!
