//! Opening a file without a check-then-use race. The caller performs each
//! filesystem step and hands its outcome to the matching decision here:
//! screen the raw string, open it, canonicalize the same string, compare the
//! identity (device, inode) of the open handle with that of the canonical
//! path, and only then test the canonical path against the boundaries.
use vstd::prelude::*;
use vstd::string::*;
use crate::config::PathGlob;
use crate::model::{globs_allow, globs_view};
use crate::paths::PathContext;
use crate::patterns::{check_dangerous_patterns, is_dangerous, screened, PathError};
use crate::text::lower_of;

verus! {

/// The identity of a file: the device it lives on and its inode number.
#[derive(Debug, Clone, Copy, PartialEq, Eq, Structural)]
pub struct FileIdentity {
    pub dev: u64,
    pub ino: u64,
}

/// What the protocol asks of the caller next, or how it ended.
#[derive(Debug, Clone)]
pub enum OpenStep {
    /// Open the raw path and keep the handle.
    OpenFile,
    /// Canonicalize the raw path.
    Canonicalize,
    /// Read the identity of the handle and of `canonical`.
    CompareIdentity { canonical: String },
    /// The handle may be used; it refers to `canonical`.
    Granted { canonical: String },
    /// Access is refused.
    Refused(PathError),
}

/// The reason given when the handle and the canonical path differ.
pub open spec fn mismatch_reason() -> Seq<char> {
    "fd does not match canonical path (device/inode mismatch \u{2014} possible TOCTOU attack)"@
}

/// The boundary globs, separated by `, `.
pub open spec fn joined(gs: Seq<Seq<char>>) -> Seq<char>
    decreases gs.len(),
{
    if gs.len() == 0 {
        Seq::empty()
    } else if gs.len() == 1 {
        gs[0]
    } else {
        joined(gs.drop_last()) + ", "@ + gs.last()
    }
}

/// Full validation of a raw path: screening, then the operating system's
/// canonical form of it (`resolved`, or the failure message). The caller
/// resolves only strings that passed `check_dangerous_patterns`; a string
/// holding an attack sequence is refused whatever `resolved` holds.
pub fn validate_path(path_str: &str, resolved: Result<String, String>) -> (r: Result<String, PathError>)
    ensures
        is_dangerous(lower_of(path_str@)) ==> r is Err && screened(path_str@, Err(r->Err_0)),
        !is_dangerous(lower_of(path_str@)) ==> match resolved {
            Ok(c) => r is Ok && r->Ok_0@ == c@,
            Err(m) => r matches Err(PathError::Resolution { path, source }) && path@ == path_str@ && source@ == m@,
        },
{
    match check_dangerous_patterns(path_str) {
        Err(e) => Err(e),
        Ok(()) => match resolved {
            Ok(c) => Ok(c),
            Err(m) => Err(PathError::Resolution { path: path_str.to_string(), source: m }),
        },
    }
}

/// Step one: screen the raw string before any filesystem call.
pub fn safe_open_begin(path: &str) -> (r: OpenStep)
    ensures
        r is OpenFile <==> !is_dangerous(lower_of(path@)),
        r is Refused ==> screened(path@, Err(r->Refused_0)),
        r is OpenFile || r is Refused,
{
    match check_dangerous_patterns(path) {
        Ok(()) => OpenStep::OpenFile,
        Err(e) => OpenStep::Refused(e),
    }
}

/// Step two: the outcome of opening the raw path (the failure message, if any).
pub fn safe_open_opened(path: &str, opened: Result<(), String>) -> (r: OpenStep)
    ensures
        match opened {
            Ok(_) => r is Canonicalize,
            Err(m) => r matches OpenStep::Refused(PathError::ResolutionFailed { path: p, reason })
                && p@ == path@ && reason@ == m@,
        },
{
    match opened {
        Ok(()) => OpenStep::Canonicalize,
        Err(m) => OpenStep::Refused(PathError::ResolutionFailed { path: path.to_string(), reason: m }),
    }
}

/// Step three: the outcome of canonicalizing the raw path.
pub fn safe_open_canonicalized(path: &str, canonical: Result<String, String>) -> (r: OpenStep)
    ensures
        match canonical {
            Ok(c) => r matches OpenStep::CompareIdentity { canonical: c2 } && c2@ == c@,
            Err(m) => r matches OpenStep::Refused(PathError::ResolutionFailed { path: p, reason })
                && p@ == path@ && reason@ == "canonicalization failed: "@ + m@,
        },
{
    match canonical {
        Ok(c) => OpenStep::CompareIdentity { canonical: c },
        Err(m) => {
            let mut reason = String::from_str("canonicalization failed: ");
            reason.append(m.as_str());
            OpenStep::Refused(PathError::ResolutionFailed { path: path.to_string(), reason })
        },
    }
}

fn join_globs(boundaries: &Vec<PathGlob>) -> (r: String)
    ensures
        r@ == joined(globs_view(boundaries@)),
{
    let mut r = String::new();
    let mut i: usize = 0;
    while i < boundaries.len()
        invariant
            i <= boundaries@.len(),
            r@ == joined(globs_view(boundaries@.take(i as int))),
        decreases boundaries.len() - i,
    {
        proof {
            assert(globs_view(boundaries@.take(i + 1)).drop_last() =~= globs_view(boundaries@.take(i as int)));
        }
        if i > 0 {
            r.append(", ");
        } else {
            proof {
                assert(r@ == Seq::<char>::empty());
                assert(r@ + boundaries@[0]@ =~= boundaries@[0]@);
            }
        }
        r.append(boundaries[i].as_str());
        i = i + 1;
    }
    proof {
        assert(boundaries@.take(boundaries@.len() as int) =~= boundaries@);
    }
    r
}

/// Steps four and five: the identities read from the handle and from the
/// canonical path, then the boundary test of the canonical path.
pub fn safe_open_verify(
    path: &str,
    canonical: &str,
    handle: Result<FileIdentity, String>,
    target: Result<FileIdentity, String>,
    boundaries: &Vec<PathGlob>,
    ctx: &PathContext,
) -> (r: OpenStep)
    ensures
        r is Granted || r is Refused,
        r is Granted <==> (handle is Ok && target is Ok && handle->Ok_0 == target->Ok_0
            && globs_allow(boundaries@, canonical@, *ctx)),
        r is Granted ==> r->Granted_canonical@ == canonical@,
        handle is Err ==> (r matches OpenStep::Refused(PathError::ResolutionFailed { path: p, reason })
            && p@ == path@ && reason@ == handle->Err_0@),
        handle is Ok && target is Err ==> (r matches OpenStep::Refused(PathError::ResolutionFailed { path: p, reason })
            && p@ == path@ && reason@ == target->Err_0@),
        handle is Ok && target is Ok && handle->Ok_0 != target->Ok_0 ==> (r matches OpenStep::Refused(
            PathError::TraversalDetected { path: p, reason },
        ) && p@ == path@ && reason@ == mismatch_reason()),
        handle is Ok && target is Ok && handle->Ok_0 == target->Ok_0 && !globs_allow(boundaries@, canonical@, *ctx)
            ==> (r matches OpenStep::Refused(PathError::OutsideBoundary { path: p, boundary })
            && p@ == canonical@ && boundary@ == joined(globs_view(boundaries@))),
{
    let h = match handle {
        Ok(h) => h,
        Err(m) => return OpenStep::Refused(PathError::ResolutionFailed { path: path.to_string(), reason: m }),
    };
    let t = match target {
        Ok(t) => t,
        Err(m) => return OpenStep::Refused(PathError::ResolutionFailed { path: path.to_string(), reason: m }),
    };
    if h.dev != t.dev || h.ino != t.ino {
        return OpenStep::Refused(PathError::TraversalDetected {
            path: path.to_string(),
            reason: "fd does not match canonical path (device/inode mismatch \u{2014} possible TOCTOU attack)".to_string(),
        });
    }
    assert(h == t);
    let mut i: usize = 0;
    while i < boundaries.len()
        invariant
            handle == Ok::<FileIdentity, String>(h),
            target == Ok::<FileIdentity, String>(t),
            h == t,
            i <= boundaries@.len(),
            forall|j: int| 0 <= j < i ==> !#[trigger] crate::config::glob_allows(boundaries@[j]@, canonical@, *ctx),
        decreases boundaries.len() - i,
    {
        if boundaries[i].matches(canonical, ctx) {
            return OpenStep::Granted { canonical: canonical.to_string() };
        }
        i = i + 1;
    }
    OpenStep::Refused(PathError::OutsideBoundary { path: canonical.to_string(), boundary: join_globs(boundaries) })
}

/// The last step of a verified read: the contents read from the granted
/// handle, or the failure message.
pub fn safe_open_read(path: &str, read: Result<String, String>) -> (r: Result<String, PathError>)
    ensures
        match read {
            Ok(c) => r is Ok && r->Ok_0@ == c@,
            Err(m) => r matches Err(PathError::ReadFailed { path: p, reason }) && p@ == path@ && reason@ == m@,
        },
{
    match read {
        Ok(c) => Ok(c),
        Err(m) => Err(PathError::ReadFailed { path: path.to_string(), reason: m }),
    }
}

} // verus!
