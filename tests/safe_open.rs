use wardwell::config::PathGlob;
use wardwell::open::{
    safe_open_begin, safe_open_canonicalized, safe_open_opened, safe_open_verify, validate_path,
    FileIdentity, OpenStep,
};
use wardwell::paths::{is_within_boundaries, PathContext};
use wardwell::patterns::PathError;

/// A stand-in for the filesystem: each existing path, its canonical form
/// (symlinks followed), the identity of the file it leads to, and contents.
struct FakeFs {
    entries: Vec<(String, String, FileIdentity, String)>,
}

impl FakeFs {
    fn find(&self, p: &str) -> Option<&(String, String, FileIdentity, String)> {
        self.entries.iter().find(|e| e.0 == p)
    }

    fn canonicalize(&self, p: &str) -> Result<String, String> {
        self.find(p).map(|e| e.1.clone()).ok_or_else(|| "No such file or directory (os error 2)".to_string())
    }

    fn identity(&self, p: &str) -> Result<FileIdentity, String> {
        self.find(p).map(|e| e.2).ok_or_else(|| "No such file or directory (os error 2)".to_string())
    }
}

fn file(path: &str, canonical: &str, ino: u64, contents: &str) -> (String, String, FileIdentity, String) {
    (path.to_string(), canonical.to_string(), FileIdentity { dev: 7, ino }, contents.to_string())
}

/// Drives the verified-open protocol over `fs`; the handle is the identity
/// and contents of the file that was opened.
fn safe_open(fs: &FakeFs, path: &str, boundaries: &[PathGlob]) -> Result<(FileIdentity, String), PathError> {
    let mut step = safe_open_begin(path);
    let mut handle: Option<(FileIdentity, String)> = None;
    loop {
        step = match step {
            OpenStep::OpenFile => match fs.find(path) {
                Some(e) => {
                    handle = Some((e.2, e.3.clone()));
                    safe_open_opened(path, Ok(()))
                }
                None => safe_open_opened(path, Err("No such file or directory (os error 2)".to_string())),
            },
            OpenStep::Canonicalize => safe_open_canonicalized(path, fs.canonicalize(path)),
            OpenStep::CompareIdentity { canonical } => {
                let held = handle.as_ref().map(|h| h.0).ok_or_else(|| "no handle".to_string());
                safe_open_verify(path, &canonical, held, fs.identity(&canonical), &boundaries.to_vec(), &PathContext::new(None))
            }
            OpenStep::Granted { .. } => return Ok(handle.expect("opened")),
            OpenStep::Refused(e) => return Err(e),
        };
    }
}

fn safe_open_read(fs: &FakeFs, path: &str, boundaries: &[PathGlob]) -> Result<String, PathError> {
    let (_, contents) = safe_open(fs, path, boundaries)?;
    wardwell::open::safe_open_read(path, Ok(contents))
}

fn world() -> FakeFs {
    FakeFs {
        entries: vec![
            file("/in/allowed.txt", "/in/allowed.txt", 1, "hello"),
            file("/in/readable.txt", "/in/readable.txt", 2, "TOCTOU-safe content here"),
            file("/out/secret.txt", "/out/secret.txt", 3, "secret data"),
            file("/in/sneaky_link.txt", "/out/secret.txt", 3, "secret data"),
            file("/mid/link_b.txt", "/out/secret.txt", 3, "secret data"),
            file("/in/link_a.txt", "/out/secret.txt", 3, "secret data"),
        ],
    }
}

fn inside() -> PathGlob {
    PathGlob::new("/in/*").unwrap()
}

#[test]
fn symlink_outside_boundary_detected() {
    let fs = world();
    let resolved = fs.canonicalize("/in/sneaky_link.txt").unwrap();
    assert!(!is_within_boundaries(&resolved, &vec!["/in".to_string()]));
}

#[test]
fn symlink_chain_outside_boundary_detected() {
    let fs = world();
    let resolved = fs.canonicalize("/in/link_a.txt").unwrap();
    assert!(!is_within_boundaries(&resolved, &vec!["/in".to_string()]));
    let result = safe_open(&fs, "/in/link_a.txt", &[inside()]);
    assert!(matches!(&result, Err(PathError::OutsideBoundary { .. })), "{result:?}");
}

#[test]
fn safe_open_within_boundary() {
    let result = safe_open(&world(), "/in/allowed.txt", &[inside()]);
    assert!(result.is_ok(), "file inside boundary should open successfully");
}

#[test]
fn safe_open_outside_boundary() {
    let result = safe_open(&world(), "/out/secret.txt", &[inside()]);
    match &result {
        Err(PathError::OutsideBoundary { path, boundary }) => {
            assert!(path.contains("secret.txt"));
            assert_eq!(boundary, "/in/*");
        }
        other => panic!("unexpected {other:?}"),
    }
}

#[test]
fn safe_open_nonexistent() {
    let result = safe_open(&world(), "/in/does_not_exist.txt", &[inside()]);
    match &result {
        Err(PathError::ResolutionFailed { reason, .. }) => {
            assert!(reason.contains("No such file") || reason.contains("not found"), "got: {reason}")
        }
        other => panic!("expected a resolution failure, got {other:?}"),
    }
}

#[test]
fn safe_open_read_works() {
    let result = safe_open_read(&world(), "/in/readable.txt", &[inside()]);
    assert_eq!(result.unwrap(), "TOCTOU-safe content here");
}

#[test]
fn safe_open_symlink_outside_boundary() {
    let result = safe_open(&world(), "/in/sneaky_link.txt", &[inside()]);
    assert!(
        matches!(&result, Err(PathError::OutsideBoundary { .. })),
        "should be OutsideBoundary error, got: {result:?}"
    );
}

#[test]
fn swapped_path_is_traversal() {
    let mut fs = world();
    // The canonical path now leads to another file than the one opened.
    fs.entries.push(file("/in/swap.txt", "/in/allowed.txt", 99, "x"));
    let result = safe_open(&fs, "/in/swap.txt", &[inside()]);
    assert!(matches!(&result, Err(PathError::TraversalDetected { .. })), "{result:?}");
}

#[test]
fn safe_open_dangerous_nonexistent_path_is_screened() {
    let result = safe_open(&world(), "/definitely/missing/../secret", &[]);
    assert!(matches!(&result, Err(PathError::DangerousPath { .. })), "{result:?}");
}

#[test]
fn identity_mismatch_is_traversal() {
    let g = PathGlob::new("/tmp/*").unwrap();
    let step = safe_open_verify(
        "/tmp/a",
        "/tmp/a",
        Ok(FileIdentity { dev: 1, ino: 2 }),
        Ok(FileIdentity { dev: 1, ino: 3 }),
        &vec![g.clone()],
        &PathContext::new(None),
    );
    match step {
        OpenStep::Refused(PathError::TraversalDetected { path, reason }) => {
            assert_eq!(path, "/tmp/a");
            assert_eq!(reason, "fd does not match canonical path (device/inode mismatch \u{2014} possible TOCTOU attack)");
        }
        other => panic!("unexpected {other:?}"),
    }
    let outside = safe_open_verify(
        "/etc/x",
        "/etc/x",
        Ok(FileIdentity { dev: 1, ino: 2 }),
        Ok(FileIdentity { dev: 1, ino: 2 }),
        &vec![g.clone(), PathGlob::new("/srv/*").unwrap()],
        &PathContext::new(None),
    );
    match outside {
        OpenStep::Refused(PathError::OutsideBoundary { path, boundary }) => {
            assert_eq!(path, "/etc/x");
            assert_eq!(boundary, "/tmp/*, /srv/*");
        }
        other => panic!("unexpected {other:?}"),
    }
}

#[test]
fn read_failure_is_reported() {
    match wardwell::open::safe_open_read("/tmp/a", Err("stream did not contain valid UTF-8".to_string())) {
        Err(PathError::ReadFailed { path, reason }) => {
            assert_eq!(path, "/tmp/a");
            assert_eq!(reason, "stream did not contain valid UTF-8");
        }
        other => panic!("unexpected {other:?}"),
    }
}

#[test]
fn validate_path_screens_then_resolves() {
    assert!(matches!(validate_path("../x", Ok("/x".to_string())), Err(PathError::DangerousPath { .. })));
    assert_eq!(validate_path("/tmp", Ok("/private/tmp".to_string())).unwrap(), "/private/tmp");
    assert!(matches!(validate_path("/nope", Err("missing".to_string())), Err(PathError::Resolution { .. })));
}
