//! What a change under the vault calls for: a registry rebuild when a domain
//! document changed, and an index update for any markdown document.
use vstd::prelude::*;
use crate::paths::{join, join_exec, strip_slashes, strip_slashes_exec, within, within_exec};
use crate::registry::{is_markdown, is_markdown_path};
use crate::text::{chars_of, slice_chars, string_of};

verus! {

/// What to do with the search index for a changed document.
#[derive(Debug, Clone)]
pub enum IndexAction {
    /// The document exists: read it and upsert it.
    Upsert,
    /// The document is gone: remove the entry under this vault-relative path.
    Remove { relative: String },
    /// Not a markdown document: nothing to do.
    Skip,
}

/// The response to one change notification.
#[derive(Debug, Clone)]
pub struct WatchAction {
    /// Rebuild the domain registry from the vault, and swap it in whole.
    pub rebuild_registry: bool,
    pub index: IndexAction,
}

/// `p` relative to `root`, as `Path::strip_prefix` gives it; `p` itself when
/// it does not lie below `root`.
pub open spec fn relative_to(p: Seq<char>, root: Seq<char>) -> Seq<char> {
    let s = strip_slashes(root);
    if root.len() == 0 || !within(p, root) {
        p
    } else if s.len() == 0 {
        p.skip(1)
    } else if p.len() == s.len() {
        Seq::empty()
    } else {
        p.skip(s.len() as int + 1)
    }
}

/// The domain-definition directory of the vault at `root`.
pub open spec fn domains_dir(root: Seq<char>) -> Seq<char> {
    join(root, "domains"@)
}

/// Decides what a change of `path` under the vault at `vault_root` calls
/// for; `exists` tells whether the path still exists.
pub fn on_vault_event(vault_root: &str, path: &str, exists: bool) -> (r: WatchAction)
    ensures
        !is_markdown(path@) ==> !r.rebuild_registry && r.index is Skip,
        is_markdown(path@) ==> r.rebuild_registry == within(path@, domains_dir(vault_root@)),
        is_markdown(path@) && exists ==> r.index is Upsert,
        is_markdown(path@) && !exists ==> (r.index matches IndexAction::Remove { relative }
            && relative@ == relative_to(path@, vault_root@)),
{
    if !is_markdown_path(path) {
        return WatchAction { rebuild_registry: false, index: IndexAction::Skip };
    }
    let root = chars_of(vault_root);
    let p = chars_of(path);
    let dir = join_exec(&root, &chars_of("domains"));
    let rebuild = within_exec(&p, &dir);
    if exists {
        return WatchAction { rebuild_registry: rebuild, index: IndexAction::Upsert };
    }
    let stripped = strip_slashes_exec(&root);
    let rel = if root.len() == 0 || !within_exec(&p, &root) {
        slice_chars(&p, 0, p.len())
    } else if stripped.len() == 0 {
        slice_chars(&p, 1, p.len())
    } else if p.len() == stripped.len() {
        Vec::new()
    } else {
        slice_chars(&p, stripped.len() + 1, p.len())
    };
    proof {
        let sv = strip_slashes(root@);
        assert(stripped@ == sv);
        assert(p@ == path@ && root@ == vault_root@);
        assert(p@.subrange(0, p@.len() as int) =~= p@);
        if root@.len() > 0 && within(p@, root@) {
            if sv.len() == 0 {
                assert(p@.subrange(1, p@.len() as int) =~= p@.skip(1));
                assert(rel@ == relative_to(p@, root@));
            } else if p@.len() == sv.len() {
                assert(rel@ =~= Seq::<char>::empty());
                assert(rel@ == relative_to(p@, root@));
            } else {
                assert(p@.subrange(sv.len() as int + 1, p@.len() as int) =~= p@.skip(sv.len() as int + 1));
                assert(rel@ == relative_to(p@, root@));
            }
        } else {
            assert(rel@ == relative_to(p@, root@));
        }
        assert(rel@ == relative_to(p@, root@));
    }
    WatchAction { rebuild_registry: rebuild, index: IndexAction::Remove { relative: string_of(rel.as_slice()) } }
}

} // verus!
