//! Confinement of file paths to a workspace directory.
//!
//! A path asked for by an untrusted party is resolved against a workspace
//! root. The outcome is either a canonical path that lies within the canonical
//! root, or a rejection that says why there is none.
//!
//! The decisions are made in [`resolver`], which never touches a filesystem:
//! a caller with a real one performs each lookup between two stages. For a
//! caller that holds the filesystem's answers in a [`snapshot::Snapshot`],
//! [`resolve_sandbox_path`] runs all stages at once.

use vstd::prelude::*;

pub mod laws;
pub mod path;
pub mod path_laws;
pub mod rejection;
pub mod resolver;
pub mod snapshot;

use crate::path::{has_traversal, within};
use crate::rejection::{Rejection, RejectionView};
use crate::resolver::{outcome_view, plan, resolution};
use crate::snapshot::Snapshot;
use vstd::utf8::encode_utf8;

verus! {

/// Resolves `user_path` against `workspace_root` on the filesystem that `fs`
/// records.
///
/// A path with a `..` component is turned away before anything is looked up.
/// A relative path is taken from the workspace root. The root is made
/// canonical, then the candidate: itself if it exists, else its parent
/// directory, to which the file name is appended. The canonical candidate is
/// returned if the components of the canonical root are its first components.
pub fn resolve_sandbox_path(user_path: &str, workspace_root: &[u8], fs: &Snapshot) -> (r: Result<
    Vec<u8>,
    Rejection,
>)
    ensures
        outcome_view(r) == resolution(user_path@, workspace_root@, fs@),
        has_traversal(encode_utf8(user_path@)) ==> (r matches Err(rejection) && rejection@
            == RejectionView::TraversalDenied),
        r matches Ok(path) ==> ((fs@.canonical)(workspace_root@) matches Ok(canonical_root)
            && within(path@, canonical_root)),
{
    let planned = plan(user_path, workspace_root)?;
    let rooted = planned.with_root(fs.canonicalize(workspace_root))?;
    let exists = fs.is_present(rooted.candidate.as_slice());
    let found = rooted.with_existence(exists)?;
    let answer = fs.canonicalize(found.target.as_slice());
    found.with_target(answer)
}

} // verus!
