//! Resolution of a path asked for by an untrusted party, in stages.
//!
//! The resolver decides; it never touches the filesystem. Between two stages
//! the caller looks one thing up and hands the answer to the next stage:
//!
//! 1. [`plan`] turns away traversal and builds the candidate. The caller makes
//!    the workspace root canonical.
//! 2. [`Planned::with_root`] takes the canonical root. The caller finds out
//!    whether the candidate exists.
//! 3. [`Rooted::with_existence`] picks the path to make canonical: the
//!    candidate if it exists, else its parent directory. The caller makes that
//!    path canonical.
//! 4. [`Located::with_target`] takes the canonical path, appends the name of a
//!    new file, and checks that the result lies within the canonical root.
//!
//! [`resolution`] says what the four stages come to on a given filesystem.

use crate::path::{file_name, has_traversal, joined, parent, within};
use crate::path::{file_name_of, join, parent_of, path_has_traversal, path_within};
use crate::rejection::{MissingPart, Rejection, RejectionView};
use vstd::prelude::*;
use vstd::slice::slice_to_vec;
use vstd::utf8::encode_utf8;

verus! {

/// What a filesystem answers when asked to make a path canonical: the
/// canonical form, or the reason why the path has none.
pub type Answer = Result<Seq<u8>, Seq<char>>;

/// What a resolution comes to: the resolved path, or the rejection.
pub type Outcome = Result<Seq<u8>, RejectionView>;

/// What a filesystem answers: whether a path exists, and its canonical form
/// or the reason why it has none.
pub struct Filesystem {
    pub present: spec_fn(Seq<u8>) -> bool,
    pub canonical: spec_fn(Seq<u8>) -> Answer,
}

/// The path asked for, as seen from the workspace root: itself if it is
/// absolute, else appended to the root.
pub open spec fn candidate(asked: Seq<char>, root: Seq<u8>) -> Seq<u8> {
    joined(root, encode_utf8(asked))
}

/// Which path is to be made canonical for a candidate, and the name to append
/// to the answer: the candidate itself if it exists, else its parent directory
/// and its file name.
///
/// Of a candidate that does not exist only the parent directory is looked up.
/// Where that does not exist either, the resolution fails: a new file below
/// directories that are new themselves is not resolved level by level.
pub open spec fn located(candidate: Seq<u8>, exists: bool) -> Result<
    (Seq<u8>, Option<Seq<u8>>),
    RejectionView,
> {
    if exists {
        Ok((candidate, None))
    } else {
        match (parent(candidate), file_name(candidate)) {
            (None, _) => Err(RejectionView::InvalidPath(MissingPart::Parent)),
            (Some(_), None) => Err(RejectionView::InvalidPath(MissingPart::FileName)),
            (Some(dir), Some(name)) => Ok((dir, Some(name))),
        }
    }
}

/// The canonical form of a candidate, given the filesystem's answer for the
/// path that was to be made canonical.
pub open spec fn canonical_form(name: Option<Seq<u8>>, answer: Answer) -> Outcome {
    match (answer, name) {
        (Err(reason), None) => Err(RejectionView::PathResolution(reason)),
        (Err(reason), Some(_)) => Err(RejectionView::ParentResolution(reason)),
        (Ok(path), None) => Ok(path),
        (Ok(dir), Some(name)) => Ok(joined(dir, name)),
    }
}

/// The canonical path if it lies within the canonical root, else the denial
/// that names the path asked for.
pub open spec fn confined(path: Seq<u8>, canonical_root: Seq<u8>, asked: Seq<char>) -> Outcome {
    if within(path, canonical_root) {
        Ok(path)
    } else {
        Err(RejectionView::AccessDenied(asked))
    }
}

/// The canonical form of `candidate` on `fs`: that of the candidate itself if
/// it exists, else that of its parent directory with its file name appended.
pub open spec fn canonical_candidate(candidate: Seq<u8>, fs: Filesystem) -> Outcome {
    match located(candidate, (fs.present)(candidate)) {
        Err(rejection) => Err(rejection),
        Ok((target, name)) => canonical_form(name, (fs.canonical)(target)),
    }
}

/// What resolving `asked` against `root` comes to on `fs`.
///
/// Traversal is turned away before the filesystem is consulted. Then the root
/// is made canonical, then the candidate, and the canonical candidate is
/// returned if it lies within the canonical root.
pub open spec fn resolution(asked: Seq<char>, root: Seq<u8>, fs: Filesystem) -> Outcome {
    if has_traversal(encode_utf8(asked)) {
        Err(RejectionView::TraversalDenied)
    } else {
        match (fs.canonical)(root) {
            Err(reason) => Err(RejectionView::RootResolution(reason)),
            Ok(canonical_root) => match canonical_candidate(candidate(asked, root), fs) {
                Err(rejection) => Err(rejection),
                Ok(path) => confined(path, canonical_root, asked),
            },
        }
    }
}

/// An answer of the filesystem as a mathematical value.
pub open spec fn answer_view(answer: Result<Vec<u8>, String>) -> Answer {
    match answer {
        Ok(path) => Ok(path@),
        Err(reason) => Err(reason@),
    }
}

/// The outcome of a resolution as a mathematical value.
pub open spec fn outcome_view(outcome: Result<Vec<u8>, Rejection>) -> Outcome {
    match outcome {
        Ok(path) => Ok(path@),
        Err(rejection) => Err(rejection@),
    }
}

/// A request that passed the traversal check. Next, `root` is to be made
/// canonical.
pub struct Planned {
    /// The path as it was asked for.
    pub asked: String,
    /// The workspace root as it was given.
    pub root: Vec<u8>,
    /// The path asked for, as seen from the root.
    pub candidate: Vec<u8>,
}

/// A request whose workspace root is canonical. Next, the existence of
/// `candidate` is to be found out.
pub struct Rooted {
    /// The path as it was asked for.
    pub asked: String,
    /// The canonical form of the workspace root.
    pub canonical_root: Vec<u8>,
    /// The path asked for, as seen from the root.
    pub candidate: Vec<u8>,
}

/// A request for which it is settled what to look up. Next, `target` is to be
/// made canonical.
pub struct Located {
    /// The path as it was asked for.
    pub asked: String,
    /// The canonical form of the workspace root.
    pub canonical_root: Vec<u8>,
    /// The candidate if it exists, else its parent directory.
    pub target: Vec<u8>,
    /// The name of the new file, where the candidate does not exist.
    pub file_name: Option<Vec<u8>>,
}

/// Turns away a path with a `..` component, whatever it points to, and
/// otherwise builds the candidate: the path itself if it is absolute, else the
/// path appended to the workspace root.
pub fn plan(user_path: &str, workspace_root: &[u8]) -> (r: Result<Planned, Rejection>)
    ensures
        match r {
            Ok(planned) => {
                &&& !has_traversal(encode_utf8(user_path@))
                &&& planned.asked@ == user_path@
                &&& planned.root@ == workspace_root@
                &&& planned.candidate@ == candidate(user_path@, workspace_root@)
            },
            Err(rejection) => {
                &&& has_traversal(encode_utf8(user_path@))
                &&& rejection@ == RejectionView::TraversalDenied
            },
        },
{
    let wanted = user_path.as_bytes();
    if path_has_traversal(wanted) {
        return Err(Rejection::TraversalDenied);
    }
    Ok(
        Planned {
            asked: String::from_str(user_path),
            root: slice_to_vec(workspace_root),
            candidate: join(workspace_root, wanted),
        },
    )
}

impl Planned {
    /// Takes the canonical form of the workspace root, or the reason why the
    /// root has none.
    pub fn with_root(self, canonical: Result<Vec<u8>, String>) -> (r: Result<Rooted, Rejection>)
        ensures
            match canonical {
                Ok(canonical_root) => {
                    &&& r matches Ok(rooted)
                    &&& rooted.asked@ == self.asked@
                    &&& rooted.canonical_root@ == canonical_root@
                    &&& rooted.candidate@ == self.candidate@
                },
                Err(reason) => {
                    &&& r matches Err(rejection)
                    &&& rejection@ == RejectionView::RootResolution(reason@)
                },
            },
    {
        match canonical {
            Ok(canonical_root) => Ok(
                Rooted { asked: self.asked, canonical_root, candidate: self.candidate },
            ),
            Err(reason) => Err(Rejection::RootResolution(reason)),
        }
    }
}

impl Rooted {
    /// Takes whether the candidate exists and settles which path is to be
    /// made canonical. A candidate that does not exist must have a parent
    /// directory and end in a file name; only that parent is looked up.
    pub fn with_existence(self, exists: bool) -> (r: Result<Located, Rejection>)
        ensures
            match located(self.candidate@, exists) {
                Ok((target, name)) => {
                    &&& r matches Ok(found)
                    &&& found.asked@ == self.asked@
                    &&& found.canonical_root@ == self.canonical_root@
                    &&& found.target@ == target
                    &&& found.name_view() == name
                },
                Err(rejection) => r matches Err(e) && e@ == rejection,
            },
    {
        if exists {
            return Ok(
                Located {
                    asked: self.asked,
                    canonical_root: self.canonical_root,
                    target: self.candidate,
                    file_name: None,
                },
            );
        }
        let dir = match parent_of(self.candidate.as_slice()) {
            Some(dir) => dir,
            None => {
                return Err(Rejection::InvalidPath(MissingPart::Parent));
            },
        };
        let name = match file_name_of(self.candidate.as_slice()) {
            Some(name) => name,
            None => {
                return Err(Rejection::InvalidPath(MissingPart::FileName));
            },
        };
        Ok(
            Located {
                asked: self.asked,
                canonical_root: self.canonical_root,
                target: dir,
                file_name: Some(name),
            },
        )
    }
}

impl Located {
    /// The name of the new file as a mathematical value.
    pub open spec fn name_view(&self) -> Option<Seq<u8>> {
        match self.file_name {
            Some(name) => Some(name@),
            None => None,
        }
    }

    /// Takes the canonical form of the target, or the reason why it has none,
    /// appends the name of a new file, and returns the path if it lies within
    /// the canonical root.
    pub fn with_target(self, canonical: Result<Vec<u8>, String>) -> (r: Result<Vec<u8>, Rejection>)
        ensures
            outcome_view(r) == match canonical_form(self.name_view(), answer_view(canonical)) {
                Err(rejection) => Err(rejection),
                Ok(path) => confined(path, self.canonical_root@, self.asked@),
            },
            r matches Ok(path) ==> within(path@, self.canonical_root@),
    {
        let path = match canonical {
            Ok(found) => match &self.file_name {
                Some(name) => join(found.as_slice(), name.as_slice()),
                None => found,
            },
            Err(reason) => {
                return Err(
                    match &self.file_name {
                        Some(_) => Rejection::ParentResolution(reason),
                        None => Rejection::PathResolution(reason),
                    },
                );
            },
        };
        if path_within(path.as_slice(), self.canonical_root.as_slice()) {
            Ok(path)
        } else {
            Err(Rejection::AccessDenied(self.asked))
        }
    }
}

} // verus!
