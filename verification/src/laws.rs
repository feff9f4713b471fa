//! What holds of every resolution, on every filesystem.

use crate::path::{
    components, file_name, has_traversal, is_absolute, joined, parent, parent_dir, stem, within,
    SEPARATOR,
};
use crate::path_laws::{
    components_of_joined_name, file_name_is_plain, is_file_name, joined_lies_within_base,
    joined_name_stays_within, last_start_of_segment, parent_and_name_of_joined,
    within_is_reflexive,
};
use crate::rejection::RejectionView;
use crate::resolver::{
    candidate, canonical_candidate, resolution, Answer, Filesystem, Outcome,
};
use vstd::prelude::*;
use vstd::utf8::encode_utf8;

verus! {

/// A path with a `..` component is turned away as traversal, whatever the
/// workspace root is and whatever exists on the filesystem.
pub proof fn traversal_is_denied(asked: Seq<char>, root: Seq<u8>, fs: Filesystem)
    requires
        has_traversal(encode_utf8(asked)),
    ensures
        resolution(asked, root, fs) == Outcome::Err(
            RejectionView::TraversalDenied,
        ),
{
}

/// A path that is resolved has no `..` component and lies within the
/// canonical form of the workspace root.
pub proof fn resolved_path_lies_within_root(asked: Seq<char>, root: Seq<u8>, fs: Filesystem)
    requires
        resolution(asked, root, fs) is Ok,
    ensures
        !has_traversal(encode_utf8(asked)),
        (fs.canonical)(root) matches Ok(canonical_root) && within(
            resolution(asked, root, fs)->Ok_0,
            canonical_root,
        ),
{
}

/// A resolution looks up three paths at most: the workspace root, the
/// candidate, and the parent directory of the candidate. Two filesystems that
/// answer alike for these give the same outcome.
pub proof fn resolution_rests_on_three_lookups(
    asked: Seq<char>,
    root: Seq<u8>,
    fs: Filesystem,
    other: Filesystem,
)
    requires
        (fs.canonical)(root) == (other.canonical)(root),
        (fs.present)(candidate(asked, root)) == (other.present)(candidate(asked, root)),
        (fs.canonical)(candidate(asked, root)) == (other.canonical)(candidate(asked, root)),
        parent(candidate(asked, root)) matches Some(dir) ==> (fs.canonical)(dir) == (
        other.canonical)(dir),
    ensures
        resolution(asked, root, fs) == resolution(asked, root, other),
{
}

/// A relative path without `..` resolves to the path joined to the canonical
/// root, where that is the canonical form of the candidate.
pub proof fn relative_path_resolves_below_root(
    asked: Seq<char>,
    root: Seq<u8>,
    fs: Filesystem,
    canonical_root: Seq<u8>,
)
    requires
        !is_absolute(encode_utf8(asked)),
        !has_traversal(encode_utf8(asked)),
        (fs.canonical)(root) == Answer::Ok(canonical_root),
        canonical_candidate(candidate(asked, root), fs) == Outcome::Ok(
            candidate(asked, canonical_root),
        ),
    ensures
        resolution(asked, root, fs) == Outcome::Ok(candidate(asked, canonical_root)),
{
    joined_lies_within_base(canonical_root, encode_utf8(asked));
}

/// An absolute path without `..` whose canonical form lies within the
/// canonical root resolves to that canonical form.
pub proof fn absolute_path_inside_is_resolved(
    asked: Seq<char>,
    root: Seq<u8>,
    fs: Filesystem,
    canonical_root: Seq<u8>,
    canonical_path: Seq<u8>,
)
    requires
        is_absolute(encode_utf8(asked)),
        !has_traversal(encode_utf8(asked)),
        (fs.canonical)(root) == Answer::Ok(canonical_root),
        canonical_candidate(encode_utf8(asked), fs) == Outcome::Ok(canonical_path),
        within(canonical_path, canonical_root),
    ensures
        resolution(asked, root, fs) == Outcome::Ok(canonical_path),
{
}

/// An absolute path without `..` whose canonical form lies outside the
/// canonical root is denied access, and the denial names the path as it was
/// asked for.
pub proof fn absolute_path_outside_is_denied(
    asked: Seq<char>,
    root: Seq<u8>,
    fs: Filesystem,
    canonical_root: Seq<u8>,
    canonical_path: Seq<u8>,
)
    requires
        is_absolute(encode_utf8(asked)),
        !has_traversal(encode_utf8(asked)),
        (fs.canonical)(root) == Answer::Ok(canonical_root),
        canonical_candidate(encode_utf8(asked), fs) == Outcome::Ok(canonical_path),
        !within(canonical_path, canonical_root),
    ensures
        resolution(asked, root, fs) == Outcome::Err(
            RejectionView::AccessDenied(asked),
        ),
{
}

/// Whether `path` is canonical on `fs`: it is absolute, has no `..`, and is
/// its own canonical form.
pub open spec fn is_canonical(path: Seq<u8>, fs: Filesystem) -> bool {
    &&& is_absolute(path)
    &&& !has_traversal(path)
    &&& canonical_candidate(path, fs) == Outcome::Ok(path)
}

/// A canonical path that lies within the canonical root resolves to itself.
pub proof fn canonical_path_resolves_to_itself(
    asked: Seq<char>,
    root: Seq<u8>,
    fs: Filesystem,
    canonical_root: Seq<u8>,
)
    requires
        is_canonical(encode_utf8(asked), fs),
        (fs.canonical)(root) == Answer::Ok(canonical_root),
        within(encode_utf8(asked), canonical_root),
    ensures
        resolution(asked, root, fs) == Outcome::Ok(encode_utf8(asked)),
{
}

/// Whether `fs` answers as a filesystem does of canonical paths: a canonical
/// form is absolute, has no `..`, ends with its last component, exists, and
/// is its own canonical form; and a file that does not exist does not exist
/// under its name in the canonical form of its directory either.
pub open spec fn is_consistent(fs: Filesystem) -> bool {
    &&& forall|path: Seq<u8>| #[trigger]
        (fs.canonical)(path) matches Ok(found) ==> {
            &&& is_absolute(found)
            &&& !has_traversal(found)
            &&& stem(found) == found
            &&& (fs.present)(found)
            &&& (fs.canonical)(found) == Answer::Ok(found)
        }
    &&& forall|path: Seq<u8>|
        !(#[trigger] (fs.present)(path)) ==> match (parent(path), file_name(path)) {
            (Some(dir), Some(name)) => (fs.canonical)(dir) matches Ok(found) ==> !(fs.present)(
                joined(found, name),
            ),
            _ => true,
        }
}

/// On a consistent filesystem, a path that is resolved is canonical.
pub proof fn resolved_path_is_canonical(asked: Seq<char>, root: Seq<u8>, fs: Filesystem)
    requires
        is_consistent(fs),
        resolution(asked, root, fs) is Ok,
    ensures
        is_canonical(resolution(asked, root, fs)->Ok_0, fs),
{
    let wanted = candidate(asked, root);
    let resolved = resolution(asked, root, fs)->Ok_0;
    if (fs.present)(wanted) {
        assert((fs.canonical)(wanted) == Answer::Ok(resolved));
    } else {
        let dir = parent(wanted)->Some_0;
        let name = file_name(wanted)->Some_0;
        let found = (fs.canonical)(dir)->Ok_0;
        assert(resolved == joined(found, name));
        file_name_is_plain(wanted);
        components_of_joined_name(found, name);
        parent_and_name_of_joined(found, name);
        assert(is_absolute(resolved)) by {
            assert(name[0] != SEPARATOR);
            assert(resolved[0] == found[0]);
        }
        assert(!has_traversal(resolved)) by {
            if has_traversal(resolved) {
                let i = choose|i: int|
                    0 <= i < components(resolved).len() && components(resolved)[i] == parent_dir();
                assert(components(found)[i] == parent_dir());
            }
        }
        assert(!(fs.present)(resolved));
    }
}

/// On a consistent filesystem, resolving a resolved path again gives the same
/// path.
pub proof fn resolution_is_idempotent(
    asked: Seq<char>,
    again: Seq<char>,
    root: Seq<u8>,
    fs: Filesystem,
)
    requires
        is_consistent(fs),
        resolution(asked, root, fs) == Outcome::Ok(encode_utf8(again)),
    ensures
        resolution(again, root, fs) == resolution(asked, root, fs),
{
    resolved_path_is_canonical(asked, root, fs);
}

/// A path that is spelled within the workspace but whose canonical form lies
/// outside the canonical root, as that of a link to the outside does, is
/// denied access.
pub proof fn escape_through_link_is_denied(
    asked: Seq<char>,
    root: Seq<u8>,
    fs: Filesystem,
    canonical_root: Seq<u8>,
    canonical_path: Seq<u8>,
)
    requires
        !has_traversal(encode_utf8(asked)),
        within(candidate(asked, root), root),
        (fs.canonical)(root) == Answer::Ok(canonical_root),
        canonical_candidate(candidate(asked, root), fs) == Outcome::Ok(
            canonical_path,
        ),
        !within(canonical_path, canonical_root),
    ensures
        resolution(asked, root, fs) == Outcome::Err(
            RejectionView::AccessDenied(asked),
        ),
{
}

/// A path that does not exist, but whose parent directory has a canonical
/// form within the canonical root, resolves to its file name joined to the
/// canonical parent.
pub proof fn new_file_resolves_below_its_parent(
    asked: Seq<char>,
    root: Seq<u8>,
    fs: Filesystem,
    canonical_root: Seq<u8>,
    canonical_parent: Seq<u8>,
)
    requires
        !has_traversal(encode_utf8(asked)),
        (fs.canonical)(root) == Answer::Ok(canonical_root),
        !(fs.present)(candidate(asked, root)),
        parent(candidate(asked, root)) is Some,
        file_name(candidate(asked, root)) is Some,
        (fs.canonical)(parent(candidate(asked, root))->Some_0) == Answer::Ok(canonical_parent),
        within(canonical_parent, canonical_root),
    ensures
        resolution(asked, root, fs) == Outcome::Ok(
            joined(canonical_parent, file_name(candidate(asked, root))->Some_0),
        ),
{
    let wanted = candidate(asked, root);
    let name = file_name(wanted)->Some_0;
    file_name_is_plain(wanted);
    joined_name_stays_within(canonical_parent, name, canonical_root);
}

/// A file name that does not exist in the workspace root resolves to the
/// name joined to the canonical root, provided that nothing follows the last
/// component of the root as it was given.
pub proof fn new_file_in_root_resolves_below_canonical_root(
    asked: Seq<char>,
    root: Seq<u8>,
    fs: Filesystem,
    canonical_root: Seq<u8>,
)
    requires
        is_file_name(encode_utf8(asked)),
        stem(root) == root,
        (fs.canonical)(root) == Answer::Ok(canonical_root),
        !(fs.present)(candidate(asked, root)),
    ensures
        resolution(asked, root, fs) == Outcome::Ok(candidate(asked, canonical_root)),
{
    let name = encode_utf8(asked);
    last_start_of_segment(name);
    assert(components(name) == seq![name]);
    assert(!has_traversal(name));
    parent_and_name_of_joined(root, name);
    within_is_reflexive(canonical_root);
    joined_name_stays_within(canonical_root, name, canonical_root);
}

/// A path that does not exist and whose parent directory has no canonical
/// form is rejected for its parent, with the reason the filesystem gave.
pub proof fn missing_parent_is_reported(
    asked: Seq<char>,
    root: Seq<u8>,
    fs: Filesystem,
    reason: Seq<char>,
)
    requires
        !has_traversal(encode_utf8(asked)),
        (fs.canonical)(root) is Ok,
        !(fs.present)(candidate(asked, root)),
        parent(candidate(asked, root)) is Some,
        file_name(candidate(asked, root)) is Some,
        (fs.canonical)(parent(candidate(asked, root))->Some_0) == Answer::Err(reason),
    ensures
        resolution(asked, root, fs) == Outcome::Err(
            RejectionView::ParentResolution(reason),
        ),
{
}

} // verus!
