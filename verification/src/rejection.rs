//! The ways in which a path is turned away.

use vstd::prelude::*;

verus! {

/// What a path lacks when it is rejected as invalid.
#[derive(Clone, Copy, Debug, PartialEq, Eq, Structural)]
pub enum MissingPart {
    /// The path has no parent directory.
    Parent,
    /// The path does not end in a file name.
    FileName,
}

/// Why a path was not resolved.
#[derive(Debug, PartialEq, Eq)]
pub enum Rejection {
    /// The path asked for has a `..` component.
    TraversalDenied,
    /// The workspace root could not be made canonical; holds the reason the
    /// filesystem gave.
    RootResolution(String),
    /// The path exists but could not be made canonical; holds the reason the
    /// filesystem gave.
    PathResolution(String),
    /// The path does not exist and its parent directory could not be made
    /// canonical; holds the reason the filesystem gave.
    ParentResolution(String),
    /// The path does not exist and cannot name a new file.
    InvalidPath(MissingPart),
    /// The canonical path lies outside the workspace; holds the path as it was
    /// asked for.
    AccessDenied(String),
}

/// A rejection as a mathematical value.
pub enum RejectionView {
    TraversalDenied,
    RootResolution(Seq<char>),
    PathResolution(Seq<char>),
    ParentResolution(Seq<char>),
    InvalidPath(MissingPart),
    AccessDenied(Seq<char>),
}

impl View for Rejection {
    type V = RejectionView;

    open spec fn view(&self) -> RejectionView {
        match self {
            Rejection::TraversalDenied => RejectionView::TraversalDenied,
            Rejection::RootResolution(reason) => RejectionView::RootResolution(reason@),
            Rejection::PathResolution(reason) => RejectionView::PathResolution(reason@),
            Rejection::ParentResolution(reason) => RejectionView::ParentResolution(reason@),
            Rejection::InvalidPath(part) => RejectionView::InvalidPath(*part),
            Rejection::AccessDenied(asked) => RejectionView::AccessDenied(asked@),
        }
    }
}

impl Clone for Rejection {
    fn clone(&self) -> (r: Self)
        ensures
            r@ == self@,
    {
        match self {
            Rejection::TraversalDenied => Rejection::TraversalDenied,
            Rejection::RootResolution(reason) => Rejection::RootResolution(reason.clone()),
            Rejection::PathResolution(reason) => Rejection::PathResolution(reason.clone()),
            Rejection::ParentResolution(reason) => Rejection::ParentResolution(reason.clone()),
            Rejection::InvalidPath(part) => Rejection::InvalidPath(*part),
            Rejection::AccessDenied(asked) => Rejection::AccessDenied(asked.clone()),
        }
    }
}

/// The message for a path with a `..` component.
pub const TRAVERSAL_DENIED: &'static str = "Path traversal denied: '..' components are forbidden";

/// What precedes the reason why the workspace root has no canonical form.
pub const ROOT_UNRESOLVED: &'static str = "Failed to resolve workspace root: ";

/// What precedes the reason why an existing path has no canonical form.
pub const PATH_UNRESOLVED: &'static str = "Failed to resolve path: ";

/// What precedes the reason why a parent directory has no canonical form.
pub const PARENT_UNRESOLVED: &'static str = "Failed to resolve parent directory: ";

/// The message for a path without a parent directory.
pub const NO_PARENT: &'static str = "Invalid path: no parent directory";

/// The message for a path that does not end in a file name.
pub const NO_FILE_NAME: &'static str = "Invalid path: no filename";

/// What precedes the path asked for in the message for a path outside the
/// workspace.
pub const ACCESS_DENIED: &'static str = "Access denied: path '";

/// What follows the path asked for in the message for a path outside the
/// workspace: where to turn for files that lie there.
pub const OUTSIDE_WORKSPACE: &'static str =
    "' resolves outside workspace. If you have an MCP filesystem server configured, use the mcp_filesystem_* tools (e.g. mcp_filesystem_read_file, mcp_filesystem_list_directory) to access files outside the workspace.";

impl RejectionView {
    /// The text that tells a user of the rejection.
    pub open spec fn message(self) -> Seq<char> {
        match self {
            RejectionView::TraversalDenied => TRAVERSAL_DENIED@,
            RejectionView::RootResolution(reason) => ROOT_UNRESOLVED@ + reason,
            RejectionView::PathResolution(reason) => PATH_UNRESOLVED@ + reason,
            RejectionView::ParentResolution(reason) => PARENT_UNRESOLVED@ + reason,
            RejectionView::InvalidPath(MissingPart::Parent) => NO_PARENT@,
            RejectionView::InvalidPath(MissingPart::FileName) => NO_FILE_NAME@,
            RejectionView::AccessDenied(asked) => ACCESS_DENIED@ + asked + OUTSIDE_WORKSPACE@,
        }
    }
}

impl Rejection {
    /// The text that tells a user of the rejection. Where the path lies
    /// outside the workspace, the text points to the tools that reach files
    /// there.
    pub fn message(&self) -> (text: String)
        ensures
            text@ == self@.message(),
    {
        match self {
            Rejection::TraversalDenied => String::from_str(TRAVERSAL_DENIED),
            Rejection::RootResolution(reason) => String::from_str(ROOT_UNRESOLVED).concat(
                reason.as_str(),
            ),
            Rejection::PathResolution(reason) => String::from_str(PATH_UNRESOLVED).concat(
                reason.as_str(),
            ),
            Rejection::ParentResolution(reason) => String::from_str(PARENT_UNRESOLVED).concat(
                reason.as_str(),
            ),
            Rejection::InvalidPath(MissingPart::Parent) => String::from_str(NO_PARENT),
            Rejection::InvalidPath(MissingPart::FileName) => String::from_str(NO_FILE_NAME),
            Rejection::AccessDenied(asked) => String::from_str(ACCESS_DENIED).concat(
                asked.as_str(),
            ).concat(OUTSIDE_WORKSPACE),
        }
    }
}

} // verus!
