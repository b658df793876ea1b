//! The error taxonomy of version resolution.

use vstd::prelude::*;

verus! {

/// Why version resolution failed.
///
/// A repository without any reachable tag is not an error: it resolves to a
/// record whose tag information is absent. These variants cover genuine
/// backend failures.
#[derive(Clone, Copy, Debug, PartialEq, Eq, Structural)]
pub enum GitError {
    /// The repository has no commits, or its head cannot be resolved to a
    /// commit (for example an unborn branch).
    NoHeadCommit,
    /// A tag reference's name is not valid text, or does not lie in the tag
    /// namespace `refs/tags/`.
    MalformedTagName,
    /// The working-tree status could not be queried.
    StatusQueryFailed,
    /// A read from the object graph failed during traversal.
    BackendReadFailed,
}

} // verus!
