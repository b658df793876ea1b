//! Derives a structured version identifier for a source tree from its git
//! history: the nearest ancestor tag on the first-parent chain, the number of
//! commits since that tag, a shortened commit id, and a flag for uncommitted
//! changes to tracked files.
//!
//! The resolution logic itself is verified; the git backend (the `git2`
//! crate) is reached only through a small set of trusted wrappers.

use vstd::prelude::*;

mod errors;
mod git_backend;
mod git_helpers;
mod gitinfo;
mod gitinfo_owned;

pub use errors::GitError;
pub use git_helpers::all_tags;
pub use git_helpers::build_tag_index;
pub use git_helpers::RawTagEntry;
pub use git_helpers::TagGroup;
pub use git_helpers::TagIndex;
pub use gitinfo::GitInfo;
pub use gitinfo::TagInfo;
pub use gitinfo::u32_to_dec_string;
pub use gitinfo_owned::any_tracked_change;
pub use gitinfo_owned::find_tag_in_chain;
pub use gitinfo_owned::get_git_info;
pub use gitinfo_owned::head_commit_or_error;
pub use gitinfo_owned::short_commit_id;
pub use gitinfo_owned::GitInfoOwned;
pub use gitinfo_owned::TagInfoOwned;

verus! {

/// The length of the shortened commit hash in [`GitInfo::commit_id`].
///
/// Ten characters give a lower collision probability in large histories than
/// the common seven-character default, while staying readable.
pub const COMMIT_ID_SHORT_HASH_LENGTH: usize = 10;

} // verus!
