//! The trusted surface over the git backend, the `git2` crate.
//!
//! Everything the library learns about a repository comes through the
//! wrappers here. Repository contents depend on what is on disk, so the
//! contracts state only the shape of what comes back — the resolution logic
//! is verified for every possible answer.

use vstd::prelude::*;

use crate::git_helpers::RawTagEntry;

verus! {

#[verifier::external_type_specification]
#[verifier::external_body]
pub struct ExRepository(git2::Repository);

#[verifier::external_type_specification]
#[verifier::external_body]
pub struct ExGit2Error(git2::Error);

/// The status bit set that git2 reports for an unchanged path
/// (`Status::CURRENT`, the empty bit set).
pub const STATUS_CURRENT_BITS: u32 = 0;

/// The status bit that git2 reports for an ignored path
/// (`Status::IGNORED`).
pub const STATUS_IGNORED_BITS: u32 = 16384;

/// Relies on git2: `Repository::head`, `Reference::peel_to_commit`, and
/// `Oid`'s hex rendering, which writes a SHA-1 id as 40 hex characters.
#[verifier::external_body]
pub(crate) fn head_commit_hex(repo: &git2::Repository) -> (r: Result<String, git2::Error>)
    ensures
        r matches Ok(h) ==> h@.len() == 40,
{
    let commit = repo.head()?.peel_to_commit()?;
    Ok(commit.id().to_string())
}

/// Relies on git2: `Oid::from_str`, `Repository::find_commit` and
/// `Commit::parent_id` with index 0. Reports the first parent's hex id;
/// absence of a parent and failure to load the commit both come back as
/// `None`.
#[verifier::external_body]
pub(crate) fn first_parent_hex(repo: &git2::Repository, commit_hex: &String) -> (r: Option<
    String,
>)
    ensures
        r matches Some(h) ==> h@.len() == 40,
{
    let oid = match <git2::Oid as std::str::FromStr>::from_str(commit_hex) {
        Ok(oid) => oid,
        Err(_) => return None,
    };
    let commit = match repo.find_commit(oid) {
        Ok(commit) => commit,
        Err(_) => return None,
    };
    match commit.parent_id(0) {
        Ok(parent) => Some(parent.to_string()),
        Err(_) => None,
    }
}

/// Relies on git2: `Repository::tag_foreach`, which hands the callback each
/// tag reference's target id and full name (`refs/tags/...`). The name
/// bytes are decoded as UTF-8, `None` when they are not valid UTF-8.
#[verifier::external_body]
pub(crate) fn raw_tag_entries(repo: &git2::Repository) -> (r: Result<
    Vec<RawTagEntry>,
    git2::Error,
>)
    ensures
        r matches Ok(es) ==> forall|i: int|
            0 <= i < es@.len() ==> (#[trigger] es@[i].target_hex@).len() == 40,
{
    let mut entries: Vec<RawTagEntry> = Vec::new();
    repo.tag_foreach(|oid, name| {
        entries.push(RawTagEntry {
            target_hex: oid.to_string(),
            name: std::str::from_utf8(name).ok().map(|n| n.to_owned()),
        });
        true
    })?;
    Ok(entries)
}

/// Relies on git2: `Oid::from_str`, `Repository::find_object` and
/// `Object::peel` to `ObjectType::Commit`. On success, the hex id of the
/// commit the object peels to (a commit peels to itself, an annotated tag
/// to the commit it describes).
#[verifier::external_body]
pub(crate) fn peel_commit_hex(repo: &git2::Repository, object_hex: &String) -> (r: Result<
    String,
    git2::Error,
>)
    ensures
        r matches Ok(h) ==> h@.len() == 40,
{
    let oid = <git2::Oid as std::str::FromStr>::from_str(object_hex)?;
    let object = repo.find_object(oid, None)?;
    Ok(object.peel(git2::ObjectType::Commit)?.id().to_string())
}

/// Relies on git2: `Repository::statuses` over index and working tree with
/// untracked, ignored and unmodified paths excluded, and `Status::bits`.
/// Yields the raw status bit set of every reported path.
#[verifier::external_body]
pub(crate) fn status_bits(repo: &git2::Repository) -> (r: Result<Vec<u32>, git2::Error>) {
    let statuses = repo.statuses(Some(
        git2::StatusOptions::default()
            .show(git2::StatusShow::IndexAndWorkdir)
            .include_untracked(false)
            .include_ignored(false)
            .include_unmodified(false)
            .exclude_submodules(false),
    ))?;
    Ok(statuses.iter().map(|entry| entry.status().bits()).collect())
}

} // verus!
