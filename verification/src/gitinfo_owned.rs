//! Owned version records and the version resolver.

use vstd::prelude::*;
use vstd::string::StrSliceExecFns;

use crate::errors::GitError;
use crate::git_backend::first_parent_hex;
use crate::git_backend::head_commit_hex;
use crate::git_backend::status_bits;
use crate::git_backend::STATUS_CURRENT_BITS;
use crate::git_backend::STATUS_IGNORED_BITS;
use crate::git_helpers::all_tags;
use crate::git_helpers::TagIndex;
use crate::COMMIT_ID_SHORT_HASH_LENGTH;

verus! {

/// Owned version of [`TagInfo`](crate::TagInfo): the closest ancestor tag
/// and its distance from the head in first-parent steps.
#[derive(Clone, Debug, PartialEq, Eq)]
pub struct TagInfoOwned {
    /// The name of the tag (e.g. `"v1.2.3"`, `"release-1.0"`).
    pub tag: String,
    /// The number of first-parent steps between the tagged commit and the
    /// head. `0` means the head itself is tagged.
    pub commits_since_tag: u32,
}

/// Owned version of [`GitInfo`](crate::GitInfo), as produced by
/// [`get_git_info`].
#[derive(Clone, Debug, PartialEq, Eq)]
pub struct GitInfoOwned {
    /// The closest ancestor tag on the first-parent chain, or `None` if no
    /// reachable commit is tagged.
    pub tag_info: Option<TagInfoOwned>,
    /// The shortened id of the head commit, of length
    /// [`COMMIT_ID_SHORT_HASH_LENGTH`](crate::COMMIT_ID_SHORT_HASH_LENGTH).
    pub commit_id: String,
    /// Whether tracked files carry staged or unstaged changes. Untracked
    /// files do not count as modifications.
    pub modified: bool,
}

/// Whether one reported status bit set marks a change: anything but an
/// unchanged (`Status::CURRENT`) or ignored (`Status::IGNORED`) path.
pub open spec fn is_change(bits: u32) -> bool {
    bits != STATUS_CURRENT_BITS && bits != STATUS_IGNORED_BITS
}

/// Whether some reported path carries a change.
pub open spec fn spec_any_change(statuses: Seq<u32>) -> bool {
    exists|i: int| 0 <= i < statuses.len() && is_change(#[trigger] statuses[i])
}

/// Whether the status report shows any change to a tracked path.
pub fn any_tracked_change(statuses: &Vec<u32>) -> (r: bool)
    ensures
        r == spec_any_change(statuses@),
{
    let n = statuses.len();
    let mut i: usize = 0;
    while i < n
        invariant
            n == statuses@.len(),
            i <= n,
            forall|j: int| 0 <= j < i ==> !is_change(#[trigger] statuses@[j]),
        decreases n - i,
    {
        let bits = statuses[i];
        if bits != STATUS_CURRENT_BITS && bits != STATUS_IGNORED_BITS {
            return true;
        }
        i += 1;
    }
    false
}

/// A status report all of whose entries are unchanged or ignored paths
/// leaves the record unmodified; an entry with any other status always
/// marks it modified.
pub proof fn lemma_modified_flag(statuses: Seq<u32>)
    ensures
        (forall|i: int| 0 <= i < statuses.len() ==> !is_change(#[trigger] statuses[i]))
            ==> !spec_any_change(statuses),
        (exists|i: int| 0 <= i < statuses.len() && is_change(#[trigger] statuses[i]))
            ==> spec_any_change(statuses),
{
}

/// Truncates a commit's full hex id to the fixed short length. The result
/// is always exactly that long and is a prefix of the full id.
pub fn short_commit_id(full_hex: &String) -> (r: String)
    requires
        full_hex@.len() >= COMMIT_ID_SHORT_HASH_LENGTH,
    ensures
        r@.len() == COMMIT_ID_SHORT_HASH_LENGTH,
        r@ == full_hex@.subrange(0, COMMIT_ID_SHORT_HASH_LENGTH as int),
        r@.is_prefix_of(full_hex@),
{
    let r = full_hex.as_str().substring_char(0, COMMIT_ID_SHORT_HASH_LENGTH).to_owned();
    proof {
        assert(r@.is_prefix_of(full_hex@));
    }
    r
}

/// Applies the resolution rule for the head commit: any failure of the
/// backend to produce one is [`GitError::NoHeadCommit`].
pub fn head_commit_or_error(head: Result<String, git2::Error>) -> (r: Result<String, GitError>)
    ensures
        r is Ok <==> head is Ok,
        head matches Ok(h) ==> r matches Ok(h2) && h2 == h,
        head is Err ==> r == Err::<String, GitError>(GitError::NoHeadCommit),
{
    match head {
        Ok(h) => Ok(h),
        Err(_) => Err(GitError::NoHeadCommit),
    }
}

/// The position of the first tagged commit along the chain, if any.
pub open spec fn first_tagged_index(chain: Seq<Seq<char>>, idx: TagIndex) -> Option<int>
    decreases chain.len(),
{
    if chain.len() == 0 {
        None
    } else if idx.contains_commit(chain[0]) {
        Some(0int)
    } else {
        match first_tagged_index(chain.drop_first(), idx) {
            Some(i) => Some(i + 1),
            None => None,
        }
    }
}

/// After `k` untagged steps from the head, a tagged commit is found at
/// distance exactly `k`.
pub proof fn lemma_first_tagged_found(chain: Seq<Seq<char>>, idx: TagIndex, k: int)
    requires
        0 <= k < chain.len(),
        forall|j: int| 0 <= j < k ==> !idx.contains_commit(#[trigger] chain[j]),
        idx.contains_commit(chain[k]),
    ensures
        first_tagged_index(chain, idx) == Some(k),
    decreases chain.len(),
{
    if k > 0 {
        assert(!idx.contains_commit(chain[0]));
        let tail = chain.drop_first();
        assert forall|j: int| 0 <= j < k - 1 implies !idx.contains_commit(
            #[trigger] tail[j],
        ) by {
            assert(tail[j] == chain[j + 1]);
        }
        assert(tail[k - 1] == chain[k]);
        lemma_first_tagged_found(tail, idx, k - 1);
    }
}

/// A chain none of whose commits is tagged resolves to no tag.
pub proof fn lemma_first_tagged_none(chain: Seq<Seq<char>>, idx: TagIndex)
    requires
        forall|j: int| 0 <= j < chain.len() ==> !idx.contains_commit(#[trigger] chain[j]),
    ensures
        first_tagged_index(chain, idx) is None,
    decreases chain.len(),
{
    if chain.len() > 0 {
        let tail = chain.drop_first();
        assert forall|j: int| 0 <= j < tail.len() implies !idx.contains_commit(
            #[trigger] tail[j],
        ) by {
            assert(tail[j] == chain[j + 1]);
        }
        lemma_first_tagged_none(tail, idx);
    }
}

/// With no tags at all, every chain resolves to no tag.
pub proof fn lemma_empty_index_finds_nothing(chain: Seq<Seq<char>>, idx: TagIndex)
    requires
        idx.groups@.len() == 0,
    ensures
        first_tagged_index(chain, idx) is None,
{
    lemma_first_tagged_none(chain, idx);
}

/// A tagged head commit resolves at distance zero.
pub proof fn lemma_tagged_head_found_at_zero(chain: Seq<Seq<char>>, idx: TagIndex)
    requires
        chain.len() >= 1,
        idx.contains_commit(chain[0]),
    ensures
        first_tagged_index(chain, idx) == Some(0int),
{
}

/// A head commit carrying exactly one tag resolves at distance zero, and
/// the reported tag — the first in enumeration order — is that tag.
pub proof fn lemma_single_tagged_head(chain: Seq<Seq<char>>, idx: TagIndex, t: Seq<char>)
    requires
        idx.wf(),
        chain.len() >= 1,
        idx.contains_commit(chain[0]),
        idx.tags_of(chain[0]) == seq![t],
    ensures
        first_tagged_index(chain, idx) == Some(0int),
        idx.tags_of(chain[0])[0] == t,
{
}

/// A tag that no commit of the chain carries is invisible to the walk: if
/// every tagged commit lies off the chain (for instance only behind a
/// second merge parent), the chain resolves to no tag.
pub proof fn lemma_off_chain_tags_invisible(chain: Seq<Seq<char>>, idx: TagIndex)
    requires
        forall|c: Seq<char>| #[trigger] idx.contains_commit(c) ==> !chain.contains(c),
    ensures
        first_tagged_index(chain, idx) is None,
{
    assert forall|j: int| 0 <= j < chain.len() implies !idx.contains_commit(
        #[trigger] chain[j],
    ) by {
        if idx.contains_commit(chain[j]) {
            assert(chain.contains(chain[j]));
        }
    }
    lemma_first_tagged_none(chain, idx);
}

/// Finds the first tagged commit along the chain, reporting its first tag
/// and its distance from the chain's start.
pub fn find_tag_in_chain(chain: &Vec<String>, index: &TagIndex) -> (r: Option<TagInfoOwned>)
    requires
        index.wf(),
        chain@.len() <= u32::MAX as int + 1,
    ensures
        match r {
            Some(t) => {
                &&& first_tagged_index(chain.deep_view(), *index) == Some(
                    t.commits_since_tag as int,
                )
                &&& (t.commits_since_tag as int) < chain@.len()
                &&& index.contains_commit(chain.deep_view()[t.commits_since_tag as int])
                &&& t.tag@ == index.tags_of(chain.deep_view()[t.commits_since_tag as int])[0]
            },
            None => first_tagged_index(chain.deep_view(), *index) is None,
        },
{
    let n = chain.len();
    let mut i: usize = 0;
    while i < n
        invariant
            index.wf(),
            n == chain@.len(),
            n <= u32::MAX as int + 1,
            i <= n,
            forall|j: int| 0 <= j < i ==> !index.contains_commit(#[trigger] chain.deep_view()[j]),
        decreases n - i,
    {
        proof {
            assert(chain.deep_view()[i as int] == chain@[i as int]@);
        }
        match index.lookup(&chain[i]) {
            Some(tags) => {
                let tag = tags[0].clone();
                proof {
                    lemma_first_tagged_found(chain.deep_view(), *index, i as int);
                    assert(tags.deep_view()[0] == tags@[0]@);
                }
                return Some(TagInfoOwned { tag, commits_since_tag: i as u32 });
            },
            None => {},
        }
        i += 1;
    }
    proof {
        lemma_first_tagged_none(chain.deep_view(), *index);
    }
    None
}

/// Retrieves version information from the repository.
///
/// Resolves the head commit (failing with [`GitError::NoHeadCommit`] when
/// the backend cannot produce one), truncates its id to the fixed short
/// length, queries the working-tree status restricted to tracked paths,
/// builds the tag index, and walks first-parent ancestry from the head
/// until a tagged commit is found, counting the steps.
pub fn get_git_info(repo: &git2::Repository) -> (r: Result<GitInfoOwned, GitError>)
    ensures
        r matches Ok(info) ==> info.commit_id@.len() == COMMIT_ID_SHORT_HASH_LENGTH,
{
    let head_hex = match head_commit_or_error(head_commit_hex(repo)) {
        Ok(h) => h,
        Err(e) => {
            return Err(e);
        },
    };
    let commit_id = short_commit_id(&head_hex);
    let modified = match status_bits(repo) {
        Ok(statuses) => any_tracked_change(&statuses),
        Err(_) => {
            return Err(GitError::StatusQueryFailed);
        },
    };
    let index = match all_tags(repo) {
        Ok(idx) => idx,
        Err(e) => {
            return Err(e);
        },
    };
    // Walk first-parent ancestry, extending the chain until a tagged commit
    // or the root is reached. A distance beyond u32::MAX would not be
    // representable in the record, so such a walk is abandoned as a failed
    // read.
    let mut chain: Vec<String> = Vec::new();
    chain.push(head_hex);
    loop
        invariant
            index.wf(),
            1 <= chain@.len(),
            chain@.len() <= u32::MAX as int + 1,
        decreases u32::MAX as int + 1 - chain@.len(),
    {
        let last_pos = chain.len() - 1;
        let found = index.lookup(&chain[last_pos]).is_some();
        if found {
            break ;
        }
        match first_parent_hex(repo, &chain[last_pos]) {
            Some(parent) => {
                if chain.len() > u32::MAX as usize {
                    return Err(GitError::BackendReadFailed);
                }
                chain.push(parent);
            },
            None => {
                break ;
            },
        }
    }
    let tag_info = find_tag_in_chain(&chain, &index);
    Ok(GitInfoOwned { tag_info, commit_id, modified })
}

} // verus!
