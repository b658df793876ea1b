//! The tag index: all tags of a repository, grouped by the commit they
//! point to, with tag names stripped of the `refs/tags/` namespace.

use vstd::prelude::*;
use vstd::string::StrSliceExecFns;

use crate::errors::GitError;
use crate::git_backend::peel_commit_hex;
use crate::git_backend::raw_tag_entries;

verus! {

/// One enumerated tag reference, as the backend hands it out: the full hex
/// id of the object the reference points to, and the reference's full name
/// (`refs/tags/...`) decoded as text, or `None` when the name is not valid
/// text.
#[derive(Debug)]
pub struct RawTagEntry {
    /// Full hex id of the referenced object.
    pub target_hex: String,
    /// The full reference name, or `None` when it is not valid text.
    pub name: Option<String>,
}

impl RawTagEntry {
    /// The referenced object's hex id.
    pub open spec fn target(self) -> Seq<char> {
        self.target_hex@
    }
}

/// The characters of the tag namespace prefix, `refs/tags/`.
pub open spec fn spec_tag_ref_prefix() -> Seq<char> {
    seq!['r', 'e', 'f', 's', '/', 't', 'a', 'g', 's', '/']
}

/// Whether `n` begins with the tag namespace prefix.
pub open spec fn has_tag_ref_prefix(n: Seq<char>) -> bool {
    n.len() >= 10 && n.subrange(0, 10) == spec_tag_ref_prefix()
}

/// `n` with the tag namespace prefix removed.
pub open spec fn spec_stripped(n: Seq<char>) -> Seq<char> {
    n.subrange(10, n.len() as int)
}

/// Whether an enumerated tag reference has a well-formed name: valid text,
/// lying under the tag namespace.
pub open spec fn entry_name_ok(e: RawTagEntry) -> bool {
    e.name is Some && has_tag_ref_prefix(e.name.unwrap()@)
}

/// The short tag name of a well-formed entry.
pub open spec fn entry_tag(e: RawTagEntry) -> Seq<char> {
    spec_stripped(e.name.unwrap()@)
}

/// Whether some entry points at commit `c`.
pub open spec fn spec_has_target(es: Seq<RawTagEntry>, c: Seq<char>) -> bool {
    exists|i: int| 0 <= i < es.len() && es[i].target() == c
}

/// The short names of all entries pointing at commit `c`, in enumeration
/// order.
pub open spec fn spec_tags_for(es: Seq<RawTagEntry>, c: Seq<char>) -> Seq<Seq<char>>
    decreases es.len(),
{
    if es.len() == 0 {
        Seq::empty()
    } else {
        spec_tags_for(es.drop_last(), c) + (if es.last().target() == c {
            seq![entry_tag(es.last())]
        } else {
            Seq::empty()
        })
    }
}

/// A commit with no entry has no tags.
proof fn lemma_tags_for_absent(es: Seq<RawTagEntry>, c: Seq<char>)
    requires
        !spec_has_target(es, c),
    ensures
        spec_tags_for(es, c) == Seq::<Seq<char>>::empty(),
    decreases es.len(),
{
    if es.len() > 0 {
        assert(forall|i: int| 0 <= i < es.len() - 1 ==> es.drop_last()[i] == es[i]);
        lemma_tags_for_absent(es.drop_last(), c);
        assert(es.last() == es[es.len() - 1]);
        assert(spec_tags_for(es, c) =~= Seq::<Seq<char>>::empty());
    }
}

/// Extending the enumeration by one entry extends the targets by that
/// entry's commit.
proof fn lemma_has_target_take_step(es: Seq<RawTagEntry>, i: int, c: Seq<char>)
    requires
        0 <= i < es.len(),
    ensures
        spec_has_target(es.take(i + 1), c) <==> (spec_has_target(es.take(i), c) || es[i].target()
            == c),
{
    if spec_has_target(es.take(i + 1), c) {
        let j = choose|j: int| 0 <= j < es.take(i + 1).len() && (#[trigger] es.take(i + 1)[j].target()) == c;
        if j < i {
            assert(es.take(i)[j] == es.take(i + 1)[j]);
            assert(spec_has_target(es.take(i), c));
        } else {
            assert(es.take(i + 1)[j] == es[i]);
        }
    }
    if spec_has_target(es.take(i), c) {
        let j = choose|j: int| 0 <= j < es.take(i).len() && (#[trigger] es.take(i)[j].target()) == c;
        assert(es.take(i + 1)[j] == es.take(i)[j]);
        assert(spec_has_target(es.take(i + 1), c));
    }
    if es[i].target() == c {
        assert(es.take(i + 1)[i] == es[i]);
        assert(spec_has_target(es.take(i + 1), c));
    }
}

/// Extending the enumeration by one entry appends that entry's short name
/// to the tags of its commit and leaves every other commit's tags unchanged.
proof fn lemma_tags_for_take_step(es: Seq<RawTagEntry>, i: int, c: Seq<char>)
    requires
        0 <= i < es.len(),
    ensures
        spec_tags_for(es.take(i + 1), c) == spec_tags_for(es.take(i), c) + (if es[i].target()
            == c {
            seq![entry_tag(es[i])]
        } else {
            Seq::<Seq<char>>::empty()
        }),
{
    assert(es.take(i + 1).drop_last() =~= es.take(i));
    assert(es.take(i + 1).last() == es[i]);
}

/// All tags of a repository, grouped by the commit they point to.
///
/// Each group holds a commit's full hex id and the short names of every tag
/// pointing at it, in enumeration order. A commit without tags has no group;
/// no group is empty, and no commit has two groups.
#[derive(Debug)]
pub struct TagIndex {
    /// The groups, one per tagged commit, in order of first enumeration.
    pub groups: Vec<TagGroup>,
}

/// The tags of a single commit.
#[derive(Debug)]
pub struct TagGroup {
    /// The commit's full hex id.
    pub commit_hex: String,
    /// The short names of the tags pointing at this commit, in enumeration
    /// order; never empty.
    pub tags: Vec<String>,
}

impl TagIndex {
    /// Well-formedness: no commit has two groups, and no group is empty.
    pub open spec fn wf(self) -> bool {
        &&& forall|i: int, j: int|
            0 <= i < j < self.groups@.len() ==> (#[trigger] self.groups@[i].commit_hex@)
                != (#[trigger] self.groups@[j].commit_hex@)
        &&& forall|i: int|
            0 <= i < self.groups@.len() ==> (#[trigger] self.groups@[i].tags@.len()) >= 1
    }

    /// Whether commit `c` carries at least one tag.
    pub open spec fn contains_commit(self, c: Seq<char>) -> bool {
        exists|i: int| 0 <= i < self.groups@.len() && (#[trigger] self.groups@[i].commit_hex@) == c
    }

    /// The tags of commit `c`, in enumeration order. Meaningful only when
    /// the index is well-formed and the commit is contained.
    pub open spec fn tags_of(self, c: Seq<char>) -> Seq<Seq<char>> {
        let i = choose|i: int|
            0 <= i < self.groups@.len() && (#[trigger] self.groups@[i].commit_hex@) == c;
        self.groups@[i].tags.deep_view()
    }

    /// The number of distinct tagged commits.
    pub fn num_commits(&self) -> (n: usize)
        ensures
            n == self.groups@.len(),
    {
        self.groups.len()
    }

    /// Whether no commit carries a tag.
    pub fn is_empty(&self) -> (r: bool)
        ensures
            r <==> self.groups@.len() == 0,
    {
        self.groups.len() == 0
    }

    /// The tags of the given commit, or `None` when it carries none.
    pub fn lookup<'s>(&'s self, commit_hex: &String) -> (r: Option<&'s Vec<String>>)
        requires
            self.wf(),
        ensures
            match r {
                Some(tags) => {
                    &&& self.contains_commit(commit_hex@)
                    &&& tags.deep_view() == self.tags_of(commit_hex@)
                    &&& tags@.len() >= 1
                },
                None => !self.contains_commit(commit_hex@),
            },
    {
        let n = self.groups.len();
        let mut k: usize = 0;
        while k < n
            invariant
                n == self.groups@.len(),
                k <= n,
                self.wf(),
                forall|j: int| 0 <= j < k ==> (#[trigger] self.groups@[j].commit_hex@) != commit_hex@,
            decreases n - k,
        {
            if self.groups[k].commit_hex == *commit_hex {
                proof {
                    self.lemma_tags_of_at(k as int);
                }
                return Some(&self.groups[k].tags);
            }
            k += 1;
        }
        None
    }

    /// A group's key determines its tags: with distinct keys, the group at
    /// `i` is the one `tags_of` speaks of.
    proof fn lemma_tags_of_at(self, i: int)
        requires
            self.wf(),
            0 <= i < self.groups@.len(),
        ensures
            self.contains_commit(self.groups@[i].commit_hex@),
            self.tags_of(self.groups@[i].commit_hex@) == self.groups@[i].tags.deep_view(),
    {
        let c = self.groups@[i].commit_hex@;
        assert(self.contains_commit(c));
        let j = choose|j: int|
            0 <= j < self.groups@.len() && (#[trigger] self.groups@[j].commit_hex@) == c;
        if i < j {
            assert(self.groups@[i].commit_hex@ != self.groups@[j].commit_hex@);
        } else if j < i {
            assert(self.groups@[j].commit_hex@ != self.groups@[i].commit_hex@);
        }
    }

    /// A tagged commit has at least one tag, and whichever tag resolution
    /// reports for it — the first in enumeration order — is one of its own
    /// tags, never a tag of another commit.
    pub proof fn lemma_first_tag_is_among_tags(self, c: Seq<char>)
        requires
            self.wf(),
            self.contains_commit(c),
        ensures
            self.tags_of(c).len() >= 1,
            self.tags_of(c).contains(self.tags_of(c)[0]),
    {
        let i = choose|i: int|
            0 <= i < self.groups@.len() && (#[trigger] self.groups@[i].commit_hex@) == c;
        self.lemma_tags_of_at(i);
        assert(self.groups@[i].tags@.len() >= 1);
    }

    /// Records one more tag for `commit_hex`: appended to the commit's
    /// group when one exists, else in a fresh group at the end.
    fn insert_tag(&mut self, commit_hex: &String, tag: String)
        requires
            old(self).wf(),
        ensures
            final(self).wf(),
            forall|c: Seq<char>|
                #[trigger] final(self).contains_commit(c) <==> (old(self).contains_commit(c) || c
                    == commit_hex@),
            final(self).tags_of(commit_hex@) == if old(self).contains_commit(commit_hex@) {
                old(self).tags_of(commit_hex@).push(tag@)
            } else {
                seq![tag@]
            },
            forall|c: Seq<char>|
                c != commit_hex@ && old(self).contains_commit(c)
                    ==> (#[trigger] final(self).tags_of(c)) == old(self).tags_of(c),
    {
        let n = self.groups.len();
        let mut k: usize = 0;
        while k < n
            invariant
                *self == *old(self),
                old(self).wf(),
                n == self.groups@.len(),
                k <= n,
                forall|j: int| 0 <= j < k ==> (#[trigger] self.groups@[j].commit_hex@) != commit_hex@,
            decreases n - k,
        {
            if self.groups[k].commit_hex == *commit_hex {
                let ghost pre = *self;
                let mut g = self.groups.remove(k);
                g.tags.push(tag);
                let ghost gnew = g;
                self.groups.insert(k, g);
                proof {
                    assert(self.groups@ =~= pre.groups@.update(k as int, gnew));
                    assert(gnew.commit_hex@ == commit_hex@);
                    assert(gnew.tags.deep_view() =~= pre.groups@[k as int].tags.deep_view().push(
                        tag@,
                    ));
                    pre.lemma_tags_of_at(k as int);
                    self.lemma_insert_effects(pre, k as int, commit_hex@);
                }
                return ;
            }
            k += 1;
        }
        let ghost pre = *self;
        let mut tags: Vec<String> = Vec::new();
        tags.push(tag);
        self.groups.push(TagGroup { commit_hex: (*commit_hex).clone(), tags });
        proof {
            assert(!pre.contains_commit(commit_hex@));
            assert(self.groups@ =~= pre.groups@.push(self.groups@[n as int]));
            assert(self.groups@[n as int].commit_hex@ == commit_hex@);
            assert(self.groups@[n as int].tags.deep_view() =~= seq![tag@]);
            self.lemma_push_effects(pre, commit_hex@);
        }
    }

    /// Effects of replacing the group at `k` (key `c`) by one with the same
    /// key: containment is unchanged, and only that key's tags change.
    proof fn lemma_insert_effects(self, pre: TagIndex, k: int, c: Seq<char>)
        requires
            pre.wf(),
            0 <= k < pre.groups@.len(),
            pre.groups@[k].commit_hex@ == c,
            self.groups@ == pre.groups@.update(k, self.groups@[k]),
            self.groups@[k].commit_hex@ == c,
            self.groups@[k].tags@.len() >= 1,
        ensures
            self.wf(),
            forall|d: Seq<char>| #[trigger] self.contains_commit(d) <==> pre.contains_commit(d),
            self.tags_of(c) == self.groups@[k].tags.deep_view(),
            forall|d: Seq<char>|
                d != c && pre.contains_commit(d) ==> #[trigger] self.tags_of(d) == pre.tags_of(d),
    {
        assert forall|i: int| 0 <= i < self.groups@.len() implies (#[trigger] self.groups@[i].commit_hex@)
            == pre.groups@[i].commit_hex@ by {
            if i != k {
                assert(self.groups@[i] == pre.groups@[i]);
            }
        }
        assert forall|d: Seq<char>| #[trigger] self.contains_commit(d) implies pre.contains_commit(
            d,
        ) by {
            let i = choose|i: int|
                0 <= i < self.groups@.len() && (#[trigger] self.groups@[i].commit_hex@) == d;
            assert(pre.groups@[i].commit_hex@ == d);
        }
        assert forall|d: Seq<char>| pre.contains_commit(d) implies #[trigger] self.contains_commit(
            d,
        ) by {
            let i = choose|i: int|
                0 <= i < pre.groups@.len() && (#[trigger] pre.groups@[i].commit_hex@) == d;
            assert(self.groups@[i].commit_hex@ == d);
        }
        self.lemma_tags_of_at(k);
        assert forall|d: Seq<char>| d != c && pre.contains_commit(d) implies #[trigger] self.tags_of(
            d,
        ) == pre.tags_of(d) by {
            let i = choose|i: int|
                0 <= i < pre.groups@.len() && (#[trigger] pre.groups@[i].commit_hex@) == d;
            pre.lemma_tags_of_at(i);
            self.lemma_tags_of_at(i);
            assert(self.groups@[i] == pre.groups@[i]);
        }
    }

    /// Effects of appending a group with a fresh key `c`: it becomes the one
    /// commit gained, and every other commit keeps its tags.
    proof fn lemma_push_effects(self, pre: TagIndex, c: Seq<char>)
        requires
            pre.wf(),
            !pre.contains_commit(c),
            self.groups@ == pre.groups@.push(self.groups@[pre.groups@.len() as int]),
            self.groups@[pre.groups@.len() as int].commit_hex@ == c,
            self.groups@[pre.groups@.len() as int].tags@.len() >= 1,
        ensures
            self.wf(),
            forall|d: Seq<char>|
                #[trigger] self.contains_commit(d) <==> (pre.contains_commit(d) || d == c),
            self.tags_of(c) == self.groups@[pre.groups@.len() as int].tags.deep_view(),
            forall|d: Seq<char>|
                d != c && pre.contains_commit(d) ==> #[trigger] self.tags_of(d) == pre.tags_of(d),
    {
        let n = pre.groups@.len() as int;
        assert forall|i: int, j: int|
            0 <= i < j < self.groups@.len() implies (#[trigger] self.groups@[i].commit_hex@)
            != (#[trigger] self.groups@[j].commit_hex@) by {
            if j < n {
                assert(self.groups@[i] == pre.groups@[i]);
                assert(self.groups@[j] == pre.groups@[j]);
            } else {
                assert(self.groups@[i] == pre.groups@[i]);
                if self.groups@[i].commit_hex@ == c {
                    assert(pre.contains_commit(c));
                }
            }
        }
        assert forall|d: Seq<char>| #[trigger] self.contains_commit(d) implies (pre.contains_commit(
            d,
        ) || d == c) by {
            let i = choose|i: int|
                0 <= i < self.groups@.len() && (#[trigger] self.groups@[i].commit_hex@) == d;
            if i < n {
                assert(pre.groups@[i].commit_hex@ == d);
            }
        }
        assert forall|d: Seq<char>| pre.contains_commit(d) implies #[trigger] self.contains_commit(
            d,
        ) by {
            let i = choose|i: int|
                0 <= i < pre.groups@.len() && (#[trigger] pre.groups@[i].commit_hex@) == d;
            assert(self.groups@[i].commit_hex@ == d);
        }
        assert(self.contains_commit(c));
        self.lemma_tags_of_at(n);
        assert forall|d: Seq<char>| d != c && pre.contains_commit(d) implies #[trigger] self.tags_of(
            d,
        ) == pre.tags_of(d) by {
            let i = choose|i: int|
                0 <= i < pre.groups@.len() && (#[trigger] pre.groups@[i].commit_hex@) == d;
            pre.lemma_tags_of_at(i);
            self.lemma_tags_of_at(i);
            assert(self.groups@[i] == pre.groups@[i]);
        }
    }
}

/// Strips the tag namespace prefix from a full reference name, or reports
/// that the name does not lie in the tag namespace.
fn strip_tag_ref_prefix(name: &String) -> (r: Option<String>)
    ensures
        match r {
            Some(s) => has_tag_ref_prefix(name@) && s@ == spec_stripped(name@),
            None => !has_tag_ref_prefix(name@),
        },
{
    let n = name.as_str().unicode_len();
    if n < 10 {
        return None;
    }
    let p = "refs/tags/";
    proof {
        reveal_strlit("refs/tags/");
        assert(p@ =~= spec_tag_ref_prefix());
    }
    let mut i: usize = 0;
    while i < 10
        invariant
            i <= 10,
            n == name@.len(),
            n >= 10,
            p@ == spec_tag_ref_prefix(),
            forall|j: int| 0 <= j < i ==> name@[j] == spec_tag_ref_prefix()[j],
        decreases 10 - i,
    {
        let c = name.as_str().get_char(i);
        let pc = p.get_char(i);
        if c != pc {
            proof {
                assert(name@.subrange(0, 10)[i as int] == name@[i as int]);
            }
            return None;
        }
        i += 1;
    }
    proof {
        assert(name@.subrange(0, 10) =~= spec_tag_ref_prefix());
    }
    Some(name.as_str().substring_char(10, n).to_owned())
}

/// Builds the tag index from the enumerated tag references.
///
/// Fails with [`GitError::MalformedTagName`] exactly when some entry's name
/// is not valid text or does not lie under `refs/tags/`. Otherwise the index
/// holds, for each commit pointed at by at least one entry, the short names
/// of all its tags in enumeration order.
pub fn build_tag_index(entries: &Vec<RawTagEntry>) -> (r: Result<TagIndex, GitError>)
    ensures
        match r {
            Ok(idx) => {
                &&& idx.wf()
                &&& forall|i: int| 0 <= i < entries@.len() ==> entry_name_ok(#[trigger] entries@[i])
                &&& forall|c: Seq<char>|
                    #![trigger idx.contains_commit(c)]
                    #![trigger spec_has_target(entries@, c)]
                    idx.contains_commit(c) <==> spec_has_target(entries@, c)
                &&& forall|c: Seq<char>|
                    spec_has_target(entries@, c) ==> #[trigger] idx.tags_of(c) == spec_tags_for(
                        entries@,
                        c,
                    )
            },
            Err(e) => {
                &&& e == GitError::MalformedTagName
                &&& exists|i: int|
                    0 <= i < entries@.len() && !entry_name_ok(#[trigger] entries@[i])
            },
        },
{
    let mut idx = TagIndex { groups: Vec::new() };
    let n = entries.len();
    let mut i: usize = 0;
    while i < n
        invariant
            n == entries@.len(),
            i <= n,
            idx.wf(),
            forall|j: int| 0 <= j < i ==> entry_name_ok(#[trigger] entries@[j]),
            forall|c: Seq<char>|
                #![trigger idx.contains_commit(c)]
                #![trigger spec_has_target(entries@.take(i as int), c)]
                idx.contains_commit(c) <==> spec_has_target(entries@.take(i as int), c),
            forall|c: Seq<char>|
                spec_has_target(entries@.take(i as int), c) ==> #[trigger] idx.tags_of(c)
                    == spec_tags_for(entries@.take(i as int), c),
        decreases n - i,
    {
        let e = &entries[i];
        let name = match &e.name {
            Some(name) => name,
            None => {
                return Err(GitError::MalformedTagName);
            },
        };
        let tag = match strip_tag_ref_prefix(name) {
            Some(tag) => tag,
            None => {
                return Err(GitError::MalformedTagName);
            },
        };
        let ghost pre = idx;
        let ghost tagview = tag@;
        idx.insert_tag(&e.target_hex, tag);
        proof {
            let ii = i as int;
            let target = entries@[ii].target();
            assert(tagview == entry_tag(entries@[ii]));
            assert forall|c: Seq<char>|
                #![trigger idx.contains_commit(c)]
                #![trigger spec_has_target(entries@.take(ii + 1), c)]
                idx.contains_commit(c) <==> spec_has_target(entries@.take(ii + 1), c) by {
                lemma_has_target_take_step(entries@, ii, c);
            }
            assert forall|c: Seq<char>|
                spec_has_target(entries@.take(ii + 1), c) implies #[trigger] idx.tags_of(c)
                == spec_tags_for(entries@.take(ii + 1), c) by {
                lemma_has_target_take_step(entries@, ii, c);
                lemma_tags_for_take_step(entries@, ii, c);
                if c == target {
                    if pre.contains_commit(c) {
                        assert(idx.tags_of(c) == pre.tags_of(c).push(tagview));
                        assert(spec_tags_for(entries@.take(ii), c).push(tagview) =~= spec_tags_for(
                            entries@.take(ii),
                            c,
                        ) + seq![tagview]);
                    } else {
                        lemma_tags_for_absent(entries@.take(ii), c);
                        assert(seq![tagview] =~= spec_tags_for(entries@.take(ii), c)
                            + seq![tagview]);
                    }
                } else {
                    assert(spec_tags_for(entries@.take(ii + 1), c) =~= spec_tags_for(
                        entries@.take(ii),
                        c,
                    ));
                    assert(spec_has_target(entries@.take(ii), c));
                }
            }
        }
        i += 1;
    }
    proof {
        assert(entries@.take(n as int) =~= entries@);
    }
    Ok(idx)
}

/// Retrieves all tags of the repository, grouped by the commit they point
/// to.
///
/// Each enumerated tag's target is peeled to a commit, so annotated tags
/// are indexed under the commit they describe; an object that does not peel
/// (or cannot be loaded) is indexed under its own id. Fails with
/// [`GitError::BackendReadFailed`] when enumeration itself fails, and with
/// [`GitError::MalformedTagName`] when a tag reference's name is not valid
/// text or does not lie under `refs/tags/`.
pub fn all_tags(repo: &git2::Repository) -> (r: Result<TagIndex, GitError>)
    ensures
        r matches Ok(idx) ==> idx.wf(),
        r matches Err(e) ==> (e == GitError::BackendReadFailed || e == GitError::MalformedTagName),
{
    let raw = match raw_tag_entries(repo) {
        Ok(es) => es,
        Err(_) => {
            return Err(GitError::BackendReadFailed);
        },
    };
    let mut peeled: Vec<RawTagEntry> = Vec::new();
    let n = raw.len();
    let mut i: usize = 0;
    while i < n
        invariant
            i <= n,
            n == raw@.len(),
        decreases n - i,
    {
        let entry = &raw[i];
        let target_hex = match peel_commit_hex(repo, &entry.target_hex) {
            Ok(h) => h,
            Err(_) => entry.target_hex.clone(),
        };
        let name = match &entry.name {
            Some(s) => Some(s.clone()),
            None => None,
        };
        peeled.push(RawTagEntry { target_hex, name });
        i += 1;
    }
    build_tag_index(&peeled)
}

} // verus!
