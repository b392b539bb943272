//! Where a commit stands in a changelog.
//!
//! A place is a release, a category of it and a position in the bucket of
//! that category. Where the commits of a walk have ids of their own, every
//! commit stands at one place only, under its own category, and there are
//! as many places as commits.

use vstd::prelude::*;
use regex::Regex;
use crate::commit_type::{CommitType, CATEGORY_COUNT};
use crate::git_provider::TagInfoView;
use crate::parsed_commit::{classify, ParsedCommitView};
use crate::segment::{
    all_commits,
    changelog,
    classified,
    commits_below,
    commits_of,
    lemma_releases_partition_the_commits,
    newest_first,
    tag_index,
    tag_of,
    walk,
    TagIndex,
    Walked,
};
use crate::version::{bucket, with_commit, Buckets, VersionView};
use crate::SortOrder;

verus! {

/// Whether release `k` of `versions` holds a commit at position `j` of the
/// bucket of `category`.
pub open spec fn is_place(versions: Seq<VersionView>, k: int, category: CommitType, j: int) -> bool {
    0 <= k < versions.len() && 0 <= j < bucket(versions[k].commits_by_type, category).len()
}

/// The commit at a place.
pub open spec fn commit_at(versions: Seq<VersionView>, k: int, category: CommitType, j: int) -> ParsedCommitView {
    bucket(versions[k].commits_by_type, category)[j]
}

/// The number of commits in the buckets of the categories at the places
/// below `upto` of the display order.
pub open spec fn size_below(buckets: Buckets, upto: nat) -> nat
    decreases upto,
{
    if upto == 0 {
        0
    } else {
        size_below(buckets, (upto - 1) as nat) + bucket(
            buckets,
            CommitType::at((upto - 1) as nat),
        ).len()
    }
}

/// The number of commits of some releases: the lengths of all their
/// buckets, added up.
pub open spec fn total_size(versions: Seq<VersionView>) -> nat
    decreases versions.len(),
{
    if versions.len() == 0 {
        0
    } else {
        total_size(versions.drop_last()) + size_below(
            versions.last().commits_by_type,
            CATEGORY_COUNT as nat,
        )
    }
}

/// Whether no two commits of a walk were reported with the same id.
pub open spec fn distinct_ids(commits: Seq<Walked>) -> bool {
    forall|a: int, b: int| 0 <= a < b < commits.len() ==> commits[a].1.id != commits[b].1.id
}

/// Commits that were each reported under the id they were asked for by,
/// where no id was asked for twice, have ids of their own.
pub proof fn lemma_ids_as_asked(commits: Seq<Walked>)
    requires
        forall|a: int| 0 <= a < commits.len() ==> (#[trigger] commits[a]).1.id == commits[a].0,
        forall|a: int, b: int| 0 <= a < b < commits.len() ==> commits[a].0 != commits[b].0,
    ensures
        distinct_ids(commits),
{
}

/// Whether every commit of some buckets stands under its own category.
pub open spec fn sorted_by_category(buckets: Buckets) -> bool {
    forall|category: CommitType, j: int|
        0 <= j < bucket(buckets, category).len() ==> (#[trigger] bucket(
            buckets,
            category,
        )[j]).commit_type == category
}

proof fn lemma_size_below(buckets: Buckets, upto: nat)
    ensures
        commits_below(buckets, upto).len() == size_below(buckets, upto),
    decreases upto,
{
    if upto > 0 {
        lemma_size_below(buckets, (upto - 1) as nat);
        bucket(buckets, CommitType::at((upto - 1) as nat)).to_multiset_ensures();
    }
}

proof fn lemma_total_size(versions: Seq<VersionView>)
    ensures
        all_commits(versions).len() == total_size(versions),
    decreases versions.len(),
{
    if versions.len() > 0 {
        lemma_total_size(versions.drop_last());
        lemma_size_below(versions.last().commits_by_type, CATEGORY_COUNT as nat);
    }
}

/// A changelog has as many commits in its buckets as the walk met.
pub proof fn lemma_as_many_commits_as_walked(
    pattern: Regex,
    tags: Seq<TagInfoView>,
    commits: Seq<Walked>,
    order: SortOrder,
)
    ensures
        total_size(changelog(pattern, tags, commits, order)) == commits.len(),
{
    lemma_releases_partition_the_commits(pattern, tags, commits, order);
    lemma_total_size(changelog(pattern, tags, commits, order));
    classified(pattern, commits).to_multiset_ensures();
}

proof fn lemma_with_commit_keeps_sorted(buckets: Buckets, commit: ParsedCommitView)
    requires
        sorted_by_category(buckets),
    ensures
        sorted_by_category(with_commit(buckets, commit)),
{
    let after = with_commit(buckets, commit);
    assert forall|category: CommitType, j: int| 0 <= j < bucket(after, category).len() implies (
    #[trigger] bucket(after, category)[j]).commit_type == category by {
        if category == commit.commit_type {
            if j < bucket(buckets, category).len() {
                assert(bucket(after, category)[j] == bucket(buckets, category)[j]);
            }
        } else {
            assert(bucket(after, category) == bucket(buckets, category));
        }
    }
}

proof fn lemma_walk_sorts_by_category(pattern: Regex, index: TagIndex, commits: Seq<Walked>)
    ensures
        forall|k: int|
            0 <= k < walk(pattern, index, commits).done.len() ==> sorted_by_category(
                (#[trigger] walk(pattern, index, commits).done[k]).commits_by_type,
            ),
        sorted_by_category(walk(pattern, index, commits).current.commits_by_type),
    decreases commits.len(),
{
    if commits.len() > 0 {
        let before = walk(pattern, index, commits.drop_last());
        let commit = classify(pattern, commits.last().1);
        lemma_walk_sorts_by_category(pattern, index, commits.drop_last());
        match tag_of(index, commits.last().0) {
            Some(tag) => {
                lemma_with_commit_keeps_sorted(Map::empty(), commit);
            },
            None => {
                lemma_with_commit_keeps_sorted(before.current.commits_by_type, commit);
            },
        }
    }
}

/// In a changelog every commit stands in the bucket of its own category.
pub proof fn lemma_commit_under_its_category(
    pattern: Regex,
    tags: Seq<TagInfoView>,
    commits: Seq<Walked>,
    order: SortOrder,
    k: int,
    category: CommitType,
    j: int,
)
    requires
        is_place(changelog(pattern, tags, commits, order), k, category, j),
    ensures
        commit_at(changelog(pattern, tags, commits, order), k, category, j).commit_type
            == category,
{
    lemma_walk_sorts_by_category(pattern, tag_index(tags), commits);
    let newest = newest_first(pattern, tags, commits);
    let at = match order {
        SortOrder::Newest => k,
        SortOrder::Oldest => newest.len() - 1 - k,
    };
    assert(changelog(pattern, tags, commits, order)[k] == newest[at]);
    assert(sorted_by_category(newest[at].commits_by_type));
}

proof fn lemma_occurs_once(s: Seq<ParsedCommitView>, j: int)
    requires
        0 <= j < s.len(),
    ensures
        s.to_multiset().count(s[j]) >= 1,
{
    s.to_multiset_ensures();
    assert(s.contains(s[j]));
}

proof fn lemma_occurs_twice(s: Seq<ParsedCommitView>, i: int, j: int)
    requires
        0 <= i < j < s.len(),
        s[i] == s[j],
    ensures
        s.to_multiset().count(s[i]) >= 2,
{
    let rest = s.remove(i);
    vstd::seq_lib::to_multiset_remove(s, i);
    assert(rest[j - 1] == s[j]);
    lemma_occurs_once(rest, j - 1);
}

proof fn lemma_bucket_counts(buckets: Buckets, upto: nat, place: nat, x: ParsedCommitView)
    requires
        place < upto,
    ensures
        commits_below(buckets, upto).count(x) >= bucket(
            buckets,
            CommitType::at(place),
        ).to_multiset().count(x),
    decreases upto,
{
    if place < upto - 1 {
        lemma_bucket_counts(buckets, (upto - 1) as nat, place, x);
    }
}

proof fn lemma_two_buckets_count(
    buckets: Buckets,
    upto: nat,
    first: nat,
    second: nat,
    x: ParsedCommitView,
)
    requires
        first < second < upto,
    ensures
        commits_below(buckets, upto).count(x) >= bucket(
            buckets,
            CommitType::at(first),
        ).to_multiset().count(x) + bucket(buckets, CommitType::at(second)).to_multiset().count(x),
    decreases upto,
{
    if second < upto - 1 {
        lemma_two_buckets_count(buckets, (upto - 1) as nat, first, second, x);
    } else {
        lemma_bucket_counts(buckets, (upto - 1) as nat, first, x);
    }
}

proof fn lemma_release_counts(versions: Seq<VersionView>, k: int, x: ParsedCommitView)
    requires
        0 <= k < versions.len(),
    ensures
        all_commits(versions).count(x) >= commits_of(versions[k]).count(x),
    decreases versions.len(),
{
    if k < versions.len() - 1 {
        lemma_release_counts(versions.drop_last(), k, x);
    }
}

proof fn lemma_two_releases_count(versions: Seq<VersionView>, k: int, l: int, x: ParsedCommitView)
    requires
        0 <= k < l < versions.len(),
    ensures
        all_commits(versions).count(x) >= commits_of(versions[k]).count(x) + commits_of(
            versions[l],
        ).count(x),
    decreases versions.len(),
{
    if l < versions.len() - 1 {
        lemma_two_releases_count(versions.drop_last(), k, l, x);
    } else {
        lemma_release_counts(versions.drop_last(), k, x);
    }
}

/// A commit at a place is counted among the commits of the releases.
proof fn lemma_place_counts(versions: Seq<VersionView>, k: int, category: CommitType, j: int)
    requires
        is_place(versions, k, category, j),
    ensures
        commits_of(versions[k]).count(commit_at(versions, k, category, j)) >= 1,
        all_commits(versions).count(commit_at(versions, k, category, j)) >= 1,
{
    let x = commit_at(versions, k, category, j);
    let buckets = versions[k].commits_by_type;
    lemma_occurs_once(bucket(buckets, category), j);
    assert(CommitType::at(category.rank()) == category);
    lemma_bucket_counts(buckets, CATEGORY_COUNT as nat, category.rank(), x);
    lemma_release_counts(versions, k, x);
}

/// A commit at two places is counted twice among the commits of the
/// releases.
proof fn lemma_two_places_count(
    versions: Seq<VersionView>,
    k: int,
    category: CommitType,
    j: int,
    l: int,
    other: CommitType,
    i: int,
)
    requires
        is_place(versions, k, category, j),
        is_place(versions, l, other, i),
        commit_at(versions, k, category, j) == commit_at(versions, l, other, i),
        k != l || category != other || j != i,
    ensures
        all_commits(versions).count(commit_at(versions, k, category, j)) >= 2,
{
    let x = commit_at(versions, k, category, j);
    lemma_place_counts(versions, k, category, j);
    lemma_place_counts(versions, l, other, i);
    assert(CommitType::at(category.rank()) == category);
    assert(CommitType::at(other.rank()) == other);
    if k != l {
        if k < l {
            lemma_two_releases_count(versions, k, l, x);
        } else {
            lemma_two_releases_count(versions, l, k, x);
        }
    } else {
        let buckets = versions[k].commits_by_type;
        if category != other {
            lemma_occurs_once(bucket(buckets, category), j);
            lemma_occurs_once(bucket(buckets, other), i);
            if category.rank() < other.rank() {
                lemma_two_buckets_count(
                    buckets,
                    CATEGORY_COUNT as nat,
                    category.rank(),
                    other.rank(),
                    x,
                );
            } else {
                lemma_two_buckets_count(
                    buckets,
                    CATEGORY_COUNT as nat,
                    other.rank(),
                    category.rank(),
                    x,
                );
            }
        } else {
            if j < i {
                lemma_occurs_twice(bucket(buckets, category), j, i);
            } else {
                lemma_occurs_twice(bucket(buckets, category), i, j);
            }
            lemma_bucket_counts(buckets, CATEGORY_COUNT as nat, category.rank(), x);
        }
        lemma_release_counts(versions, k, x);
    }
}

/// Where no two commits of the walk were reported with the same id, no id
/// stands at two places of the changelog: not in two releases, not in two
/// buckets of a release, and not twice in a bucket.
pub proof fn lemma_no_id_at_two_places(
    pattern: Regex,
    tags: Seq<TagInfoView>,
    commits: Seq<Walked>,
    order: SortOrder,
    k: int,
    category: CommitType,
    j: int,
    l: int,
    other: CommitType,
    i: int,
)
    requires
        distinct_ids(commits),
        is_place(changelog(pattern, tags, commits, order), k, category, j),
        is_place(changelog(pattern, tags, commits, order), l, other, i),
        commit_at(changelog(pattern, tags, commits, order), k, category, j).id == commit_at(
            changelog(pattern, tags, commits, order),
            l,
            other,
            i,
        ).id,
    ensures
        k == l,
        category == other,
        j == i,
{
    let versions = changelog(pattern, tags, commits, order);
    let all = classified(pattern, commits);
    let x = commit_at(versions, k, category, j);
    let y = commit_at(versions, l, other, i);
    lemma_releases_partition_the_commits(pattern, tags, commits, order);
    lemma_place_counts(versions, k, category, j);
    lemma_place_counts(versions, l, other, i);
    all.to_multiset_ensures();
    assert(all.contains(x));
    assert(all.contains(y));
    let a = choose|a: int| 0 <= a < all.len() && all[a] == x;
    let b = choose|b: int| 0 <= b < all.len() && all[b] == y;
    assert(all[a].id == commits[a].1.id);
    assert(all[b].id == commits[b].1.id);
    assert(a == b);
    assert forall|p: int, q: int| 0 <= p < all.len() && 0 <= q < all.len() && p != q implies all[p]
        != all[q] by {
        assert(all[p].id == commits[p].1.id);
        assert(all[q].id == commits[q].1.id);
        if p < q {
        } else {
        }
    }
    all.lemma_multiset_has_no_duplicates();
    assert(all.to_multiset().contains(x));
    if k != l || category != other || j != i {
        lemma_two_places_count(versions, k, category, j, l, other, i);
    }
}

} // verus!
