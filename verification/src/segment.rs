//! Cutting a commit history into releases.
//!
//! The history is walked from the newest commit to the oldest. A commit
//! that a version tag points at opens the release of that tag and is its
//! first commit; the commits before the first such commit belong to no
//! release yet. A release has the date of its tag, or the time of the
//! commit that opens it where the tag has no date.

use vstd::prelude::*;
use vstd::hash_map::StringHashMap;
use vstd::multiset::Multiset;
use vstd::string::*;
use regex::Regex;
use crate::git_provider::{CommitInfoView, TagInfo, TagInfoView};
use crate::parsed_commit::{classify, ParsedCommitView};
use crate::pattern::{is_match, regex_is_match};
use crate::render::{
    document,
    lemma_reversed_document,
    markup,
    preamble,
    release,
    releases,
    Piece,
    UNRELEASED,
};
use crate::timestamp::Timestamp;
use crate::commit_type::{CommitType, CATEGORY_COUNT};
use crate::version::{bucket, no_commits, with_commit, Buckets, Version, VersionView};
use crate::{OutputFormat, SortOrder};

verus! {

/// A version tag, as the releases need it: its name and its date.
pub type Tag = (Seq<char>, Option<Timestamp>);

/// The tags by the id of the commit they point at.
pub type TagIndex = Map<Seq<char>, Tag>;

/// A commit as it was met on the walk: the id it was asked for by, and
/// what the repository reported for that id.
pub type Walked = (Seq<char>, CommitInfoView);

/// The tags among `tags` whose name a version pattern matches, in their
/// order.
pub open spec fn version_tags(pattern: Regex, tags: Seq<TagInfoView>) -> Seq<TagInfoView> {
    tags.filter(|tag: TagInfoView| regex_is_match(pattern, tag.name))
}

/// The index of some tags. Where two tags point at one commit, the later
/// one of the list stands.
pub open spec fn tag_index(tags: Seq<TagInfoView>) -> TagIndex
    decreases tags.len(),
{
    if tags.len() == 0 {
        Map::empty()
    } else {
        tag_index(tags.drop_last()).insert(
            tags.last().target_commit_id,
            (tags.last().name, tags.last().date),
        )
    }
}

/// The release of the commits that no tag has reached, before it holds any.
pub open spec fn unreleased() -> VersionView {
    VersionView { name: UNRELEASED@, date: None, commits_by_type: Map::empty() }
}

/// The date of the release that a tag opens at a commit: the date of the
/// tag, or the time of the commit where the tag has no date of its own.
pub open spec fn release_date(tag: Tag, commit: ParsedCommitView) -> Option<Timestamp> {
    match tag.1 {
        Some(date) => Some(date),
        None => Some(commit.timestamp),
    }
}

/// The release that a tag opens at a commit, before it holds any commit: it
/// is named after the tag and dated by it, or by the commit.
pub open spec fn opened(tag: Tag, commit: ParsedCommitView) -> VersionView {
    VersionView { name: tag.0, date: release_date(tag, commit), commits_by_type: Map::empty() }
}

/// A release with one more commit.
pub open spec fn holding(version: VersionView, commit: ParsedCommitView) -> VersionView {
    VersionView {
        name: version.name,
        date: version.date,
        commits_by_type: with_commit(version.commits_by_type, commit),
    }
}

/// The walk so far: the releases that are complete, newest first, and the
/// one that commits are still added to.
pub struct Progress {
    pub done: Seq<VersionView>,
    pub current: VersionView,
}

/// The releases of a walk that has come to its end, or to a tagged commit:
/// the current one is complete, and is kept if it holds a commit.
pub open spec fn closed(progress: Progress) -> Seq<VersionView> {
    if no_commits(progress.current.commits_by_type) {
        progress.done
    } else {
        progress.done.push(progress.current)
    }
}

/// The walk after one more commit. A commit that a tag points at completes
/// the current release and opens the one of the tag; the commit is then
/// added to the current release.
pub open spec fn step(progress: Progress, tag: Option<Tag>, commit: ParsedCommitView) -> Progress {
    match tag {
        Some(tag) => Progress {
            done: closed(progress),
            current: holding(opened(tag, commit), commit),
        },
        None => Progress { done: progress.done, current: holding(progress.current, commit) },
    }
}

/// The tag that points at a commit, if there is one.
pub open spec fn tag_of(index: TagIndex, id: Seq<char>) -> Option<Tag> {
    if index.contains_key(id) {
        Some(index[id])
    } else {
        None
    }
}

/// The walk over some commits, from the first to the last of them.
pub open spec fn walk(pattern: Regex, index: TagIndex, commits: Seq<Walked>) -> Progress
    decreases commits.len(),
{
    if commits.len() == 0 {
        Progress { done: Seq::empty(), current: unreleased() }
    } else {
        step(
            walk(pattern, index, commits.drop_last()),
            tag_of(index, commits.last().0),
            classify(pattern, commits.last().1),
        )
    }
}

/// The releases of a history, the newest first.
pub open spec fn newest_first(pattern: Regex, tags: Seq<TagInfoView>, commits: Seq<Walked>) -> Seq<
    VersionView,
> {
    closed(walk(pattern, tag_index(tags), commits))
}

/// The releases of a history, in the order asked for.
pub open spec fn changelog(
    pattern: Regex,
    tags: Seq<TagInfoView>,
    commits: Seq<Walked>,
    order: SortOrder,
) -> Seq<VersionView> {
    match order {
        SortOrder::Newest => newest_first(pattern, tags, commits),
        SortOrder::Oldest => newest_first(pattern, tags, commits).reverse(),
    }
}

/// Whether a table of tags holds what an index holds.
pub open spec fn indexes(table: Map<Seq<char>, (String, Option<Timestamp>)>, index: TagIndex) -> bool {
    &&& forall|id: Seq<char>| table.contains_key(id) == index.contains_key(id)
    &&& forall|id: Seq<char>| #[trigger]
        table.contains_key(id) ==> table[id].0@ == index[id].0 && table[id].1 == index[id].1
}

/// The tags among `tags` whose name `version_pattern` matches, in their
/// order.
pub fn keep_version_tags(version_pattern: &Regex, tags: &Vec<TagInfo>) -> (kept: Vec<TagInfo>)
    ensures
        kept.deep_view() == version_tags(*version_pattern, tags.deep_view()),
{
    let ghost all = tags.deep_view();
    let mut kept: Vec<TagInfo> = Vec::new();
    let mut i: usize = 0;
    proof {
        reveal(Seq::filter);
        assert(all.take(0) =~= Seq::<TagInfoView>::empty());
        assert(kept.deep_view() =~= version_tags(*version_pattern, all.take(0)));
    }
    while i < tags.len()
        invariant
            i <= tags.len(),
            all == tags.deep_view(),
            kept.deep_view() == version_tags(*version_pattern, all.take(i as int)),
        decreases tags.len() - i,
    {
        let ghost before = kept.deep_view();
        if is_match(version_pattern, tags[i].name.as_str()) {
            kept.push(tags[i].clone());
            assert(kept.deep_view() =~= before.push(tags@[i as int]@));
        }
        proof {
            reveal(Seq::filter);
            assert(all.take(i + 1).drop_last() =~= all.take(i as int));
            assert(all.take(i + 1).last() == tags@[i as int]@);
        }
        i = i + 1;
    }
    assert(all.take(tags.len() as int) =~= all);
    kept
}

/// The tags by the id of the commit they point at. Where two tags point at
/// one commit, the later one of the list stands.
pub fn index_tags(tags: Vec<TagInfo>) -> (table: StringHashMap<(String, Option<Timestamp>)>)
    ensures
        indexes(table@, tag_index(tags.deep_view())),
{
    let mut table: StringHashMap<(String, Option<Timestamp>)> = StringHashMap::new();
    let ghost all = tags.deep_view();
    assert(all.take(0) =~= Seq::<TagInfoView>::empty());
    for tag in it: tags.into_iter()
        invariant
            it.seq().len() == all.len(),
            forall|j: int| 0 <= j < all.len() ==> (#[trigger] it.seq()[j])@ == all[j],
            indexes(table@, tag_index(all.take(it.index() as int))),
    {
        proof {
            let i = it.index() as int;
            assert(all.take(i + 1).drop_last() =~= all.take(i));
            assert(all.take(i + 1).last() == tag@);
        }
        table.insert(tag.target_commit_id, (tag.name, tag.date));
    }
    assert(all.take(all.len() as int) =~= all);
    table
}

/// The same releases, the last one first.
pub fn reversed(versions: Vec<Version>) -> (turned: Vec<Version>)
    ensures
        turned@ == versions@.reverse(),
        turned.deep_view() == versions.deep_view().reverse(),
{
    let ghost all = versions@;
    let mut rest = versions;
    let mut turned: Vec<Version> = Vec::new();
    while rest.len() > 0
        invariant
            rest@.len() + turned@.len() == all.len(),
            rest@ == all.take(rest@.len() as int),
            forall|j: int| 0 <= j < turned@.len() ==> turned@[j] == all[all.len() - 1 - j],
        decreases rest.len(),
    {
        match rest.pop() {
            Some(version) => {
                turned.push(version);
            },
            None => {},
        }
    }
    assert(turned@ =~= all.reverse());
    assert(turned.deep_view() =~= versions.deep_view().reverse());
    turned
}

/// The classified commits of a walk, in the order of the walk.
pub open spec fn classified(pattern: Regex, commits: Seq<Walked>) -> Seq<ParsedCommitView> {
    Seq::new(commits.len(), |i: int| classify(pattern, commits[i].1))
}

/// The commits of the categories at the places below `upto`, each as often
/// as a bucket holds it.
pub open spec fn commits_below(buckets: Buckets, upto: nat) -> Multiset<ParsedCommitView>
    decreases upto,
{
    if upto == 0 {
        Multiset::empty()
    } else {
        commits_below(buckets, (upto - 1) as nat).add(
            bucket(buckets, CommitType::at((upto - 1) as nat)).to_multiset(),
        )
    }
}

/// The commits of a release, each as often as a bucket of it holds it.
pub open spec fn commits_of(version: VersionView) -> Multiset<ParsedCommitView> {
    commits_below(version.commits_by_type, CATEGORY_COUNT as nat)
}

/// The commits of some releases, each as often as a bucket holds it.
pub open spec fn all_commits(versions: Seq<VersionView>) -> Multiset<ParsedCommitView>
    decreases versions.len(),
{
    if versions.len() == 0 {
        Multiset::empty()
    } else {
        all_commits(versions.drop_last()).add(commits_of(versions.last()))
    }
}

/// The commits of a category over some releases: the bucket of the first
/// release, then that of the second, and so on.
pub open spec fn category_commits(versions: Seq<VersionView>, category: CommitType) -> Seq<
    ParsedCommitView,
>
    decreases versions.len(),
{
    if versions.len() == 0 {
        Seq::empty()
    } else {
        category_commits(versions.drop_last(), category) + bucket(
            versions.last().commits_by_type,
            category,
        )
    }
}

/// The commits of a walk that belong to a category, in the order of the
/// walk.
pub open spec fn of_category(commits: Seq<ParsedCommitView>, category: CommitType) -> Seq<
    ParsedCommitView,
> {
    commits.filter(|commit: ParsedCommitView| commit.commit_type == category)
}

proof fn lemma_classified_push(pattern: Regex, commits: Seq<Walked>)
    requires
        commits.len() > 0,
    ensures
        classified(pattern, commits) == classified(pattern, commits.drop_last()).push(
            classify(pattern, commits.last().1),
        ),
{
    assert(classified(pattern, commits) =~= classified(pattern, commits.drop_last()).push(
        classify(pattern, commits.last().1),
    ));
}

proof fn lemma_commits_below_empty(buckets: Buckets, upto: nat)
    requires
        no_commits(buckets),
    ensures
        commits_below(buckets, upto) == Multiset::<ParsedCommitView>::empty(),
    decreases upto,
{
    if upto > 0 {
        lemma_commits_below_empty(buckets, (upto - 1) as nat);
        let category = CommitType::at((upto - 1) as nat);
        assert(!buckets.contains_key(category));
        assert(bucket(buckets, category).to_multiset() =~= Multiset::<ParsedCommitView>::empty())
            by {
            broadcast use vstd::seq_lib::group_to_multiset_ensures;

            bucket(buckets, category).to_multiset_ensures();
            assert(bucket(buckets, category).to_multiset().len() == 0);
        }
        assert(commits_below(buckets, upto) =~= Multiset::<ParsedCommitView>::empty());
    }
}

proof fn lemma_commits_below_with_commit(buckets: Buckets, commit: ParsedCommitView, upto: nat)
    requires
        upto <= CATEGORY_COUNT,
    ensures
        commits_below(with_commit(buckets, commit), upto) == (if commit.commit_type.rank() < upto {
            commits_below(buckets, upto).insert(commit)
        } else {
            commits_below(buckets, upto)
        }),
    decreases upto,
{
    if upto > 0 {
        let place = (upto - 1) as nat;
        let category = CommitType::at(place);
        lemma_commits_below_with_commit(buckets, commit, place);
        let after = with_commit(buckets, commit);
        if category == commit.commit_type {
            assert(bucket(after, category) == bucket(buckets, category).push(commit));
            vstd::seq_lib::to_multiset_build(bucket(buckets, category), commit);
            assert(commits_below(after, upto) =~= commits_below(buckets, upto).insert(commit));
        } else {
            assert(bucket(after, category) == bucket(buckets, category));
            if commit.commit_type.rank() < upto {
                assert(commits_below(after, upto) =~= commits_below(buckets, upto).insert(commit));
            }
        }
    }
}

proof fn lemma_all_commits_push(versions: Seq<VersionView>, version: VersionView)
    ensures
        all_commits(versions.push(version)) == all_commits(versions).add(commits_of(version)),
{
    assert(versions.push(version).drop_last() =~= versions);
}

proof fn lemma_all_commits_closed(progress: Progress)
    ensures
        all_commits(closed(progress)) == all_commits(progress.done).add(
            commits_of(progress.current),
        ),
{
    if no_commits(progress.current.commits_by_type) {
        lemma_commits_below_empty(progress.current.commits_by_type, CATEGORY_COUNT as nat);
        assert(all_commits(progress.done).add(commits_of(progress.current)) =~= all_commits(
            progress.done,
        ));
    } else {
        lemma_all_commits_push(progress.done, progress.current);
    }
}

proof fn lemma_walk_partition(pattern: Regex, index: TagIndex, commits: Seq<Walked>)
    ensures
        all_commits(closed(walk(pattern, index, commits))) == classified(
            pattern,
            commits,
        ).to_multiset(),
    decreases commits.len(),
{
    let progress = walk(pattern, index, commits);
    lemma_all_commits_closed(progress);
    if commits.len() == 0 {
        lemma_commits_below_empty(unreleased().commits_by_type, CATEGORY_COUNT as nat);
        assert(classified(pattern, commits) =~= Seq::<ParsedCommitView>::empty());
        assert(classified(pattern, commits).to_multiset() =~= Multiset::<ParsedCommitView>::empty())
            by {
            classified(pattern, commits).to_multiset_ensures();
            assert(classified(pattern, commits).to_multiset().len() == 0);
        }
        assert(all_commits(progress.done).add(commits_of(progress.current)) =~= Multiset::<
            ParsedCommitView,
        >::empty());
    } else {
        let before = walk(pattern, index, commits.drop_last());
        let commit = classify(pattern, commits.last().1);
        lemma_walk_partition(pattern, index, commits.drop_last());
        lemma_all_commits_closed(before);
        lemma_classified_push(pattern, commits);
        vstd::seq_lib::to_multiset_build(classified(pattern, commits.drop_last()), commit);
        let earlier = classified(pattern, commits.drop_last()).to_multiset();
        assert(all_commits(before.done).add(commits_of(before.current)) == earlier);
        match tag_of(index, commits.last().0) {
            Some(tag) => {
                lemma_commits_below_with_commit(
                    opened(tag, commit).commits_by_type,
                    commit,
                    CATEGORY_COUNT as nat,
                );
                lemma_commits_below_empty(
                    opened(tag, commit).commits_by_type,
                    CATEGORY_COUNT as nat,
                );
                assert(commits_of(progress.current) =~= Multiset::<ParsedCommitView>::empty().insert(
                    commit,
                ));
                assert(all_commits(progress.done) == earlier);
                assert(all_commits(progress.done).add(commits_of(progress.current))
                    =~= earlier.insert(commit));
            },
            None => {
                lemma_commits_below_with_commit(
                    before.current.commits_by_type,
                    commit,
                    CATEGORY_COUNT as nat,
                );
                assert(commits_of(progress.current) == commits_of(before.current).insert(commit));
                assert(all_commits(progress.done).add(commits_of(progress.current))
                    =~= earlier.insert(commit));
            },
        }
    }
}

proof fn lemma_all_commits_reversed(versions: Seq<VersionView>)
    ensures
        all_commits(versions.reverse()) == all_commits(versions),
    decreases versions.len(),
{
    if versions.len() > 0 {
        let first = versions.first();
        let rest = versions.drop_first();
        assert(versions.reverse() =~= rest.reverse().push(first));
        lemma_all_commits_push(rest.reverse(), first);
        lemma_all_commits_reversed(rest);
        lemma_all_commits_front(versions);
        assert(all_commits(rest).add(commits_of(first)) =~= commits_of(first).add(all_commits(rest)));
    } else {
        assert(versions.reverse() =~= versions);
    }
}

proof fn lemma_all_commits_front(versions: Seq<VersionView>)
    requires
        versions.len() > 0,
    ensures
        all_commits(versions) == commits_of(versions.first()).add(
            all_commits(versions.drop_first()),
        ),
    decreases versions.len(),
{
    if versions.len() == 1 {
        assert(versions.drop_last() =~= Seq::<VersionView>::empty());
        assert(versions.drop_first() =~= Seq::<VersionView>::empty());
        assert(all_commits(versions) =~= commits_of(versions.first()).add(
            all_commits(versions.drop_first()),
        ));
    } else {
        let shorter = versions.drop_last();
        lemma_all_commits_front(shorter);
        assert(shorter.drop_first() =~= versions.drop_first().drop_last());
        assert(versions.drop_first().last() == versions.last());
        assert(all_commits(versions) =~= commits_of(versions.first()).add(
            all_commits(versions.drop_first()),
        ));
    }
}

/// The releases hold each classified commit of the walk as often as the
/// walk met it, and nothing else: no commit is lost and none is doubled,
/// whatever the order of the releases.
pub proof fn lemma_releases_partition_the_commits(
    pattern: Regex,
    tags: Seq<TagInfoView>,
    commits: Seq<Walked>,
    order: SortOrder,
)
    ensures
        all_commits(changelog(pattern, tags, commits, order)) == classified(
            pattern,
            commits,
        ).to_multiset(),
{
    lemma_walk_partition(pattern, tag_index(tags), commits);
    lemma_all_commits_reversed(newest_first(pattern, tags, commits));
}

proof fn lemma_category_commits_closed(progress: Progress, category: CommitType)
    ensures
        category_commits(closed(progress), category) == category_commits(progress.done, category)
            + bucket(progress.current.commits_by_type, category),
{
    if no_commits(progress.current.commits_by_type) {
        assert(!progress.current.commits_by_type.contains_key(category));
        assert(category_commits(progress.done, category) + Seq::<ParsedCommitView>::empty()
            =~= category_commits(progress.done, category));
    } else {
        assert(progress.done.push(progress.current).drop_last() =~= progress.done);
    }
}

proof fn lemma_walk_keeps_order(
    pattern: Regex,
    index: TagIndex,
    commits: Seq<Walked>,
    category: CommitType,
)
    ensures
        category_commits(closed(walk(pattern, index, commits)), category) == of_category(
            classified(pattern, commits),
            category,
        ),
    decreases commits.len(),
{
    reveal(Seq::filter);
    let progress = walk(pattern, index, commits);
    lemma_category_commits_closed(progress, category);
    if commits.len() == 0 {
        assert(classified(pattern, commits) =~= Seq::<ParsedCommitView>::empty());
        assert(category_commits(closed(progress), category) =~= Seq::<ParsedCommitView>::empty());
    } else {
        let before = walk(pattern, index, commits.drop_last());
        let commit = classify(pattern, commits.last().1);
        lemma_walk_keeps_order(pattern, index, commits.drop_last(), category);
        lemma_category_commits_closed(before, category);
        lemma_classified_push(pattern, commits);
        let earlier = classified(pattern, commits.drop_last());
        assert(earlier.push(commit).drop_last() =~= earlier);
        let kept = of_category(earlier, category);
        assert(of_category(earlier.push(commit), category) == (if commit.commit_type == category {
            kept.push(commit)
        } else {
            kept
        }));
        match tag_of(index, commits.last().0) {
            Some(tag) => {
                assert(bucket(progress.current.commits_by_type, category) =~= (if commit.commit_type
                    == category {
                    Seq::<ParsedCommitView>::empty().push(commit)
                } else {
                    Seq::<ParsedCommitView>::empty()
                }));
                assert(category_commits(progress.done, category) == kept);
                assert(category_commits(closed(progress), category) =~= of_category(
                    earlier.push(commit),
                    category,
                ));
            },
            None => {
                assert(bucket(progress.current.commits_by_type, category) =~= (if commit.commit_type
                    == category {
                    bucket(before.current.commits_by_type, category).push(commit)
                } else {
                    bucket(before.current.commits_by_type, category)
                }));
                assert(category_commits(closed(progress), category) =~= of_category(
                    earlier.push(commit),
                    category,
                ));
            },
        }
    }
}

/// Read from the newest release to the oldest, the buckets of a category
/// hold the commits of that category in the order of the walk: a commit
/// stands in the bucket of its own category, and commits keep their order
/// within a bucket and from one release to the next.
pub proof fn lemma_buckets_keep_the_order_of_the_walk(
    pattern: Regex,
    tags: Seq<TagInfoView>,
    commits: Seq<Walked>,
    category: CommitType,
)
    ensures
        category_commits(newest_first(pattern, tags, commits), category) == of_category(
            classified(pattern, commits),
            category,
        ),
{
    lemma_walk_keeps_order(pattern, tag_index(tags), commits, category);
}

proof fn lemma_walk_leaves_no_empty_release(pattern: Regex, index: TagIndex, commits: Seq<Walked>)
    ensures
        forall|i: int|
            0 <= i < walk(pattern, index, commits).done.len() ==> !no_commits(
                (#[trigger] walk(pattern, index, commits).done[i]).commits_by_type,
            ),
        commits.len() > 0 ==> !no_commits(walk(pattern, index, commits).current.commits_by_type),
    decreases commits.len(),
{
    if commits.len() > 0 {
        let before = walk(pattern, index, commits.drop_last());
        let commit = classify(pattern, commits.last().1);
        let progress = walk(pattern, index, commits);
        lemma_walk_leaves_no_empty_release(pattern, index, commits.drop_last());
        assert(progress.current.commits_by_type.contains_key(commit.commit_type));
    }
}

/// Every release of a changelog holds a commit: a release that would be
/// empty, such as the one before a tag on the first commit of the walk, is
/// left out.
pub proof fn lemma_no_release_is_empty(
    pattern: Regex,
    tags: Seq<TagInfoView>,
    commits: Seq<Walked>,
    order: SortOrder,
)
    ensures
        forall|i: int|
            0 <= i < changelog(pattern, tags, commits, order).len() ==> !no_commits(
                (#[trigger] changelog(pattern, tags, commits, order)[i]).commits_by_type,
            ),
        commits.len() > 0 ==> changelog(pattern, tags, commits, order).len() > 0,
{
    lemma_walk_leaves_no_empty_release(pattern, tag_index(tags), commits);
}

proof fn lemma_walk_begins_with_the_tag(pattern: Regex, index: TagIndex, commits: Seq<Walked>)
    requires
        commits.len() > 0,
        index.contains_key(commits[0].0),
    ensures
        ({
            let progress = walk(pattern, index, commits);
            let first = if progress.done.len() > 0 {
                progress.done[0]
            } else {
                progress.current
            };
            first.name == index[commits[0].0].0 && first.date == release_date(
                index[commits[0].0],
                classify(pattern, commits[0].1),
            )
        }),
    decreases commits.len(),
{
    let earlier = commits.drop_last();
    if earlier.len() == 0 {
        assert(walk(pattern, index, earlier).done.len() == 0);
        assert(no_commits(unreleased().commits_by_type));
    } else {
        assert(earlier[0] == commits[0]);
        lemma_walk_begins_with_the_tag(pattern, index, earlier);
        lemma_walk_leaves_no_empty_release(pattern, index, earlier);
    }
}

/// Where a tag points at the first commit of the walk, the newest release
/// is the one of that tag: no release of untagged commits stands before it.
/// The release has the date of the tag, or the time of that commit where
/// the tag has no date of its own.
pub proof fn lemma_tag_on_the_first_commit(
    pattern: Regex,
    tags: Seq<TagInfoView>,
    commits: Seq<Walked>,
)
    requires
        commits.len() > 0,
        tag_index(tags).contains_key(commits[0].0),
    ensures
        newest_first(pattern, tags, commits).len() > 0,
        newest_first(pattern, tags, commits)[0].name == tag_index(tags)[commits[0].0].0,
        newest_first(pattern, tags, commits)[0].date == (match tag_index(tags)[commits[0].0].1 {
            Some(date) => Some(date),
            None => Some(commits[0].1.timestamp),
        }),
{
    lemma_walk_begins_with_the_tag(pattern, tag_index(tags), commits);
    lemma_walk_leaves_no_empty_release(pattern, tag_index(tags), commits);
}

proof fn lemma_walk_dates_the_releases(pattern: Regex, index: TagIndex, commits: Seq<Walked>)
    ensures
        forall|i: int|
            1 <= i < walk(pattern, index, commits).done.len() ==> (#[trigger] walk(
                pattern,
                index,
                commits,
            ).done[i]).date is Some,
        walk(pattern, index, commits).done.len() > 0 ==> walk(
            pattern,
            index,
            commits,
        ).current.date is Some,
    decreases commits.len(),
{
    if commits.len() > 0 {
        lemma_walk_dates_the_releases(pattern, index, commits.drop_last());
    }
}

/// Every release but the newest is the release of a tag, and has a date.
pub proof fn lemma_releases_of_tags_are_dated(
    pattern: Regex,
    tags: Seq<TagInfoView>,
    commits: Seq<Walked>,
    i: int,
)
    requires
        1 <= i < newest_first(pattern, tags, commits).len(),
    ensures
        newest_first(pattern, tags, commits)[i].date is Some,
{
    lemma_walk_dates_the_releases(pattern, tag_index(tags), commits);
}

/// Without a tag on any commit of the walk, all commits stand in one
/// release, the one of the commits that no tag has reached.
pub proof fn lemma_no_tag_no_release(pattern: Regex, tags: Seq<TagInfoView>, commits: Seq<Walked>)
    requires
        forall|i: int| 0 <= i < commits.len() ==> !tag_index(tags).contains_key(commits[i].0),
    ensures
        walk(pattern, tag_index(tags), commits).done.len() == 0,
        walk(pattern, tag_index(tags), commits).current.name == UNRELEASED@,
        walk(pattern, tag_index(tags), commits).current.date is None,
        newest_first(pattern, tags, commits).len() == (if commits.len() == 0 {
            0nat
        } else {
            1nat
        }),
    decreases commits.len(),
{
    if commits.len() > 0 {
        let earlier = commits.drop_last();
        assert forall|i: int| 0 <= i < earlier.len() implies !tag_index(tags).contains_key(
            earlier[i].0,
        ) by {
            assert(earlier[i] == commits[i]);
        }
        lemma_no_tag_no_release(pattern, tags, earlier);
        lemma_walk_leaves_no_empty_release(pattern, tag_index(tags), commits);
    }
}

/// The oldest-first changelog lists the releases of the newest-first one
/// from the last to the first; each release is the same in both.
pub proof fn lemma_oldest_first_is_newest_first_reversed(
    pattern: Regex,
    tags: Seq<TagInfoView>,
    commits: Seq<Walked>,
)
    ensures
        changelog(pattern, tags, commits, SortOrder::Oldest) == changelog(
            pattern,
            tags,
            commits,
            SortOrder::Newest,
        ).reverse(),
        changelog(pattern, tags, commits, SortOrder::Oldest).len() == changelog(
            pattern,
            tags,
            commits,
            SortOrder::Newest,
        ).len(),
        forall|i: int|
            0 <= i < changelog(pattern, tags, commits, SortOrder::Newest).len() ==> changelog(
                pattern,
                tags,
                commits,
                SortOrder::Oldest,
            )[i] == changelog(pattern, tags, commits, SortOrder::Newest)[changelog(
                pattern,
                tags,
                commits,
                SortOrder::Newest,
            ).len() - 1 - i],
{
}

/// Two commits of different categories can be added in either order: the
/// buckets are the same.
pub proof fn lemma_categories_do_not_interfere(
    buckets: Buckets,
    a: ParsedCommitView,
    b: ParsedCommitView,
)
    requires
        a.commit_type != b.commit_type,
    ensures
        with_commit(with_commit(buckets, a), b) == with_commit(with_commit(buckets, b), a),
{
    assert(with_commit(with_commit(buckets, a), b) =~= with_commit(with_commit(buckets, b), a));
}

/// The oldest-first document shows the releases of the newest-first one
/// in the opposite order, each with the same text.
pub proof fn lemma_oldest_first_document(
    pattern: Regex,
    tags: Seq<TagInfoView>,
    commits: Seq<Walked>,
    format: OutputFormat,
    title: Seq<char>,
    i: int,
)
    requires
        0 <= i < changelog(pattern, tags, commits, SortOrder::Newest).len(),
    ensures
        ({
            let newest = changelog(pattern, tags, commits, SortOrder::Newest);
            let oldest = changelog(pattern, tags, commits, SortOrder::Oldest);
            document(format, oldest, title) == preamble(format, title) + releases(
                format,
                newest.skip(i + 1).reverse(),
            ) + release(format, newest[i]) + releases(format, newest.take(i).reverse()) + markup(
                format,
                Piece::Closing,
            )
        }),
{
    lemma_reversed_document(format, newest_first(pattern, tags, commits), title, i);
}

/// The text of a release does not tell in which order two commits of
/// different categories were met.
pub proof fn lemma_encounter_order_does_not_show(
    format: OutputFormat,
    version: VersionView,
    a: ParsedCommitView,
    b: ParsedCommitView,
)
    requires
        a.commit_type != b.commit_type,
    ensures
        release(format, holding(holding(version, a), b)) == release(
            format,
            holding(holding(version, b), a),
        ),
{
    lemma_categories_do_not_interfere(version.commits_by_type, a, b);
}

} // verus!
