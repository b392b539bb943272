//! Releases and the commits they hold.

use vstd::prelude::*;
use crate::commit_type::{CommitType, CATEGORY_COUNT};
use crate::parsed_commit::{ParsedCommit, ParsedCommitView};
use crate::timestamp::Timestamp;

verus! {

/// The commits of a release by category, as a map: a category is a key
/// where the release holds a commit of it.
pub type Buckets = Map<CommitType, Seq<ParsedCommitView>>;

/// The commits of a category, in the order in which they were added; none
/// where the category is no key.
pub open spec fn bucket(buckets: Buckets, category: CommitType) -> Seq<ParsedCommitView> {
    if buckets.contains_key(category) {
        buckets[category]
    } else {
        Seq::empty()
    }
}

/// The buckets after one more commit: it comes last in the bucket of its
/// category.
pub open spec fn with_commit(buckets: Buckets, commit: ParsedCommitView) -> Buckets {
    buckets.insert(commit.commit_type, bucket(buckets, commit.commit_type).push(commit))
}

/// Whether no category holds a commit.
pub open spec fn no_commits(buckets: Buckets) -> bool {
    forall|category: CommitType| !buckets.contains_key(category)
}

/// The commits of a release, grouped by category. Within a category the
/// commits keep the order in which they were added.
///
/// The groups are held as one list per category, in the display order, and
/// not in a hash map with the category as key: of a hash map with such a
/// key the verifier knows nothing.
#[derive(Debug)]
pub struct CommitsByType {
    buckets: Vec<Vec<ParsedCommit>>,
}

impl View for CommitsByType {
    type V = Buckets;

    closed spec fn view(&self) -> Buckets {
        Map::new(
            |category: CommitType| self.buckets@[category.rank() as int]@.len() > 0,
            |category: CommitType| self.buckets@[category.rank() as int].deep_view(),
        )
    }
}

impl CommitsByType {
    #[verifier::type_invariant]
    spec fn one_bucket_per_category(self) -> bool {
        self.buckets@.len() == CATEGORY_COUNT
    }

    /// No commits.
    pub fn new() -> (empty: CommitsByType)
        ensures
            empty@ == Map::<CommitType, Seq<ParsedCommitView>>::empty(),
    {
        let mut buckets: Vec<Vec<ParsedCommit>> = Vec::new();
        let mut i: usize = 0;
        while i < CATEGORY_COUNT
            invariant
                i <= CATEGORY_COUNT,
                buckets@.len() == i,
                forall|j: int| 0 <= j < i ==> (#[trigger] buckets@[j])@.len() == 0,
            decreases CATEGORY_COUNT - i,
        {
            buckets.push(Vec::new());
            i = i + 1;
        }
        let empty = CommitsByType { buckets };
        assert(empty@ =~= Map::<CommitType, Seq<ParsedCommitView>>::empty());
        empty
    }

    /// Whether no category holds a commit.
    pub fn is_empty(&self) -> (empty: bool)
        ensures
            empty == no_commits(self@),
    {
        proof {
            use_type_invariant(self);
        }
        let mut i: usize = 0;
        while i < CATEGORY_COUNT
            invariant
                i <= CATEGORY_COUNT,
                self.buckets@.len() == CATEGORY_COUNT,
                forall|j: int| 0 <= j < i ==> (#[trigger] self.buckets@[j])@.len() == 0,
            decreases CATEGORY_COUNT - i,
        {
            if self.buckets[i].len() > 0 {
                assert(self@.contains_key(CommitType::at(i as nat)));
                return false;
            }
            i = i + 1;
        }
        true
    }

    /// Whether a category holds a commit.
    pub fn contains_key(&self, category: &CommitType) -> (found: bool)
        ensures
            found == self@.contains_key(*category),
    {
        proof {
            use_type_invariant(self);
        }
        self.buckets[category.order()].len() > 0
    }

    /// The commits of a category, where it holds any.
    pub fn get(&self, category: &CommitType) -> (commits: Option<&Vec<ParsedCommit>>)
        ensures
            match commits {
                Some(list) => self@.contains_key(*category) && list.deep_view() == self@[*category]
                    && list@.len() > 0,
                None => !self@.contains_key(*category),
            },
    {
        proof {
            use_type_invariant(self);
        }
        let list = &self.buckets[category.order()];
        if list.len() > 0 {
            Some(list)
        } else {
            None
        }
    }

    /// Adds a commit: it comes last among the commits of its category.
    pub fn push(&mut self, commit: ParsedCommit)
        ensures
            final(self)@ == with_commit(old(self)@, commit@),
    {
        proof {
            use_type_invariant(&*self);
        }
        let place = commit.commit_type.order();
        let ghost before = self.buckets@;
        let ghost added = commit@;
        self.buckets[place].push(commit);
        proof {
            let after = self.buckets@;
            assert(after[place as int].deep_view() =~= before[place as int].deep_view().push(added));
            let kind = added.commit_type;
            assert(before[place as int].deep_view() =~= bucket(old(self)@, kind));
            assert forall|category: CommitType|
                self@.contains_key(category) == with_commit(old(self)@, added).contains_key(
                    category,
                ) && (self@.contains_key(category) ==> self@[category] == with_commit(
                    old(self)@,
                    added,
                )[category]) by {
                if category.rank() != place {
                    assert(after[category.rank() as int] == before[category.rank() as int]);
                } else {
                    assert(category == kind);
                }
            }
            assert(self@ =~= with_commit(old(self)@, added));
        }
    }
}

/// A release: its name, its date and its commits by category.
#[derive(Debug)]
pub struct Version {
    pub name: String,
    pub date: Option<Timestamp>,
    pub commits_by_type: CommitsByType,
}

/// What a `Version` holds.
pub struct VersionView {
    pub name: Seq<char>,
    pub date: Option<Timestamp>,
    pub commits_by_type: Buckets,
}

impl View for Version {
    type V = VersionView;

    open spec fn view(&self) -> VersionView {
        VersionView { name: self.name@, date: self.date, commits_by_type: self.commits_by_type@ }
    }
}

impl DeepView for Version {
    type V = VersionView;

    open spec fn deep_view(&self) -> VersionView {
        self@
    }
}

} // verus!
