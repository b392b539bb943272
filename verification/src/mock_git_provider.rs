//! A repository held in memory.

use vstd::prelude::*;
use vstd::string::*;
use regex::Regex;
use std::path::PathBuf;
use crate::git_provider::{CommitInfo, CommitInfoView, GitError, GitProvider, TagInfo, TagInfoView};
use crate::segment::{keep_version_tags, version_tags};
use crate::text::str_eq;

verus! {

/// A repository that answers from the commits and tags it was given.
#[derive(Debug)]
pub struct MockGitProvider {
    /// The commits, in the order in which a walk meets them.
    pub commits: Vec<CommitInfo>,
    pub tags: Vec<TagInfo>,
}

/// Whether `commits[at]` is the first commit with the id `id`.
pub open spec fn first_with_id(commits: Seq<CommitInfoView>, id: Seq<char>, at: int) -> bool {
    &&& 0 <= at < commits.len()
    &&& commits[at].id == id
    &&& forall|j: int| 0 <= j < at ==> commits[j].id != id
}

impl MockGitProvider {
    /// A repository without commits or tags.
    pub fn new() -> (repo: MockGitProvider)
        ensures
            repo.commits@.len() == 0,
            repo.tags@.len() == 0,
    {
        MockGitProvider { commits: Vec::new(), tags: Vec::new() }
    }

    /// The same repository with other commits.
    pub fn with_commits(self, commits: Vec<CommitInfo>) -> (repo: MockGitProvider)
        ensures
            repo.commits == commits,
            repo.tags == self.tags,
    {
        let mut repo = self;
        repo.commits = commits;
        repo
    }

    /// The same repository with other tags.
    pub fn with_tags(self, tags: Vec<TagInfo>) -> (repo: MockGitProvider)
        ensures
            repo.commits == self.commits,
            repo.tags == tags,
    {
        let mut repo = self;
        repo.tags = tags;
        repo
    }
}

impl Default for MockGitProvider {
    fn default() -> (repo: MockGitProvider)
        ensures
            repo.commits@.len() == 0,
            repo.tags@.len() == 0,
    {
        MockGitProvider::new()
    }
}

impl GitProvider for MockGitProvider {
    /// A repository without commits or tags, wherever `path` leads.
    fn open(path: &PathBuf) -> (r: Result<MockGitProvider, GitError>)
        ensures
            r matches Ok(repo) && repo.commits@.len() == 0 && repo.tags@.len() == 0,
    {
        Ok(MockGitProvider::new())
    }

    /// The ids of the commits, in their order.
    fn get_commit_ids(&self) -> (r: Result<Vec<String>, GitError>)
        ensures
            r matches Ok(ids) && ids@.len() == self.commits@.len() && forall|i: int|
                0 <= i < ids@.len() ==> (#[trigger] ids@[i])@ == self.commits@[i].id@,
    {
        let mut ids: Vec<String> = Vec::new();
        let mut i: usize = 0;
        while i < self.commits.len()
            invariant
                i <= self.commits.len(),
                ids@.len() == i,
                forall|j: int| 0 <= j < i ==> (#[trigger] ids@[j])@ == self.commits@[j].id@,
            decreases self.commits.len() - i,
        {
            ids.push(self.commits[i].id.clone());
            i = i + 1;
        }
        Ok(ids)
    }

    /// The first commit with the given id; an error where there is none.
    fn get_commit_info(&self, id: &str) -> (r: Result<CommitInfo, GitError>)
        ensures
            match r {
                Ok(info) => exists|at: int| #[trigger]
                    first_with_id(self.commits.deep_view(), id@, at) && info@
                        == self.commits@[at]@,
                Err(e) => (forall|j: int|
                    0 <= j < self.commits@.len() ==> (#[trigger] self.commits@[j]).id@ != id@) && (
                e matches GitError::InvalidCommitMessage(text) && text@ == "Commit not found: "@
                    + id@),
            },
    {
        let mut i: usize = 0;
        while i < self.commits.len()
            invariant
                i <= self.commits.len(),
                forall|j: int| 0 <= j < i ==> (#[trigger] self.commits@[j]).id@ != id@,
            decreases self.commits.len() - i,
        {
            if str_eq(self.commits[i].id.as_str(), id) {
                let info = self.commits[i].clone();
                assert(first_with_id(self.commits.deep_view(), id@, i as int));
                return Ok(info);
            }
            i = i + 1;
        }
        Err(GitError::InvalidCommitMessage(String::from_str("Commit not found: ").concat(id)))
    }

    /// The tags whose name `version_pattern` matches, in their order.
    fn get_tag_info(&self, version_pattern: &Regex) -> (r: Result<Vec<TagInfo>, GitError>)
        ensures
            r matches Ok(tags) && tags.deep_view() == version_tags(
                *version_pattern,
                self.tags.deep_view(),
            ),
    {
        Ok(keep_version_tags(version_pattern, &self.tags))
    }

    /// Opening gives a repository without commits or tags.
    open spec fn opens(path: PathBuf, answer: Result<MockGitProvider, GitError>) -> bool {
        answer matches Ok(repo) && repo.commits@.len() == 0 && repo.tags@.len() == 0
    }

    /// The ids listed are those of the commits, in their order.
    open spec fn lists_commits(&self, answer: Result<Seq<Seq<char>>, GitError>) -> bool {
        answer matches Ok(ids) && ids.len() == self.commits@.len() && forall|i: int|
            0 <= i < ids.len() ==> #[trigger] ids[i] == self.commits@[i].id@
    }

    /// The commit reported is the first one with the id asked for; where
    /// there is none, the failure says so.
    open spec fn reports_commit(&self, id: Seq<char>, answer: Result<CommitInfoView, GitError>) -> bool {
        match answer {
            Ok(info) => exists|at: int| #[trigger]
                first_with_id(self.commits.deep_view(), id, at) && info == self.commits@[at]@,
            Err(e) => (forall|j: int|
                0 <= j < self.commits@.len() ==> (#[trigger] self.commits@[j]).id@ != id) && (
            e matches GitError::InvalidCommitMessage(text) && text@ == "Commit not found: "@ + id),
        }
    }

    /// The tags reported are those whose name the pattern matches, in
    /// their order.
    open spec fn reports_tags(
        &self,
        version_pattern: Regex,
        answer: Result<Seq<TagInfoView>, GitError>,
    ) -> bool {
        answer matches Ok(tags) && tags == version_tags(version_pattern, self.tags.deep_view())
    }
}

} // verus!
