//! What the changelog needs from a repository.

use vstd::prelude::*;
use vstd::string::*;
use regex::Regex;
use std::path::PathBuf;
use crate::timestamp::Timestamp;

verus! {

/// `git2::Error`: an error of libgit2. Nothing is known of what is inside
/// one.
#[verifier::external_type_specification]
#[verifier::external_body]
pub struct ExGit2Error(git2::Error);

/// `std::path::PathBuf`: a path, which the library hands on and never
/// reads.
#[verifier::external_type_specification]
#[verifier::external_body]
pub struct ExPathBuf(std::path::PathBuf);

/// What a `git2::Error` prints as.
pub uninterp spec fn git2_error_text(error: git2::Error) -> Seq<char>;

/// The `Display` of `git2::Error`: the message of the error, followed by
/// its class and code where they are set. The contract gives the text a
/// name.
#[verifier::external_body]
fn describe_git2_error(error: &git2::Error) -> (text: String)
    ensures
        text@ == git2_error_text(*error),
{
    error.to_string()
}

/// Why a repository could not be read, or a pattern not be used.
#[derive(Debug)]
pub enum GitError {
    Git2Error(git2::Error),
    InvalidCommitMessage(String),
    InvalidTag(String),
    /// A pattern that is no regular expression, and why it is none.
    InvalidPattern(String, String),
}

impl GitError {
    /// The message of an error.
    pub open spec fn message_text(self) -> Seq<char> {
        match self {
            GitError::Git2Error(e) => "Git error: "@ + git2_error_text(e),
            GitError::InvalidCommitMessage(s) => "Invalid commit message: "@ + s@,
            GitError::InvalidTag(s) => "Invalid tag: "@ + s@,
            GitError::InvalidPattern(s, why) => "Invalid pattern: "@ + s@ + ": "@ + why@,
        }
    }

    /// The message of a repository error, given as what the error prints as.
    pub fn git_message(detail: &str) -> (text: String)
        ensures
            text@ == "Git error: "@ + detail@,
    {
        String::from_str("Git error: ").concat(detail)
    }

    /// The message of an error.
    pub fn message(&self) -> (text: String)
        ensures
            text@ == self.message_text(),
    {
        match self {
            GitError::Git2Error(e) => {
                let detail = describe_git2_error(e);
                GitError::git_message(detail.as_str())
            },
            GitError::InvalidCommitMessage(s) => String::from_str("Invalid commit message: ").concat(
                s.as_str(),
            ),
            GitError::InvalidTag(s) => String::from_str("Invalid tag: ").concat(s.as_str()),
            GitError::InvalidPattern(s, why) => String::from_str("Invalid pattern: ").concat(
                s.as_str(),
            ).concat(": ").concat(why.as_str()),
        }
    }
}

impl From<git2::Error> for GitError {
    fn from(error: git2::Error) -> (r: GitError) {
        GitError::Git2Error(error)
    }
}

impl vstd::std_specs::convert::FromSpecImpl<git2::Error> for GitError {
    open spec fn obeys_from_spec() -> bool {
        true
    }

    open spec fn from_spec(error: git2::Error) -> GitError {
        GitError::Git2Error(error)
    }
}

/// A commit, as a repository reports it.
#[derive(Debug)]
pub struct CommitInfo {
    pub id: String,
    pub message: String,
    pub timestamp: Timestamp,
}

/// What a `CommitInfo` holds.
pub struct CommitInfoView {
    pub id: Seq<char>,
    pub message: Seq<char>,
    pub timestamp: Timestamp,
}

impl View for CommitInfo {
    type V = CommitInfoView;

    open spec fn view(&self) -> CommitInfoView {
        CommitInfoView { id: self.id@, message: self.message@, timestamp: self.timestamp }
    }
}

impl DeepView for CommitInfo {
    type V = CommitInfoView;

    open spec fn deep_view(&self) -> CommitInfoView {
        self@
    }
}

impl Clone for CommitInfo {
    fn clone(&self) -> (copy: CommitInfo)
        ensures
            copy@ == self@,
    {
        CommitInfo {
            id: self.id.clone(),
            message: self.message.clone(),
            timestamp: self.timestamp,
        }
    }
}

/// A tag whose name is a version, as a repository reports it.
#[derive(Debug)]
pub struct TagInfo {
    pub name: String,
    pub target_commit_id: String,
    /// The date of the tag itself. The release of a tag without one is
    /// dated by the commit that the tag points at.
    pub date: Option<Timestamp>,
}

/// What a `TagInfo` holds.
pub struct TagInfoView {
    pub name: Seq<char>,
    pub target_commit_id: Seq<char>,
    pub date: Option<Timestamp>,
}

impl View for TagInfo {
    type V = TagInfoView;

    open spec fn view(&self) -> TagInfoView {
        TagInfoView {
            name: self.name@,
            target_commit_id: self.target_commit_id@,
            date: self.date,
        }
    }
}

impl DeepView for TagInfo {
    type V = TagInfoView;

    open spec fn deep_view(&self) -> TagInfoView {
        self@
    }
}

impl Clone for TagInfo {
    fn clone(&self) -> (copy: TagInfo)
        ensures
            copy@ == self@,
    {
        TagInfo {
            name: self.name.clone(),
            target_commit_id: self.target_commit_id.clone(),
            date: self.date,
        }
    }
}

impl TagInfo {
    /// An annotated tag: it points at `target_commit_id` and is dated by
    /// its tagger, where it names one.
    pub fn annotated(name: String, target_commit_id: String, tagged: Option<Timestamp>) -> (tag:
        TagInfo)
        ensures
            tag@ == (TagInfoView { name: name@, target_commit_id: target_commit_id@, date: tagged }),
    {
        TagInfo { name, target_commit_id, date: tagged }
    }

    /// A lightweight tag: it is dated by the commit it points at.
    pub fn lightweight(name: String, commit_id: String, committed: Timestamp) -> (tag: TagInfo)
        ensures
            tag@ == (TagInfoView {
                name: name@,
                target_commit_id: commit_id@,
                date: Some(committed),
            }),
    {
        TagInfo { name, target_commit_id: commit_id, date: Some(committed) }
    }
}

/// The ids that a repository listed, or its failure.
pub open spec fn listed(answer: Result<Vec<String>, GitError>) -> Result<Seq<Seq<char>>, GitError> {
    match answer {
        Ok(ids) => Ok(ids.deep_view()),
        Err(e) => Err(e),
    }
}

/// The commit that a repository reported, or its failure.
pub open spec fn reported(answer: Result<CommitInfo, GitError>) -> Result<CommitInfoView, GitError> {
    match answer {
        Ok(info) => Ok(info@),
        Err(e) => Err(e),
    }
}

/// The tags that a repository reported, or its failure.
pub open spec fn tagged(answer: Result<Vec<TagInfo>, GitError>) -> Result<Seq<TagInfoView>, GitError> {
    match answer {
        Ok(tags) => Ok(tags.deep_view()),
        Err(e) => Err(e),
    }
}

/// The access to a repository that a changelog is made from.
///
/// Each question comes with a predicate that says which answers the
/// repository can give to it. An implementation states in it what it
/// answers; one that states nothing keeps the predicate as it is, and every
/// answer is then taken as it comes. A repository may answer one question
/// differently from one time to the next.
pub trait GitProvider: Sized {
    /// Opens the repository at `path`.
    fn open(path: &PathBuf) -> (answer: Result<Self, GitError>)
        ensures
            Self::opens(*path, answer),
    ;

    /// The ids of all commits, newest first.
    fn get_commit_ids(&self) -> (answer: Result<Vec<String>, GitError>)
        ensures
            self.lists_commits(listed(answer)),
    ;

    /// The commit with the given id.
    fn get_commit_info(&self, id: &str) -> (answer: Result<CommitInfo, GitError>)
        ensures
            self.reports_commit(id@, reported(answer)),
    ;

    /// The tags whose name matches `version_pattern`, each with the commit
    /// it points at.
    fn get_tag_info(&self, version_pattern: &Regex) -> (answer: Result<Vec<TagInfo>, GitError>)
        ensures
            self.reports_tags(*version_pattern, tagged(answer)),
    ;

    /// Whether opening the repository at `path` can give `answer`.
    open spec fn opens(path: PathBuf, answer: Result<Self, GitError>) -> bool {
        true
    }

    /// Whether the repository can give `answer` when asked for the ids of
    /// its commits.
    open spec fn lists_commits(&self, answer: Result<Seq<Seq<char>>, GitError>) -> bool {
        true
    }

    /// Whether the repository can give `answer` when asked for the commit
    /// with the id `id`.
    open spec fn reports_commit(&self, id: Seq<char>, answer: Result<CommitInfoView, GitError>) -> bool {
        true
    }

    /// Whether the repository can give `answer` when asked for the tags
    /// whose name matches `version_pattern`.
    open spec fn reports_tags(
        &self,
        version_pattern: Regex,
        answer: Result<Seq<TagInfoView>, GitError>,
    ) -> bool {
        true
    }
}

} // verus!
