//! Classified commits.

use vstd::prelude::*;
use vstd::string::*;
use regex::Regex;
use crate::commit_type::CommitType;
use crate::git_provider::{CommitInfo, CommitInfoView};
use crate::pattern::{group, regex_captures, text_of};
use crate::text::{first_line, trim};
use crate::timestamp::Timestamp;

verus! {

/// A commit with its category, its scope and what its first line says.
#[derive(Debug)]
pub struct ParsedCommit {
    pub id: String,
    pub commit_type: CommitType,
    pub scope: Option<String>,
    pub message: String,
    pub timestamp: Timestamp,
}

/// What a `ParsedCommit` holds.
pub struct ParsedCommitView {
    pub id: Seq<char>,
    pub commit_type: CommitType,
    pub scope: Option<Seq<char>>,
    pub message: Seq<char>,
    pub timestamp: Timestamp,
}

impl View for ParsedCommit {
    type V = ParsedCommitView;

    open spec fn view(&self) -> ParsedCommitView {
        ParsedCommitView {
            id: self.id@,
            commit_type: self.commit_type,
            scope: text_of(self.scope),
            message: self.message@,
            timestamp: self.timestamp,
        }
    }
}

impl DeepView for ParsedCommit {
    type V = ParsedCommitView;

    open spec fn deep_view(&self) -> ParsedCommitView {
        self@
    }
}

/// The groups of the commit pattern that a matching line is read by.
pub struct CommitGroups {
    /// The group `type`: the prefix.
    pub kind: Option<String>,
    /// The group `scope`.
    pub scope: Option<String>,
    /// The group `message`.
    pub message: Option<String>,
}

/// What a `CommitGroups` holds.
pub struct CommitGroupsView {
    pub kind: Option<Seq<char>>,
    pub scope: Option<Seq<char>>,
    pub message: Option<Seq<char>>,
}

impl View for CommitGroups {
    type V = CommitGroupsView;

    open spec fn view(&self) -> CommitGroupsView {
        CommitGroupsView {
            kind: text_of(self.kind),
            scope: text_of(self.scope),
            message: text_of(self.message),
        }
    }
}

/// The text of a group, or nothing where the group took no part.
pub open spec fn text_or_empty(text: Option<Seq<char>>) -> Seq<char> {
    match text {
        Some(t) => t,
        None => Seq::empty(),
    }
}

/// The reading of a commit whose trimmed first line is `line`, given what
/// the commit pattern found in that line. A line that matched gets the
/// category of its prefix, its scope and its message from the groups; one
/// that did not match is kept whole under `Other`.
pub open spec fn read_commit(
    info: CommitInfoView,
    line: Seq<char>,
    found: Option<CommitGroupsView>,
) -> ParsedCommitView {
    match found {
        Some(groups) => ParsedCommitView {
            id: info.id,
            commit_type: CommitType::of_prefix(text_or_empty(groups.kind)),
            scope: groups.scope,
            message: text_or_empty(groups.message),
            timestamp: info.timestamp,
        },
        None => ParsedCommitView {
            id: info.id,
            commit_type: CommitType::Other,
            scope: None,
            message: line,
            timestamp: info.timestamp,
        },
    }
}

/// The line of a commit that is classified: the first line of its message,
/// without the white space around it.
pub open spec fn summary_line(message: Seq<char>) -> Seq<char> {
    trim(first_line(message))
}

/// What `pattern` finds in `line`, read by the groups `type`, `scope` and
/// `message`.
pub open spec fn commit_groups(pattern: Regex, line: Seq<char>) -> Option<CommitGroupsView> {
    match regex_captures(pattern, line) {
        Some(groups) => Some(
            CommitGroupsView {
                kind: group(groups, "type"@),
                scope: group(groups, "scope"@),
                message: group(groups, "message"@),
            },
        ),
        None => None,
    }
}

/// The classification of a commit by a commit pattern.
pub open spec fn classify(pattern: Regex, info: CommitInfoView) -> ParsedCommitView {
    let line = summary_line(info.message);
    read_commit(info, line, commit_groups(pattern, line))
}

impl ParsedCommit {
    /// Reads a commit whose trimmed first line is `line`, given what the
    /// commit pattern found in that line.
    pub fn from_groups(info: &CommitInfo, line: &str, found: Option<CommitGroups>) -> (parsed:
        ParsedCommit)
        ensures
            parsed@ == read_commit(
                info@,
                line@,
                match found {
                    Some(groups) => Some(groups@),
                    None => None,
                },
            ),
    {
        let id = info.id.clone();
        let timestamp = info.timestamp;
        match found {
            Some(groups) => {
                let commit_type = match &groups.kind {
                    Some(prefix) => CommitType::from_prefix(prefix.as_str()),
                    None => CommitType::from_prefix(""),
                };
                let message = match groups.message {
                    Some(text) => text,
                    None => String::new(),
                };
                proof {
                    reveal_strlit("");
                    assert(""@ =~= Seq::<char>::empty());
                }
                ParsedCommit { id, commit_type, scope: groups.scope, message, timestamp }
            },
            None => ParsedCommit {
                id,
                commit_type: CommitType::Other,
                scope: None,
                message: String::from_str(line),
                timestamp,
            },
        }
    }
}

/// A classification depends on the message of a commit alone: two commits
/// with the same message get the same category, scope and message from the
/// same pattern.
pub proof fn lemma_classify_by_message(pattern: Regex, a: CommitInfoView, b: CommitInfoView)
    requires
        a.message == b.message,
    ensures
        classify(pattern, a).commit_type == classify(pattern, b).commit_type,
        classify(pattern, a).scope == classify(pattern, b).scope,
        classify(pattern, a).message == classify(pattern, b).message,
{
}

/// A commit keeps its id and its time when it is classified.
pub proof fn lemma_classify_keeps_identity(pattern: Regex, info: CommitInfoView)
    ensures
        classify(pattern, info).id == info.id,
        classify(pattern, info).timestamp == info.timestamp,
{
}

/// A line that the pattern does not match is kept whole: the commit goes
/// under `Other`, without a scope, and its message is its trimmed first
/// line.
pub proof fn lemma_unmatched_is_kept(pattern: Regex, info: CommitInfoView)
    requires
        regex_captures(pattern, summary_line(info.message)) is None,
    ensures
        classify(pattern, info).commit_type == CommitType::Other,
        classify(pattern, info).scope is None,
        classify(pattern, info).message == trim(first_line(info.message)),
{
}

} // verus!
