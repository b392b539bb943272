//! The changelog of a repository.

use vstd::prelude::*;
use vstd::string::*;
use regex::Regex;
use std::path::PathBuf;
use crate::git_provider::{
    CommitInfo,
    CommitInfoView,
    GitError,
    GitProvider,
    TagInfo,
    TagInfoView,
};
use crate::parsed_commit::{classify, CommitGroups, ParsedCommit};
use crate::pattern::{
    captures,
    compile,
    compiled,
    compiles_to,
    describe_regex_error,
    regex_error_text,
    DEFAULT_COMMIT_PATTERN,
    DEFAULT_VERSION_PATTERN,
};
use crate::places::{lemma_as_many_commits_as_walked, total_size};
use crate::render::{document, write_document, UNRELEASED};
use crate::segment::{
    all_commits,
    changelog,
    classified,
    closed,
    index_tags,
    indexes,
    keep_version_tags,
    lemma_no_release_is_empty,
    lemma_releases_partition_the_commits,
    reversed,
    tag_index,
    version_tags,
    walk,
    Progress,
    Walked,
};
use crate::text::first_line_trimmed;
use crate::version::{no_commits, CommitsByType, Version, VersionView};
use crate::{OutputFormat, SortOrder};

verus! {

/// Makes the changelog of the repository that `git` gives access to.
pub struct ChangelogGenerator<P: GitProvider> {
    pub git: P,
    /// The pattern of the tag names that count as versions.
    pub version_regex: Regex,
    /// The pattern that commits are classified by.
    pub commit_regex: Regex,
    pub sort_order: SortOrder,
}

/// The pattern that is used where the caller names none.
pub open spec fn pattern_or(pattern: Option<&str>, default: Seq<char>) -> Seq<char> {
    match pattern {
        Some(p) => p@,
        None => default,
    }
}

/// Whether `error` reports that `pattern` does not compile, with the reason
/// that compiling it gives.
pub open spec fn reports_pattern(pattern: Seq<char>, error: GitError) -> bool {
    &&& compiled(pattern) matches Err(reason)
    &&& error matches GitError::InvalidPattern(p, why)
    &&& p@ == pattern
    &&& why@ == regex_error_text(reason)
}

/// Whether `error` reports the first of two patterns that does not compile:
/// the one for versions, or else the one for commits.
pub open spec fn rejected(version_source: Seq<char>, commit_source: Seq<char>, error: GitError) -> bool {
    if compiled(version_source) is Err {
        reports_pattern(version_source, error)
    } else {
        reports_pattern(commit_source, error)
    }
}

/// The ids by which the commits of a walk were asked for.
pub open spec fn ids_of(commits: Seq<Walked>) -> Seq<Seq<char>> {
    Seq::new(commits.len(), |i: int| commits[i].0)
}

/// Whether a repository can answer a walk with `tags` and `commits`: asked
/// for the tags that match `version_pattern` it can report `tags`, asked
/// for the ids of its commits it can list those of `commits`, and asked for
/// each of these ids it can report the commit that stands with it.
pub open spec fn answers<P: GitProvider>(
    git: P,
    version_pattern: Regex,
    tags: Seq<TagInfoView>,
    commits: Seq<Walked>,
) -> bool {
    &&& git.reports_tags(version_pattern, Ok(tags))
    &&& git.lists_commits(Ok(ids_of(commits)))
    &&& forall|i: int|
        0 <= i < commits.len() ==> git.reports_commit((#[trigger] commits[i]).0, Ok(commits[i].1))
}

/// Whether a repository can report a commit when asked for the id `id`.
pub open spec fn knows<P: GitProvider>(git: P, id: Seq<char>) -> bool {
    exists|info: CommitInfoView| git.reports_commit(id, Ok(info))
}

/// Whether a repository can report a commit for each of the first `upto`
/// of some ids.
pub open spec fn reports_each<P: GitProvider>(git: P, ids: Seq<Seq<char>>, upto: int) -> bool {
    forall|j: int| 0 <= j < upto ==> #[trigger] knows(git, ids[j])
}

/// Whether a repository can end a walk with the failure `error`, as the
/// failure of the first question that it did not answer. The questions are
/// asked in this order: the tags that match `version_pattern`, the ids of
/// the commits, then the commit of each id in the order of the list. So the
/// repository can fail with `error` when asked for its tags; or it can
/// report its tags and fail with `error` when asked for the ids; or it can
/// report its tags, list some ids, report a commit for each id before one
/// of them, and fail with `error` when asked for the commit of that one.
pub open spec fn fails<P: GitProvider>(git: P, version_pattern: Regex, error: GitError) -> bool {
    ||| git.reports_tags(version_pattern, Err(error))
    ||| (exists|tags: Seq<TagInfoView>| git.reports_tags(version_pattern, Ok(tags)))
        && git.lists_commits(Err(error))
    ||| exists|tags: Seq<TagInfoView>, ids: Seq<Seq<char>>, at: int|
        #![trigger git.reports_tags(version_pattern, Ok(tags)), git.reports_commit(ids[at], Err(error))]
        git.reports_tags(version_pattern, Ok(tags)) && git.lists_commits(Ok(ids)) && 0 <= at
            < ids.len() && reports_each(git, ids, at) && git.reports_commit(ids[at], Err(error))
}

/// Compiles a pattern, or reports it as invalid.
pub fn usable_pattern(pattern: &str) -> (r: Result<Regex, GitError>)
    ensures
        match r {
            Ok(re) => compiles_to(pattern@, re),
            Err(e) => reports_pattern(pattern@, e),
        },
{
    match compile(pattern) {
        Ok(re) => Ok(re),
        Err(reason) => Err(
            GitError::InvalidPattern(String::from_str(pattern), describe_regex_error(&reason)),
        ),
    }
}

impl<P: GitProvider> ChangelogGenerator<P> {
    /// A generator for the repository at `repo_path`, with the default
    /// patterns.
    pub fn new(repo_path: &PathBuf, sort_order: SortOrder) -> (r: Result<Self, GitError>)
        ensures
            compiled(DEFAULT_VERSION_PATTERN@) is Err || compiled(DEFAULT_COMMIT_PATTERN@) is Err
                ==> r is Err,
            r matches Ok(generator) ==> generator.sort_order == sort_order && compiles_to(
                DEFAULT_VERSION_PATTERN@,
                generator.version_regex,
            ) && compiles_to(DEFAULT_COMMIT_PATTERN@, generator.commit_regex),
            r matches Ok(generator) ==> P::opens(*repo_path, Ok(generator.git)),
            r matches Err(e) ==> P::opens(*repo_path, Err(e)) || ((exists|git: P|
                P::opens(*repo_path, Ok(git))) && rejected(
                DEFAULT_VERSION_PATTERN@,
                DEFAULT_COMMIT_PATTERN@,
                e,
            )),
    {
        ChangelogGenerator::with_patterns(repo_path, None, None, sort_order)
    }

    /// A generator for the repository at `repo_path`, with the patterns
    /// given; the default one stands in for each that is not given. A
    /// repository that cannot be opened is reported first, then a pattern
    /// that does not compile.
    pub fn with_patterns(
        repo_path: &PathBuf,
        version_pattern: Option<&str>,
        commit_pattern: Option<&str>,
        sort_order: SortOrder,
    ) -> (r: Result<Self, GitError>)
        ensures
            compiled(pattern_or(version_pattern, DEFAULT_VERSION_PATTERN@)) is Err || compiled(
                pattern_or(commit_pattern, DEFAULT_COMMIT_PATTERN@),
            ) is Err ==> r is Err,
            r matches Ok(generator) ==> generator.sort_order == sort_order && compiles_to(
                pattern_or(version_pattern, DEFAULT_VERSION_PATTERN@),
                generator.version_regex,
            ) && compiles_to(
                pattern_or(commit_pattern, DEFAULT_COMMIT_PATTERN@),
                generator.commit_regex,
            ),
            r matches Ok(generator) ==> P::opens(*repo_path, Ok(generator.git)),
            r matches Err(e) ==> P::opens(*repo_path, Err(e)) || ((exists|git: P|
                P::opens(*repo_path, Ok(git))) && rejected(
                pattern_or(version_pattern, DEFAULT_VERSION_PATTERN@),
                pattern_or(commit_pattern, DEFAULT_COMMIT_PATTERN@),
                e,
            )),
    {
        let git = match P::open(repo_path) {
            Ok(git) => git,
            Err(e) => {
                return Err(e);
            },
        };
        ChangelogGenerator::from_provider(git, version_pattern, commit_pattern, sort_order)
    }

    /// A generator for a repository that is open, with the patterns given;
    /// the default one stands in for each that is not given. A pattern that
    /// does not compile is reported: the one for versions first.
    pub fn from_provider(
        git: P,
        version_pattern: Option<&str>,
        commit_pattern: Option<&str>,
        sort_order: SortOrder,
    ) -> (r: Result<Self, GitError>)
        ensures
            r is Ok <==> compiled(pattern_or(version_pattern, DEFAULT_VERSION_PATTERN@)) is Ok
                && compiled(pattern_or(commit_pattern, DEFAULT_COMMIT_PATTERN@)) is Ok,
            r matches Ok(generator) ==> generator.git == git && generator.sort_order == sort_order
                && compiles_to(
                pattern_or(version_pattern, DEFAULT_VERSION_PATTERN@),
                generator.version_regex,
            ) && compiles_to(
                pattern_or(commit_pattern, DEFAULT_COMMIT_PATTERN@),
                generator.commit_regex,
            ),
            r matches Err(e) ==> rejected(
                pattern_or(version_pattern, DEFAULT_VERSION_PATTERN@),
                pattern_or(commit_pattern, DEFAULT_COMMIT_PATTERN@),
                e,
            ),
    {
        let version_source = match version_pattern {
            Some(p) => p,
            None => DEFAULT_VERSION_PATTERN,
        };
        let commit_source = match commit_pattern {
            Some(p) => p,
            None => DEFAULT_COMMIT_PATTERN,
        };
        let version_regex = match usable_pattern(version_source) {
            Ok(re) => re,
            Err(e) => {
                return Err(e);
            },
        };
        let commit_regex = match usable_pattern(commit_source) {
            Ok(re) => re,
            Err(e) => {
                return Err(e);
            },
        };
        Ok(ChangelogGenerator { git, version_regex, commit_regex, sort_order })
    }

    /// Classifies a commit by the first line of its message.
    pub fn parse_commit(&self, commit_info: &CommitInfo) -> (parsed: ParsedCommit)
        ensures
            parsed@ == classify(self.commit_regex, commit_info@),
    {
        let line = first_line_trimmed(commit_info.message.as_str());
        let found = match captures(&self.commit_regex, line, "type", "scope", "message") {
            Some(groups) => Some(
                CommitGroups { kind: groups.0, scope: groups.1, message: groups.2 },
            ),
            None => None,
        };
        ParsedCommit::from_groups(commit_info, line, found)
    }

    /// Cuts a history into releases: `commits` are the commits as they
    /// were walked, newest first, each with the id it was asked for by. Of
    /// `tags`, those whose name the version pattern matches mark where a
    /// release begins. Such a release has the date of its tag, or the time
    /// of the commit that the tag points at where the tag has no date.
    pub fn segment(&self, commits: &Vec<(String, CommitInfo)>, tags: &Vec<TagInfo>) -> (versions: Vec<
        Version,
    >)
        ensures
            versions.deep_view() == changelog(
                self.commit_regex,
                version_tags(self.version_regex, tags.deep_view()),
                commits.deep_view(),
                self.sort_order,
            ),
            all_commits(versions.deep_view()) == classified(
                self.commit_regex,
                commits.deep_view(),
            ).to_multiset(),
            total_size(versions.deep_view()) == commits@.len(),
            forall|i: int|
                0 <= i < versions@.len() ==> !no_commits((#[trigger] versions@[i])@.commits_by_type),
    {
        proof {
            lemma_releases_partition_the_commits(
                self.commit_regex,
                version_tags(self.version_regex, tags.deep_view()),
                commits.deep_view(),
                self.sort_order,
            );
            lemma_no_release_is_empty(
                self.commit_regex,
                version_tags(self.version_regex, tags.deep_view()),
                commits.deep_view(),
                self.sort_order,
            );
            lemma_as_many_commits_as_walked(
                self.commit_regex,
                version_tags(self.version_regex, tags.deep_view()),
                commits.deep_view(),
                self.sort_order,
            );
        }
        let table = index_tags(keep_version_tags(&self.version_regex, tags));
        let ghost index = tag_index(version_tags(self.version_regex, tags.deep_view()));
        let ghost all = commits.deep_view();
        let mut done: Vec<Version> = Vec::new();
        let mut current = Version {
            name: String::from_str(UNRELEASED),
            date: None,
            commits_by_type: CommitsByType::new(),
        };
        let mut i: usize = 0;
        assert(all.take(0) =~= Seq::<Walked>::empty());
        assert(done.deep_view() =~= Seq::<VersionView>::empty());
        while i < commits.len()
            invariant
                i <= commits.len(),
                all == commits.deep_view(),
                indexes(table@, index),
                done.deep_view() == walk(self.commit_regex, index, all.take(i as int)).done,
                current@ == walk(self.commit_regex, index, all.take(i as int)).current,
            decreases commits.len() - i,
        {
            let ghost before = Progress { done: done.deep_view(), current: current@ };
            let parsed = self.parse_commit(&commits[i].1);
            match table.get(commits[i].0.as_str()) {
                Some(tag) => {
                    let ghost complete = done.deep_view();
                    if !current.commits_by_type.is_empty() {
                        let ghost last = current@;
                        done.push(current);
                        assert(done.deep_view() =~= complete.push(last));
                    }
                    let date = match tag.1 {
                        Some(date) => date,
                        None => parsed.timestamp,
                    };
                    current =
                    Version {
                        name: tag.0.clone(),
                        date: Some(date),
                        commits_by_type: CommitsByType::new(),
                    };
                    assert(done.deep_view() == closed(before));
                },
                None => {},
            }
            current.commits_by_type.push(parsed);
            proof {
                assert(all.take(i + 1).drop_last() =~= all.take(i as int));
                assert(all.take(i + 1).last() == all[i as int]);
                assert(all[i as int] == (commits[i as int].0@, commits[i as int].1@));
            }
            i = i + 1;
        }
        assert(all.take(commits.len() as int) =~= all);
        let ghost complete = done.deep_view();
        if !current.commits_by_type.is_empty() {
            let ghost last = current@;
            done.push(current);
            assert(done.deep_view() =~= complete.push(last));
        }
        let versions = match self.sort_order {
            SortOrder::Newest => done,
            SortOrder::Oldest => reversed(done),
        };
        assert forall|i: int| 0 <= i < versions@.len() implies !no_commits(
            (#[trigger] versions@[i])@.commits_by_type,
        ) by {
            assert(versions.deep_view()[i] == versions@[i]@);
        }
        versions
    }

    /// The releases of the repository, in the order of `sort_order`.
    ///
    /// The tags are asked for first, then the ids of the commits, then each
    /// commit by its id. The first failure of the repository ends the run
    /// and is returned. What comes back otherwise is the changelog of what
    /// the repository reported.
    pub fn generate_changelog(&self) -> (r: Result<Vec<Version>, GitError>)
        ensures
            r matches Ok(versions) ==> exists|tags: Seq<TagInfoView>, commits: Seq<Walked>| #[trigger]
                answers(self.git, self.version_regex, tags, commits) && versions.deep_view()
                    == changelog(
                    self.commit_regex,
                    version_tags(self.version_regex, tags),
                    commits,
                    self.sort_order,
                ),
            r matches Ok(versions) ==> forall|i: int|
                0 <= i < versions@.len() ==> !no_commits((#[trigger] versions@[i])@.commits_by_type),
            r matches Err(e) ==> fails(self.git, self.version_regex, e),
    {
        let tags = match self.git.get_tag_info(&self.version_regex) {
            Ok(tags) => tags,
            Err(e) => {
                return Err(e);
            },
        };
        let commit_ids = match self.git.get_commit_ids() {
            Ok(ids) => ids,
            Err(e) => {
                return Err(e);
            },
        };
        let ghost ids = commit_ids.deep_view();
        let mut commits: Vec<(String, CommitInfo)> = Vec::new();
        let mut i: usize = 0;
        while i < commit_ids.len()
            invariant
                i <= commit_ids.len(),
                ids == commit_ids.deep_view(),
                self.git.reports_tags(self.version_regex, Ok(tags.deep_view())),
                self.git.lists_commits(Ok(ids)),
                commits@.len() == i,
                forall|j: int|
                    0 <= j < i ==> (#[trigger] commits@[j]).0@ == ids[j] && self.git.reports_commit(
                        ids[j],
                        Ok(commits@[j].1@),
                    ),
            decreases commit_ids.len() - i,
        {
            assert(ids[i as int] == commit_ids@[i as int]@);
            let info = match self.git.get_commit_info(commit_ids[i].as_str()) {
                Ok(info) => info,
                Err(e) => {
                    assert forall|j: int| 0 <= j < i implies #[trigger] knows(
                        self.git,
                        ids[j],
                    ) by {
                        assert(self.git.reports_commit(ids[j], Ok(commits@[j].1@)));
                    }
                    assert(self.git.reports_commit(ids[i as int], Err(e)));
                    return Err(e);
                },
            };
            commits.push((commit_ids[i].clone(), info));
            i = i + 1;
        }
        let versions = self.segment(&commits, &tags);
        proof {
            let walked = commits.deep_view();
            assert(ids_of(walked) =~= ids);
            assert forall|k: int| 0 <= k < walked.len() implies self.git.reports_commit(
                (#[trigger] walked[k]).0,
                Ok(walked[k].1),
            ) by {
                assert(walked[k] == (commits@[k].0@, commits@[k].1@));
            }
            assert(answers(self.git, self.version_regex, tags.deep_view(), walked));
        }
        Ok(versions)
    }

    /// Appends the changelog as Markdown to `out`.
    pub fn write_markdown_changelog(&self, versions: &[Version], out: &mut String, title: &str)
        ensures
            final(out)@ == old(out)@ + document(
                OutputFormat::Markdown,
                versions.deep_view(),
                title@,
            ),
    {
        write_document(OutputFormat::Markdown, versions, title, out);
    }

    /// Appends the changelog as an HTML page to `out`.
    pub fn write_html_changelog(&self, versions: &[Version], out: &mut String, title: &str)
        ensures
            final(out)@ == old(out)@ + document(OutputFormat::Html, versions.deep_view(), title@),
    {
        write_document(OutputFormat::Html, versions, title, out);
    }
}

} // verus!
