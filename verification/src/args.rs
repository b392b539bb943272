//! What a run is asked for.

use vstd::prelude::*;
use vstd::string::*;
use std::path::PathBuf;
use crate::changelog_generator::{
    answers,
    fails,
    pattern_or,
    rejected,
    reports_pattern,
    ChangelogGenerator,
};
use crate::git_provider::{GitError, GitProvider, TagInfoView};
use crate::pattern::{compiled, compiles_to, DEFAULT_COMMIT_PATTERN, DEFAULT_VERSION_PATTERN};
use crate::render::{document, write_document};
use crate::segment::{changelog, version_tags, Walked};
use crate::{OutputFormat, SortOrder};

verus! {

/// The settings of a run.
#[derive(Debug)]
pub struct Args {
    /// Path to the git repository
    pub repository: PathBuf,
    /// Output file path for the changelog
    pub output: PathBuf,
    /// Title for the changelog
    pub title: String,
    /// Format for the changelog
    pub format: OutputFormat,
    /// Sort order for commits
    pub sort_order: SortOrder,
    /// Custom regex pattern for commit messages
    pub commit_pattern: Option<String>,
    /// Custom regex pattern for version tags
    pub version_pattern: Option<String>,
}

/// The pattern that a setting names, or the default one.
pub open spec fn chosen_pattern(setting: Option<String>, default: Seq<char>) -> Seq<char> {
    match setting {
        Some(p) => p@,
        None => default,
    }
}

impl Args {
    /// The pattern that tag names are matched against.
    pub open spec fn version_source(self) -> Seq<char> {
        chosen_pattern(self.version_pattern, DEFAULT_VERSION_PATTERN@)
    }

    /// The pattern that commits are classified by.
    pub open spec fn commit_source(self) -> Seq<char> {
        chosen_pattern(self.commit_pattern, DEFAULT_COMMIT_PATTERN@)
    }

    /// Whether `r` is what a run on the repository `git` can give: a
    /// failure that reports the first pattern that does not compile; or,
    /// where both compile, a failure that the repository can end a walk
    /// with, or the document of the changelog of what the repository can
    /// answer a walk with.
    pub open spec fn outcome<P: GitProvider>(self, git: P, r: Result<String, GitError>) -> bool {
        match r {
            Ok(text) => compiled(self.version_source()) is Ok && compiled(self.commit_source())
                is Ok && exists|tags: Seq<TagInfoView>, commits: Seq<Walked>| #[trigger]
                answers(git, compiled(self.version_source())->Ok_0, tags, commits) && text@
                    == document(
                    self.format,
                    changelog(
                        compiled(self.commit_source())->Ok_0,
                        version_tags(compiled(self.version_source())->Ok_0, tags),
                        commits,
                        self.sort_order,
                    ),
                    self.title@,
                ),
            Err(e) => rejected(self.version_source(), self.commit_source(), e) || (compiled(
                self.version_source(),
            ) is Ok && compiled(self.commit_source()) is Ok && fails(
                git,
                compiled(self.version_source())->Ok_0,
                e,
            )),
        }
    }

    /// The changelog of the repository at `repository`, opened as a `P`.
    ///
    /// A repository that cannot be opened is reported first, then a pattern
    /// that does not compile; after that the first failure of the
    /// repository ends the run and is returned.
    pub fn run<P: GitProvider>(&self) -> (r: Result<String, GitError>)
        ensures
            compiled(self.version_source()) is Err || compiled(self.commit_source()) is Err
                ==> r is Err,
            (r matches Err(e) && P::opens(self.repository, Err(e))) || (exists|git: P| #[trigger]
                P::opens(self.repository, Ok(git)) && self.outcome(git, r)),
    {
        let git = match P::open(&self.repository) {
            Ok(git) => git,
            Err(e) => {
                return Err(e);
            },
        };
        self.changelog(git)
    }

    /// The changelog of the repository that `git` gives access to, as a
    /// document in the format, the order and under the title asked for.
    ///
    /// A pattern that does not compile is reported before the repository
    /// is asked anything; the first failure of the repository ends the run
    /// and is returned.
    pub fn changelog<P: GitProvider>(&self, git: P) -> (r: Result<String, GitError>)
        ensures
            compiled(self.version_source()) is Err ==> (r matches Err(e) && reports_pattern(
                self.version_source(),
                e,
            )),
            compiled(self.version_source()) is Ok && compiled(self.commit_source()) is Err ==> (
            r matches Err(e) && reports_pattern(self.commit_source(), e)),
            self.outcome(git, r),
    {
        let version_pattern = match &self.version_pattern {
            Some(p) => Some(p.as_str()),
            None => None,
        };
        let commit_pattern = match &self.commit_pattern {
            Some(p) => Some(p.as_str()),
            None => None,
        };
        proof {
            assert(pattern_or(commit_pattern, DEFAULT_COMMIT_PATTERN@) == self.commit_source());
            assert(pattern_or(version_pattern, DEFAULT_VERSION_PATTERN@) == self.version_source());
        }
        let generator = match ChangelogGenerator::from_provider(
            git,
            version_pattern,
            commit_pattern,
            self.sort_order,
        ) {
            Ok(generator) => generator,
            Err(e) => {
                return Err(e);
            },
        };
        assert(compiles_to(self.commit_source(), generator.commit_regex));
        assert(compiles_to(self.version_source(), generator.version_regex));
        let versions = match generator.generate_changelog() {
            Ok(versions) => versions,
            Err(e) => {
                return Err(e);
            },
        };
        let mut text = String::new();
        write_document(self.format, versions.as_slice(), self.title.as_str(), &mut text);
        proof {
            let (tags, commits) = choose|tags: Seq<TagInfoView>, commits: Seq<Walked>| #[trigger]
                answers(generator.git, generator.version_regex, tags, commits)
                    && versions.deep_view() == changelog(
                    generator.commit_regex,
                    version_tags(generator.version_regex, tags),
                    commits,
                    generator.sort_order,
                );
            assert(answers(git, compiled(self.version_source())->Ok_0, tags, commits));
            assert(text@ =~= document(
                self.format,
                changelog(
                    compiled(self.commit_source())->Ok_0,
                    version_tags(compiled(self.version_source())->Ok_0, tags),
                    commits,
                    self.sort_order,
                ),
                self.title@,
            ));
        }
        Ok(text)
    }
}

} // verus!
