use std::path::PathBuf;

use chronicle::args::Args;
use chronicle::git_provider::{CommitInfo, GitError, GitProvider, TagInfo};
use chronicle::mock_git_provider::MockGitProvider;
use chronicle::timestamp::Timestamp;
use chronicle::{OutputFormat, SortOrder};

fn day(n: i64) -> Timestamp {
    Timestamp::from_secs(1_735_689_600 + (n - 1) * 86_400).unwrap()
}

fn repository() -> MockGitProvider {
    let commits = vec![
        CommitInfo {
            id: "c3".to_string(),
            message: "feat(api): new feature\n\nA body that is not shown.".to_string(),
            timestamp: day(3),
        },
        CommitInfo { id: "c2".to_string(), message: "fix(ui): fix bug".to_string(), timestamp: day(2) },
        CommitInfo {
            id: "c1".to_string(),
            message: "feat(core): first feature".to_string(),
            timestamp: day(1),
        },
    ];
    let tags = vec![
        TagInfo { name: "v1.0.0".to_string(), target_commit_id: "c2".to_string(), date: Some(day(2)) },
        TagInfo { name: "stable".to_string(), target_commit_id: "c3".to_string(), date: Some(day(3)) },
    ];
    MockGitProvider::new().with_commits(commits).with_tags(tags)
}

fn args(format: OutputFormat, sort_order: SortOrder) -> Args {
    Args {
        repository: PathBuf::from("."),
        output: PathBuf::from("CHANGELOG.md"),
        title: "Changelog".to_string(),
        format,
        sort_order,
        commit_pattern: None,
        version_pattern: None,
    }
}

struct Broken;

impl GitProvider for Broken {
    fn open(path: &PathBuf) -> Result<Self, GitError> {
        if path.as_os_str().is_empty() {
            Err(GitError::InvalidTag("no path".to_string()))
        } else {
            Ok(Broken)
        }
    }

    fn get_commit_ids(&self) -> Result<Vec<String>, GitError> {
        Ok(vec!["gone".to_string()])
    }

    fn get_commit_info(&self, id: &str) -> Result<CommitInfo, GitError> {
        Err(GitError::InvalidCommitMessage(id.to_string()))
    }

    fn get_tag_info(&self, _version_pattern: &regex::Regex) -> Result<Vec<TagInfo>, GitError> {
        Ok(Vec::new())
    }
}

#[test]
fn a_run_in_markdown() {
    let text = args(OutputFormat::Markdown, SortOrder::Oldest).changelog(repository()).unwrap();
    assert_eq!(
        text,
        "# Changelog\n\n\
All notable changes to this project will be documented in this file.\n\n\
## [v1.0.0] - 2025-01-02\n\n\
### 🚀 Features\n\n\
- **core**: first feature\n\n\
### 🐛 Bug Fixes\n\n\
- **ui**: fix bug\n\n\
## [unreleased]\n\n\
### 🚀 Features\n\n\
- **api**: new feature\n\n\
<!-- generated by chronicle -->\n"
    );
}

#[test]
fn a_run_in_html() {
    let text = args(OutputFormat::Html, SortOrder::Newest).changelog(repository()).unwrap();
    assert!(text.starts_with("<!DOCTYPE html>\n<html>\n<head>\n"));
    assert!(text.contains("<title>Changelog</title>"));
    assert!(text.contains("    <h1>Changelog</h1>\n"));
    let unreleased = text.find("    <h2>[unreleased]</h2>\n").unwrap();
    let release = text.find("    <h2>[v1.0.0] - 2025-01-02</h2>\n").unwrap();
    assert!(unreleased < release);
    assert!(text.ends_with("    <div class=\"footer\">Generated by chronicle</div>\n</body>\n</html>\n"));
}

#[test]
fn a_run_with_patterns_of_its_own() {
    let mut settings = args(OutputFormat::Markdown, SortOrder::Newest);
    settings.version_pattern = Some("^stable$".to_string());
    settings.commit_pattern = Some(r"^(?P<type>\w+)\((?P<message>.+)\):".to_string());
    settings.title = "Log".to_string();
    let text = settings.changelog(repository()).unwrap();
    assert_eq!(
        text,
        "# Log\n\n\
All notable changes to this project will be documented in this file.\n\n\
## [stable] - 2025-01-03\n\n\
### 🚀 Features\n\n\
- api\n\
- core\n\n\
### 🐛 Bug Fixes\n\n\
- ui\n\n\
<!-- generated by chronicle -->\n"
    );
}

#[test]
fn a_run_with_an_invalid_pattern() {
    let mut settings = args(OutputFormat::Markdown, SortOrder::Newest);
    settings.version_pattern = Some("(".to_string());
    settings.commit_pattern = Some("[".to_string());
    match settings.changelog(repository()) {
        Err(GitError::InvalidPattern(pattern, _)) => assert_eq!(pattern, "("),
        _ => panic!("the pattern was taken"),
    }
    settings.version_pattern = None;
    match settings.changelog(Broken) {
        Err(GitError::InvalidPattern(pattern, _)) => assert_eq!(pattern, "["),
        _ => panic!("the pattern was taken"),
    }
}

#[test]
fn a_run_on_a_repository_that_fails() {
    match args(OutputFormat::Markdown, SortOrder::Newest).changelog(Broken) {
        Err(GitError::InvalidCommitMessage(id)) => assert_eq!(id, "gone"),
        _ => panic!("the repository answered"),
    }
}

#[test]
fn a_run_that_opens_the_repository() {
    let text = args(OutputFormat::Markdown, SortOrder::Newest).run::<MockGitProvider>().unwrap();
    assert_eq!(
        text,
        "# Changelog\n\nAll notable changes to this project will be documented in this file.\n\n<!-- generated by chronicle -->\n"
    );
}

#[test]
fn a_repository_that_does_not_open_is_reported_first() {
    let mut settings = args(OutputFormat::Markdown, SortOrder::Newest);
    settings.repository = PathBuf::new();
    settings.commit_pattern = Some("[".to_string());
    match settings.run::<Broken>() {
        Err(GitError::InvalidTag(text)) => assert_eq!(text, "no path"),
        _ => panic!("the repository was opened"),
    }
    settings.repository = PathBuf::from(".");
    match settings.run::<Broken>() {
        Err(GitError::InvalidPattern(pattern, _)) => assert_eq!(pattern, "["),
        _ => panic!("the pattern was taken"),
    }
}
