use chronicle::changelog_generator::ChangelogGenerator;
use chronicle::commit_type::CommitType;
use chronicle::git_provider::{CommitInfo, TagInfo};
use chronicle::mock_git_provider::MockGitProvider;
use chronicle::parsed_commit::ParsedCommit;
use chronicle::render::{
    markup_text, write_document, write_entry, write_heading, write_preamble, write_release,
    write_section, Piece,
};
use chronicle::timestamp::Timestamp;
use chronicle::version::{CommitsByType, Version};
use chronicle::{OutputFormat, SortOrder};

fn day(n: i64) -> Timestamp {
    // 2025-01-01T00:00:00Z is 1735689600.
    Timestamp::from_secs(1_735_689_600 + (n - 1) * 86_400).unwrap()
}

fn info(id: &str, message: &str, n: i64) -> CommitInfo {
    CommitInfo { id: id.to_string(), message: message.to_string(), timestamp: day(n) }
}

fn parsed(category: CommitType, scope: Option<&str>, message: &str) -> ParsedCommit {
    ParsedCommit {
        id: "id".to_string(),
        commit_type: category,
        scope: scope.map(|s| s.to_string()),
        message: message.to_string(),
        timestamp: day(1),
    }
}

fn scenario(sort_order: SortOrder) -> (ChangelogGenerator<MockGitProvider>, Vec<Version>) {
    let commits = vec![
        info("c3", "feat(api): new feature", 3),
        info("c2", "fix(ui): fix bug", 2),
        info("c1", "feat(core): first feature", 1),
    ];
    let tags = vec![TagInfo {
        name: "v1.0.0".to_string(),
        target_commit_id: "c2".to_string(),
        date: Some(day(2)),
    }];
    let git = MockGitProvider::new().with_commits(commits).with_tags(tags);
    let generator = ChangelogGenerator::from_provider(git, None, None, sort_order).unwrap();
    let versions = generator.generate_changelog().unwrap();
    (generator, versions)
}

const MARKDOWN_NEWEST: &str = "# Changelog\n\n\
All notable changes to this project will be documented in this file.\n\n\
## [unreleased]\n\n\
### 🚀 Features\n\n\
- **api**: new feature\n\n\
## [v1.0.0] - 2025-01-02\n\n\
### 🚀 Features\n\n\
- **core**: first feature\n\n\
### 🐛 Bug Fixes\n\n\
- **ui**: fix bug\n\n\
<!-- generated by chronicle -->\n";

const MARKDOWN_OLDEST: &str = "# Changelog\n\n\
All notable changes to this project will be documented in this file.\n\n\
## [v1.0.0] - 2025-01-02\n\n\
### 🚀 Features\n\n\
- **core**: first feature\n\n\
### 🐛 Bug Fixes\n\n\
- **ui**: fix bug\n\n\
## [unreleased]\n\n\
### 🚀 Features\n\n\
- **api**: new feature\n\n\
<!-- generated by chronicle -->\n";

#[test]
fn markdown_document() {
    let (generator, versions) = scenario(SortOrder::Newest);
    let mut out = String::new();
    generator.write_markdown_changelog(&versions, &mut out, "Changelog");
    assert_eq!(out, MARKDOWN_NEWEST);
}

#[test]
fn markdown_document_oldest_first() {
    let (generator, versions) = scenario(SortOrder::Oldest);
    let mut out = String::new();
    generator.write_markdown_changelog(&versions, &mut out, "Changelog");
    assert_eq!(out, MARKDOWN_OLDEST);
    let first = out.find("## [v1.0.0]").unwrap();
    let second = out.find("## [unreleased]").unwrap();
    assert!(first < second);
}

#[test]
fn html_document() {
    let (generator, versions) = scenario(SortOrder::Newest);
    let mut out = String::new();
    generator.write_html_changelog(&versions, &mut out, "Changelog");
    let expected = "<!DOCTYPE html>\n\
<html>\n\
<head>\n\
\x20   <meta charset=\"UTF-8\">\n\
\x20   <title>Changelog</title>\n\
\x20   <style>\n\
\x20       body { font-family: -apple-system, BlinkMacSystemFont, 'Segoe UI', Helvetica, Arial, sans-serif; line-height: 1.5; max-width: 800px; margin: 0 auto; padding: 20px; color: #24292e; }\n\
\x20       h1 { border-bottom: 1px solid #eaecef; padding-bottom: 0.3em; }\n\
\x20       h2 { margin-top: 24px; margin-bottom: 16px; font-weight: 600; line-height: 1.25; border-bottom: 1px solid #eaecef; padding-bottom: 0.3em; }\n\
\x20       h3 { margin-top: 24px; margin-bottom: 16px; font-weight: 600; line-height: 1.25; }\n\
\x20       ul { padding-left: 2em; }\n\
\x20       li { margin: 0.25em 0; }\n\
\x20       .footer { margin-top: 30px; color: #6a737d; font-size: 0.9em; text-align: center; }\n\
\x20   </style>\n\
</head>\n\
<body>\n\
\x20   <h1>Changelog</h1>\n\
\x20   <p>All notable changes to this project will be documented in this file.</p>\n\
\x20   <h2>[unreleased]</h2>\n\
\x20   <h3>🚀 Features</h3>\n\
\x20   <ul>\n\
\x20       <li><strong>api</strong>: new feature</li>\n\
\x20   </ul>\n\
\x20   <h2>[v1.0.0] - 2025-01-02</h2>\n\
\x20   <h3>🚀 Features</h3>\n\
\x20   <ul>\n\
\x20       <li><strong>core</strong>: first feature</li>\n\
\x20   </ul>\n\
\x20   <h3>🐛 Bug Fixes</h3>\n\
\x20   <ul>\n\
\x20       <li><strong>ui</strong>: fix bug</li>\n\
\x20   </ul>\n\
\x20   <div class=\"footer\">Generated by chronicle</div>\n\
</body>\n\
</html>\n";
    assert_eq!(out, expected);
    assert!(out.contains("<!DOCTYPE html>"));
    assert!(out.contains("<title>Changelog</title>"));
}

#[test]
fn empty_changelog() {
    let mut out = String::new();
    write_document(OutputFormat::Markdown, &[], "Nothing yet", &mut out);
    assert_eq!(
        out,
        "# Nothing yet\n\nAll notable changes to this project will be documented in this file.\n\n<!-- generated by chronicle -->\n"
    );
}

#[test]
fn the_document_is_appended() {
    let mut out = "kept".to_string();
    write_document(OutputFormat::Markdown, &[], "T", &mut out);
    assert!(out.starts_with("kept# T\n\n"));
    let mut top = String::new();
    write_preamble(OutputFormat::Markdown, "T", &mut top);
    assert_eq!(
        top,
        "# T\n\nAll notable changes to this project will be documented in this file.\n\n"
    );
}

#[test]
fn headings_of_releases() {
    let mut out = String::new();
    write_heading(OutputFormat::Markdown, "unreleased", None, &mut out);
    assert_eq!(out, "## [unreleased]\n\n");
    let mut out = String::new();
    write_heading(OutputFormat::Markdown, "unreleased", Some("2025-01-02"), &mut out);
    assert_eq!(out, "## [unreleased]\n\n");
    let mut out = String::new();
    write_heading(OutputFormat::Markdown, "v1.0.0", Some("2025-01-02"), &mut out);
    assert_eq!(out, "## [v1.0.0] - 2025-01-02\n\n");
    let mut out = String::new();
    write_heading(OutputFormat::Markdown, "v1.0.0", None, &mut out);
    assert_eq!(out, "## [v1.0.0]\n\n");
    let mut out = String::new();
    write_heading(OutputFormat::Html, "unreleased", None, &mut out);
    assert_eq!(out, "    <h2>[unreleased]</h2>\n");
    let mut out = String::new();
    write_heading(OutputFormat::Html, "v1.0.0", Some("2025-01-02"), &mut out);
    assert_eq!(out, "    <h2>[v1.0.0] - 2025-01-02</h2>\n");
    let mut out = String::new();
    write_heading(OutputFormat::Html, "v1.0.0", None, &mut out);
    assert_eq!(out, "    <h2>[v1.0.0]</h2>\n");
}

#[test]
fn lines_of_commits() {
    let mut out = String::new();
    write_entry(OutputFormat::Markdown, &parsed(CommitType::Feature, Some("api"), "add"), &mut out);
    assert_eq!(out, "- **api**: add\n");
    let mut out = String::new();
    write_entry(OutputFormat::Markdown, &parsed(CommitType::Feature, None, "add"), &mut out);
    assert_eq!(out, "- add\n");
    let mut out = String::new();
    write_entry(OutputFormat::Html, &parsed(CommitType::Feature, Some("api"), "add"), &mut out);
    assert_eq!(out, "        <li><strong>api</strong>: add</li>\n");
    let mut out = String::new();
    write_entry(OutputFormat::Html, &parsed(CommitType::Feature, None, "add"), &mut out);
    assert_eq!(out, "        <li>add</li>\n");
}

#[test]
fn a_category_without_commits_is_passed_over() {
    let mut out = String::new();
    write_section(OutputFormat::Markdown, CommitType::Chore, &Vec::new(), &mut out);
    assert_eq!(out, "");
    write_section(OutputFormat::Html, CommitType::Chore, &Vec::new(), &mut out);
    assert_eq!(out, "");
    let commits = vec![parsed(CommitType::Chore, None, "tidy"), parsed(CommitType::Chore, None, "sweep")];
    write_section(OutputFormat::Markdown, CommitType::Chore, &commits, &mut out);
    assert_eq!(out, "### 🧹 Chore\n\n- tidy\n- sweep\n\n");
}

#[test]
fn categories_come_in_the_display_order() {
    let mut commits = CommitsByType::new();
    assert!(commits.is_empty());
    commits.push(parsed(CommitType::Other, None, "misc"));
    commits.push(parsed(CommitType::Chore, None, "tidy"));
    commits.push(parsed(CommitType::BugFix, Some("ui"), "fix"));
    commits.push(parsed(CommitType::Feature, None, "first"));
    commits.push(parsed(CommitType::BugFix, None, "again"));
    commits.push(parsed(CommitType::Feature, None, "second"));
    assert!(!commits.is_empty());
    assert!(commits.contains_key(&CommitType::Other));
    assert!(!commits.contains_key(&CommitType::Build));
    assert!(commits.get(&CommitType::Build).is_none());
    assert_eq!(commits.get(&CommitType::Feature).unwrap().len(), 2);
    let version = Version { name: "v3".to_string(), date: None, commits_by_type: commits };
    let mut out = String::new();
    write_release(OutputFormat::Markdown, &version, &mut out);
    assert_eq!(
        out,
        "## [v3]\n\n\
### 🚀 Features\n\n- first\n- second\n\n\
### 🐛 Bug Fixes\n\n- **ui**: fix\n- again\n\n\
### 🧹 Chore\n\n- tidy\n\n\
### Miscellaneous Tasks\n\n- misc\n\n"
    );
}

#[test]
fn a_release_without_commits_shows_its_heading_alone() {
    let version = Version {
        name: "v0".to_string(),
        date: Some(day(1)),
        commits_by_type: CommitsByType::new(),
    };
    let mut out = String::new();
    write_release(OutputFormat::Html, &version, &mut out);
    assert_eq!(out, "    <h2>[v0] - 2025-01-01</h2>\n");
}

#[test]
fn pieces_of_markup() {
    assert_eq!(markup_text(OutputFormat::Markdown, Piece::HeadingOpen), "## [");
    assert_eq!(markup_text(OutputFormat::Markdown, Piece::HeadingClose), "\n\n");
    assert_eq!(markup_text(OutputFormat::Markdown, Piece::SectionOpen), "### ");
    assert_eq!(markup_text(OutputFormat::Markdown, Piece::SectionStart), "\n\n");
    assert_eq!(markup_text(OutputFormat::Markdown, Piece::SectionClose), "\n");
    assert_eq!(markup_text(OutputFormat::Markdown, Piece::Closing), "<!-- generated by chronicle -->\n");
    assert_eq!(markup_text(OutputFormat::Html, Piece::SectionStart), "</h3>\n    <ul>\n");
    assert_eq!(markup_text(OutputFormat::Html, Piece::SectionClose), "    </ul>\n");
    assert_eq!(
        markup_text(OutputFormat::Html, Piece::Closing),
        "    <div class=\"footer\">Generated by chronicle</div>\n</body>\n</html>\n"
    );
}
