use chrono::{TimeZone, Utc};
use chronicle::commit_type::{CommitType, CATEGORY_COUNT};
use chronicle::git_provider::TagInfo;
use chronicle::text::{char_is_whitespace, first_line_trimmed, str_eq};
use chronicle::timestamp::{Timestamp, DATE_FORMAT};
use chronicle::OutputFormat;

const ALL: [CommitType; 11] = [
    CommitType::Feature,
    CommitType::BugFix,
    CommitType::Documentation,
    CommitType::Style,
    CommitType::Refactor,
    CommitType::Performance,
    CommitType::Testing,
    CommitType::Build,
    CommitType::CI,
    CommitType::Chore,
    CommitType::Other,
];

#[test]
fn prefixes() {
    assert_eq!(CommitType::from_prefix("feat"), CommitType::Feature);
    assert_eq!(CommitType::from_prefix("fix"), CommitType::BugFix);
    assert_eq!(CommitType::from_prefix("doc"), CommitType::Documentation);
    assert_eq!(CommitType::from_prefix("style"), CommitType::Style);
    assert_eq!(CommitType::from_prefix("refactor"), CommitType::Refactor);
    assert_eq!(CommitType::from_prefix("perf"), CommitType::Performance);
    assert_eq!(CommitType::from_prefix("test"), CommitType::Testing);
    assert_eq!(CommitType::from_prefix("build"), CommitType::Build);
    assert_eq!(CommitType::from_prefix("ci"), CommitType::CI);
    assert_eq!(CommitType::from_prefix("chore"), CommitType::Chore);
    assert_eq!(CommitType::from_prefix(""), CommitType::Other);
    assert_eq!(CommitType::from_prefix("docs"), CommitType::Other);
    assert_eq!(CommitType::from_prefix("FEAT"), CommitType::Other);
    assert_eq!(CommitType::from_prefix("feature"), CommitType::Other);
    assert_eq!(CommitType::from_prefix("fea"), CommitType::Other);
}

#[test]
fn headings() {
    assert_eq!(CommitType::Feature.to_heading(), "🚀 Features");
    assert_eq!(CommitType::BugFix.to_heading(), "🐛 Bug Fixes");
    assert_eq!(CommitType::Documentation.to_heading(), "📚 Documentation");
    assert_eq!(CommitType::Style.to_heading(), "🎨 Styling");
    assert_eq!(CommitType::Refactor.to_heading(), "🚜 Refactor");
    assert_eq!(CommitType::Performance.to_heading(), "⚡ Performance");
    assert_eq!(CommitType::Testing.to_heading(), "🧪 Testing");
    assert_eq!(CommitType::Build.to_heading(), "🏗️ Build");
    assert_eq!(CommitType::CI.to_heading(), "👷 Continuous Integration");
    assert_eq!(CommitType::Chore.to_heading(), "🧹 Chore");
    assert_eq!(CommitType::Other.to_heading(), "Miscellaneous Tasks");
    for a in 0..ALL.len() {
        for b in 0..ALL.len() {
            assert_eq!(ALL[a].to_heading() == ALL[b].to_heading(), a == b);
        }
    }
}

#[test]
fn display_order() {
    assert_eq!(CATEGORY_COUNT, 11);
    for place in 0..CATEGORY_COUNT {
        assert_eq!(ALL[place].order(), place);
        assert_eq!(CommitType::from_order(place), ALL[place]);
    }
    assert_eq!(CommitType::from_order(11), CommitType::Other);
    assert_eq!(CommitType::from_order(usize::MAX), CommitType::Other);
}

#[test]
fn equal_strings() {
    assert!(str_eq("", ""));
    assert!(str_eq("feat", "feat"));
    assert!(!str_eq("feat", "fear"));
    assert!(!str_eq("feat", "feats"));
    assert!(!str_eq("", "a"));
    assert!(str_eq("🚀 é", "🚀 é"));
    assert!(!str_eq("é", "e"));
}

#[test]
fn first_lines() {
    assert_eq!(first_line_trimmed(""), "");
    assert_eq!(first_line_trimmed("   "), "");
    assert_eq!(first_line_trimmed("one"), "one");
    assert_eq!(first_line_trimmed("  one two \t"), "one two");
    assert_eq!(first_line_trimmed("one\ntwo"), "one");
    assert_eq!(first_line_trimmed("one\r\ntwo"), "one");
    assert_eq!(first_line_trimmed("\ntwo"), "");
    assert_eq!(first_line_trimmed(" \u{a0}é x\u{2003}\n y"), "é x");
    assert_eq!(first_line_trimmed("a\n"), "a");
    let message = "  feat: some thing  \n\nbody";
    assert_eq!(first_line_trimmed(message), message.lines().next().unwrap_or("").trim());
}

#[test]
fn dates() {
    let instant = Timestamp::from_secs(1_431_648_000).unwrap();
    assert_eq!(instant.secs(), 1_431_648_000);
    assert_eq!(instant.date(), "2015-05-15");
    assert_eq!(Timestamp::from_secs(0).unwrap().date(), "1970-01-01");
    assert_eq!(Timestamp::from_secs(-1).unwrap().date(), "1969-12-31");
    assert_eq!(Timestamp::from_secs(86_399).unwrap().date(), "1970-01-01");
    assert_eq!(Timestamp::from_secs(86_400).unwrap().date(), "1970-01-02");
    let noon = Utc.with_ymd_and_hms(2025, 4, 13, 12, 0, 0).unwrap();
    let instant = Timestamp::from_secs(noon.timestamp()).unwrap();
    assert_eq!(instant.date(), noon.format("%Y-%m-%d").to_string());
    assert_eq!(instant.date(), "2025-04-13");
    assert_eq!(instant, Timestamp::from_secs(noon.timestamp()).unwrap());
}

#[test]
fn instants_out_of_range() {
    assert!(Timestamp::from_secs(i64::MAX).is_none());
    assert!(Timestamp::from_secs(i64::MIN).is_none());
}

#[test]
fn extensions() {
    assert_eq!(OutputFormat::Markdown.extension(), "md");
    assert_eq!(OutputFormat::Html.extension(), "html");
    assert_eq!(OutputFormat::Markdown.normalized_extension("md"), None);
    assert_eq!(OutputFormat::Markdown.normalized_extension("html"), Some("md"));
    assert_eq!(OutputFormat::Markdown.normalized_extension(""), Some("md"));
    assert_eq!(OutputFormat::Html.normalized_extension("html"), None);
    assert_eq!(OutputFormat::Html.normalized_extension("md"), Some("html"));
    assert_eq!(OutputFormat::Html.normalized_extension("HTML"), Some("html"));
}

#[test]
fn kinds_of_tags() {
    let when = Timestamp::from_secs(1_735_689_600).unwrap();
    let tag = TagInfo::annotated("v1".to_string(), "abc".to_string(), None);
    assert_eq!(tag.name, "v1");
    assert_eq!(tag.target_commit_id, "abc");
    assert_eq!(tag.date, None);
    let tag = TagInfo::annotated("v1".to_string(), "abc".to_string(), Some(when));
    assert_eq!(tag.date, Some(when));
    let tag = TagInfo::lightweight("v2".to_string(), "def".to_string(), when);
    assert_eq!(tag.name, "v2");
    assert_eq!(tag.target_commit_id, "def");
    assert_eq!(tag.date, Some(when));
    let copy = tag.clone();
    assert_eq!(copy.name, "v2");
    assert_eq!(copy.date, Some(when));
}

#[test]
fn white_space_is_what_std_takes_for_it() {
    let mut count = 0;
    for code in 0..=0x10FFFFu32 {
        if let Some(c) = char::from_u32(code) {
            assert_eq!(char_is_whitespace(c), c.is_whitespace(), "U+{:04X}", code);
            if char_is_whitespace(c) {
                count += 1;
            }
        }
    }
    assert_eq!(count, 25);
}

#[test]
fn white_space_by_character() {
    for c in ['\t', '\n', '\u{b}', '\u{c}', '\r', ' ', '\u{85}', '\u{a0}', '\u{1680}'] {
        assert!(char_is_whitespace(c));
    }
    for c in ['\u{2000}', '\u{2005}', '\u{200a}', '\u{2028}', '\u{2029}', '\u{202f}'] {
        assert!(char_is_whitespace(c));
    }
    assert!(char_is_whitespace('\u{205f}'));
    assert!(char_is_whitespace('\u{3000}'));
    for c in ['a', '0', '\u{8}', '\u{e}', '\u{1f}', '!', '\u{84}', '\u{86}', '\u{180e}'] {
        assert!(!char_is_whitespace(c));
    }
    for c in ['\u{1fff}', '\u{200b}', '\u{2027}', '\u{202a}', '\u{2060}', '\u{feff}'] {
        assert!(!char_is_whitespace(c));
    }
}

#[test]
fn the_format_of_dates() {
    assert_eq!(DATE_FORMAT, "%Y-%m-%d");
    let instant = Timestamp::from_secs(951_782_400).unwrap();
    assert_eq!(instant.date(), "2000-02-29");
    assert_eq!(Timestamp::from_secs(-62_135_596_800).unwrap().date(), "0001-01-01");
    assert_eq!(Timestamp::from_secs(253_402_300_799).unwrap().date(), "9999-12-31");
}
