//! The changelog as a document.
//!
//! Markdown and HTML list the same releases, categories and commits in the
//! same order; they differ in the markup around them.

use vstd::prelude::*;
use vstd::string::*;
use crate::commit_type::{CommitType, CATEGORY_COUNT};
use crate::parsed_commit::{ParsedCommit, ParsedCommitView};
use crate::text::str_eq;
use crate::version::{bucket, Buckets, Version, VersionView};
use crate::OutputFormat;

verus! {

/// The name of the release that holds the commits no tag has reached.
pub const UNRELEASED: &'static str = "unreleased";

/// The sentence under the title.
pub const MARKDOWN_NOTE: &'static str =
    "All notable changes to this project will be documented in this file.\n\n";

/// The last line of a Markdown changelog.
pub const MARKDOWN_CLOSING: &'static str = "<!-- generated by chronicle -->\n";

/// An HTML changelog up to its title.
pub const HTML_OPENING: &'static str =
    "<!DOCTYPE html>\n<html>\n<head>\n    <meta charset=\"UTF-8\">\n    <title>";

/// An HTML changelog between its title and its top heading.
pub const HTML_STYLE: &'static str =
    "</title>\n    <style>\n        body { font-family: -apple-system, BlinkMacSystemFont, 'Segoe UI', Helvetica, Arial, sans-serif; line-height: 1.5; max-width: 800px; margin: 0 auto; padding: 20px; color: #24292e; }\n        h1 { border-bottom: 1px solid #eaecef; padding-bottom: 0.3em; }\n        h2 { margin-top: 24px; margin-bottom: 16px; font-weight: 600; line-height: 1.25; border-bottom: 1px solid #eaecef; padding-bottom: 0.3em; }\n        h3 { margin-top: 24px; margin-bottom: 16px; font-weight: 600; line-height: 1.25; }\n        ul { padding-left: 2em; }\n        li { margin: 0.25em 0; }\n        .footer { margin-top: 30px; color: #6a737d; font-size: 0.9em; text-align: center; }\n    </style>\n</head>\n<body>\n    <h1>";

/// The sentence under the top heading of an HTML changelog.
pub const HTML_NOTE: &'static str =
    "</h1>\n    <p>All notable changes to this project will be documented in this file.</p>\n";

/// The end of an HTML changelog.
pub const HTML_CLOSING: &'static str =
    "    <div class=\"footer\">Generated by chronicle</div>\n</body>\n</html>\n";

/// The fixed pieces of markup that a document is put together from.
#[derive(Debug, Clone, Copy, PartialEq, Eq, Structural)]
pub enum Piece {
    /// Before the name of a release.
    HeadingOpen,
    /// After the name of a release, and its date where it has one.
    HeadingClose,
    /// Before the heading of a category.
    SectionOpen,
    /// Between the heading of a category and its commits.
    SectionStart,
    /// After the commits of a category.
    SectionClose,
    /// Before the scope of a commit.
    ScopeOpen,
    /// Between the scope of a commit and its message.
    ScopeClose,
    /// Before the message of a commit without a scope.
    EntryOpen,
    /// After the message of a commit.
    EntryClose,
    /// The end of the document.
    Closing,
}

/// The text of a piece of markup.
pub open spec fn markup(format: OutputFormat, piece: Piece) -> Seq<char> {
    match format {
        OutputFormat::Markdown => match piece {
            Piece::HeadingOpen => "## ["@,
            Piece::HeadingClose => "\n\n"@,
            Piece::SectionOpen => "### "@,
            Piece::SectionStart => "\n\n"@,
            Piece::SectionClose => "\n"@,
            Piece::ScopeOpen => "- **"@,
            Piece::ScopeClose => "**: "@,
            Piece::EntryOpen => "- "@,
            Piece::EntryClose => "\n"@,
            Piece::Closing => MARKDOWN_CLOSING@,
        },
        OutputFormat::Html => match piece {
            Piece::HeadingOpen => "    <h2>["@,
            Piece::HeadingClose => "</h2>\n"@,
            Piece::SectionOpen => "    <h3>"@,
            Piece::SectionStart => "</h3>\n    <ul>\n"@,
            Piece::SectionClose => "    </ul>\n"@,
            Piece::ScopeOpen => "        <li><strong>"@,
            Piece::ScopeClose => "</strong>: "@,
            Piece::EntryOpen => "        <li>"@,
            Piece::EntryClose => "</li>\n"@,
            Piece::Closing => HTML_CLOSING@,
        },
    }
}

/// The top of a document: its title and the sentence under it.
pub open spec fn preamble(format: OutputFormat, title: Seq<char>) -> Seq<char> {
    match format {
        OutputFormat::Markdown => "# "@ + title + "\n\n"@ + MARKDOWN_NOTE@,
        OutputFormat::Html => HTML_OPENING@ + title + HTML_STYLE@ + title + HTML_NOTE@,
    }
}

/// The line of a commit: its message, after its scope where it has one.
pub open spec fn entry(format: OutputFormat, commit: ParsedCommitView) -> Seq<char> {
    match commit.scope {
        Some(scope) => markup(format, Piece::ScopeOpen) + scope + markup(format, Piece::ScopeClose)
            + commit.message + markup(format, Piece::EntryClose),
        None => markup(format, Piece::EntryOpen) + commit.message + markup(
            format,
            Piece::EntryClose,
        ),
    }
}

/// The lines of some commits, in their order.
pub open spec fn entries(format: OutputFormat, commits: Seq<ParsedCommitView>) -> Seq<char>
    decreases commits.len(),
{
    if commits.len() == 0 {
        Seq::empty()
    } else {
        entries(format, commits.drop_last()) + entry(format, commits.last())
    }
}

/// The part of a release that lists the commits of a category: nothing
/// where there are none, else the heading of the category and the commits.
pub open spec fn section(
    format: OutputFormat,
    category: CommitType,
    commits: Seq<ParsedCommitView>,
) -> Seq<char> {
    if commits.len() == 0 {
        Seq::empty()
    } else {
        markup(format, Piece::SectionOpen) + category.heading() + markup(
            format,
            Piece::SectionStart,
        ) + entries(format, commits) + markup(format, Piece::SectionClose)
    }
}

/// The sections of the categories from place `from` up to place `to` of the
/// display order, in that order.
pub open spec fn sections(format: OutputFormat, buckets: Buckets, from: nat, to: nat) -> Seq<char>
    decreases to,
{
    if to <= from {
        Seq::empty()
    } else {
        sections(format, buckets, from, (to - 1) as nat) + section(
            format,
            CommitType::at((to - 1) as nat),
            bucket(buckets, CommitType::at((to - 1) as nat)),
        )
    }
}

/// The heading of a release. The release of the commits that no tag has
/// reached shows its name alone; another one shows its name and, where it
/// is dated, its date.
pub open spec fn release_heading(format: OutputFormat, name: Seq<char>, date: Option<Seq<char>>) -> Seq<
    char,
> {
    if name != UNRELEASED@ && date is Some {
        markup(format, Piece::HeadingOpen) + name + "] - "@ + date->0 + markup(
            format,
            Piece::HeadingClose,
        )
    } else {
        markup(format, Piece::HeadingOpen) + name + "]"@ + markup(format, Piece::HeadingClose)
    }
}

/// The date of a release as it is shown.
pub open spec fn shown_date(version: VersionView) -> Option<Seq<char>> {
    match version.date {
        Some(instant) => Some(instant.date_label()),
        None => None,
    }
}

/// A release: its heading and the sections of all categories, in the
/// display order.
pub open spec fn release(format: OutputFormat, version: VersionView) -> Seq<char> {
    release_heading(format, version.name, shown_date(version)) + sections(
        format,
        version.commits_by_type,
        0,
        CATEGORY_COUNT as nat,
    )
}

/// Some releases, in their order.
pub open spec fn releases(format: OutputFormat, versions: Seq<VersionView>) -> Seq<char>
    decreases versions.len(),
{
    if versions.len() == 0 {
        Seq::empty()
    } else {
        releases(format, versions.drop_last()) + release(format, versions.last())
    }
}

/// The whole document.
pub open spec fn document(format: OutputFormat, versions: Seq<VersionView>, title: Seq<char>) -> Seq<
    char,
> {
    preamble(format, title) + releases(format, versions) + markup(format, Piece::Closing)
}

/// The text of a piece of markup.
pub fn markup_text(format: OutputFormat, piece: Piece) -> (text: &'static str)
    ensures
        text@ == markup(format, piece),
{
    match format {
        OutputFormat::Markdown => match piece {
            Piece::HeadingOpen => "## [",
            Piece::HeadingClose => "\n\n",
            Piece::SectionOpen => "### ",
            Piece::SectionStart => "\n\n",
            Piece::SectionClose => "\n",
            Piece::ScopeOpen => "- **",
            Piece::ScopeClose => "**: ",
            Piece::EntryOpen => "- ",
            Piece::EntryClose => "\n",
            Piece::Closing => MARKDOWN_CLOSING,
        },
        OutputFormat::Html => match piece {
            Piece::HeadingOpen => "    <h2>[",
            Piece::HeadingClose => "</h2>\n",
            Piece::SectionOpen => "    <h3>",
            Piece::SectionStart => "</h3>\n    <ul>\n",
            Piece::SectionClose => "    </ul>\n",
            Piece::ScopeOpen => "        <li><strong>",
            Piece::ScopeClose => "</strong>: ",
            Piece::EntryOpen => "        <li>",
            Piece::EntryClose => "</li>\n",
            Piece::Closing => HTML_CLOSING,
        },
    }
}

/// Appends the top of a document to `out`.
pub fn write_preamble(format: OutputFormat, title: &str, out: &mut String)
    ensures
        final(out)@ == old(out)@ + preamble(format, title@),
{
    match format {
        OutputFormat::Markdown => {
            out.append("# ");
            out.append(title);
            out.append("\n\n");
            out.append(MARKDOWN_NOTE);
        },
        OutputFormat::Html => {
            out.append(HTML_OPENING);
            out.append(title);
            out.append(HTML_STYLE);
            out.append(title);
            out.append(HTML_NOTE);
        },
    }
    assert(out@ =~= old(out)@ + preamble(format, title@));
}

/// Appends the line of a commit to `out`.
pub fn write_entry(format: OutputFormat, commit: &ParsedCommit, out: &mut String)
    ensures
        final(out)@ == old(out)@ + entry(format, commit@),
{
    match &commit.scope {
        Some(scope) => {
            out.append(markup_text(format, Piece::ScopeOpen));
            out.append(scope.as_str());
            out.append(markup_text(format, Piece::ScopeClose));
        },
        None => {
            out.append(markup_text(format, Piece::EntryOpen));
        },
    }
    out.append(commit.message.as_str());
    out.append(markup_text(format, Piece::EntryClose));
    assert(out@ =~= old(out)@ + entry(format, commit@));
}

/// Appends the section of a category to `out`: nothing where `commits` is
/// empty.
pub fn write_section(
    format: OutputFormat,
    category: CommitType,
    commits: &Vec<ParsedCommit>,
    out: &mut String,
)
    ensures
        final(out)@ == old(out)@ + section(format, category, commits.deep_view()),
{
    let ghost all = commits.deep_view();
    if commits.len() == 0 {
        assert(out@ =~= old(out)@ + section(format, category, all));
        return ;
    }
    out.append(markup_text(format, Piece::SectionOpen));
    out.append(category.to_heading());
    out.append(markup_text(format, Piece::SectionStart));
    let ghost start = out@;
    let mut i: usize = 0;
    while i < commits.len()
        invariant
            i <= commits.len(),
            all == commits.deep_view(),
            out@ == start + entries(format, all.take(i as int)),
        decreases commits.len() - i,
    {
        write_entry(format, &commits[i], out);
        proof {
            assert(all.take(i + 1).drop_last() =~= all.take(i as int));
            assert(all.take(i + 1).last() == commits[i as int]@);
            assert(out@ =~= start + entries(format, all.take(i + 1)));
        }
        i = i + 1;
    }
    out.append(markup_text(format, Piece::SectionClose));
    proof {
        assert(all.take(commits.len() as int) =~= all);
        assert(out@ =~= old(out)@ + section(format, category, all));
    }
}

/// Appends the heading of a release to `out`, given its name and, where it
/// is dated, its date as it is to be shown.
pub fn write_heading(format: OutputFormat, name: &str, date: Option<&str>, out: &mut String)
    ensures
        final(out)@ == old(out)@ + release_heading(
            format,
            name@,
            match date {
                Some(d) => Some(d@),
                None => None,
            },
        ),
{
    out.append(markup_text(format, Piece::HeadingOpen));
    out.append(name);
    let unreleased = str_eq(name, UNRELEASED);
    match date {
        Some(d) => {
            if unreleased {
                out.append("]");
            } else {
                out.append("] - ");
                out.append(d);
            }
        },
        None => {
            out.append("]");
        },
    }
    out.append(markup_text(format, Piece::HeadingClose));
    assert(out@ =~= old(out)@ + release_heading(
        format,
        name@,
        match date {
            Some(d) => Some(d@),
            None => None,
        },
    ));
}

/// Appends a release to `out`: its heading, then its commits by category
/// in the display order. A category without commits is passed over.
pub fn write_release(format: OutputFormat, version: &Version, out: &mut String)
    ensures
        final(out)@ == old(out)@ + release(format, version@),
{
    match &version.date {
        Some(instant) => {
            let date = instant.date();
            write_heading(format, version.name.as_str(), Some(date.as_str()), out);
        },
        None => {
            write_heading(format, version.name.as_str(), None, out);
        },
    }
    let ghost start = out@;
    let ghost buckets = version@.commits_by_type;
    let mut place: usize = 0;
    while place < CATEGORY_COUNT
        invariant
            place <= CATEGORY_COUNT,
            buckets == version@.commits_by_type,
            out@ == start + sections(format, buckets, 0, place as nat),
        decreases CATEGORY_COUNT - place,
    {
        let category = CommitType::from_order(place);
        match version.commits_by_type.get(&category) {
            Some(commits) => {
                write_section(format, category, commits, out);
            },
            None => {},
        }
        proof {
            assert(out@ =~= start + sections(format, buckets, 0, (place + 1) as nat));
        }
        place = place + 1;
    }
    assert(out@ =~= old(out)@ + release(format, version@));
}

/// Appends the whole document to `out`.
pub fn write_document(format: OutputFormat, versions: &[Version], title: &str, out: &mut String)
    ensures
        final(out)@ == old(out)@ + document(format, versions.deep_view(), title@),
{
    write_preamble(format, title, out);
    let ghost start = out@;
    let ghost all = versions.deep_view();
    let mut i: usize = 0;
    while i < versions.len()
        invariant
            i <= versions.len(),
            all == versions.deep_view(),
            out@ == start + releases(format, all.take(i as int)),
        decreases versions.len() - i,
    {
        write_release(format, &versions[i], out);
        proof {
            assert(all.take(i + 1).drop_last() =~= all.take(i as int));
            assert(all.take(i + 1).last() == versions[i as int]@);
            assert(out@ =~= start + releases(format, all.take(i + 1)));
        }
        i = i + 1;
    }
    out.append(markup_text(format, Piece::Closing));
    proof {
        assert(all.take(versions.len() as int) =~= all);
        assert(out@ =~= old(out)@ + document(format, all, title@));
    }
}

/// The sections of a stretch of the display order are those of its first
/// part followed by those of its second part.
pub proof fn lemma_sections_split(
    format: OutputFormat,
    buckets: Buckets,
    from: nat,
    mid: nat,
    to: nat,
)
    requires
        from <= mid <= to,
    ensures
        sections(format, buckets, from, to) == sections(format, buckets, from, mid) + sections(
            format,
            buckets,
            mid,
            to,
        ),
    decreases to,
{
    if to == mid {
        assert(sections(format, buckets, from, mid) + sections(format, buckets, mid, to)
            =~= sections(format, buckets, from, to));
    } else {
        lemma_sections_split(format, buckets, from, mid, (to - 1) as nat);
        assert(sections(format, buckets, from, mid) + sections(format, buckets, mid, to)
            =~= sections(format, buckets, from, to));
    }
}

/// The sections of one place of the display order are the section of the
/// category at that place.
pub proof fn lemma_section_at(format: OutputFormat, buckets: Buckets, place: nat)
    ensures
        sections(format, buckets, place, place + 1) == section(
            format,
            CommitType::at(place),
            bucket(buckets, CommitType::at(place)),
        ),
{
    assert(sections(format, buckets, place, place) =~= Seq::<char>::empty());
    assert(sections(format, buckets, place, place + 1) =~= section(
        format,
        CommitType::at(place),
        bucket(buckets, CommitType::at(place)),
    ));
}

/// Five texts in a row, put together from the right.
proof fn lemma_five_in_a_row(
    a: Seq<char>,
    b: Seq<char>,
    c: Seq<char>,
    d: Seq<char>,
    e: Seq<char>,
)
    ensures
        a + (b + (c + (d + e))) == a + b + c + d + e,
{
    assert(a + (b + (c + (d + e))) =~= a + b + c + d + e);
}

/// The sections up to place `to`, cut before and after the places `i` and
/// `j`.
proof fn lemma_sections_around(
    format: OutputFormat,
    buckets: Buckets,
    i: nat,
    j: nat,
    to: nat,
)
    requires
        i < j < to,
    ensures
        sections(format, buckets, 0, to) == sections(format, buckets, 0, i) + sections(
            format,
            buckets,
            i,
            i + 1,
        ) + sections(format, buckets, i + 1, j) + sections(format, buckets, j, j + 1) + sections(
            format,
            buckets,
            j + 1,
            to,
        ),
{
    lemma_sections_split(format, buckets, 0, i, to);
    lemma_sections_split(format, buckets, i, i + 1, to);
    lemma_sections_split(format, buckets, i + 1, j, to);
    lemma_sections_split(format, buckets, j, j + 1, to);
    lemma_five_in_a_row(
        sections(format, buckets, 0, i),
        sections(format, buckets, i, i + 1),
        sections(format, buckets, i + 1, j),
        sections(format, buckets, j, j + 1),
        sections(format, buckets, j + 1, to),
    );
}

/// The sections of a release stand in the display order: that of a category
/// comes before that of every category with a later place, with the
/// sections of the places between them in between.
pub proof fn lemma_categories_in_display_order(
    format: OutputFormat,
    buckets: Buckets,
    a: CommitType,
    b: CommitType,
)
    requires
        a.rank() < b.rank(),
    ensures
        sections(format, buckets, 0, CATEGORY_COUNT as nat) == sections(
            format,
            buckets,
            0,
            a.rank(),
        ) + section(format, a, bucket(buckets, a)) + sections(
            format,
            buckets,
            a.rank() + 1,
            b.rank(),
        ) + section(format, b, bucket(buckets, b)) + sections(
            format,
            buckets,
            b.rank() + 1,
            CATEGORY_COUNT as nat,
        ),
{
    let i = a.rank();
    let j = b.rank();
    assert(j < CATEGORY_COUNT);
    assert(CommitType::at(i) == a);
    assert(CommitType::at(j) == b);
    lemma_section_at(format, buckets, i);
    lemma_section_at(format, buckets, j);
    lemma_sections_around(format, buckets, i, j, CATEGORY_COUNT as nat);
}

/// A category that holds no commit leaves no trace in a release.
pub proof fn lemma_empty_category_is_not_shown(
    format: OutputFormat,
    buckets: Buckets,
    category: CommitType,
)
    requires
        bucket(buckets, category).len() == 0,
    ensures
        sections(format, buckets, 0, CATEGORY_COUNT as nat) == sections(
            format,
            buckets,
            0,
            category.rank(),
        ) + sections(format, buckets, category.rank() + 1, CATEGORY_COUNT as nat),
{
    let end = CATEGORY_COUNT as nat;
    let i = category.rank();
    assert(i < CATEGORY_COUNT);
    assert(CommitType::at(i) == category);
    lemma_sections_split(format, buckets, 0, i, end);
    lemma_sections_split(format, buckets, i, i + 1, end);
    lemma_section_at(format, buckets, i);
    let before = sections(format, buckets, 0, i);
    let after = sections(format, buckets, i + 1, end);
    assert(sections(format, buckets, i, i + 1) =~= Seq::<char>::empty());
    assert(sections(format, buckets, i, end) =~= after);
    assert(sections(format, buckets, 0, end) == before + after);
}

/// The text of some releases followed by others is the text of the first
/// followed by the text of the others.
pub proof fn lemma_releases_concat(
    format: OutputFormat,
    first: Seq<VersionView>,
    second: Seq<VersionView>,
)
    ensures
        releases(format, first + second) == releases(format, first) + releases(format, second),
    decreases second.len(),
{
    if second.len() == 0 {
        assert(first + second =~= first);
        assert(releases(format, first) + releases(format, second) =~= releases(format, first));
    } else {
        lemma_releases_concat(format, first, second.drop_last());
        assert((first + second).drop_last() =~= first + second.drop_last());
        assert((first + second).last() == second.last());
        assert(releases(format, first + second) =~= releases(format, first) + releases(
            format,
            second,
        ));
    }
}

/// A document shows each release once, at its place in the list: after the
/// releases before it and before the releases after it.
pub proof fn lemma_release_in_place(
    format: OutputFormat,
    versions: Seq<VersionView>,
    title: Seq<char>,
    i: int,
)
    requires
        0 <= i < versions.len(),
    ensures
        document(format, versions, title) == preamble(format, title) + releases(
            format,
            versions.take(i),
        ) + release(format, versions[i]) + releases(format, versions.skip(i + 1)) + markup(
            format,
            Piece::Closing,
        ),
{
    let one = versions.subrange(i, i + 1);
    assert(versions =~= versions.take(i) + one + versions.skip(i + 1));
    lemma_releases_concat(format, versions.take(i) + one, versions.skip(i + 1));
    lemma_releases_concat(format, versions.take(i), one);
    assert(one.drop_last() =~= Seq::<VersionView>::empty());
    assert(releases(format, one.drop_last()) =~= Seq::<char>::empty());
    assert(one.last() == versions[i]);
    assert(releases(format, one) =~= release(format, versions[i]));
    assert(document(format, versions, title) =~= preamble(format, title) + releases(
        format,
        versions.take(i),
    ) + release(format, versions[i]) + releases(format, versions.skip(i + 1)) + markup(
        format,
        Piece::Closing,
    ));
}

/// The document of a list of releases turned round shows the same
/// releases, each with the same text, in the opposite order: what came
/// after a release now comes before it.
pub proof fn lemma_reversed_document(
    format: OutputFormat,
    versions: Seq<VersionView>,
    title: Seq<char>,
    i: int,
)
    requires
        0 <= i < versions.len(),
    ensures
        document(format, versions.reverse(), title) == preamble(format, title) + releases(
            format,
            versions.skip(i + 1).reverse(),
        ) + release(format, versions[i]) + releases(format, versions.take(i).reverse()) + markup(
            format,
            Piece::Closing,
        ),
{
    let turned = versions.reverse();
    let at = versions.len() - 1 - i;
    lemma_release_in_place(format, turned, title, at);
    assert(turned[at] == versions[i]);
    assert(turned.take(at) =~= versions.skip(i + 1).reverse());
    assert(turned.skip(at + 1) =~= versions.take(i).reverse());
}

} // verus!
