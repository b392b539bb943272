//! Chronicle turns a commit history into a grouped changelog.
//!
//! The library classifies each commit by the prefix of its first line,
//! cuts the history into releases at the commits that carry a version tag,
//! and renders the result as Markdown or HTML. Reading a repository and
//! writing files is left to the caller: the library works on values that a
//! [`git_provider::GitProvider`] hands it and renders into a `String`.

use vstd::prelude::*;

pub mod text;
pub mod commit_type;
pub mod timestamp;
pub mod pattern;
pub mod git_provider;
pub mod mock_git_provider;
pub mod parsed_commit;
pub mod version;
pub mod render;
pub mod segment;
pub mod places;
pub mod changelog_generator;
pub mod args;

verus! {

/// The markup of a rendered changelog.
#[derive(Debug, Clone, Copy, PartialEq, Eq, Structural)]
pub enum OutputFormat {
    Markdown,
    Html,
}

/// The order in which releases are listed.
#[derive(Debug, Clone, Copy, PartialEq, Eq, Structural)]
pub enum SortOrder {
    Newest,
    Oldest,
}

impl OutputFormat {
    /// The file extension that goes with a format.
    pub open spec fn extension_text(self) -> Seq<char> {
        match self {
            OutputFormat::Markdown => "md"@,
            OutputFormat::Html => "html"@,
        }
    }

    pub fn extension(&self) -> (ext: &'static str)
        ensures
            ext@ == self.extension_text(),
    {
        match self {
            OutputFormat::Markdown => "md",
            OutputFormat::Html => "html",
        }
    }

    /// The extension an output file has to be given, where the one it has
    /// does not go with the format: `None` means the file name can stay.
    pub fn normalized_extension(&self, current: &str) -> (ext: Option<&'static str>)
        ensures
            current@ == self.extension_text() ==> ext is None,
            current@ != self.extension_text() ==> (ext matches Some(e) && e@ == self.extension_text()),
    {
        let wanted = self.extension();
        if text::str_eq(current, wanted) {
            None
        } else {
            Some(wanted)
        }
    }
}

} // verus!
