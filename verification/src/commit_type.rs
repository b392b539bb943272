//! The categories of commits and their display order.

use vstd::prelude::*;
use crate::text::str_eq;

verus! {

/// The category a commit falls under.
#[derive(Debug, Clone, Copy, PartialEq, Eq, Hash, Structural)]
pub enum CommitType {
    Feature,
    BugFix,
    Documentation,
    Style,
    Refactor,
    Performance,
    Testing,
    Build,
    CI,
    Chore,
    Other,
}

/// The number of categories.
pub const CATEGORY_COUNT: usize = 11;

impl CommitType {
    /// The place of a category in the display order, counted from 0.
    pub open spec fn rank(self) -> nat {
        match self {
            CommitType::Feature => 0,
            CommitType::BugFix => 1,
            CommitType::Documentation => 2,
            CommitType::Style => 3,
            CommitType::Refactor => 4,
            CommitType::Performance => 5,
            CommitType::Testing => 6,
            CommitType::Build => 7,
            CommitType::CI => 8,
            CommitType::Chore => 9,
            CommitType::Other => 10,
        }
    }

    /// The category at a place of the display order; past the last place it
    /// is `Other`.
    pub open spec fn at(rank: nat) -> CommitType {
        if rank == 0 {
            CommitType::Feature
        } else if rank == 1 {
            CommitType::BugFix
        } else if rank == 2 {
            CommitType::Documentation
        } else if rank == 3 {
            CommitType::Style
        } else if rank == 4 {
            CommitType::Refactor
        } else if rank == 5 {
            CommitType::Performance
        } else if rank == 6 {
            CommitType::Testing
        } else if rank == 7 {
            CommitType::Build
        } else if rank == 8 {
            CommitType::CI
        } else if rank == 9 {
            CommitType::Chore
        } else {
            CommitType::Other
        }
    }

    /// The category that a commit prefix stands for. Prefixes are matched
    /// whole and with their case; an unknown one stands for `Other`.
    pub open spec fn of_prefix(prefix: Seq<char>) -> CommitType {
        if prefix == "feat"@ {
            CommitType::Feature
        } else if prefix == "fix"@ {
            CommitType::BugFix
        } else if prefix == "doc"@ {
            CommitType::Documentation
        } else if prefix == "style"@ {
            CommitType::Style
        } else if prefix == "refactor"@ {
            CommitType::Refactor
        } else if prefix == "perf"@ {
            CommitType::Performance
        } else if prefix == "test"@ {
            CommitType::Testing
        } else if prefix == "build"@ {
            CommitType::Build
        } else if prefix == "ci"@ {
            CommitType::CI
        } else if prefix == "chore"@ {
            CommitType::Chore
        } else {
            CommitType::Other
        }
    }

    /// The heading under which the commits of a category are listed.
    pub open spec fn heading(self) -> Seq<char> {
        match self {
            CommitType::Feature => "🚀 Features"@,
            CommitType::BugFix => "🐛 Bug Fixes"@,
            CommitType::Documentation => "📚 Documentation"@,
            CommitType::Style => "🎨 Styling"@,
            CommitType::Refactor => "🚜 Refactor"@,
            CommitType::Performance => "⚡ Performance"@,
            CommitType::Testing => "🧪 Testing"@,
            CommitType::Build => "🏗️ Build"@,
            CommitType::CI => "👷 Continuous Integration"@,
            CommitType::Chore => "🧹 Chore"@,
            CommitType::Other => "Miscellaneous Tasks"@,
        }
    }

    pub fn from_prefix(prefix: &str) -> (category: CommitType)
        ensures
            category == CommitType::of_prefix(prefix@),
    {
        if str_eq(prefix, "feat") {
            CommitType::Feature
        } else if str_eq(prefix, "fix") {
            CommitType::BugFix
        } else if str_eq(prefix, "doc") {
            CommitType::Documentation
        } else if str_eq(prefix, "style") {
            CommitType::Style
        } else if str_eq(prefix, "refactor") {
            CommitType::Refactor
        } else if str_eq(prefix, "perf") {
            CommitType::Performance
        } else if str_eq(prefix, "test") {
            CommitType::Testing
        } else if str_eq(prefix, "build") {
            CommitType::Build
        } else if str_eq(prefix, "ci") {
            CommitType::CI
        } else if str_eq(prefix, "chore") {
            CommitType::Chore
        } else {
            CommitType::Other
        }
    }

    pub fn to_heading(&self) -> (heading: &'static str)
        ensures
            heading@ == self.heading(),
    {
        match self {
            CommitType::Feature => "🚀 Features",
            CommitType::BugFix => "🐛 Bug Fixes",
            CommitType::Documentation => "📚 Documentation",
            CommitType::Style => "🎨 Styling",
            CommitType::Refactor => "🚜 Refactor",
            CommitType::Performance => "⚡ Performance",
            CommitType::Testing => "🧪 Testing",
            CommitType::Build => "🏗️ Build",
            CommitType::CI => "👷 Continuous Integration",
            CommitType::Chore => "🧹 Chore",
            CommitType::Other => "Miscellaneous Tasks",
        }
    }

    /// The place of a category in the display order.
    pub fn order(&self) -> (place: usize)
        ensures
            place == self.rank(),
            place < CATEGORY_COUNT,
    {
        match self {
            CommitType::Feature => 0,
            CommitType::BugFix => 1,
            CommitType::Documentation => 2,
            CommitType::Style => 3,
            CommitType::Refactor => 4,
            CommitType::Performance => 5,
            CommitType::Testing => 6,
            CommitType::Build => 7,
            CommitType::CI => 8,
            CommitType::Chore => 9,
            CommitType::Other => 10,
        }
    }

    /// The category at a place of the display order.
    pub fn from_order(place: usize) -> (category: CommitType)
        ensures
            category == CommitType::at(place as nat),
    {
        if place == 0 {
            CommitType::Feature
        } else if place == 1 {
            CommitType::BugFix
        } else if place == 2 {
            CommitType::Documentation
        } else if place == 3 {
            CommitType::Style
        } else if place == 4 {
            CommitType::Refactor
        } else if place == 5 {
            CommitType::Performance
        } else if place == 6 {
            CommitType::Testing
        } else if place == 7 {
            CommitType::Build
        } else if place == 8 {
            CommitType::CI
        } else if place == 9 {
            CommitType::Chore
        } else {
            CommitType::Other
        }
    }
}

/// The display order is total: every category has one place among the
/// eleven, and each place holds one category.
pub proof fn lemma_rank_is_a_bijection(category: CommitType, place: nat)
    ensures
        category.rank() < CATEGORY_COUNT,
        CommitType::at(category.rank()) == category,
        place < CATEGORY_COUNT ==> CommitType::at(place).rank() == place,
{
}

/// No two categories share a heading.
pub proof fn lemma_headings_are_distinct(a: CommitType, b: CommitType)
    requires
        a.heading() == b.heading(),
    ensures
        a == b,
{
    reveal_strlit("🚀 Features");
    reveal_strlit("🐛 Bug Fixes");
    reveal_strlit("📚 Documentation");
    reveal_strlit("🎨 Styling");
    reveal_strlit("🚜 Refactor");
    reveal_strlit("⚡ Performance");
    reveal_strlit("🧪 Testing");
    reveal_strlit("🏗️ Build");
    reveal_strlit("👷 Continuous Integration");
    reveal_strlit("🧹 Chore");
    reveal_strlit("Miscellaneous Tasks");
    assert("🚀 Features"@[0] == '🚀' && "🐛 Bug Fixes"@[0] == '🐛');
    assert("📚 Documentation"@[0] == '📚' && "🎨 Styling"@[0] == '🎨');
    assert("🚜 Refactor"@[0] == '🚜' && "⚡ Performance"@[0] == '⚡');
    assert("🧪 Testing"@[0] == '🧪' && "🏗️ Build"@[0] == '🏗');
    assert("👷 Continuous Integration"@[0] == '👷' && "🧹 Chore"@[0] == '🧹');
    assert("Miscellaneous Tasks"@[0] == 'M');
}

/// The known prefixes stand for the ten named categories.
pub proof fn lemma_known_prefixes()
    ensures
        CommitType::of_prefix("feat"@) == CommitType::Feature,
        CommitType::of_prefix("fix"@) == CommitType::BugFix,
        CommitType::of_prefix("doc"@) == CommitType::Documentation,
        CommitType::of_prefix("style"@) == CommitType::Style,
        CommitType::of_prefix("refactor"@) == CommitType::Refactor,
        CommitType::of_prefix("perf"@) == CommitType::Performance,
        CommitType::of_prefix("test"@) == CommitType::Testing,
        CommitType::of_prefix("build"@) == CommitType::Build,
        CommitType::of_prefix("ci"@) == CommitType::CI,
        CommitType::of_prefix("chore"@) == CommitType::Chore,
        CommitType::of_prefix(Seq::<char>::empty()) == CommitType::Other,
{
    reveal_strlit("feat");
    reveal_strlit("fix");
    reveal_strlit("doc");
    reveal_strlit("style");
    reveal_strlit("refactor");
    reveal_strlit("perf");
    reveal_strlit("test");
    reveal_strlit("build");
    reveal_strlit("ci");
    reveal_strlit("chore");
    assert("feat"@.len() == 4 && "fix"@.len() == 3 && "doc"@.len() == 3 && "style"@.len() == 5);
    assert("refactor"@.len() == 8 && "perf"@.len() == 4 && "test"@.len() == 4);
    assert("build"@.len() == 5 && "ci"@.len() == 2 && "chore"@.len() == 5);
    assert("feat"@[0] == 'f' && "fix"@[0] == 'f' && "fix"@[1] == 'i' && "feat"@[1] == 'e');
    assert("doc"@[0] == 'd' && "style"@[0] == 's' && "perf"@[0] == 'p' && "test"@[0] == 't');
    assert("build"@[0] == 'b' && "chore"@[0] == 'c' && "ci"@[0] == 'c' && "refactor"@[0] == 'r');
}

} // verus!
