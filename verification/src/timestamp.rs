//! Instants, as the changelog dates its releases.

use std::fmt::Write;
use vstd::prelude::*;

verus! {

/// The format in which a release is dated: year, month and day.
pub const DATE_FORMAT: &'static str = "%Y-%m-%d";

/// The instant that lies `secs` seconds after 1970-01-01T00:00:00Z, written
/// in UTC as the `strftime` format `format` asks; `None` where the calendar
/// in use cannot hold that instant, or where `format` is no valid format.
pub uninterp spec fn instant_text(secs: i64, format: Seq<char>) -> Option<Seq<char>>;

/// `DateTime::from_timestamp` of chrono, followed by `DateTime::format`,
/// whose outcome is written into a string. The first returns `None` for a
/// number of seconds out of its range; writing fails where the format is
/// invalid. The contract gives the outcome a name and claims nothing more
/// of it.
#[verifier::external_body]
fn format_instant(secs: i64, format: &str) -> (text: Option<String>)
    ensures
        match text {
            Some(s) => instant_text(secs, format@) == Some(s@),
            None => instant_text(secs, format@) is None,
        },
{
    let instant = chrono::DateTime::from_timestamp(secs, 0)?;
    let mut text = String::new();
    match write!(text, "{}", instant.format(format)) {
        Ok(()) => Some(text),
        Err(_) => None,
    }
}

/// An instant with the precision of a second, within the range of dates
/// that can be printed.
#[derive(Debug, Clone, Copy, PartialEq, Eq, Structural)]
pub struct Timestamp {
    secs: i64,
}

impl Timestamp {
    #[verifier::type_invariant]
    spec fn printable(self) -> bool {
        instant_text(self.secs, DATE_FORMAT@) is Some
    }

    /// Seconds since 1970-01-01T00:00:00Z.
    pub closed spec fn seconds(self) -> i64 {
        self.secs
    }

    /// The date of the instant, in the format of `DATE_FORMAT`.
    pub open spec fn date_label(self) -> Seq<char> {
        instant_text(self.seconds(), DATE_FORMAT@)->0
    }

    /// The instant `secs` seconds after 1970-01-01T00:00:00Z, or `None`
    /// where its date cannot be printed.
    pub fn from_secs(secs: i64) -> (instant: Option<Timestamp>)
        ensures
            instant is Some <==> instant_text(secs, DATE_FORMAT@) is Some,
            instant matches Some(t) ==> t.seconds() == secs,
    {
        match format_instant(secs, DATE_FORMAT) {
            Some(_) => Some(Timestamp { secs }),
            None => None,
        }
    }

    pub fn secs(&self) -> (secs: i64)
        ensures
            secs == self.seconds(),
    {
        self.secs
    }

    /// The date of the instant, in the format of `DATE_FORMAT`.
    pub fn date(&self) -> (text: String)
        ensures
            text@ == self.date_label(),
            instant_text(self.seconds(), DATE_FORMAT@) == Some(text@),
    {
        proof {
            use_type_invariant(self);
        }
        format_instant(self.secs, DATE_FORMAT).unwrap()
    }
}

} // verus!
