//! Regular expressions, as the classifier and the tag filter use them.

use vstd::prelude::*;
use regex::Regex;

verus! {

/// `regex::Regex`: a compiled regular expression. Nothing is known of what
/// is inside one.
#[verifier::external_type_specification]
#[verifier::external_body]
pub struct ExRegex(regex::Regex);

/// `regex::Error`: why a pattern did not compile.
#[verifier::external_type_specification]
#[verifier::external_body]
pub struct ExRegexError(regex::Error);

/// The pattern that recognises a version tag.
pub const DEFAULT_VERSION_PATTERN: &'static str = r"^v?(\d+\.\d+\.\d+)$";

/// The pattern that recognises `type(scope): message` and `type: message`.
pub const DEFAULT_COMMIT_PATTERN: &'static str =
    r"^(?P<type>\w+)(?:\((?P<scope>.+)\))?:\s(?P<message>.+)$";

/// The regular expression that `pattern` compiles to; the error says why
/// where it is no valid pattern or compiles to more than the size limit
/// allows.
pub uninterp spec fn compiled(pattern: Seq<char>) -> Result<Regex, regex::Error>;

/// Whether `pattern` compiles, and to `re`.
pub open spec fn compiles_to(pattern: Seq<char>, re: Regex) -> bool {
    compiled(pattern) == Ok::<Regex, regex::Error>(re)
}

/// What a `regex::Error` prints as.
pub uninterp spec fn regex_error_text(error: regex::Error) -> Seq<char>;

/// Whether `re` matches anywhere in `text`.
pub uninterp spec fn regex_is_match(re: Regex, text: Seq<char>) -> bool;

/// The named groups of the first match of `re` in `text`, each with the
/// text it matched; a group that took no part in the match is no key of
/// the map. `None` where `re` does not match.
pub uninterp spec fn regex_captures(re: Regex, text: Seq<char>) -> Option<Map<Seq<char>, Seq<char>>>;

/// The text of a group, where it took part in the match.
pub open spec fn group(groups: Map<Seq<char>, Seq<char>>, name: Seq<char>) -> Option<Seq<char>> {
    if groups.contains_key(name) {
        Some(groups[name])
    } else {
        None
    }
}

/// What an optional string holds.
pub open spec fn text_of(s: Option<String>) -> Option<Seq<char>> {
    match s {
        Some(s) => Some(s@),
        None => None,
    }
}

/// `Regex::new` of the regex crate: compiles a pattern, or says why it
/// cannot. The contract gives the compiled expression a name.
#[verifier::external_body]
pub(crate) fn compile(pattern: &str) -> (r: Result<Regex, regex::Error>)
    ensures
        r == compiled(pattern@),
{
    Regex::new(pattern)
}

/// The `Display` of `regex::Error`: the text of a syntax error, or the
/// size limit that was exceeded. The contract gives the text a name.
#[verifier::external_body]
pub(crate) fn describe_regex_error(error: &regex::Error) -> (text: String)
    ensures
        text@ == regex_error_text(*error),
{
    error.to_string()
}

/// `Regex::is_match` of the regex crate.
#[verifier::external_body]
pub(crate) fn is_match(re: &Regex, text: &str) -> (found: bool)
    ensures
        found == regex_is_match(*re, text@),
{
    re.is_match(text)
}

/// `Regex::captures` of the regex crate, read with `Captures::name` for
/// three group names: `None` where the expression does not match, else for
/// each name the text that the group of that name matched, if it took part.
#[verifier::external_body]
pub(crate) fn captures(re: &Regex, text: &str, first: &str, second: &str, third: &str) -> (r: Option<
    (Option<String>, Option<String>, Option<String>),
>)
    ensures
        match regex_captures(*re, text@) {
            Some(groups) => r matches Some(found) && text_of(found.0) == group(groups, first@)
                && text_of(found.1) == group(groups, second@) && text_of(found.2) == group(
                groups,
                third@,
            ),
            None => r is None,
        },
{
    match re.captures(text) {
        Some(caps) => Some(
            (
                caps.name(first).map(|m| m.as_str().to_string()),
                caps.name(second).map(|m| m.as_str().to_string()),
                caps.name(third).map(|m| m.as_str().to_string()),
            ),
        ),
        None => None,
    }
}

} // verus!
