//! Regular-expression matching, through the `regex` crate.
use vstd::prelude::*;
use vstd::string::StringSliceAdditionalSpecFns;
use vstd::utf8::is_char_boundary;

verus! {

/// Whether `regex::Regex::new` accepts a pattern.
pub uninterp spec fn regex_valid(pattern: Seq<char>) -> bool;

/// Whether `regex::Regex::is_match` finds the pattern in the text.
pub uninterp spec fn regex_match(pattern: Seq<char>, text: Seq<char>) -> bool;

/// End (a byte offset) of the first match `regex::Regex::find` reports.
pub uninterp spec fn regex_find_end(pattern: Seq<char>, text: Seq<char>) -> Option<nat>;

/// The message of the error `regex::Regex::new` reports for a pattern.
pub uninterp spec fn regex_error_text(pattern: Seq<char>) -> Seq<char>;

/// `regex::Regex::new(pattern)`, keeping only its outcome: `None` when the
/// pattern compiles, else the error's message (its `Display` form).
#[verifier::external_body]
pub(crate) fn regex_error(pattern: &str) -> (r: Option<String>)
    ensures
        r is None <==> regex_valid(pattern@),
        r matches Some(m) ==> m@ == regex_error_text(pattern@),
{
    match regex::Regex::new(pattern) {
        Ok(_) => None,
        Err(e) => Some(e.to_string()),
    }
}

/// `regex::Regex::new(pattern)` then `Regex::is_match(text)`: `None` when
/// the pattern does not compile, else whether it matches somewhere in the
/// text. Both results are named, as functions of pattern and text.
#[verifier::external_body]
pub(crate) fn regex_is_match(pattern: &str, text: &str) -> (r: Option<bool>)
    ensures
        r == (if regex_valid(pattern@) {
            Some(regex_match(pattern@, text@))
        } else {
            None
        }),
{
    match regex::Regex::new(pattern) {
        Ok(re) => Some(re.is_match(text)),
        Err(_) => None,
    }
}

/// `regex::Regex::new(pattern)` then `Regex::find(text)`: `None` when the
/// pattern does not compile, else the end of the leftmost-first match, if
/// any. The end is a byte offset within the text that falls on a character
/// boundary (`Match::end` documents both).
#[verifier::external_body]
pub(crate) fn regex_find(pattern: &str, text: &str) -> (r: Option<Option<usize>>)
    ensures
        r == (if regex_valid(pattern@) {
            Some(
                match regex_find_end(pattern@, text@) {
                    Some(e) => Some(e as usize),
                    None => None,
                },
            )
        } else {
            None
        }),
        r matches Some(Some(x)) ==> regex_find_end(pattern@, text@) == Some(x as nat) && x
            <= text.spec_bytes().len() && is_char_boundary(text.spec_bytes(), x as int),
{
    match regex::Regex::new(pattern) {
        Ok(re) => Some(re.find(text).map(|m| m.end())),
        Err(_) => None,
    }
}

/// Characters that `regex::escape` escapes.
pub open spec fn is_meta_character(c: char) -> bool {
    c == '\\' || c == '.' || c == '+' || c == '*' || c == '?' || c == '(' || c == ')' || c == '|'
        || c == '[' || c == ']' || c == '{' || c == '}' || c == '^' || c == '$' || c == '#' || c
        == '&' || c == '-' || c == '~'
}

/// A character as `regex::escape` writes it.
pub open spec fn escaped_char(c: char) -> Seq<char> {
    if is_meta_character(c) {
        seq!['\\', c]
    } else {
        seq![c]
    }
}

/// `regex::escape`: every meta character preceded by a backslash.
#[verifier::external_body]
pub(crate) fn regex_escape(s: &str) -> (r: String)
    ensures
        r@ == crate::text::flat_map(s@, |c: char| escaped_char(c)),
{
    regex::escape(s)
}

} // verus!
