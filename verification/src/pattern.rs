//! Regular expressions, as the `regex` crate compiles and runs them.
use regex::Regex;
use vstd::prelude::*;

verus! {

/// A compiled regular expression of the `regex` crate.
#[verifier::external_type_specification]
#[verifier::external_body]
pub struct ExRegex(regex::Regex);

/// Why the `regex` crate did not compile a pattern.
#[verifier::external_type_specification]
#[verifier::external_body]
pub struct ExRegexError(regex::Error);

/// What `Regex::new` returns for a pattern: the compiled expression, or the
/// reason why the pattern is not accepted.
pub uninterp spec fn regex_new(pattern: Seq<char>) -> Result<Regex, regex::Error>;

/// Whether a compiled expression finds a match anywhere in a text, as
/// `Regex::is_match` reports it.
pub uninterp spec fn regex_is_match(regex: Regex, text: Seq<char>) -> bool;

/// The pattern that a compiled expression was made from, as `Regex::as_str`
/// returns it.
pub uninterp spec fn regex_as_str(regex: Regex) -> Seq<char>;

/// `Regex::new` compiles a pattern with the default configuration, so what it
/// returns depends on the pattern alone. An expression that it returns gives
/// that pattern back from `as_str`.
pub assume_specification[ Regex::new ](re: &str) -> (r: Result<Regex, regex::Error>)
    ensures
        r == regex_new(re@),
        r matches Ok(regex) ==> regex_as_str(regex) == re@,
;

/// `Regex::is_match` says whether the expression matches somewhere in the
/// haystack.
pub assume_specification[ Regex::is_match ](regex: &Regex, haystack: &str) -> (b: bool)
    ensures
        b == regex_is_match(*regex, haystack@),
;

/// `Regex::as_str` returns the string that the expression was compiled from.
pub assume_specification<'a>[ Regex::as_str ](regex: &'a Regex) -> (s: &'a str)
    ensures
        s@ == regex_as_str(*regex),
;

} // verus!
