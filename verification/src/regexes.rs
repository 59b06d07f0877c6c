//! Regular expressions.

use vstd::prelude::*;

verus! {

/// `regex::Regex`: a compiled regular expression.
#[verifier::external_type_specification]
#[verifier::external_body]
pub struct ExRegex(regex::Regex);

/// `regex::Error`: why a pattern was refused.
#[verifier::external_type_specification]
#[verifier::external_body]
pub struct ExRegexError(regex::Error);

/// A pattern from which `Regex::new` makes an equal regular expression.
pub uninterp spec fn regex_pattern(re: regex::Regex) -> Seq<char>;

/// Whether `Regex::new` accepts a pattern.
pub uninterp spec fn regex_valid(pattern: Seq<char>) -> bool;

/// Whether the expression with this pattern matches somewhere in a text,
/// as `Regex::is_match` decides it.
pub uninterp spec fn regex_matches(pattern: Seq<char>, text: Seq<char>) -> bool;

/// `Regex::new` compiles a pattern. The contract names the patterns that it
/// accepts, and says that the expression keeps the pattern it was made from.
#[verifier::external_body]
pub(crate) fn compile(pattern: &str) -> (re: Result<regex::Regex, regex::Error>)
    ensures
        re is Ok <==> regex_valid(pattern@),
        re matches Ok(r) ==> regex_pattern(r) == pattern@,
{
    regex::Regex::new(pattern)
}

/// `Regex::is_match`: the answer is named, as a function of the pattern that
/// the expression was made from and of the text.
#[verifier::external_body]
pub(crate) fn is_match(re: &regex::Regex, text: &str) -> (b: bool)
    ensures
        b == regex_matches(regex_pattern(*re), text@),
{
    re.is_match(text)
}

} // verus!
