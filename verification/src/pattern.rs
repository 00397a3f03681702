//! The boundary to `regex`: compiling a pattern and finding its matches.
//! Nothing in this file is proved; each contract gives the result of a call
//! a name and claims no more of it.

use crate::text::texts;
use vstd::prelude::*;

verus! {

/// `regex::Regex`, made known as a type. Nothing is known of a value but
/// what the functions below say of it.
#[verifier::external_type_specification]
#[verifier::external_body]
pub struct ExRegex(regex::Regex);

/// `regex::Error`, made known as a type. Nothing is known of a value.
#[verifier::external_type_specification]
#[verifier::external_body]
pub struct ExRegexError(regex::Error);

/// What `Regex::new` makes of a pattern: the compiled expression, or
/// `None` where it refuses the pattern.
pub uninterp spec fn regex_of(pattern: Seq<char>) -> Option<regex::Regex>;

/// What `Regex::find_iter` finds in a text: the matches from left to
/// right, none overlapping another, each as the piece of text it covers.
pub uninterp spec fn regex_finds(re: regex::Regex, text: Seq<char>) -> Seq<Seq<char>>;

/// `Regex::new`. Trusted: the result is what `regex_of` names.
#[verifier::external_body]
pub(crate) fn compile(pattern: &str) -> (compiled: Result<regex::Regex, regex::Error>)
    ensures
        compiled is Ok <==> regex_of(pattern@) is Some,
        compiled is Ok ==> regex_of(pattern@) == Some(compiled->Ok_0),
{
    regex::Regex::new(pattern)
}

/// `Regex::find_iter`, each match as a string of its own. Trusted: the
/// result is what `regex_finds` names.
#[verifier::external_body]
pub(crate) fn find_all(re: &regex::Regex, text: &str) -> (found: Vec<String>)
    ensures
        texts(found@) == regex_finds(*re, text@),
{
    re.find_iter(text).map(|m| m.as_str().to_string()).collect()
}

} // verus!
