use vstd::prelude::*;
use regex::Regex;

verus! {

/// The error `regex` reports for an expression it cannot compile.
#[verifier::external_type_specification]
#[verifier::external_body]
pub struct ExRegexError(regex::Error);

/// Whether `regex::Regex::new` accepts `pattern`.
pub uninterp spec fn regex_compiles(pattern: Seq<char>) -> bool;

/// Whether the expression `regex::Regex::new` compiles from `pattern` has a match
/// somewhere in `text`, as `regex::Regex::captures` finds it.
pub uninterp spec fn regex_finds(pattern: Seq<char>, text: Seq<char>) -> bool;

/// Calls `regex::Regex::new` and drops the compiled expression. Believed: the call
/// fails exactly on the patterns that [`regex_compiles`] leaves out, which gives the
/// outcome of compiling one pattern a name and says nothing of which patterns
/// those are.
#[verifier::external_body]
pub(crate) fn compile(pattern: &str) -> (outcome: Result<(), regex::Error>)
    ensures
        outcome is Ok <==> regex_compiles(pattern@),
{
    match Regex::new(pattern) {
        Ok(_) => Ok(()),
        Err(error) => Err(error),
    }
}

/// Calls `regex::Regex::new` and then `regex::Regex::captures` on `text`, keeping only
/// whether a match was found. Believed: compiling fails exactly where
/// [`regex_compiles`] is false, and otherwise the answer is [`regex_finds`] of the two
/// strings, which names the answer without saying what it is.
#[verifier::external_body]
pub(crate) fn find(pattern: &str, text: &str) -> (outcome: Result<bool, regex::Error>)
    ensures
        outcome is Ok <==> regex_compiles(pattern@),
        outcome matches Ok(found) ==> found == regex_finds(pattern@, text@),
{
    match Regex::new(pattern) {
        Ok(compiled) => Ok(compiled.captures(text).is_some()),
        Err(error) => Err(error),
    }
}

} // verus!
