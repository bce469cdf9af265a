use vstd::prelude::*;
use crate::config::SymLinkSetting;
use crate::pattern::{compile, find, regex_compiles, regex_finds};
use crate::text::{chars_of, equal};
use crate::tree::FileKind;

verus! {

/// Why a search could not be made.
#[derive(Clone, Copy, Debug, PartialEq, Eq, Structural)]
pub enum SearchError {
    /// The regular expression of the test does not compile.
    InvalidPattern,
}

impl SearchError {
    /// What an outcome of the `regex` crate is to a caller of this library: the value
    /// where there is one, and for every error that the pattern is invalid.
    pub fn from_regex<T>(outcome: Result<T, regex::Error>) -> (mapped: Result<T, SearchError>)
        ensures
            match outcome {
                Ok(value) => mapped == Ok::<T, SearchError>(value),
                Err(_) => mapped == Err::<T, SearchError>(SearchError::InvalidPattern),
            },
    {
        match outcome {
            Ok(value) => Ok(value),
            Err(_) => Err(SearchError::InvalidPattern),
        }
    }
}

/// A condition on one directory entry.
#[derive(Debug)]
pub enum Test {
    /// The entry's base name is exactly this string.
    Name(String),
    /// The entry has every file type that a character of this string names.
    Types(String),
    /// This regular expression matches somewhere in the entry's base name.
    Regex(String),
}

/// What a [`Test`] stands for: the same condition over sequences of characters.
pub enum TestView {
    Name(Seq<char>),
    Types(Seq<char>),
    Regex(Seq<char>),
}

impl View for Test {
    type V = TestView;

    open spec fn view(&self) -> TestView {
        match *self {
            Test::Name(wanted) => TestView::Name(wanted@),
            Test::Types(mask) => TestView::Types(mask@),
            Test::Regex(pattern) => TestView::Regex(pattern@),
        }
    }
}

impl Clone for Test {
    fn clone(&self) -> (copy: Test)
        ensures
            copy == *self,
    {
        match self {
            Test::Name(s) => Test::Name(s.clone()),
            Test::Types(s) => Test::Types(s.clone()),
            Test::Regex(s) => Test::Regex(s.clone()),
        }
    }
}

/// Whether an entry of type `kind` meets the demand that the character `c` of a type
/// mask makes: none, if `c` names no file type; else that the entry is of the type
/// named, and, for a link, that links are not being followed.
pub open spec fn type_char_holds(c: char, kind: FileKind, policy: SymLinkSetting) -> bool {
    match FileKind::named_by(c) {
        None => true,
        Some(wanted) => kind == wanted && (wanted == FileKind::Symlink ==> !policy.follows()),
    }
}

/// Whether an entry of type `kind` meets the demand of every character of `mask`.
pub open spec fn mask_matches(mask: Seq<char>, kind: FileKind, policy: SymLinkSetting) -> bool {
    forall|i: int| 0 <= i < mask.len() ==> type_char_holds(#[trigger] mask[i], kind, policy)
}

/// Decides [`mask_matches`].
pub fn check_mask(mask: &str, kind: FileKind, policy: SymLinkSetting) -> (holds: bool)
    ensures
        holds == mask_matches(mask@, kind, policy),
{
    let chars = chars_of(mask);
    let mut k: usize = 0;
    while k < chars.len()
        invariant
            chars@ == mask@,
            k <= chars.len(),
            forall|i: int| 0 <= i < k ==> type_char_holds(#[trigger] chars@[i], kind, policy),
        decreases chars.len() - k,
    {
        match FileKind::from_type_char(chars[k]) {
            None => {},
            Some(wanted) => {
                let is_link = wanted == FileKind::Symlink;
                if kind != wanted || (is_link && policy.is_follow()) {
                    return false;
                }
            },
        }
        k += 1;
    }
    true
}

impl TestView {
    /// Whether the test can be evaluated: a regular expression has to compile.
    pub open spec fn well_formed(self) -> bool {
        self matches TestView::Regex(pattern) ==> regex_compiles(pattern)
    }

    /// Whether an entry called `name`, of type `kind`, passes the test.
    pub open spec fn matches(self, name: Seq<char>, kind: FileKind, policy: SymLinkSetting) -> bool {
        match self {
            TestView::Name(wanted) => name == wanted,
            TestView::Types(mask) => mask_matches(mask, kind, policy),
            TestView::Regex(pattern) => regex_finds(pattern, name),
        }
    }
}

impl Test {

    /// Checks that the test can be evaluated, before any entry is looked at.
    pub fn validate(&self) -> (outcome: Result<(), SearchError>)
        ensures
            outcome is Ok <==> self@.well_formed(),
            outcome is Err ==> outcome == Err::<(), SearchError>(SearchError::InvalidPattern),
    {
        match self {
            Test::Regex(pattern) => SearchError::from_regex(compile(pattern.as_str())),
            _ => Ok(()),
        }
    }

    /// Evaluates the test on one entry. It fails exactly when the test is not
    /// well formed, whatever the entry.
    pub fn evaluate(&self, name: &str, kind: FileKind, policy: SymLinkSetting) -> (outcome: Result<
        bool,
        SearchError,
    >)
        ensures
            outcome is Ok <==> self@.well_formed(),
            outcome matches Ok(passed) ==> passed == self@.matches(name@, kind, policy),
            outcome is Err ==> outcome == Err::<bool, SearchError>(SearchError::InvalidPattern),
    {
        match self {
            Test::Name(wanted) => Ok(equal(name, wanted.as_str())),
            Test::Types(mask) => Ok(check_mask(mask.as_str(), kind, policy)),
            Test::Regex(pattern) => SearchError::from_regex(find(pattern.as_str(), name)),
        }
    }
}

} // verus!
