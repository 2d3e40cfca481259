//! Repositories that packages are mirrored from.

use vstd::prelude::*;
use crate::apt::{AptPackage, AptPackageFilter};

verus! {

/// A repository to mirror, with what to take from it.
#[derive(Debug, Clone)]
pub struct Repo {
    pub repo: String,
    pub version: Option<RepoPattern>,
    pub arch: Option<RepoPattern>,
    pub name: Option<RepoPattern>,
}

/// What a value has to match, and what it may not match.
#[derive(Debug, Clone)]
pub struct RepoPattern {
    pub not: Option<String>,
    pub is: Option<String>,
}

/// A compiled regular expression, `regex::Regex`, carried through unseen.
#[verifier::external_type_specification]
#[verifier::external_body]
pub struct ExRegex(regex::Regex);

/// Whether `pattern` is a regular expression that `regex::Regex::new`
/// accepts.
pub uninterp spec fn regex_compiles(pattern: Seq<char>) -> bool;

/// The pattern that a compiled regular expression was made from.
pub uninterp spec fn regex_pattern(regex: regex::Regex) -> Seq<char>;

/// Whether the regular expression `pattern` matches somewhere in `input`,
/// as `regex::Regex::is_match` decides.
pub uninterp spec fn regex_matches(pattern: Seq<char>, input: Seq<char>) -> bool;

/// Compiles a pattern with `regex::Regex::new`. Whether that succeeds
/// depends on the pattern alone; the error of a pattern that is refused is
/// dropped.
#[verifier::external_body]
fn regex_new(pattern: &str) -> (r: Option<regex::Regex>)
    ensures
        r is Some == regex_compiles(pattern@),
        r matches Some(regex) ==> regex_pattern(regex) == pattern@,
{
    regex::Regex::new(pattern).ok()
}

/// Asks `regex::Regex::is_match` whether the expression matches somewhere
/// in `input`, which depends on the pattern and the input alone.
#[verifier::external_body]
fn regex_is_match(regex: &regex::Regex, input: &str) -> (r: bool)
    ensures
        r == regex_matches(regex_pattern(*regex), input@),
{
    regex.is_match(input)
}

/// Whether `input` matches the regular expression `pattern`. A pattern that
/// is no regular expression matches nothing.
pub open spec fn spec_match_regex(pattern: Seq<char>, input: Seq<char>) -> bool {
    regex_compiles(pattern) && regex_matches(pattern, input)
}

/// Whether `input` passes the filter: it matches what it has to match and
/// does not match what it may not match. Without a filter everything
/// passes.
pub open spec fn spec_match_pattern(filter: Option<RepoPattern>, input: Seq<char>) -> bool {
    match filter {
        None => true,
        Some(pattern) => (match pattern.is {
            Some(is) => spec_match_regex(is@, input),
            None => true,
        }) && (match pattern.not {
            Some(not) => !spec_match_regex(not@, input),
            None => true,
        }),
    }
}

/// Whether `input` matches the regular expression `pattern`.
pub fn match_regex(pattern: &str, input: &str) -> (r: bool)
    ensures
        r == spec_match_regex(pattern@, input@),
{
    match regex_new(pattern) {
        Some(regex) => regex_is_match(&regex, input),
        None => false,
    }
}

/// Whether `input` passes the filter.
pub fn match_pattern(filter: &Option<RepoPattern>, input: &str) -> (r: bool)
    ensures
        r == spec_match_pattern(*filter, input@),
{
    match filter {
        None => true,
        Some(pattern) => {
            match &pattern.is {
                Some(is) => {
                    if !match_regex(is.as_str(), input) {
                        return false;
                    }
                },
                None => {},
            }
            match &pattern.not {
                Some(not) => {
                    if match_regex(not.as_str(), input) {
                        return false;
                    }
                },
                None => {},
            }
            true
        },
    }
}

impl AptPackageFilter for Repo {
    /// A package is taken from this repository where its version, its
    /// architecture and its name pass their filters.
    open spec fn wants(
        &self,
        name: Seq<char>,
        version: Seq<char>,
        arch: Seq<char>,
        extension: Seq<char>,
    ) -> bool {
        spec_match_pattern(self.version, version) && spec_match_pattern(self.arch, arch)
            && spec_match_pattern(self.name, name)
    }

    fn validate(&self, package: &AptPackage) -> (r: bool) {
        match_pattern(&self.version, package.version.as_str()) && match_pattern(
            &self.arch,
            package.arch.as_str(),
        ) && match_pattern(&self.name, package.name.as_str())
    }
}

} // verus!
