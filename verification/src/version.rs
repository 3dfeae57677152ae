//! Version restrictions and versions, read with the `semver` crate.
use vstd::prelude::*;
use crate::model::text_of;
use crate::text::{chars_of, collapse, collapse_of, string_of};

verus! {

/// The canonical text of the version constraint that `text` parses to, and
/// nothing where `text` is no version constraint.
pub uninterp spec fn semver_requirement(text: Seq<char>) -> Option<Seq<char>>;

/// The canonical text of the version that `text` parses to, and nothing
/// where `text` is no version of three numeric components.
pub uninterp spec fn semver_version(text: Seq<char>) -> Option<Seq<char>>;

/// Whether both texts parse as versions and the first one comes strictly
/// before the second in the order of versions.
pub uninterp spec fn semver_precedes(first: Seq<char>, second: Seq<char>) -> bool;

/// `semver::VersionReq::parse`, the parsed constraint being handed out as the
/// text that its `Display` writes; nothing where the parse fails.
#[verifier::external_body]
pub(crate) fn parse_requirement(text: &str) -> (r: Option<String>)
    ensures
        text_of(r) == semver_requirement(text@),
{
    match semver::VersionReq::parse(text) {
        Ok(requirement) => Some(requirement.to_string()),
        Err(_) => None,
    }
}

/// `semver::Version::parse`, the parsed version being handed out as the text
/// that its `Display` writes; nothing where the parse fails.
#[verifier::external_body]
pub(crate) fn parse_version(text: &str) -> (r: Option<String>)
    ensures
        text_of(r) == semver_version(text@),
{
    match semver::Version::parse(text) {
        Ok(version) => Some(version.to_string()),
        Err(_) => None,
    }
}

/// The `<` of `semver::Version` on the versions that the two texts parse to;
/// `false` where one of them does not parse.
#[verifier::external_body]
pub(crate) fn version_precedes(first: &str, second: &str) -> (r: bool)
    ensures
        r == semver_precedes(first@, second@),
{
    match (semver::Version::parse(first), semver::Version::parse(second)) {
        (Ok(a), Ok(b)) => a < b,
        _ => false,
    }
}

/// A restriction in the notation of Python packaging, rewritten for the
/// constraint parser: `==` becomes `=`, then `~=` becomes `~`.
pub open spec fn normalize(spec: Seq<char>) -> Seq<char> {
    collapse(collapse(spec, '='), '~')
}

/// Rewrites a restriction for the constraint parser.
pub fn normalize_of(spec: &Vec<char>) -> (out: Vec<char>)
    ensures
        out@ == normalize(spec@),
{
    let equalities = collapse_of(spec, '=');
    collapse_of(&equalities, '~')
}

/// The structured constraint of a restriction: the restriction is rewritten
/// for the constraint parser and parsed. A restriction that does not parse
/// has none.
pub fn parse_version_spec(spec: &str) -> (r: Option<String>)
    ensures
        text_of(r) == semver_requirement(normalize(spec@)),
{
    let chars = chars_of(spec);
    let rewritten = string_of(&normalize_of(&chars));
    parse_requirement(rewritten.as_str())
}

} // verus!
