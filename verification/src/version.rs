//! Release versions: reading tags such as `v0.4.0`, and asking whether one is newer.

use vstd::prelude::*;
use crate::text::{trim, trim_seq, trim_start_char, trim_start_char_seq};

verus! {

/// `semver::Version::parse` accepts the text; which texts it accepts depends on the text alone.
pub uninterp spec fn semver_valid(s: Seq<char>) -> bool;

/// `a > b` between the `semver::Version`s parsed from two accepted texts (semver precedence,
/// then build metadata, as the crate orders versions).
pub uninterp spec fn semver_greater(a: Seq<char>, b: Seq<char>) -> bool;

/// Whether `semver::Version::parse` accepts `text`.
#[verifier::external_body]
fn semver_parses(text: &str) -> (r: bool)
    ensures r == semver_valid(text@),
{
    semver::Version::parse(text).is_ok()
}

/// `>` on the versions `semver::Version::parse` reads from two accepted texts.
#[verifier::external_body]
fn semver_gt(a: &str, b: &str) -> (r: bool)
    requires semver_valid(a@), semver_valid(b@),
    ensures r == semver_greater(a@, b@),
{
    match (semver::Version::parse(a), semver::Version::parse(b)) {
        (Ok(x), Ok(y)) => x > y,
        _ => false,
    }
}

/// A version text as given to the parser: trimmed, without leading `v`s.
pub open spec fn version_text(s: Seq<char>) -> Seq<char> {
    trim_start_char_seq(trim_seq(s), 'v')
}

/// The latest tag is a newer version than the current one; a text that does not parse is
/// never newer, nor older.
pub open spec fn is_newer_spec(current: Seq<char>, latest: Seq<char>) -> bool {
    semver_valid(version_text(current)) && semver_valid(version_text(latest))
        && semver_greater(version_text(latest), version_text(current))
}

pub fn is_newer_version(current_version: &str, latest_tag: &str) -> (r: bool)
    ensures r == is_newer_spec(current_version@, latest_tag@),
{
    let current = trim_start_char(trim(current_version).as_str(), 'v');
    let latest = trim_start_char(trim(latest_tag).as_str(), 'v');
    if !semver_parses(current.as_str()) {
        return false;
    }
    if !semver_parses(latest.as_str()) {
        return false;
    }
    semver_gt(latest.as_str(), current.as_str())
}

/// A tag as shown: trimmed, without leading `v`s, trimmed again.
pub open spec fn display_version_spec(tag: Seq<char>) -> Seq<char> {
    trim_seq(version_text(tag))
}

pub fn display_version(tag: &str) -> (r: String)
    ensures r@ == display_version_spec(tag@),
{
    let t = trim_start_char(trim(tag).as_str(), 'v');
    trim(t.as_str())
}

} // verus!
