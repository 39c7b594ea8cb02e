//! Version range specifiers.
//!
//! This library parses, normalizes, validates and evaluates version range
//! specifiers: strings of the form `vers:<scheme>/<constraint>|<constraint>`
//! that describe a set of acceptable package versions with the comparators
//! `=`, `!=`, `<`, `<=`, `>`, `>=` and `*`. The engine is generic over any
//! total-ordered, parseable, displayable version type; semantic versions
//! serve the `npm` and `semver` schemes.

use vstd::prelude::*;

pub mod comparator;
pub mod constraint;
pub mod dynamic;
pub mod error;
pub mod laws;
pub mod model;
pub mod precedence;
pub mod range;
pub mod roundtrip;
pub mod semver;
pub mod specifier;
pub mod text;
pub mod version;

pub use comparator::Comparator;
pub use constraint::VersionConstraint;
pub use dynamic::DynamicVersionRange;
pub use error::VersError;
pub use range::VersionRange;
pub use semver::SemVer;
pub use version::VT;

use dynamic::dynamic_parse_spec;
use error::{err_is, ErrModel};
use laws::canonical_cs;
use model::{contains_spec, displayable_cs};
use range::RangeModel;
use semver::SemVerView;
use specifier::valid_scheme;

verus! {

/// Parses a version range specifier, selecting the version capability from
/// the scheme name in the text: computes exactly `dynamic_parse_spec`. A
/// parsed range is canonical, its versions are well-formed and its scheme
/// name is valid, so the round-trip law applies to it.
pub fn parse(s: &str) -> (r: Result<DynamicVersionRange, VersError>)
    ensures
        match r {
            Ok(d) => {
                &&& dynamic_parse_spec(s@) == Ok::<RangeModel<SemVerView>, ErrModel>(d.model())
                &&& canonical_cs::<SemVer>(d.model().constraints)
                &&& displayable_cs::<SemVer>(d.model().constraints)
                &&& valid_scheme(d.model().scheme)
            },
            Err(e) => dynamic_parse_spec(s@) is Err && err_is(e, dynamic_parse_spec(s@)->Err_0),
        },
{
    DynamicVersionRange::from_specifier(s)
}

/// Whether the version written in `version_str` is contained in the range:
/// the text must parse under the range's version capability, and the answer
/// is exactly `contains_spec`.
pub fn contains(range: &DynamicVersionRange, version_str: &str) -> (r: Result<bool, VersError>)
    ensures
        match r {
            Ok(b) => SemVer::parse_vspec(version_str@) is Some && b == contains_spec::<SemVer>(
                range.model().constraints,
                SemVer::parse_vspec(version_str@)->Some_0,
            ),
            Err(e) => SemVer::parse_vspec(version_str@) is None && e is InvalidVersionFormat,
        },
{
    range.contains_text(version_str)
}

} // verus!
