//! Scheme dispatch: ranges whose version capability is chosen at run time.
//!
//! The specifier text names its versioning scheme; the dispatcher maps the
//! name to a concrete version capability and wraps the typed range behind one
//! enum. The `semver` and `npm` schemes are carried by semantic versions.

use vstd::prelude::*;
use vstd::string::StringExecFns;
use crate::constraint::VersionConstraint;
use crate::error::{err_is, ErrModel, VersError};
use crate::laws::canonical_cs;
use crate::model::{contains_spec, cs_model, displayable_cs};
use crate::range::RangeModel;
use crate::semver::{SemVer, SemVerView};
use crate::specifier::{
    parse_range_spec, range_display, scheme_of_spec, split_specifier, valid_scheme,
};
use crate::version::VT;

verus! {

/// The common face of every range, whatever its version capability.
pub trait VersionRange<Q> {
    /// The version capability behind the range.
    type Ver: VT;

    /// The versioning scheme of the range.
    fn versioning_scheme(&self) -> &str;

    /// Whether a version is contained in the range.
    fn contains(&self, version: Q) -> Result<bool, VersError>;

    /// The constraints of the range.
    fn constraints(&self) -> &Vec<VersionConstraint<Self::Ver>>;
}

/// A range whose version capability was selected from the scheme name in the
/// specifier text.
#[derive(Debug, PartialEq, Eq)]
pub enum DynamicVersionRange {
    /// A range under the `semver` or `npm` scheme, over semantic versions.
    SemVer(crate::range::VersionRange<SemVer>),
}

/// What parsing specifier text with scheme dispatch yields: the range of the
/// scheme's capability, or the error; a scheme not on the supported list is
/// reported as unsupported.
pub open spec fn dynamic_parse_spec(s: Seq<char>) -> Result<RangeModel<SemVerView>, ErrModel> {
    match scheme_of_spec(s) {
        Err(e) => Err(e),
        Ok(sch) => {
            if sch == seq!['n', 'p', 'm'] || sch == seq!['s', 'e', 'm', 'v', 'e', 'r'] {
                parse_range_spec::<SemVer>(s)
            } else {
                Err(ErrModel::UnsupportedVersioningScheme(sch))
            }
        },
    }
}

impl DynamicVersionRange {
    /// The mathematical content of the underlying range.
    pub open spec fn model(&self) -> RangeModel<SemVerView> {
        match self {
            DynamicVersionRange::SemVer(r) => r@,
        }
    }

    /// The versioning scheme named in specifier text, lower-cased.
    pub fn extract_versioning_scheme(s: &str) -> (r: Result<String, VersError>)
        ensures
            match r {
                Ok(sch) => scheme_of_spec(s@) == Ok::<Seq<char>, ErrModel>(sch@),
                Err(e) => scheme_of_spec(s@) is Err && err_is(e, scheme_of_spec(s@)->Err_0),
            },
    {
        match split_specifier(s) {
            Ok(p) => Ok(p.0),
            Err(e) => Err(e),
        }
    }

    /// Parses specifier text, selecting the version capability by scheme:
    /// computes exactly `dynamic_parse_spec`. A parsed range is canonical,
    /// every non-`Any` version in it is well-formed, and its scheme name is
    /// valid, so the round-trip law applies to it.
    pub fn from_specifier(s: &str) -> (r: Result<Self, VersError>)
        ensures
            match r {
                Ok(d) => {
                    &&& dynamic_parse_spec(s@) == Ok::<RangeModel<SemVerView>, ErrModel>(d.model())
                    &&& canonical_cs::<SemVer>(d.model().constraints)
                    &&& displayable_cs::<SemVer>(d.model().constraints)
                    &&& valid_scheme(d.model().scheme)
                },
                Err(e) => dynamic_parse_spec(s@) is Err && err_is(
                    e,
                    dynamic_parse_spec(s@)->Err_0,
                ),
            },
    {
        let scheme = match Self::extract_versioning_scheme(s) {
            Ok(sch) => sch,
            Err(e) => {
                return Err(e);
            },
        };
        let is_npm = scheme == String::from_str("npm");
        let is_semver = scheme == String::from_str("semver");
        proof {
            reveal_strlit("npm");
            reveal_strlit("semver");
            assert("npm"@ =~= seq!['n', 'p', 'm']);
            assert("semver"@ =~= seq!['s', 'e', 'm', 'v', 'e', 'r']);
            if scheme@ =~= seq!['n', 'p', 'm'] {
                assert(scheme@ == "npm"@);
            }
            if scheme@ =~= seq!['s', 'e', 'm', 'v', 'e', 'r'] {
                assert(scheme@ == "semver"@);
            }
            assert(is_npm == (scheme@ == seq!['n', 'p', 'm']));
            assert(is_semver == (scheme@ == seq!['s', 'e', 'm', 'v', 'e', 'r']));
        }
        if is_npm || is_semver {
            match crate::range::VersionRange::<SemVer>::from_specifier(s) {
                Ok(range) => Ok(DynamicVersionRange::SemVer(range)),
                Err(e) => Err(e),
            }
        } else {
            Err(VersError::UnsupportedVersioningScheme(scheme))
        }
    }

    /// The versioning scheme of the range.
    pub fn scheme(&self) -> (r: &str)
        ensures
            r@ == self.model().scheme,
    {
        match self {
            DynamicVersionRange::SemVer(range) => range.versioning_scheme.as_str(),
        }
    }

    /// Whether the version written in `version_str` is contained in the
    /// range: the text must parse under the range's version capability, and
    /// the contained answer is exactly `contains_spec`.
    pub fn contains_text(&self, version_str: &str) -> (r: Result<bool, VersError>)
        ensures
            match r {
                Ok(b) => SemVer::parse_vspec(version_str@) is Some && b == contains_spec::<SemVer>(
                    self.model().constraints,
                    SemVer::parse_vspec(version_str@)->Some_0,
                ),
                Err(e) => SemVer::parse_vspec(version_str@) is None && e is InvalidVersionFormat,
            },
    {
        match self {
            DynamicVersionRange::SemVer(range) => {
                let chars = crate::text::str_to_chars(version_str);
                let version = match <SemVer as VT>::parse_v(&chars) {
                    Ok(v) => v,
                    Err(e) => {
                        return Err(e);
                    },
                };
                range.contains(&version)
            },
        }
    }

    /// The constraints of the range.
    pub fn constraint_list(&self) -> (r: &Vec<VersionConstraint<SemVer>>)
        ensures
            cs_model(r@) == self.model().constraints,
    {
        match self {
            DynamicVersionRange::SemVer(range) => &range.constraints,
        }
    }

    /// The canonical specifier text of the range.
    pub fn display(&self) -> (r: String)
        requires
            self.model().constraints.len() > 0,
        ensures
            r@ == range_display::<SemVer>(self.model()),
    {
        match self {
            DynamicVersionRange::SemVer(range) => range.display(),
        }
    }
}

impl<'a> VersionRange<&'a str> for DynamicVersionRange {
    type Ver = SemVer;

    fn versioning_scheme(&self) -> &str {
        self.scheme()
    }

    fn contains(&self, version: &'a str) -> Result<bool, VersError> {
        self.contains_text(version)
    }

    fn constraints(&self) -> &Vec<VersionConstraint<SemVer>> {
        self.constraint_list()
    }
}

impl core::str::FromStr for DynamicVersionRange {
    type Err = VersError;

    fn from_str(s: &str) -> Result<Self, VersError> {
        DynamicVersionRange::from_specifier(s)
    }
}

} // verus!
