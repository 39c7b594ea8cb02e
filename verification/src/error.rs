//! Errors for the version-range specifier library.
//!
//! `VersError` is the one error type of the crate: every failure of parsing,
//! validation or containment is reported through it as a typed value.

use vstd::prelude::*;

verus! {

/// Errors that can occur when working with version range specifiers.
#[derive(Debug, Eq)]
pub enum VersError {
    /// The text does not carry the required `vers:` tag.
    InvalidScheme,
    /// The versioning-scheme segment is absent or empty.
    MissingVersioningScheme,
    /// The constraint list is absent or empty.
    EmptyConstraints,
    /// A single constraint token failed to parse; the detail says why.
    InvalidConstraint(String),
    /// Two constraints reference the same version; the payload displays it.
    DuplicateVersion(String),
    /// A structural rule of normalized ranges is violated.
    InvalidRange(String),
    /// Two ranges of different schemes were combined.
    IncompatibleVersioningSchemes(String, String),
    /// The scheme name maps to no known version capability.
    UnsupportedVersioningScheme(String),
    /// A version string was rejected by its scheme's parser:
    /// scheme label, offending text, and the underlying message.
    InvalidVersionFormat(String, String, String),
}

impl PartialEq for VersError {
    fn eq(&self, other: &Self) -> (r: bool) {
        match (self, other) {
            (VersError::InvalidScheme, VersError::InvalidScheme) => true,
            (VersError::MissingVersioningScheme, VersError::MissingVersioningScheme) => true,
            (VersError::EmptyConstraints, VersError::EmptyConstraints) => true,
            (VersError::InvalidConstraint(a), VersError::InvalidConstraint(b)) => *a == *b,
            (VersError::DuplicateVersion(a), VersError::DuplicateVersion(b)) => *a == *b,
            (VersError::InvalidRange(a), VersError::InvalidRange(b)) => *a == *b,
            (
                VersError::IncompatibleVersioningSchemes(a1, a2),
                VersError::IncompatibleVersioningSchemes(b1, b2),
            ) => *a1 == *b1 && *a2 == *b2,
            (
                VersError::UnsupportedVersioningScheme(a),
                VersError::UnsupportedVersioningScheme(b),
            ) => *a == *b,
            (
                VersError::InvalidVersionFormat(a1, a2, a3),
                VersError::InvalidVersionFormat(b1, b2, b3),
            ) => *a1 == *b1 && *a2 == *b2 && *a3 == *b3,
            _ => false,
        }
    }
}

impl vstd::std_specs::cmp::PartialEqSpecImpl for VersError {
    open spec fn obeys_eq_spec() -> bool {
        true
    }

    open spec fn eq_spec(&self, other: &Self) -> bool {
        match (self, other) {
            (VersError::InvalidScheme, VersError::InvalidScheme) => true,
            (VersError::MissingVersioningScheme, VersError::MissingVersioningScheme) => true,
            (VersError::EmptyConstraints, VersError::EmptyConstraints) => true,
            (VersError::InvalidConstraint(a), VersError::InvalidConstraint(b)) => a@ == b@,
            (VersError::DuplicateVersion(a), VersError::DuplicateVersion(b)) => a@ == b@,
            (VersError::InvalidRange(a), VersError::InvalidRange(b)) => a@ == b@,
            (
                VersError::IncompatibleVersioningSchemes(a1, a2),
                VersError::IncompatibleVersioningSchemes(b1, b2),
            ) => a1@ == b1@ && a2@ == b2@,
            (
                VersError::UnsupportedVersioningScheme(a),
                VersError::UnsupportedVersioningScheme(b),
            ) => a@ == b@,
            (
                VersError::InvalidVersionFormat(a1, a2, a3),
                VersError::InvalidVersionFormat(b1, b2, b3),
            ) => a1@ == b1@ && a2@ == b2@ && a3@ == b3@,
            _ => false,
        }
    }
}

/// The mathematical image of a `VersError`, used by contracts. Payloads that
/// are mere diagnostic prose are not modelled; the duplicated version's
/// displayed text and the unknown scheme name are.
pub ghost enum ErrModel {
    InvalidScheme,
    MissingVersioningScheme,
    EmptyConstraints,
    InvalidConstraint,
    DuplicateVersion(Seq<char>),
    InvalidRange,
    UnsupportedVersioningScheme(Seq<char>),
    InvalidVersionFormat,
}

/// Whether the error value `e` answers to the model `m`.
pub open spec fn err_is(e: VersError, m: ErrModel) -> bool {
    match m {
        ErrModel::InvalidScheme => e is InvalidScheme,
        ErrModel::MissingVersioningScheme => e is MissingVersioningScheme,
        ErrModel::EmptyConstraints => e is EmptyConstraints,
        ErrModel::InvalidConstraint => e is InvalidConstraint,
        ErrModel::DuplicateVersion(s) => e matches VersError::DuplicateVersion(t) && t@ == s,
        ErrModel::InvalidRange => e is InvalidRange,
        ErrModel::UnsupportedVersioningScheme(s) => e matches VersError::UnsupportedVersioningScheme(
            t,
        ) && t@ == s,
        ErrModel::InvalidVersionFormat => e is InvalidVersionFormat,
    }
}

} // verus!
