use vers_rs::dynamic::VersionRange as _;
use vers_rs::{contains, parse, DynamicVersionRange, SemVer, VersError, VersionConstraint, VersionRange};

#[test]
fn round_trip_canonical_form() {
    // Displaying, reparsing and displaying again is the identity on the
    // canonical text.
    let inputs = [
        "vers:npm/>=1.0.0|<2.0.0",
        "vers:npm/1.2.3|<2.0.0",
        "vers:npm/*",
        "vers:npm/!=1.2.3",
        "vers:npm/>=1.0.0|<2.0.0|!=1.5.0",
        "vers:npm/ >= 1.0.0 | < 2.0.0 ",
    ];
    for input in inputs {
        let range: DynamicVersionRange = parse(input).unwrap();
        let text = range.display();
        let again: DynamicVersionRange = parse(&text).unwrap();
        assert_eq!(again.display(), text);
    }
}

#[test]
fn star_mixed_with_constraint_is_invalid() {
    let result: Result<DynamicVersionRange, VersError> = "vers:npm/*|>=1.0.0".parse();
    assert!(matches!(result.unwrap_err(), VersError::InvalidRange(_)));
    let result: Result<DynamicVersionRange, VersError> = "vers:npm/1.2.3|*".parse();
    assert!(matches!(result.unwrap_err(), VersError::InvalidRange(_)));
}

#[test]
fn duplicate_version_reports_its_text() {
    let result: Result<VersionRange<SemVer>, _> = "vers:npm/1.2.3|1.2.3".parse();
    match result.unwrap_err() {
        VersError::DuplicateVersion(v) => assert_eq!(v, "1.2.3"),
        other => panic!("{:?}", other),
    }
}

#[test]
fn redundancy_collapse_mixed_bounds() {
    // A lower bound swallows a later lower bound, an upper bound swallows an
    // earlier upper bound, whatever the order they were written in.
    let range: DynamicVersionRange = parse("vers:npm/>2.0.0|>1.0.0").unwrap();
    assert_eq!(range.display(), "vers:npm/>1.0.0");

    let range: DynamicVersionRange = parse("vers:npm/<2.0.0|<1.0.0").unwrap();
    assert_eq!(range.display(), "vers:npm/<2.0.0");

    let range: DynamicVersionRange = parse("vers:npm/<2.0.0|1.2.3").unwrap();
    assert_eq!(range.display(), "vers:npm/<2.0.0");
}

#[test]
fn whitespace_insensitivity_tabs_too() {
    let spaced: DynamicVersionRange = parse("vers:npm/\t>=1.0.0\t|<2.0.0").unwrap();
    let plain: DynamicVersionRange = parse("vers:npm/>=1.0.0|<2.0.0").unwrap();
    assert_eq!(spaced, plain);
}

#[test]
fn missing_version_after_comparator() {
    let result: Result<VersionRange<SemVer>, _> = "vers:npm/>=".parse();
    assert!(matches!(result.unwrap_err(), VersError::InvalidConstraint(_)));
}

#[test]
fn unparsable_version_text() {
    let result: Result<VersionRange<SemVer>, _> = "vers:npm/>=not.a.version".parse();
    assert!(matches!(result.unwrap_err(), VersError::InvalidConstraint(_)));
}

#[test]
fn bad_percent_encoding_is_rejected() {
    // %FF decodes to a byte that is not valid UTF-8.
    let result: Result<VersionRange<SemVer>, _> = "vers:npm/1.0.0%FF".parse();
    assert!(matches!(result.unwrap_err(), VersError::InvalidConstraint(_)));
}

#[test]
fn stray_pipes_are_tolerated() {
    let range: DynamicVersionRange = parse("vers:npm/|>=1.0.0||<2.0.0|").unwrap();
    assert_eq!(range.display(), "vers:npm/>=1.0.0|<2.0.0");
}

#[test]
fn only_pipes_is_empty() {
    let result: Result<VersionRange<SemVer>, _> = "vers:npm/|||".parse();
    assert_eq!(result.unwrap_err(), VersError::EmptyConstraints);
}

#[test]
fn scheme_is_lower_cased() {
    let range: DynamicVersionRange = parse("vers:NPM/1.2.3").unwrap();
    assert_eq!(range.versioning_scheme(), "npm");
}

#[test]
fn no_colon_at_all() {
    let result: Result<VersionRange<SemVer>, _> = "vers npm 1.2.3".parse();
    assert_eq!(result.unwrap_err(), VersError::InvalidScheme);
}

#[test]
fn no_slash_at_all() {
    let result: Result<VersionRange<SemVer>, _> = "vers:npm 1.2.3".parse();
    assert_eq!(result.unwrap_err(), VersError::MissingVersioningScheme);
}

#[test]
fn exclusion_point_boundaries() {
    let range: DynamicVersionRange = parse("vers:npm/!=1.2.3").unwrap();
    assert!(!contains(&range, "1.2.3").unwrap());
    assert!(contains(&range, "1.2.2").unwrap());
    assert!(contains(&range, "99.0.0").unwrap());
}

#[test]
fn open_ended_bounds() {
    let range: DynamicVersionRange = parse("vers:npm/<2.0.0|>=3.0.0").unwrap();
    assert!(contains(&range, "1.9.9").unwrap());
    assert!(contains(&range, "3.0.0").unwrap());
    assert!(contains(&range, "4.0.0").unwrap());
    assert!(!contains(&range, "2.5.0").unwrap());
}

#[test]
fn equal_version_on_inclusive_bound() {
    let range: DynamicVersionRange = parse("vers:npm/<=2.0.0").unwrap();
    assert!(contains(&range, "2.0.0").unwrap());
    assert!(contains(&range, "1.0.0").unwrap());
    assert!(!contains(&range, "2.0.1").unwrap());
}

#[test]
fn exact_version_constraint_only() {
    let range: DynamicVersionRange = parse("vers:npm/1.2.3").unwrap();
    assert!(!contains(&range, "1.2.2").unwrap());
    assert!(contains(&range, "1.2.3").unwrap());
}

#[test]
fn pre_release_sorts_before_release() {
    let range: DynamicVersionRange = parse("vers:npm/<1.0.0").unwrap();
    assert!(contains(&range, "1.0.0-alpha").unwrap());
    assert!(!contains(&range, "1.0.0").unwrap());
}

#[test]
fn semver_rejects_partial_versions() {
    let range: DynamicVersionRange = parse("vers:npm/>=1.0.0").unwrap();
    assert!(range.contains("1.0").is_err());
    assert!(range.contains("").is_err());
}

#[test]
fn extract_scheme_errors() {
    assert!(matches!(
        DynamicVersionRange::extract_versioning_scheme("nope"),
        Err(VersError::InvalidScheme)
    ));
    assert!(matches!(
        DynamicVersionRange::extract_versioning_scheme("vers:npm"),
        Err(VersError::MissingVersioningScheme)
    ));
    assert_eq!(
        DynamicVersionRange::extract_versioning_scheme("vers:NPM/1.2.3").unwrap(),
        "npm"
    );
}

#[test]
fn pre_release_numeric_identifiers_order_by_value() {
    // Numeric pre-release identifiers compare by value: beta.2 < beta.11.
    let range: DynamicVersionRange = parse("vers:npm/<1.0.0-beta.11").unwrap();
    assert!(contains(&range, "1.0.0-beta.2").unwrap());
    assert!(!contains(&range, "1.0.0-beta.11").unwrap());

    let range: DynamicVersionRange = parse("vers:npm/<1.0.0-beta.11|<1.0.0-beta.2").unwrap();
    assert_eq!(range.display(), "vers:npm/<1.0.0-beta.11");
}

#[test]
fn pre_release_precedence_rules() {
    // Numeric identifiers order below alphanumeric ones.
    let range: DynamicVersionRange = parse("vers:npm/<1.0.0-alpha").unwrap();
    assert!(contains(&range, "1.0.0-11").unwrap());
    // A shorter identifier list orders first when its identifiers all tie.
    let range: DynamicVersionRange = parse("vers:npm/<1.0.0-alpha.1").unwrap();
    assert!(contains(&range, "1.0.0-alpha").unwrap());
    // Identifier-wise comparison decides before list length.
    let range: DynamicVersionRange = parse("vers:npm/<1.0.0-alpha.beta").unwrap();
    assert!(contains(&range, "1.0.0-alpha.1").unwrap());
    assert!(!contains(&range, "1.0.0-beta").unwrap());
}

#[test]
fn empty_and_missing_version_details() {
    match "vers:npm/1.0.0|".parse::<VersionRange<SemVer>>() {
        // stray pipes are dropped, so this parses
        Ok(r) => assert_eq!(r.constraints().len(), 1),
        Err(e) => panic!("{:?}", e),
    }
    match VersionConstraint::<SemVer>::parse("") {
        Err(VersError::InvalidConstraint(d)) => assert_eq!(d, "Empty constraint"),
        other => panic!("{:?}", other),
    }
    match VersionConstraint::<SemVer>::parse(">=") {
        Err(VersError::InvalidConstraint(d)) => assert_eq!(d, "Missing version"),
        other => panic!("{:?}", other),
    }
}
