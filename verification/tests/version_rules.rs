use brint::error::ArgError;
use brint::version::{parse_version, release_version, SemverParts, Version};

fn v(major: u64, minor: u64, patch: u64) -> Version {
    Version { major, minor, patch }
}

#[test]
fn well_formed_version_is_kept_exactly() {
    assert_eq!(parse_version("2.3.1"), Ok(v(2, 3, 1)));
    assert_eq!(parse_version("0.0.0"), Ok(v(0, 0, 0)));
    assert_eq!(parse_version("10.20.30"), Ok(v(10, 20, 30)));
}

#[test]
fn largest_numbers_are_kept() {
    assert_eq!(
        parse_version("18446744073709551615.0.18446744073709551615"),
        Ok(v(u64::MAX, 0, u64::MAX))
    );
}

#[test]
fn prerelease_is_rejected() {
    assert_eq!(parse_version("1.0.0-rc1"), Err(ArgError::Prerelease));
    assert_eq!(parse_version("1.0.0-alpha.1"), Err(ArgError::Prerelease));
    assert_eq!(parse_version("1.0.0-0"), Err(ArgError::Prerelease));
}

#[test]
fn build_metadata_is_rejected() {
    assert_eq!(parse_version("1.0.0+build5"), Err(ArgError::BuildMetadata));
    assert_eq!(parse_version("1.0.0+001"), Err(ArgError::BuildMetadata));
}

#[test]
fn prerelease_is_reported_before_build_metadata() {
    assert_eq!(parse_version("1.0.0-rc1+build5"), Err(ArgError::Prerelease));
}

#[test]
fn text_that_is_no_version_is_rejected() {
    for text in ["", "1", "1.0", "1.2.3.4", "01.0.0", "1.0.01", "a.b.c", "1.0.0-", "1.0.0+", " 1.0.0", "1.0.0 ", "v1.0.0", "1.0.0-alpha_1", "18446744073709551616.0.0"] {
        assert_eq!(parse_version(text), Err(ArgError::InvalidVersion), "{:?}", text);
    }
}

#[test]
fn release_version_reads_the_suffixes() {
    let plain = SemverParts { major: 4, minor: 5, patch: 6, pre: String::new(), build: String::new() };
    assert_eq!(release_version(&plain), Ok(v(4, 5, 6)));
    let pre = SemverParts { major: 4, minor: 5, patch: 6, pre: "rc1".to_string(), build: String::new() };
    assert_eq!(release_version(&pre), Err(ArgError::Prerelease));
    let build = SemverParts { major: 4, minor: 5, patch: 6, pre: String::new(), build: "7".to_string() };
    assert_eq!(release_version(&build), Err(ArgError::BuildMetadata));
    let both = SemverParts { major: 4, minor: 5, patch: 6, pre: "a".to_string(), build: "b".to_string() };
    assert_eq!(release_version(&both), Err(ArgError::Prerelease));
}

#[test]
fn versions_are_ordered_number_by_number() {
    assert!(v(1, 5, 0).is_before(&v(1, 19, 0)));
    assert!(!v(1, 19, 0).is_before(&v(1, 5, 0)));
    assert!(v(1, 9, 9).is_before(&v(2, 0, 0)));
    assert!(v(1, 2, 3).is_before(&v(1, 2, 4)));
    assert!(!v(1, 2, 3).is_before(&v(1, 2, 3)));
    assert!(!v(2, 0, 0).is_before(&v(1, 9, 9)));
    assert!(v(0, 0, 0).is_before(&v(0, 0, 1)));
}

#[test]
fn derived_order_agrees_with_is_before() {
    let all = [v(0, 0, 1), v(0, 1, 0), v(1, 0, 0), v(1, 0, 1), v(1, 2, 0), v(3, 0, 0)];
    for a in all {
        for b in all {
            assert_eq!(a < b, a.is_before(&b));
        }
    }
}

#[test]
fn version_text_is_three_decimal_numbers() {
    assert_eq!(v(1, 2, 0).to_text(), "1.2.0");
    assert_eq!(v(0, 0, 0).to_text(), "0.0.0");
    assert_eq!(v(10, 200, 3009).to_text(), "10.200.3009");
    assert_eq!(v(9, 10, 99).to_text(), "9.10.99");
    assert_eq!(v(u64::MAX, 0, 1234567890).to_text(), "18446744073709551615.0.1234567890");
}

#[test]
fn version_text_reads_back_as_the_version() {
    for version in [v(0, 0, 0), v(1, 2, 3), v(100, 0, 7), v(u64::MAX, u64::MAX, u64::MAX)] {
        assert_eq!(parse_version(&version.to_text()), Ok(version));
    }
}
