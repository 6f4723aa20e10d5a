use std::cmp::Ordering;

use tbx::build_metadata::Build;
use tbx::compare::cmp_pre_release;
use tbx::identifier::{parse_alphanumeric_identifier, parse_numeric_identifier};
use tbx::prerelease::PreRelease;
use tbx::semantic::{package_version, Version};
use tbx::semver_error::{ParseError, ParseErrorReason, ParseInvalidChar, ParseInvalidPart};

#[test]
fn test_zero() {
    let z = Version::zero();

    assert_eq!(0, z.major);
    assert_eq!(0, z.minor);
    assert_eq!(0, z.patch);
    assert_eq!(None, z.pre_release);
    assert_eq!(None, z.build);
}

#[test]
fn test_parse_version_core() {
    let valid_version = [
        "1.2.3", "12.34.56", "100.0.3840",
        "1.0.0-alpha", "1.0.0-alpha.1", "1.0.0-alpha.beta",
        "1.0.0-beta", "1.0.0-beta.2", "1.0.0-beta.11", "1.0.0-rc.1", "1.0.0",
    ];

    for v in valid_version {
        assert!(Version::parse_version_core(v, true).is_ok(), "{}", &v)
    }

    assert_eq!(Version::parse_version_core("1.2.3", true).unwrap(), (1, 2, 3, None));
    assert_eq!(Version::parse_version_core("12.34.56", true).unwrap(), (12, 34, 56, None));
    assert_eq!(Version::parse_version_core("100.0.3840", true).unwrap(), (100, 0, 3840, None));
    assert_eq!(Version::parse_version_core("1.0.0-alpha", true).unwrap(), (1, 0, 0, Some("-alpha")));
    assert_eq!(Version::parse_version_core("1.0.0-alpha.1", true).unwrap(), (1, 0, 0, Some("-alpha.1")));
}

#[test]
fn test_ord() {
    let v1_0_0_alpha = Version::parse("1.0.0-alpha", true).unwrap();
    let v1_0_0_alpha_1 = Version::parse("1.0.0-alpha.1", true).unwrap();
    let v1_0_0_alpha_beta = Version::parse("1.0.0-alpha.beta", true).unwrap();
    let v1_0_0_beta = Version::parse("1.0.0-beta", true).unwrap();
    let v1_0_0_beta_2 = Version::parse("1.0.0-beta.2", true).unwrap();
    let v1_0_0_beta_11 = Version::parse("1.0.0-beta.11", true).unwrap();
    let v1_0_0_rc_1 = Version::parse("1.0.0-rc.1", true).unwrap();
    let v1_0_0 = Version::parse("1.0.0", true).unwrap();
    let v1_0_1 = Version::parse("1.0.1", true).unwrap();
    let v1_1_0 = Version::parse("1.1.0", true).unwrap();
    let v2_0_0 = Version::parse("2.0.0", true).unwrap();

    assert!(v1_0_0_alpha.partial_cmp(&v1_0_0_alpha_1).unwrap().is_le());
    assert!(v1_0_0_alpha_1.partial_cmp(&v1_0_0_alpha_beta).unwrap().is_le());
    assert!(v1_0_0_beta.partial_cmp(&v1_0_0_beta_2).unwrap().is_le());
    assert!(v1_0_0_beta_2.partial_cmp(&v1_0_0_beta_11).unwrap().is_le());
    assert!(v1_0_0_beta_11.partial_cmp(&v1_0_0_rc_1).unwrap().is_le());
    assert!(v1_0_0_rc_1.partial_cmp(&v1_0_0).unwrap().is_le());
    assert!(v1_0_0.partial_cmp(&v1_0_1).unwrap().is_le());
    assert!(v1_0_1.partial_cmp(&v1_1_0).unwrap().is_le());
    assert!(v1_1_0.partial_cmp(&v2_0_0).unwrap().is_le());

    assert!(v2_0_0.partial_cmp(&v1_1_0).unwrap().is_ge());
    assert!(v1_1_0.partial_cmp(&v1_0_1).unwrap().is_ge());
    assert!(v1_0_1.partial_cmp(&v1_0_0).unwrap().is_ge());
    assert!(v1_0_0_rc_1.partial_cmp(&v1_0_0_beta_11).unwrap().is_ge());
    assert!(v1_0_0_beta_11.partial_cmp(&v1_0_0_beta_2).unwrap().is_ge());
    assert!(v1_0_0_beta_2.partial_cmp(&v1_0_0_beta).unwrap().is_ge());
    assert!(v1_0_0_beta.partial_cmp(&v1_0_0_alpha_beta).unwrap().is_ge());
    assert!(v1_0_0_alpha_beta.partial_cmp(&v1_0_0_alpha_1).unwrap().is_ge());
    assert!(v1_0_0_alpha_1.partial_cmp(&v1_0_0_alpha).unwrap().is_ge());

    let v1_0_0_build_20221208 = Version::parse("1.0.0+20221208", true).unwrap();
    assert!(v1_0_0.partial_cmp(&v1_0_0_build_20221208).unwrap().is_eq());
}

#[test]
fn semantic_test_eq() {
    let z = Version::zero();
    let one_zero_zero = Version {
        major: 1,
        minor: 0,
        patch: 0,
        pre_release: None,
        build: None,
    };
    assert!(z.eq(&z));
    assert!(!z.eq(&one_zero_zero));
    assert!(one_zero_zero.eq(&one_zero_zero));
    assert!(!one_zero_zero.eq(&z));
}

#[test]
fn semantic_test_parse() {
    let one_two_three = Version::parse("1.2.3", true).unwrap();
    assert_eq!("1.2.3", one_two_three.format_canonical());

    let one_two_three_alpha = Version::parse("1.2.3-alpha", true).unwrap();
    assert_eq!("1.2.3-alpha", one_two_three_alpha.format_canonical());

    let one_two_three_alpha_beta = Version::parse("1.2.3-alpha+beta", true).unwrap();
    assert_eq!("1.2.3-alpha+beta", one_two_three_alpha_beta.format_canonical());
}

#[test]
fn test_fmt() {
    let zero = Version::zero();
    assert_eq!("0.0.0", zero.format_canonical());

    let one_two_three = Version {
        major: 1,
        minor: 2,
        patch: 3,
        pre_release: None,
        build: None,
    };
    assert_eq!("1.2.3", one_two_three.format_canonical());

    let one_two_three_alpha = Version {
        major: 1,
        minor: 2,
        patch: 3,
        pre_release: Some(PreRelease::parse("alpha", true).unwrap()),
        build: None,
    };
    assert_eq!("1.2.3-alpha", one_two_three_alpha.format_canonical());

    let one_two_three_build = Version {
        major: 1,
        minor: 2,
        patch: 3,
        pre_release: None,
        build: Some(Build::parse("20221130", true).unwrap()),
    };
    assert_eq!("1.2.3+20221130", one_two_three_build.format_canonical());

    let one_two_three_beta_build = Version {
        major: 1,
        minor: 2,
        patch: 3,
        pre_release: Some(PreRelease::parse("beta", true).unwrap()),
        build: Some(Build::parse("20221130", true).unwrap()),
    };
    assert_eq!("1.2.3-beta+20221130", one_two_three_beta_build.format_canonical());
}

#[test]
fn build_test_parse() {
    let valid_builds = [
        "20130313144700",
    ];
    for b in valid_builds {
        assert_eq!(Build::parse_build_identifier(b, true).unwrap(), b);
    }

    let valid_in_relaxed = [
        "21AF26D3",
    ];
    for b in valid_in_relaxed {
        assert_eq!(Build::parse_build_identifier(b, false).unwrap(), b);
    }
}

#[test]
fn test_display_parse_error() {
    assert_eq!("invalid character '*' found in part PreRelease",
               ParseError::from(ParseInvalidPart::PreRelease,
                                ParseErrorReason::InvalidChar(ParseInvalidChar::from('*'))).to_string());
    assert_eq!("invalid character '*' found",
               ParseError::from(ParseInvalidPart::Other,
                                ParseErrorReason::InvalidChar(ParseInvalidChar::from('*'))).to_string());
}

#[test]
fn test_parse_pre_release_identifier() {
    // Digits followed by a hyphen or a letter form an alphanumeric identifier.
    let valid_pre_release = [
        "-", "-0-0-0-", "123", "Alpha1", "alpha-1", "ALPHA-1",
        "Alpha1Beta2", "Alpha-1-Beta-2-Theta-3", "alpha",
        "12-34-56", "100-Alpha1", "0-",
    ];
    for p in valid_pre_release {
        assert_eq!(PreRelease::parse_pre_release_identifier(p, true).unwrap(), p);
    }

    let invalid_pre_release = [
        "_", "ABC_123", "-ABC_123-", // invalid chars
        "012", "", // leading zero, empty
    ];
    for p in invalid_pre_release {
        assert_eq!(PreRelease::parse_pre_release_identifier(p, true).unwrap_or("ERR"), "ERR");
    }

    let relaxed_pre_release = [
        "12-34-56", "100-Alpha1", "0-", "012",
    ];
    for p in relaxed_pre_release {
        assert_eq!(PreRelease::parse_pre_release_identifier(p, false).unwrap(), p);
    }
}

#[test]
fn prerelease_test_eq() {
    let x_alpha1 = PreRelease::parse("alpha1", true).unwrap();
    let y_alpha1 = PreRelease::parse("alpha1", true).unwrap();
    let x_alpha1_beta2 = PreRelease::parse("alpha1-beta2", true).unwrap();

    assert!(x_alpha1.eq(&y_alpha1));
    assert_eq!(x_alpha1, y_alpha1);
    assert!(!x_alpha1.eq(&x_alpha1_beta2));
}

#[test]
fn test_partial_cmp() {
    let x_alpha = PreRelease::parse("alpha", true).unwrap();
    let x_alpha_1 = PreRelease::parse("alpha.1", true).unwrap();
    let x_alpha_beta = PreRelease::parse("alpha.beta", true).unwrap();
    let x_beta = PreRelease::parse("beta", true).unwrap();
    let x_beta_2 = PreRelease::parse("beta.2", true).unwrap();
    let x_beta_11 = PreRelease::parse("beta.11", true).unwrap();
    let x_rc_1 = PreRelease::parse("rc.1", true).unwrap();

    assert_eq!(x_alpha.partial_cmp(&x_alpha).unwrap(), Ordering::Equal);
    assert_eq!(x_alpha.partial_cmp(&x_alpha_1).unwrap(), Ordering::Less);
    assert_eq!(x_alpha_1.partial_cmp(&x_alpha).unwrap(), Ordering::Greater);

    assert_eq!(x_alpha_1.partial_cmp(&x_alpha_1).unwrap(), Ordering::Equal);
    assert_eq!(x_alpha_1.partial_cmp(&x_alpha_beta).unwrap(), Ordering::Less);
    assert_eq!(x_alpha_beta.partial_cmp(&x_alpha_1).unwrap(), Ordering::Greater);

    assert_eq!(x_alpha_beta.partial_cmp(&x_alpha_beta).unwrap(), Ordering::Equal);
    assert_eq!(x_alpha_beta.partial_cmp(&x_beta).unwrap(), Ordering::Less);
    assert_eq!(x_beta.partial_cmp(&x_alpha_beta).unwrap(), Ordering::Greater);

    assert_eq!(x_beta.partial_cmp(&x_beta).unwrap(), Ordering::Equal);
    assert_eq!(x_beta.partial_cmp(&x_beta_2).unwrap(), Ordering::Less);
    assert_eq!(x_beta_2.partial_cmp(&x_beta).unwrap(), Ordering::Greater);

    assert_eq!(x_beta_2.partial_cmp(&x_beta_2).unwrap(), Ordering::Equal);
    assert_eq!(x_beta_2.partial_cmp(&x_beta_11).unwrap(), Ordering::Less);
    assert_eq!(x_beta_11.partial_cmp(&x_beta_2).unwrap(), Ordering::Greater);

    assert_eq!(x_beta_11.partial_cmp(&x_beta_11).unwrap(), Ordering::Equal);
    assert_eq!(x_beta_11.partial_cmp(&x_rc_1).unwrap(), Ordering::Less);
    assert_eq!(x_rc_1.partial_cmp(&x_beta_11).unwrap(), Ordering::Greater);
}

#[test]
fn parse_plain_version() {
    let v = Version::parse("1.2.3", true).unwrap();
    assert!(v.eq(&Version::new(1, 2, 3)));
    assert_eq!(None, v.pre_release);
    assert_eq!(None, v.build);
    assert_eq!("1.2.3", v.format_canonical());
}

#[test]
fn parse_pre_release_and_build_parts() {
    let v = Version::parse("1.0.0-alpha+001", true).unwrap();
    assert_eq!((1, 0, 0), (v.major, v.minor, v.patch));
    assert_eq!(Some(PreRelease::parse("alpha", true).unwrap()), v.pre_release);
    assert_eq!(Some(Build::parse("001", true).unwrap()), v.build);
    assert_eq!("alpha", v.pre_release.as_ref().unwrap().to_string());
    assert_eq!("001", v.build.as_ref().unwrap().to_string());
    assert_eq!("1.0.0-alpha+001", v.format_canonical());
}

#[test]
fn precedence_chain() {
    let chain = [
        "1.0.0-alpha", "1.0.0-alpha.1", "1.0.0-alpha.beta", "1.0.0-beta",
        "1.0.0-beta.2", "1.0.0-beta.11", "1.0.0-rc.1", "1.0.0",
    ];
    for i in 0..chain.len() {
        for j in 0..chain.len() {
            let a = Version::parse(chain[i], true).unwrap();
            let b = Version::parse(chain[j], true).unwrap();
            assert_eq!(a.compare(&b), i.cmp(&j), "{} vs {}", chain[i], chain[j]);
        }
    }
}

#[test]
fn build_does_not_change_precedence() {
    let a = Version::parse("1.0.0+20130313144700", true).unwrap();
    let b = Version::parse("1.0.0+exp.sha.5114f85", true).unwrap();
    assert_eq!(Ordering::Equal, a.compare(&b));
    assert!(!a.eq(&b));
}

#[test]
fn leading_zero_strict_and_lenient() {
    let e = Version::parse("01.2.3", true).unwrap_err();
    assert_eq!(ParseInvalidPart::VersionNumber, e.part);
    assert!(matches!(e.reason, ParseErrorReason::NumberIdentifierShouldNotHaveLeadingZero));
    let v = Version::parse("01.2.3", false).unwrap();
    assert_eq!(1, v.major);
}

#[test]
fn missing_dots_fail() {
    let e = Version::parse("123", true).unwrap_err();
    assert_eq!(ParseInvalidPart::VersionNumber, e.part);
    assert!(matches!(e.reason, ParseErrorReason::InvalidPattern));
    assert!(Version::parse("1.2", true).is_err());
    assert!(Version::parse(".1.2", true).is_err());
    assert!(Version::parse("1..2", true).is_err());
    assert!(Version::parse("1.2.", true).is_err());
}

#[test]
fn round_trip_is_idempotent() {
    for s in ["1.2.3", "0.0.0", "1.0.0-alpha+001", "10.20.30-rc.1.x-y+build.7", "1.0.0+0a.b"] {
        let v = Version::parse(s, true).unwrap();
        let w = Version::parse(&v.format_canonical(), true).unwrap();
        assert!(v.eq(&w), "{}", s);
    }
}

#[test]
fn zero_formats_as_zeros() {
    assert_eq!("0.0.0", Version::zero().format_canonical());
}

#[test]
fn remainder_errors() {
    let e = Version::parse("1.0.0-", true).unwrap_err();
    assert_eq!(ParseInvalidPart::PreRelease, e.part);
    let e = Version::parse("1.0.0+", true).unwrap_err();
    assert_eq!(ParseInvalidPart::Build, e.part);
    let e = Version::parse("1.0.0-+b", true).unwrap_err();
    assert_eq!(ParseInvalidPart::PrereleaseOrBuild, e.part);
    let e = Version::parse("1.0.0x", true).unwrap_err();
    assert_eq!(ParseInvalidPart::PrereleaseOrBuild, e.part);
    let e = Version::parse("1.0.0-a..b", true).unwrap_err();
    assert_eq!(ParseInvalidPart::PreRelease, e.part);
    let e = Version::parse("1.0.0-a+b_c", true).unwrap_err();
    assert_eq!(ParseInvalidPart::Build, e.part);
    assert!(matches!(e.reason, ParseErrorReason::InvalidPattern));
}

#[test]
fn overflow_and_invalid_char() {
    let e = Version::parse("18446744073709551616.0.0", true).unwrap_err();
    assert_eq!(ParseInvalidPart::VersionNumber, e.part);
    assert!(matches!(e.reason, ParseErrorReason::InvalidPattern));
    let v = Version::parse("18446744073709551615.0.0", true).unwrap();
    assert_eq!(u64::MAX, v.major);
    let e = Version::parse("1a.0.0", true).unwrap_err();
    assert!(matches!(e.reason, ParseErrorReason::InvalidChar(ref c) if c.invalid == 'a'));
    let e = Version::parse("1a.0.0", false).unwrap_err();
    assert_eq!("non ASCII alpha-numeric character '1a' found in part VersionNumber", e.to_string());
}

#[test]
fn identifier_validators() {
    assert!(parse_numeric_identifier("0", true).is_ok());
    assert!(parse_numeric_identifier("00", false).is_ok());
    let e = parse_numeric_identifier("00", true).unwrap_err();
    assert_eq!("number identifier should not have leading zero in part NumericIdentifier", e.to_string());
    let e = parse_numeric_identifier("12x4", true).unwrap_err();
    assert_eq!("invalid character 'x' found in part NumericIdentifier", e.to_string());
    assert!(parse_alphanumeric_identifier("123", true).is_err());
    assert!(parse_alphanumeric_identifier("123", false).is_ok());
    let e = parse_alphanumeric_identifier("a_b", false).unwrap_err();
    assert_eq!("non ASCII alpha-numeric character 'a_b' found in part AlphaNumericIdentifier", e.to_string());
}

#[test]
fn pre_release_identifier_order() {
    assert_eq!(Ordering::Less, cmp_pre_release("2", "11"));
    assert_eq!(Ordering::Equal, cmp_pre_release("007", "7"));
    assert_eq!(Ordering::Less, cmp_pre_release("99999999999999999999", "alpha"));
    assert_eq!(Ordering::Greater, cmp_pre_release("beta", "alpha"));
    assert_eq!(Ordering::Less, cmp_pre_release("-5", "5a"));
}

#[test]
fn lenient_fallbacks() {
    assert!(Version::parse_or("x", 3, 2, 1).eq(&Version::new(3, 2, 1)));
    assert!(Version::parse_or_zero("1.2.3").eq(&Version::new(1, 2, 3)));
    assert!(Version::parse_or_zero("nope").eq(&Version::zero()));
    assert!(package_version(None).eq(&Version::zero()));
    assert!(package_version(Some("4.5.6")).eq(&Version::new(4, 5, 6)));
}
