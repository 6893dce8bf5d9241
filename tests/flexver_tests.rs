use std::cmp::Ordering::{self, Equal, Greater, Less};

use flexver::tokenize::SortingType;
use flexver::{compare, decompose, try_compare, FlexVer};

fn check(left: &str, right: &str, expected: Ordering) {
    assert_eq!(compare(left, right), expected, "{} vs {}", left, right);
    assert_eq!(compare(right, left), expected.reverse(), "{} vs {}", right, left);
}

fn texts(s: &str) -> Vec<String> {
    decompose(s)
        .unwrap()
        .iter()
        .map(|t| t.text().iter().collect::<String>())
        .collect()
}

#[test]
fn test_min() {
    assert_eq!(FlexVer("1.0.0"), FlexVer("1.0.0").min(FlexVer("1.0.0")));
    assert_eq!(FlexVer("a1.2.6"), FlexVer("b1.7.3").min(FlexVer("a1.2.6")));
    assert_eq!(FlexVer("a1.7.3"), FlexVer("b1.2.6").min(FlexVer("a1.7.3")));
}

#[test]
fn test_max() {
    assert_eq!(FlexVer("b1.7.3"), FlexVer("b1.7.3").max(FlexVer("a1.2.6")));
    assert_eq!(FlexVer("b1.2.6"), FlexVer("b1.2.6").max(FlexVer("a1.7.3")));
    assert_eq!(FlexVer("1.0.0"), FlexVer("1.0.0").max(FlexVer("1.0.0")));
}

#[test]
fn test_clamp() {
    assert_eq!(
        FlexVer("1.1.0"),
        FlexVer("1.1.0").clamp(FlexVer("1.0.0"), FlexVer("1.2.0"))
    );
}

#[test]
fn clamp_outside_bounds() {
    assert_eq!(FlexVer("1.0.0").clamp(FlexVer("1.0.1"), FlexVer("1.2.0")).0, "1.0.1");
    assert_eq!(FlexVer("1.10.0").clamp(FlexVer("1.0.1"), FlexVer("1.2.0")).0, "1.2.0");
}

#[test]
fn min_and_max_keep_order_on_ties() {
    let a = FlexVer("1.0.0+a");
    let b = FlexVer("1.0.0+b");
    assert_eq!(a.min(b).0, "1.0.0+a");
    assert_eq!(a.max(b).0, "1.0.0+b");
}

#[test]
fn reflexive() {
    for v in ["", "1.0.0", "-", "--1", "1.0.0-rc.1+build", "+only", "14w16a", "a-b-c"] {
        assert_eq!(compare(v, v), Equal, "{}", v);
        assert!(FlexVer(v) == FlexVer(v));
    }
}

#[test]
fn antisymmetric() {
    let vs = ["", "1", "1.0", "1.0-rc", "1.0_01", "a1.2", "b1.0", "0.9.beta", "18w40b", "-x"];
    for a in vs {
        for b in vs {
            assert_eq!(compare(b, a), compare(a, b).reverse(), "{} {}", a, b);
        }
    }
}

#[test]
fn build_metadata_ignored() {
    assert_eq!(compare("1.4.5_01", "1.4.5_01+fabric-1.17"), Equal);
    assert_eq!(compare("1.4.5_01", "1.4.5_01+fabric-1.17+ohno"), Equal);
    assert_eq!(compare("", "+abc"), Equal);
}

#[test]
fn numbers_compare_by_magnitude() {
    check("1.0.1", "1.0.0_01", Greater);
    check("1.10", "1.9", Greater);
    check("1.01", "1.1", Equal);
}

#[test]
fn prerelease_lowers_precedence() {
    check("1.0.0", "1.0.0-2", Less);
    check("0.17.1-beta.1", "0.17.1", Less);
    check("0.17.1-beta.1", "0.17.1-beta.2", Less);
}

#[test]
fn dangling_suffix_raises_precedence() {
    check("a1.1.2", "a1.1.2_01", Less);
}

#[test]
fn lexical_tie_break() {
    check("14w16a", "18w40b", Less);
    check("13w02a", "c0.3.0_01", Less);
}

#[test]
fn underscore_and_dash_differ() {
    check("1.0.0", "1.0.0_01", Less);
    check("1.0.1", "1.0.0_01", Greater);
}

#[test]
fn end_to_end() {
    check("b1.7.3", "a1.2.6", Greater);
    check("1.16.5-0.00.5", "1.14.2-1.3.7", Greater);
    check("0.6.0-1.18.x", "0.9.beta-1.18.x", Less);
    check("1.4.5_01+fabric-1.17", "18w40b", Less);
}

#[test]
fn empty_versions() {
    check("", "", Equal);
    check("", "1", Less);
    check("", "-rc", Greater);
    assert!(texts("").is_empty());
    assert!(texts("+meta").is_empty());
}

#[test]
fn tokens_of_a_version() {
    assert_eq!(texts("1.0-rc-2+build.7"), vec!["1", ".", "0", "-rc-", "2"]);
    assert_eq!(texts("a-b"), vec!["a", "-b"]);
    assert_eq!(texts("--1"), vec!["-", "-", "1"]);
    assert_eq!(texts("-a--"), vec!["-a--"]);
    assert_eq!(texts("ab-"), vec!["ab", "-"]);
}

#[test]
fn token_kinds() {
    let ts = decompose("10-rc.x").unwrap();
    assert_eq!(ts.len(), 2);
    assert!(matches!(ts[0], SortingType::Numerical(10, _)));
    assert!(matches!(ts[1], SortingType::SemverPrerelease(_)));
    let ts = decompose("-").unwrap();
    assert!(matches!(ts[0], SortingType::Lexical(_)));
}

#[test]
fn lone_dash_is_not_prerelease() {
    check("1-", "1", Greater);
    check("1-x", "1", Less);
}

#[test]
fn largest_number_fits() {
    check("9223372036854775807", "9223372036854775806", Greater);
    assert!(decompose("9223372036854775807").is_some());
}

#[test]
fn number_too_large() {
    assert!(decompose("1.9223372036854775808").is_none());
    assert_eq!(try_compare("9223372036854775808", "1"), None);
    assert_eq!(try_compare("1", "99999999999999999999999"), None);
    assert_eq!(try_compare("1+99999999999999999999999", "1"), Some(Equal));
    assert!(FlexVer("99999999999999999999") != FlexVer("99999999999999999999"));
    assert_eq!(FlexVer("99999999999999999999").partial_cmp(&FlexVer("1")), None);
}

#[test]
fn partial_order_of_versions() {
    assert!(FlexVer("1.10") > FlexVer("1.9"));
    assert!(FlexVer("1.0-rc") < FlexVer("1.0"));
    assert_eq!(FlexVer("1.0").partial_cmp(&FlexVer("1.0+x")), Some(Equal));
    assert_eq!(FlexVer("2").cmp(&FlexVer("10")), Less);
}
