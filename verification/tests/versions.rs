use dependency_checker::text::{
    name_precedes_or_equals, same_text, starts_with, strip_v_prefix, trim_v_prefix,
};
use dependency_checker::version::{highest_stable_version, parse_stable, Version, VersionReq};

fn listed_texts(items: &[&str]) -> Vec<String> {
    items.iter().map(|s| s.to_string()).collect()
}

#[test]
fn strip_takes_one_v_before_the_number() {
    assert_eq!(strip_v_prefix("v1.2.3"), "1.2.3");
    assert_eq!(strip_v_prefix("vv1.2.3"), "v1.2.3");
    assert_eq!(strip_v_prefix("1.2.3"), "1.2.3");
    assert_eq!(strip_v_prefix("v"), "");
    assert_eq!(strip_v_prefix(""), "");
}

#[test]
fn strip_takes_the_v_behind_the_leading_operator() {
    assert_eq!(strip_v_prefix("^v1.0"), "^1.0");
    assert_eq!(strip_v_prefix("~v1.2"), "~1.2");
    assert_eq!(strip_v_prefix("=v1.2.3"), "=1.2.3");
    assert_eq!(strip_v_prefix(">v1"), ">1");
    assert_eq!(strip_v_prefix("<v1"), "<1");
    assert_eq!(strip_v_prefix(">=v1.2"), ">=1.2");
    assert_eq!(strip_v_prefix("<=v1.2"), "<=1.2");
    assert_eq!(strip_v_prefix(">=  v1.2, <v2"), ">=  1.2, <v2");
    assert_eq!(strip_v_prefix("^ v1.0"), "^ 1.0");
    assert_eq!(strip_v_prefix("^vv1.0"), "^v1.0");
    assert_eq!(strip_v_prefix("^"), "^");
    assert_eq!(strip_v_prefix(">= "), ">= ");
}

#[test]
fn strip_leaves_every_other_v() {
    assert_eq!(strip_v_prefix(" v1.0"), " v1.0");
    assert_eq!(strip_v_prefix("^1.0v"), "^1.0v");
    assert_eq!(strip_v_prefix("1.v0"), "1.v0");
    assert_eq!(strip_v_prefix("=>v1"), "=>v1");
    assert_eq!(strip_v_prefix("^^v1"), "^^v1");
    assert_eq!(strip_v_prefix("dev-master"), "dev-master");
    assert_eq!(strip_v_prefix("1.0, v2"), "1.0, v2");
}

#[test]
fn trim_takes_every_leading_v() {
    assert_eq!(trim_v_prefix("v1.2.3"), "1.2.3");
    assert_eq!(trim_v_prefix("vvv1.2.3"), "1.2.3");
    assert_eq!(trim_v_prefix("1.2.3v"), "1.2.3v");
    assert_eq!(trim_v_prefix("vvv"), "");
    assert_eq!(trim_v_prefix(""), "");
}

#[test]
fn texts_are_compared_by_their_characters() {
    assert!(same_text("psr/log", "psr/log"));
    assert!(!same_text("psr/log", "psr/lo"));
    assert!(!same_text("php", "phq"));
    assert!(same_text("", ""));
    assert!(same_text("gr\u{fc}n", "gr\u{fc}n"));
}

#[test]
fn prefixes_are_found() {
    assert!(starts_with("ext-json", "ext-"));
    assert!(starts_with("ext-", "ext-"));
    assert!(!starts_with("ext", "ext-"));
    assert!(!starts_with("text-json", "ext-"));
    assert!(starts_with("anything", ""));
}

#[test]
fn names_are_ordered_by_code_point() {
    assert!(name_precedes_or_equals("a", "b"));
    assert!(!name_precedes_or_equals("b", "a"));
    assert!(name_precedes_or_equals("a", "a"));
    assert!(name_precedes_or_equals("a", "ab"));
    assert!(!name_precedes_or_equals("ab", "a"));
    assert!(name_precedes_or_equals("", "a"));
    assert!(name_precedes_or_equals("B", "a"));
    assert!(name_precedes_or_equals("z", "\u{e9}"));
    assert!(!name_precedes_or_equals("\u{1f600}", "\u{e9}"));
}

#[test]
fn name_order_agrees_with_the_order_of_strings() {
    let names = ["", "a", "A", "ab", "b", "left-pad", "psr/log", "z\u{e9}", "\u{e9}", "\u{1f600}x"];
    for a in names.iter() {
        for b in names.iter() {
            assert_eq!(name_precedes_or_equals(a, b), a <= b);
        }
    }
}

#[test]
fn a_version_is_read_into_its_parts() {
    let version = Version::parse("1.2.3-alpha.1+build.5").unwrap();
    assert_eq!(version.major(), 1);
    assert_eq!(version.minor(), 2);
    assert_eq!(version.patch(), 3);
    assert_eq!(version.pre(), "alpha.1");
    assert_eq!(version.build(), "build.5");
    assert_eq!(version.as_str(), "1.2.3-alpha.1+build.5");
    assert!(!version.is_stable());
}

#[test]
fn a_stable_version_has_no_tag() {
    let version = Version::parse("10.20.30").unwrap();
    assert_eq!((version.major(), version.minor(), version.patch()), (10, 20, 30));
    assert_eq!(version.pre(), "");
    assert_eq!(version.build(), "");
    assert!(version.is_stable());
    let copy = version.clone();
    assert_eq!(copy.as_str(), "10.20.30");
    assert_eq!(copy.patch(), 30);
}

#[test]
fn what_is_no_version_is_refused() {
    assert!(Version::parse("").is_none());
    assert!(Version::parse("1.2").is_none());
    assert!(Version::parse("v1.2.3").is_none());
    assert!(Version::parse("1.2.3 ").is_none());
    assert!(Version::parse("01.2.3").is_none());
    assert!(Version::parse("1.2.3-").is_none());
}

#[test]
fn versions_are_ordered_by_their_numbers_first() {
    let parse = |text: &str| Version::parse(text).unwrap();
    assert!(parse("2.0.0").exceeds(&parse("1.2.3")));
    assert!(parse("1.3.0").exceeds(&parse("1.2.3")));
    assert!(parse("1.2.4").exceeds(&parse("1.2.3")));
    assert!(parse("1.10.0").exceeds(&parse("1.9.0")));
    assert!(!parse("1.2.3").exceeds(&parse("1.2.3")));
    assert!(!parse("1.9.9").exceeds(&parse("2.0.0")));
    assert!(parse("2.0.0-alpha").exceeds(&parse("1.9.9")));
}

#[test]
fn versions_of_equal_numbers_are_ordered_by_tag_and_build() {
    let parse = |text: &str| Version::parse(text).unwrap();
    assert!(parse("1.2.3").exceeds(&parse("1.2.3-rc.1")));
    assert!(!parse("1.2.3-rc.1").exceeds(&parse("1.2.3")));
    assert!(parse("1.2.3-beta").exceeds(&parse("1.2.3-alpha")));
    assert!(parse("1.2.3-alpha.10").exceeds(&parse("1.2.3-alpha.9")));
    assert!(parse("1.2.3+b").exceeds(&parse("1.2.3+a")));
    assert!(!parse("1.2.3+a").exceeds(&parse("1.2.3+b")));
    assert!(parse("1.2.3+10").exceeds(&parse("1.2.3+9")));
    assert!(parse("1.2.3+a").exceeds(&parse("1.2.3")));
}

#[test]
fn a_range_is_shown_as_it_was_understood() {
    assert_eq!(VersionReq::parse("1.0").unwrap().as_str(), "^1.0");
    assert_eq!(VersionReq::parse("1.0").unwrap().source(), "1.0");
    assert_eq!(VersionReq::parse(" >=1.2.3 ,  <2").unwrap().as_str(), ">=1.2.3, <2");
    assert_eq!(VersionReq::parse("*").unwrap().as_str(), "*");
    assert_eq!(VersionReq::parse("~1.2").unwrap().as_str(), "~1.2");
    assert_eq!(VersionReq::parse("1.*").unwrap().as_str(), "1.*");
    let copy = VersionReq::parse("^1.0").unwrap().clone();
    assert_eq!(copy.as_str(), "^1.0");
    assert_eq!(copy.source(), "^1.0");
}

#[test]
fn what_is_no_range_is_refused() {
    assert!(VersionReq::parse("").is_none());
    assert!(VersionReq::parse("dev-master").is_none());
    assert!(VersionReq::parse("v1.0").is_none());
    assert!(VersionReq::parse("^v1.0").is_none());
    assert!(VersionReq::parse("1.0 || 2.0").is_none());
}

#[test]
fn a_declared_range_may_begin_with_one_v() {
    let with = VersionReq::parse_declared("v1.2.3").unwrap();
    let without = VersionReq::parse_declared("1.2.3").unwrap();
    assert_eq!(with.as_str(), without.as_str());
    assert_eq!(with.source(), without.source());
    assert_eq!(with.as_str(), "^1.2.3");
    assert_eq!(with.source(), "1.2.3");
    assert!(VersionReq::parse_declared("vv1.2.3").is_none());
    let version = Version::parse("1.4.0").unwrap();
    assert_eq!(with.matches(&version), without.matches(&version));
}

#[test]
fn a_declared_range_may_have_one_v_behind_its_operator() {
    let with = VersionReq::parse_declared("^v1.0").unwrap();
    let without = VersionReq::parse("^1.0").unwrap();
    assert_eq!(with.as_str(), "^1.0");
    assert_eq!(with.as_str(), without.as_str());
    assert_eq!(with.source(), without.source());
    assert!(with.matches(&Version::parse("1.4.0").unwrap()));
    assert!(!with.matches(&Version::parse("2.0.0").unwrap()));
    assert_eq!(VersionReq::parse_declared(">= v1.2.3").unwrap().as_str(), ">=1.2.3");
    assert_eq!(VersionReq::parse_declared("~v0.4").unwrap().as_str(), "~0.4");
    assert_eq!(VersionReq::parse_declared(">=v1, <2").unwrap().as_str(), ">=1, <2");
    assert!(VersionReq::parse_declared("^vv1.0").is_none());
    assert!(VersionReq::parse_declared(">=1, <v2").is_none());
    assert!(VersionReq::parse_declared(" v1.0").is_none());
}

#[test]
fn a_range_admits_the_versions_within_it() {
    let range = VersionReq::parse("^1.0").unwrap();
    assert!(range.matches(&Version::parse("1.0.0").unwrap()));
    assert!(range.matches(&Version::parse("1.1.0").unwrap()));
    assert!(!range.matches(&Version::parse("2.0.0").unwrap()));
    assert!(!range.matches(&Version::parse("0.9.9").unwrap()));
    assert!(!range.matches(&Version::parse("1.1.0-beta").unwrap()));
    let short = VersionReq::parse("1.0").unwrap();
    assert!(short.matches(&Version::parse("1.0.100").unwrap()));
    let any = VersionReq::parse("*").unwrap();
    assert!(any.matches(&Version::parse("7.8.9").unwrap()));
    let bounded = VersionReq::parse(">=1.2.3, <1.8").unwrap();
    assert!(bounded.matches(&Version::parse("1.7.9").unwrap()));
    assert!(!bounded.matches(&Version::parse("1.8.0").unwrap()));
}

#[test]
fn the_highest_stable_version_is_chosen() {
    let best = highest_stable_version(&listed_texts(&["1.0.0", "1.1.0", "2.0.0-beta"])).unwrap();
    assert_eq!(best.as_str(), "1.1.0");
    let best = highest_stable_version(&listed_texts(&["1.9.0", "1.10.0", "1.2.0"])).unwrap();
    assert_eq!(best.as_str(), "1.10.0");
    let best = highest_stable_version(&listed_texts(&["3.0.0", "1.0.0", "2.0.0"])).unwrap();
    assert_eq!(best.as_str(), "3.0.0");
}

#[test]
fn pre_releases_never_count() {
    let best = highest_stable_version(&listed_texts(&["1.0.0", "9.9.9-rc.1", "9.9.9-alpha"])).unwrap();
    assert_eq!(best.as_str(), "1.0.0");
    assert!(best.is_stable());
    assert!(highest_stable_version(&listed_texts(&["2.0.0-beta", "3.0.0-rc.1"])).is_none());
}

#[test]
fn entries_that_are_no_version_do_not_count() {
    let best = highest_stable_version(&listed_texts(&["dev-master", "1.2.3", "1.x-dev", ""])).unwrap();
    assert_eq!(best.as_str(), "1.2.3");
    assert!(highest_stable_version(&listed_texts(&["dev-master", "latest"])).is_none());
    assert!(highest_stable_version(&listed_texts(&[])).is_none());
}

#[test]
fn listed_versions_may_begin_with_v() {
    let best = highest_stable_version(&listed_texts(&["v1.2.0", "1.1.0", "vv1.3.0"])).unwrap();
    assert_eq!(best.as_str(), "1.3.0");
    assert_eq!(best.minor(), 3);
}

#[test]
fn of_equal_release_numbers_the_build_metadata_decides() {
    let best = highest_stable_version(&listed_texts(&["1.0.0+a", "1.0.0+b"])).unwrap();
    assert_eq!(best.as_str(), "1.0.0+b");
    let best = highest_stable_version(&listed_texts(&["1.0.0+b", "1.0.0+a", "0.9.0"])).unwrap();
    assert_eq!(best.as_str(), "1.0.0+b");
    let best = highest_stable_version(&listed_texts(&["1.0.0+9", "1.0.0", "1.0.0+10"])).unwrap();
    assert_eq!(best.as_str(), "1.0.0+10");
}

#[test]
fn a_stable_version_is_kept_as_it_stands() {
    assert_eq!(parse_stable("1.0.100").unwrap().as_str(), "1.0.100");
    assert!(parse_stable("1.0.100-beta").is_none());
    assert!(parse_stable("v1.0.100").is_none());
    assert!(parse_stable("newest").is_none());
}
