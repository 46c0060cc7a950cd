use dependency_checker::classify::{
    filter_dependencies, find_version, get_published_versions, insert_sorted,
};
use dependency_checker::dependency::cargo::{DeclaredDependency, DeclaredRequirement, ManifestRead};
use dependency_checker::dependency::{
    CargoDependency, ComposerDependency, Dependency, NpmDependency,
};
use dependency_checker::json::Json;
use dependency_checker::report::{check, out};
use dependency_checker::version::Version;

fn version(text: &str) -> Version {
    Version::parse(text).unwrap()
}

fn listed<'a, Dep: Dependency>(side: &'a Vec<(&Dep, Version)>) -> Vec<(&'a str, &'a str)> {
    side.iter().map(|(d, v)| (d.name(), v.as_str())).collect()
}

#[test]
fn packagist_answers_with_its_highest_stable_version() {
    let records = ComposerDependency::to_check(r#"{"require": {"psr/log": "^1.0"}}"#).unwrap().0;
    let record = &records[0];
    assert_eq!(
        record.registry_url().unwrap(),
        "https://packagist.org/packages/psr/log.json"
    );
    assert_eq!(record.packagist_url(), "https://packagist.org/packages/psr/log.json");
    let answer = r#"{"package": {"name": "psr/log", "versions": {
        "1.0.0": {}, "1.1.0": {}, "2.0.0-beta": {}, "dev-master": {}, "v1.0.2": {}}}}"#;
    assert_eq!(record.registry_version(Some(answer)).unwrap().as_str(), "1.1.0");
    let document = Json::parse(answer).unwrap();
    assert_eq!(record.packagist_version_from_json(&document).unwrap().as_str(), "1.1.0");
}

#[test]
fn an_answer_without_versions_gives_none() {
    let records = ComposerDependency::to_check(r#"{"require": {"psr/log": "^1.0"}}"#).unwrap().0;
    let record = &records[0];
    assert!(record.registry_version(None).is_none());
    assert!(record.registry_version(Some("<html>502</html>")).is_none());
    assert!(record.registry_version(Some("{}")).is_none());
    assert!(record.registry_version(Some(r#"{"package": {"versions": []}}"#)).is_none());
    assert!(record.registry_version(Some(r#"{"package": {"versions": {}}}"#)).is_none());
    assert!(record.registry_version(Some(r#"{"versions": {"1.0.0": {}}}"#)).is_none());
    assert!(record
        .registry_version(Some(r#"{"package": {"versions": {"1.0.0-rc1": {}}}}"#))
        .is_none());
}

#[test]
fn npm_answers_with_its_highest_stable_version() {
    let records =
        NpmDependency::to_check(r#"{"devDependencies": {"left-pad": "^1.0.0"}}"#).unwrap().0;
    let record = &records[0];
    assert_eq!(record.registry_url().unwrap(), "https://registry.npmjs.org/left-pad");
    assert_eq!(record.npm_url(), "https://registry.npmjs.org/left-pad");
    let answer = r#"{"name": "left-pad", "versions": {
        "1.0.0": {}, "1.3.0": {}, "2.0.0": {}, "3.0.0-alpha.1": {}}}"#;
    assert_eq!(record.registry_version(Some(answer)).unwrap().as_str(), "2.0.0");
    let document = Json::parse(answer).unwrap();
    assert_eq!(record.npm_version_from_json(&document).unwrap().as_str(), "2.0.0");
    assert!(record.registry_version(Some(r#"{"error": "not found"}"#)).is_none());
    assert!(record.registry_version(None).is_none());
}

fn serde_record() -> Vec<CargoDependency> {
    let read = ManifestRead::Real(vec![DeclaredDependency {
        name: "serde".to_string(),
        requirement: DeclaredRequirement::Req("1.0".to_string()),
    }]);
    CargoDependency::to_check(&read).unwrap().0
}

#[test]
fn crates_io_answers_with_its_highest_stable_version() {
    let records = serde_record();
    let record = &records[0];
    assert_eq!(record.registry_url().unwrap(), "https://crates.io/api/v1/crates/serde");
    assert_eq!(record.cargo_url(), "https://crates.io/api/v1/crates/serde");
    let answer = r#"{"crate": {"id": "serde", "max_stable_version": "1.0.100", "max_version": "2.0.0-rc"}}"#;
    assert_eq!(record.registry_version(Some(answer)).unwrap().as_str(), "1.0.100");
    let document = Json::parse(answer).unwrap();
    assert_eq!(record.crates_io_version_from_json(&document).unwrap().as_str(), "1.0.100");
    assert!(record
        .registry_version(Some(r#"{"crate": {"max_stable_version": "1.0.100-beta"}}"#))
        .is_none());
    assert!(record
        .registry_version(Some(r#"{"crate": {"max_stable_version": null}}"#))
        .is_none());
    assert!(record.registry_version(Some(r#"{"errors": []}"#)).is_none());
    assert!(record.registry_version(None).is_none());
}

#[test]
fn a_composer_dependency_within_its_range_is_up_to_date() {
    let records = ComposerDependency::to_check(r#"{"require": {"psr/log": "^1.0"}}"#).unwrap().0;
    let answer = r#"{"package": {"versions": {"1.0.0": {}, "1.1.0": {}, "2.0.0-beta": {}}}}"#;
    let found = records[0].registry_version(Some(answer));
    let lookups = vec![(records[0].name(), found)];
    assert_eq!(check(&records, &lookups), "psr/log: 1.1.0 matches ^1.0\n");
}

#[test]
fn an_npm_dependency_outside_its_range_is_outdated() {
    let records =
        NpmDependency::to_check(r#"{"devDependencies": {"left-pad": "^1.0.0"}}"#).unwrap().0;
    let answer = r#"{"versions": {"1.0.0": {}, "2.0.0": {}}}"#;
    let found = records[0].registry_version(Some(answer));
    let lookups = vec![(records[0].name(), found)];
    assert_eq!(check(&records, &lookups), "\nleft-pad: 2.0.0 doesn't match ^1.0.0\n");
}

#[test]
fn a_cargo_dependency_within_its_range_is_up_to_date() {
    let records = serde_record();
    let answer = r#"{"crate": {"max_stable_version": "1.0.100"}}"#;
    let found = records[0].registry_version(Some(answer));
    let lookups = vec![(records[0].name(), found)];
    assert_eq!(check(&records, &lookups), "serde: 1.0.100 matches ^1.0\n");
}

#[test]
fn a_failed_lookup_leaves_its_dependency_out() {
    let records = ComposerDependency::to_check(
        r#"{"require": {"a/a": "^1.0", "b/b": "^1.0", "c/c": "^1.0"}}"#,
    )
    .unwrap().0;
    let lookups = vec![
        ("a/a", Some(version("1.5.0"))),
        ("b/b", None),
        ("c/c", Some(version("3.0.0"))),
    ];
    let published = get_published_versions(&lookups);
    assert_eq!(published.len(), 2);
    assert_eq!(published[0].0, "a/a");
    assert_eq!(published[0].1.as_str(), "1.5.0");
    assert_eq!(published[1].0, "c/c");
    assert_eq!(published[1].1.as_str(), "3.0.0");
    let (outdated, up_to_date) = filter_dependencies(&records, &published);
    assert_eq!(listed(&outdated), vec![("c/c", "3.0.0")]);
    assert_eq!(listed(&up_to_date), vec![("a/a", "1.5.0")]);
    assert_eq!(
        check(&records, &lookups),
        "a/a: 1.5.0 matches ^1.0\n\nc/c: 3.0.0 doesn't match ^1.0\n"
    );
}

#[test]
fn nothing_found_gives_an_empty_report() {
    let records = ComposerDependency::to_check(r#"{"require": {"a/a": "^1.0"}}"#).unwrap().0;
    assert_eq!(check(&records, &vec![("a/a", None)]), "");
    assert_eq!(check(&records, &vec![]), "");
    let none: Vec<ComposerDependency> = Vec::new();
    assert_eq!(check(&none, &vec![("a/a", Some(version("1.0.0")))]), "");
    assert!(get_published_versions(&vec![]).is_empty());
}

#[test]
fn every_dependency_with_a_version_is_on_exactly_one_side() {
    let records = NpmDependency::to_check(
        r#"{"dependencies": {"d": "^1.0", "b": "~2.1", "a": "*", "c": ">=3", "e": "1.0.0"}}"#,
    )
    .unwrap().0;
    let lookups = vec![
        ("a", Some(version("0.0.1"))),
        ("b", Some(version("2.2.0"))),
        ("c", Some(version("3.0.0"))),
        ("d", Some(version("1.9.9"))),
        ("e", None),
    ];
    let published = get_published_versions(&lookups);
    let (outdated, up_to_date) = filter_dependencies(&records, &published);
    assert_eq!(listed(&outdated), vec![("b", "2.2.0")]);
    assert_eq!(listed(&up_to_date), vec![("a", "0.0.1"), ("c", "3.0.0"), ("d", "1.9.9")]);
    for record in records.iter() {
        let found = find_version(&published, record.name());
        let on_outdated = outdated.iter().filter(|(d, _)| d.name() == record.name()).count();
        let on_up_to_date = up_to_date.iter().filter(|(d, _)| d.name() == record.name()).count();
        match found {
            Some(v) => {
                let admitted = record.version_req().matches(v);
                assert_eq!(on_up_to_date, if admitted { 1 } else { 0 });
                assert_eq!(on_outdated, if admitted { 0 } else { 1 });
            }
            None => assert_eq!(on_outdated + on_up_to_date, 0),
        }
    }
}

#[test]
fn both_sides_ascend_by_name() {
    let read = ManifestRead::Real(
        ["zeta", "alpha", "Mid", "beta", "alphabet", "omega", "b"]
            .iter()
            .map(|name| DeclaredDependency {
                name: name.to_string(),
                requirement: DeclaredRequirement::Req(
                    if name.len() % 2 == 0 { "^1" } else { "^2" }.to_string(),
                ),
            })
            .collect(),
    );
    let records = CargoDependency::to_check(&read).unwrap().0;
    let lookups: Vec<(&str, Option<Version>)> =
        records.iter().map(|d| (d.name(), Some(version("1.5.0")))).collect();
    let published = get_published_versions(&lookups);
    let (outdated, up_to_date) = filter_dependencies(&records, &published);
    assert_eq!(
        listed(&up_to_date).iter().map(|p| p.0).collect::<Vec<_>>(),
        vec!["alphabet", "beta", "zeta"]
    );
    assert_eq!(
        listed(&outdated).iter().map(|p| p.0).collect::<Vec<_>>(),
        vec!["Mid", "alpha", "b", "omega"]
    );
}

#[test]
fn dependencies_of_one_name_keep_their_order() {
    let records = ComposerDependency::to_check(
        r#"{"require": {"b/b": "^1.0", "a/a": "^1.2"}, "require-dev": {"a/a": "^1.0", "b/b": "^1.4"}}"#,
    )
    .unwrap().0;
    let lookups = vec![("a/a", Some(version("1.5.0"))), ("b/b", Some(version("1.5.0")))];
    let published = get_published_versions(&lookups);
    let (outdated, up_to_date) = filter_dependencies(&records, &published);
    assert!(outdated.is_empty());
    let shown: Vec<(&str, &str)> =
        up_to_date.iter().map(|(d, _)| (d.name(), d.version_req().as_str())).collect();
    assert_eq!(shown, vec![("a/a", "^1.2"), ("a/a", "^1.0"), ("b/b", "^1.0"), ("b/b", "^1.4")]);
}

#[test]
fn the_first_version_found_for_a_name_counts() {
    let published = vec![("a", version("1.0.0")), ("b", version("2.0.0")), ("a", version("3.0.0"))];
    assert_eq!(find_version(&published, "a").unwrap().as_str(), "1.0.0");
    assert_eq!(find_version(&published, "b").unwrap().as_str(), "2.0.0");
    assert!(find_version(&published, "c").is_none());
    assert!(find_version(&vec![], "a").is_none());
}

#[test]
fn a_pair_is_put_behind_the_names_that_do_not_come_after_it() {
    let records = NpmDependency::to_check(
        r#"{"dependencies": {"a": "1", "b": "2", "c": "3"}, "devDependencies": {"b": "4"}}"#,
    )
    .unwrap().0;
    let mut side: Vec<(&NpmDependency, Version)> = Vec::new();
    insert_sorted(&mut side, (&records[2], version("1.0.0")));
    insert_sorted(&mut side, (&records[1], version("1.0.0")));
    insert_sorted(&mut side, (&records[3], version("1.0.0")));
    insert_sorted(&mut side, (&records[0], version("1.0.0")));
    let shown: Vec<(&str, &str)> =
        side.iter().map(|(d, _)| (d.name(), d.version_req().as_str())).collect();
    assert_eq!(shown, vec![("a", "^1"), ("b", "^2"), ("b", "^4"), ("c", "^3")]);
}

#[test]
fn the_report_lists_up_to_date_first_and_outdated_behind_an_empty_line() {
    let records = NpmDependency::to_check(
        r#"{"dependencies": {"a": "1.0", "b": "v2.0", "c": ">=1, <2", "d": "*"}}"#,
    )
    .unwrap().0;
    let published = vec![
        ("a", version("1.4.2")),
        ("b", version("3.0.0")),
        ("c", version("2.0.0+build.7")),
        ("d", version("0.1.0")),
    ];
    let (outdated, up_to_date) = filter_dependencies(&records, &published);
    assert_eq!(
        out(&outdated, &up_to_date),
        "a: 1.4.2 matches ^1.0\nd: 0.1.0 matches *\n\nb: 3.0.0 doesn't match ^2.0\nc: 2.0.0+build.7 doesn't match >=1, <2\n"
    );
    let nothing: Vec<(&NpmDependency, Version)> = Vec::new();
    assert_eq!(out(&nothing, &up_to_date), "a: 1.4.2 matches ^1.0\nd: 0.1.0 matches *\n");
    assert_eq!(
        out(&outdated, &nothing),
        "\nb: 3.0.0 doesn't match ^2.0\nc: 2.0.0+build.7 doesn't match >=1, <2\n"
    );
    assert_eq!(out(&nothing, &nothing), "");
}
