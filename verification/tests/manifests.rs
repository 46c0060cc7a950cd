use dependency_checker::dependency::cargo::{
    get_config_source_id, DeclaredDependency, DeclaredRequirement, ManifestRead,
};
use dependency_checker::dependency::puppet::{DeclaredModule, Puppetfile};
use dependency_checker::dependency::{
    BowerDependency, CargoDependency, ComposerDependency, Dependency, FatalError, Ignored,
    NpmDependency, PuppetDependency,
};
use dependency_checker::json::Json;
use dependency_checker::report::{ecosystem_of, Ecosystem};
use dependency_checker::version::VersionReq;

fn names_of<Dep: Dependency>(records: &Vec<Dep>) -> Vec<String> {
    records.iter().map(|d| d.name().to_string()).collect()
}

fn ranges_of<Dep: Dependency>(records: &Vec<Dep>) -> Vec<String> {
    records.iter().map(|d| d.version_req().as_str().to_string()).collect()
}

#[test]
fn a_document_is_read_into_a_tree() {
    let document = Json::parse(r#"{"b": [1, "two", null, true], "a": {"c": "d"}, "n": -1.5e3}"#);
    let document = document.unwrap();
    assert_eq!(document.object_keys().unwrap(), vec!["a", "b", "n"]);
    assert_eq!(document.get("a").unwrap().get("c").unwrap().as_str(), Some("d"));
    assert!(document.get("a").unwrap().get("x").is_none());
    assert!(document.get("missing").is_none());
    assert!(document.get("b").unwrap().get("c").is_none());
    assert!(document.get("b").unwrap().as_object().is_none());
    assert!(document.get("b").unwrap().as_str().is_none());
    assert!(matches!(document.get("n"), Some(Json::Number(_))));
    match document.get("b").unwrap() {
        Json::Array(items) => {
            assert_eq!(items.len(), 4);
            assert!(matches!(&items[0], Json::Number(n) if n == "1"));
            assert!(matches!(&items[1], Json::Text(t) if t == "two"));
            assert!(matches!(&items[2], Json::Null));
            assert!(matches!(&items[3], Json::Bool(true)));
        }
        _ => panic!("an array was expected"),
    }
    assert_eq!(document.get("a").unwrap().as_object().unwrap().len(), 1);
}

#[test]
fn what_is_no_document_is_refused_with_a_message() {
    let message = Json::parse("{\"require\": ").unwrap_err();
    assert!(message.contains("line 1"));
    assert!(Json::parse("").is_err());
    assert!(Json::parse("{} trailing").is_err());
    assert!(Json::parse("\"text\"").unwrap().as_str() == Some("text"));
}

#[test]
fn a_value_can_be_written_by_hand() {
    let document = Json::Object(vec![
        ("versions".to_string(), Json::Object(vec![("1.0.0".to_string(), Json::Null)])),
        ("name".to_string(), Json::Text("left-pad".to_string())),
    ]);
    assert_eq!(document.get("name").unwrap().as_str(), Some("left-pad"));
    assert_eq!(document.get("versions").unwrap().object_keys().unwrap(), vec!["1.0.0"]);
    assert!(Json::Null.object_keys().is_none());
    assert!(Json::Bool(false).get("x").is_none());
}

#[test]
fn composer_dependencies_come_from_both_sections() {
    let manifest = r#"{
        "name": "acme/shop",
        "require": {"psr/log": "^1.0", "monolog/monolog": "v2.3.0"},
        "require-dev": {"phpunit/phpunit": "~9.5"}
    }"#;
    let records = ComposerDependency::to_check(manifest).unwrap().0;
    assert_eq!(names_of(&records), vec!["monolog/monolog", "psr/log", "phpunit/phpunit"]);
    assert_eq!(ranges_of(&records), vec!["^2.3.0", "^1.0", "~9.5"]);
}

#[test]
fn composer_leaves_the_platform_out() {
    let manifest = r#"{
        "require": {"php": ">=7.4", "ext-json": "*", "ext-": "*", "psr/log": "^1.0", "phpx/y": "1.0", "next-gen/x": "1.0"},
        "require-dev": {"ext-xdebug": "*", "php": "^8.0"}
    }"#;
    let records = ComposerDependency::to_check(manifest).unwrap().0;
    assert_eq!(names_of(&records), vec!["next-gen/x", "phpx/y", "psr/log"]);
    for record in records.iter() {
        assert_ne!(record.name(), "php");
        assert!(!record.name().starts_with("ext-"));
    }
}

#[test]
fn composer_leaves_out_what_it_cannot_read() {
    let manifest = r#"{
        "require": {"a/a": "dev-master", "b/b": 7, "c/c": "1.0", "d/d": "^1.0 || ^2.0", "e/e": null},
        "require-dev": "none"
    }"#;
    let records = ComposerDependency::to_check(manifest).unwrap().0;
    assert_eq!(names_of(&records), vec!["c/c"]);
    assert!(ComposerDependency::to_check("[1, 2]").unwrap().0.is_empty());
    assert!(ComposerDependency::to_check("{}").unwrap().0.is_empty());
}

#[test]
fn composer_keeps_a_name_of_both_sections_twice() {
    let manifest = r#"{"require": {"a/a": "^1.0"}, "require-dev": {"a/a": "^2.0"}}"#;
    let records = ComposerDependency::to_check(manifest).unwrap().0;
    assert_eq!(names_of(&records), vec!["a/a", "a/a"]);
    assert_eq!(ranges_of(&records), vec!["^1.0", "^2.0"]);
}

#[test]
fn a_malformed_manifest_is_fatal() {
    let error = ComposerDependency::to_check("{\"require\": {").unwrap_err();
    assert!(matches!(error, FatalError::MalformedManifest(ref m) if m.contains("EOF")));
    assert!(matches!(
        NpmDependency::to_check("not json"),
        Err(FatalError::MalformedManifest(_))
    ));
    assert!(matches!(BowerDependency::to_check(""), Err(FatalError::MalformedManifest(_))));
    let second = ComposerDependency::to_check(r#"{"require": {"psr/log": "^1.0"}}"#).unwrap().0;
    assert_eq!(names_of(&second), vec!["psr/log"]);
}

#[test]
fn npm_dependencies_come_from_both_sections() {
    let manifest = r#"{
        "name": "app",
        "dependencies": {"left-pad": "^1.0.0", "express": "v4.17.1"},
        "devDependencies": {"mocha": "~8.0", "broken": "latest"}
    }"#;
    let records = NpmDependency::to_check(manifest).unwrap().0;
    assert_eq!(names_of(&records), vec!["express", "left-pad", "mocha"]);
    assert_eq!(ranges_of(&records), vec!["^4.17.1", "^1.0.0", "~8.0"]);
}

#[test]
fn npm_sections_may_be_missing_or_null() {
    assert!(NpmDependency::to_check("{}").unwrap().0.is_empty());
    let records = NpmDependency::to_check(
        r#"{"dependencies": null, "devDependencies": {"left-pad": "^1.0.0"}}"#,
    )
    .unwrap().0;
    assert_eq!(names_of(&records), vec!["left-pad"]);
    assert_eq!(records[0].version_req().source(), "^1.0.0");
}

#[test]
fn npm_refuses_sections_of_another_shape() {
    let expected =
        "package.json: dependencies and devDependencies must map names to version ranges";
    for manifest in [
        r#"{"dependencies": {"left-pad": 1}}"#,
        r#"{"dependencies": ["left-pad"]}"#,
        r#"{"devDependencies": "left-pad"}"#,
        r#"{"dependencies": {"a": "1.0"}, "devDependencies": {"b": null}}"#,
        r#"["dependencies"]"#,
        "null",
    ] {
        match NpmDependency::to_check(manifest) {
            Err(FatalError::MalformedManifest(message)) => assert_eq!(message, expected),
            _ => panic!("the manifest should have been refused"),
        }
    }
}

#[test]
fn bower_reads_like_npm_and_asks_no_registry() {
    let records = BowerDependency::to_check(
        r#"{"dependencies": {"jquery": "v3.6.0"}, "devDependencies": {"qunit": "~2.0"}}"#,
    )
    .unwrap().0;
    assert_eq!(names_of(&records), vec!["jquery", "qunit"]);
    assert_eq!(ranges_of(&records), vec!["^3.6.0", "~2.0"]);
    assert!(records[0].registry_url().is_none());
    assert!(records[0].registry_version(Some(r#"{"versions": {"3.6.0": {}}}"#)).is_none());
    match BowerDependency::to_check(r#"{"dependencies": 3}"#) {
        Err(FatalError::MalformedManifest(message)) => assert_eq!(
            message,
            "bower.json: dependencies and devDependencies must map names to version ranges"
        ),
        _ => panic!("the manifest should have been refused"),
    }
}

fn declared_as(name: &str, requirement: DeclaredRequirement) -> DeclaredDependency {
    DeclaredDependency { name: name.to_string(), requirement }
}

#[test]
fn cargo_records_are_made_of_what_was_read() {
    let read = ManifestRead::Real(vec![
        declared_as("serde", DeclaredRequirement::Req("1.0".to_string())),
        declared_as("libc", DeclaredRequirement::Any),
        declared_as("rand", DeclaredRequirement::Locked("0.8.5".to_string(), "^0.8".to_string())),
        declared_as("odd", DeclaredRequirement::Req("not a range".to_string())),
        declared_as("tagged", DeclaredRequirement::Req("v1.0".to_string())),
    ]);
    let records = CargoDependency::to_check(&read).unwrap().0;
    assert_eq!(names_of(&records), vec!["serde", "libc", "rand"]);
    assert_eq!(ranges_of(&records), vec!["^1.0", "*", "^0.8"]);
}

#[test]
fn a_virtual_cargo_manifest_has_no_records() {
    assert!(CargoDependency::to_check(&ManifestRead::Virtual).unwrap().0.is_empty());
    assert!(CargoDependency::to_check(&ManifestRead::Real(vec![])).unwrap().0.is_empty());
}

#[test]
fn a_cargo_manifest_that_was_not_read_is_fatal() {
    let read = ManifestRead::Failed("failed to parse manifest".to_string());
    match CargoDependency::to_check(&read) {
        Err(FatalError::MalformedManifest(message)) => {
            assert_eq!(message, "failed to parse manifest")
        }
        _ => panic!("the manifest should have been refused"),
    }
}

#[test]
fn configuration_and_source_are_paired() {
    let both: Result<(u8, &str), String> = get_config_source_id(Ok(1), Ok("crates-io"));
    assert_eq!(both, Ok((1, "crates-io")));
    let no_source: Result<(u8, &str), String> =
        get_config_source_id(Ok(1), Err("no source".to_string()));
    assert_eq!(no_source, Err("no source".to_string()));
    let no_config: Result<(u8, &str), String> =
        get_config_source_id(Err("no home".to_string()), Ok("crates-io"));
    assert_eq!(no_config, Err("no home".to_string()));
    let neither: Result<(u8, &str), String> =
        get_config_source_id(Err("no home".to_string()), Err("no source".to_string()));
    assert_eq!(neither, Err("no home".to_string()));
}

#[test]
fn puppet_records_are_the_modules_with_a_range() {
    let file = Puppetfile {
        forge: "https://forge.puppetlabs.com".to_string(),
        modules: vec![
            DeclaredModule { name: "puppetlabs/stdlib".to_string(), version: Some("4.1.0".to_string()) },
            DeclaredModule { name: "local/thing".to_string(), version: None },
            DeclaredModule { name: "puppetlabs/apt".to_string(), version: Some(">= 1.0.0".to_string()) },
            DeclaredModule { name: "odd/range".to_string(), version: Some("newest".to_string()) },
        ],
    };
    let records = PuppetDependency::to_check(&Ok(file)).unwrap().0;
    assert_eq!(names_of(&records), vec!["puppetlabs/stdlib", "puppetlabs/apt"]);
    assert_eq!(ranges_of(&records), vec!["^4.1.0", ">=1.0.0"]);
    assert_eq!(records[1].forge_url(), "https://forge.puppetlabs.com");
    assert!(records[0].registry_url().is_none());
    assert_eq!(records[0].registry_version(Some("4.2.0")).unwrap().as_str(), "4.2.0");
    assert!(records[0].registry_version(Some("4.2.0-rc1")).is_none());
    assert!(records[0].registry_version(None).is_none());
    match PuppetDependency::to_check(&Err("line 3: unexpected token".to_string())) {
        Err(FatalError::MalformedManifest(message)) => {
            assert_eq!(message, "line 3: unexpected token")
        }
        _ => panic!("the file should have been refused"),
    }
}

#[test]
fn the_file_name_decides_the_ecosystem() {
    assert_eq!(ecosystem_of("Cargo.toml").unwrap(), Ecosystem::Cargo);
    assert_eq!(ecosystem_of("composer.json").unwrap(), Ecosystem::Composer);
    assert_eq!(ecosystem_of("package.json").unwrap(), Ecosystem::Npm);
    for name in ["cargo.toml", "Cargo.lock", "Puppetfile", "bower.json", "", "package.json ", "x/package.json"] {
        assert!(matches!(ecosystem_of(name), Err(FatalError::UnrecognizedFileType)));
    }
}

fn ignored_pairs(ignored: &Vec<Ignored>) -> Vec<(&str, &str)> {
    ignored.iter().map(|i| (i.name.as_str(), i.range.as_str())).collect()
}

#[test]
fn composer_hands_back_what_it_could_not_read() {
    let manifest = r#"{
        "require": {"a/a": "dev-master", "b/b": 7, "c/c": "1.0", "php": "latest", "ext-x": "*"},
        "require-dev": {"d/d": "^1.0 || ^2.0", "e/e": "vv1.0", "f/f": "v1.0"}
    }"#;
    let (records, ignored) = ComposerDependency::to_check(manifest).unwrap();
    assert_eq!(names_of(&records), vec!["c/c", "f/f"]);
    assert_eq!(
        ignored_pairs(&ignored),
        vec![("a/a", "dev-master"), ("php", "latest"), ("d/d", "^1.0 || ^2.0"), ("e/e", "vv1.0")]
    );
    let (_, none) = ComposerDependency::to_check(r#"{"require": {"c/c": "1.0"}}"#).unwrap();
    assert!(none.is_empty());
}

#[test]
fn npm_and_bower_hand_back_what_they_could_not_read() {
    let manifest = r#"{"dependencies": {"a": "latest", "b": "1.x"}, "devDependencies": {"c": "git://x"}}"#;
    let (records, ignored) = NpmDependency::to_check(manifest).unwrap();
    assert_eq!(names_of(&records), vec!["b"]);
    assert_eq!(ignored_pairs(&ignored), vec![("a", "latest"), ("c", "git://x")]);
    let (records, ignored) = BowerDependency::to_check(manifest).unwrap();
    assert_eq!(names_of(&records), vec!["b"]);
    assert_eq!(ignored_pairs(&ignored), vec![("a", "latest"), ("c", "git://x")]);
}

#[test]
fn cargo_and_puppet_hand_back_what_they_could_not_read() {
    let read = ManifestRead::Real(vec![
        declared_as("odd", DeclaredRequirement::Req("not a range".to_string())),
        declared_as("serde", DeclaredRequirement::Req("1.0".to_string())),
        declared_as("pinned", DeclaredRequirement::Locked("1.0.0".to_string(), "v1".to_string())),
    ]);
    let (records, ignored) = CargoDependency::to_check(&read).unwrap();
    assert_eq!(names_of(&records), vec!["serde"]);
    assert_eq!(ignored_pairs(&ignored), vec![("odd", "not a range"), ("pinned", "v1")]);
    let file = Puppetfile {
        forge: "https://forge.puppetlabs.com".to_string(),
        modules: vec![
            DeclaredModule { name: "a/a".to_string(), version: Some("newest".to_string()) },
            DeclaredModule { name: "b/b".to_string(), version: None },
            DeclaredModule { name: "c/c".to_string(), version: Some("1.0.0".to_string()) },
        ],
    };
    let (records, ignored) = PuppetDependency::to_check(&Ok(file)).unwrap();
    assert_eq!(names_of(&records), vec!["c/c"]);
    assert_eq!(ignored_pairs(&ignored), vec![("a/a", "newest")]);
}

#[test]
fn composer_takes_the_v_behind_the_operator_of_a_range() {
    let (records, ignored) =
        ComposerDependency::to_check(r#"{"require": {"a/b": "^v1.0"}}"#).unwrap();
    assert_eq!(names_of(&records), vec!["a/b"]);
    assert!(ignored.is_empty());
    let expected = VersionReq::parse("^1.0").unwrap();
    assert_eq!(records[0].version_req().as_str(), expected.as_str());
    assert_eq!(records[0].version_req().source(), expected.source());
    assert_eq!(records[0].version_req().as_str(), "^1.0");
}

#[test]
fn records_are_made_of_a_document_that_was_read() {
    let document = Json::parse(
        r#"{"require": {"psr/log": "~v1.1", "php": "^8.0", "x/y": "stable"}, "require-dev": {"a/b": "v2"}}"#,
    )
    .unwrap();
    let (records, ignored) = ComposerDependency::records_of_document(&document);
    assert_eq!(names_of(&records), vec!["psr/log", "a/b"]);
    assert_eq!(ranges_of(&records), vec!["~1.1", "^2"]);
    assert_eq!(ignored_pairs(&ignored), vec![("x/y", "stable")]);
    let document = Json::parse(r#"{"dependencies": {"a": ">=v1.0"}}"#).unwrap();
    let (records, _) = NpmDependency::records_of_document(&document).unwrap();
    assert_eq!(ranges_of(&records), vec![">=1.0"]);
    let (records, _) = BowerDependency::records_of_document(&document).unwrap();
    assert_eq!(ranges_of(&records), vec![">=1.0"]);
    assert!(NpmDependency::records_of_document(&Json::Null).is_none());
    assert!(BowerDependency::records_of_document(&Json::Array(vec![])).is_none());
}

#[test]
fn a_document_that_was_read_holds_no_name_twice() {
    let document = Json::parse(r#"{"a": 1, "b": 2, "a": {"c": 1, "c": 2}}"#).unwrap();
    assert_eq!(document.object_keys().unwrap(), vec!["a", "b"]);
    assert_eq!(document.get("a").unwrap().object_keys().unwrap(), vec!["c"]);
}
