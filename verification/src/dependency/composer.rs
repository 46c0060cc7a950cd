//! Dependencies that a Composer manifest declares, looked up on Packagist.

use crate::dependency::Dependency;
use crate::dependency::FatalError;
use crate::dependency::Ignored;
use crate::dependency::IgnoredView;
use crate::dependency::RecordView;
use crate::dependency::declared_member_fn;
use crate::dependency::highest_listed;
use crate::dependency::highest_listed_version;
use crate::dependency::ignored_member_fn;
use crate::dependency::ignored_of;
use crate::dependency::named_records;
use crate::dependency::read_members;
use crate::dependency::read_section;
use crate::dependency::read_response;
use crate::dependency::records_of;
use crate::dependency::response_document;
use crate::dependency::section_of;
use crate::json::Json;
use crate::json::json_document;
use crate::text::same_text;
use crate::text::starts_with;
use crate::version::Version;
use crate::version::VersionReq;
use crate::version::VersionView;
use crate::version::is_stable;
use crate::version::version_view;
use vstd::prelude::*;
use vstd::string::*;

verus! {

/// A package that a `composer.json` requires.
#[derive(Clone, Debug)]
pub struct ComposerDependency {
    name: String,
    version_req: VersionReq,
}

/// Whether a name stands for the platform rather than for a package of the
/// registry: `php` itself, and the extensions, whose names begin with
/// `ext-`.
pub open spec fn is_platform_package(name: Seq<char>) -> bool {
    name == "php"@ || "ext-"@.is_prefix_of(name)
}

/// A record that names a package of the registry, and nothing for one that
/// names the platform.
pub open spec fn package() -> spec_fn(RecordView) -> Option<RecordView> {
    |record: RecordView|
        if is_platform_package(record.name) {
            None
        } else {
            Some(record)
        }
}

/// The members by which a Composer manifest declares its dependencies:
/// those of `require`, then those of `require-dev`. A section that is
/// missing, or is no object, has none.
pub open spec fn composer_members(document: Json) -> Seq<(String, Json)> {
    section_of(document, "require"@) + section_of(document, "require-dev"@)
}

/// The records that a Composer manifest declares: those of `require`, then
/// those of `require-dev`, each section in the order of its members, without
/// those that name the platform.
pub open spec fn composer_records(document: Json) -> Seq<RecordView> {
    composer_members(document).filter_map(declared_member_fn()).filter_map(package())
}

/// The entries of a Composer manifest that are left out with a warning:
/// the members of the two sections that hold a text which is no range.
pub open spec fn composer_ignored(document: Json) -> Seq<IgnoredView> {
    composer_members(document).filter_map(ignored_member_fn())
}

/// The version that Packagist's answer stands for: the highest stable one
/// among the names of the members of `package.versions`.
pub open spec fn packagist_version(document: Json) -> Option<VersionView> {
    match document.member("package"@) {
        Some(package) => highest_listed(package, "versions"@),
        None => None,
    }
}

impl ComposerDependency {
    /// The version that Packagist's answer stands for.
    pub fn packagist_version_from_json(&self, json: &Json) -> (r: Option<Version>)
        ensures
            version_view(r) == packagist_version(*json),
            r matches Some(v) ==> is_stable(v@.parts),
    {
        match json.get("package") {
            Some(package) => highest_listed_version(package, "versions"),
            None => None,
        }
    }

    /// The address of the package's description on Packagist.
    pub fn packagist_url(&self) -> (r: String)
        ensures
            r@ == "https://packagist.org/packages/"@ + self.record().name + ".json"@,
    {
        let mut url = String::from_str("https://packagist.org/packages/");
        url.append(self.name.as_str());
        url.append(".json");
        url
    }

    /// Makes the records of a Composer manifest that was read as a
    /// document: those that `require` and `require-dev` declare. A member
    /// whose range cannot be read is left out and handed back beside the
    /// records, for a warning. Left out too, without a word, are the members
    /// that hold no text and those that name the platform.
    pub fn records_of_document(document: &Json) -> (r: (Vec<ComposerDependency>, Vec<Ignored>))
        ensures
            records_of(r.0@) == composer_records(*document),
            ignored_of(r.1@) == composer_ignored(*document),
            forall|i: int|
                0 <= i < r.0.len() ==> !is_platform_package(#[trigger] records_of(r.0@)[i].name),
    {
        let (pairs, ignored) = read_members(
            read_section(document, "require"),
            read_section(document, "require-dev"),
        );
        let ghost declared = named_records(pairs@);
        let mut records: Vec<ComposerDependency> = Vec::new();
        let mut i: usize = 0;
        proof {
            assert(declared.take(0) =~= Seq::<RecordView>::empty());
            assert(records_of(records@) =~= declared.take(0).filter_map(package()));
        }
        while i < pairs.len()
            invariant
                i <= pairs.len(),
                declared == named_records(pairs@),
                records_of(records@) == declared.take(i as int).filter_map(package()),
            decreases pairs.len() - i,
        {
            let ghost so_far = records_of(records@);
            proof {
                declared.lemma_filter_map_take_succ(package(), i as int);
            }
            let name = pairs[i].0.as_str();
            if !same_text(name, "php") && !starts_with(name, "ext-") {
                let dependency = ComposerDependency {
                    name: pairs[i].0.clone(),
                    version_req: pairs[i].1.clone(),
                };
                records.push(dependency);
                proof {
                    assert(records_of(records@) =~= so_far + seq![dependency.record()]);
                }
            }
            proof {
                assert(records_of(records@) =~= declared.take(i as int + 1).filter_map(
                    package(),
                ));
            }
            i += 1;
        }
        proof {
            assert(declared.take(i as int) =~= declared);
            lemma_composer_records_name_packages(*document);
            assert forall|k: int| 0 <= k < records.len() implies !is_platform_package(
                #[trigger] records_of(records@)[k].name,
            ) by {
                assert(records_of(records@)[k] == composer_records(*document)[k]);
            }
        }
        (records, ignored)
    }

    /// Reads the dependencies that a Composer manifest declares, from
    /// `require` and from `require-dev`. A member whose range cannot be
    /// read is left out and handed back beside the records, for a warning.
    /// Left out too, without a word, are the members that hold no text and
    /// those that name the platform. The manifest is refused as a whole
    /// where it is no JSON.
    pub fn to_check(composer_json_contents: &str) -> (r: Result<
        (Vec<ComposerDependency>, Vec<Ignored>),
        FatalError,
    >)
        ensures
            match json_document(composer_json_contents@) {
                Ok(document) => r matches Ok(read) && records_of(read.0@) == composer_records(
                    document,
                ) && ignored_of(read.1@) == composer_ignored(document),
                Err(message) => r matches Err(FatalError::MalformedManifest(m)) && m@ == message,
            },
            r matches Ok(read) ==> forall|i: int|
                0 <= i < read.0.len() ==> !is_platform_package(
                    #[trigger] records_of(read.0@)[i].name,
                ),
            json_document(composer_json_contents@) matches Ok(document)
                ==> document.names_are_distinct(),
    {
        match Json::parse(composer_json_contents) {
            Ok(document) => Ok(ComposerDependency::records_of_document(&document)),
            Err(message) => Err(FatalError::MalformedManifest(message)),
        }
    }
}

/// No record of a Composer manifest names the platform.
pub proof fn lemma_composer_records_name_packages(document: Json)
    ensures
        forall|i: int|
            0 <= i < composer_records(document).len() ==> !is_platform_package(
                #[trigger] composer_records(document)[i].name,
            ),
{
    let declared = composer_members(document).filter_map(declared_member_fn());
    let records = composer_records(document);
    assert forall|i: int| 0 <= i < records.len() implies !is_platform_package(
        #[trigger] records[i].name,
    ) by {
        assert(declared.filter_map(package()).contains(records[i]));
        declared.lemma_filter_map_contains(package(), records[i]);
    }
}

impl Dependency for ComposerDependency {
    closed spec fn record(&self) -> RecordView {
        RecordView { name: self.name@, requirement: self.version_req@ }
    }

    open spec fn registry_url_of(&self) -> Option<Seq<char>> {
        Some("https://packagist.org/packages/"@ + self.record().name + ".json"@)
    }

    open spec fn registry_version_of(&self, response: Option<Seq<char>>) -> Option<VersionView> {
        match response_document(response) {
            Some(document) => packagist_version(document),
            None => None,
        }
    }

    fn name(&self) -> (r: &str) {
        self.name.as_str()
    }

    fn version_req(&self) -> (r: &VersionReq) {
        &self.version_req
    }

    fn registry_url(&self) -> (r: Option<String>) {
        Some(self.packagist_url())
    }

    fn registry_version(&self, response: Option<&str>) -> (r: Option<Version>) {
        match read_response(response) {
            Some(document) => self.packagist_version_from_json(&document),
            None => None,
        }
    }
}

} // verus!
