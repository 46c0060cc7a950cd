//! Dependencies that an npm manifest declares, looked up on the npm
//! registry.

use crate::dependency::Dependency;
use crate::dependency::FatalError;
use crate::dependency::Ignored;
use crate::dependency::RecordView;
use crate::dependency::declared_member_fn;
use crate::dependency::highest_listed;
use crate::dependency::highest_listed_version;
use crate::dependency::ignored_member_fn;
use crate::dependency::ignored_of;
use crate::dependency::named_records;
use crate::dependency::range_sections_members;
use crate::dependency::read_range_sections;
use crate::dependency::read_response;
use crate::dependency::records_of;
use crate::dependency::response_document;
use crate::json::Json;
use crate::json::json_document;
use crate::version::Version;
use crate::version::VersionReq;
use crate::version::VersionView;
use crate::version::is_stable;
use crate::version::version_view;
use vstd::prelude::*;
use vstd::string::*;

verus! {

/// A package that a `package.json` depends on.
#[derive(Clone, Debug)]
pub struct NpmDependency {
    name: String,
    version_req: VersionReq,
}

/// What is said of a `package.json` whose sections of dependencies are not
/// maps from names to ranges.
pub open spec fn npm_shape_message() -> Seq<char> {
    "package.json: dependencies and devDependencies must map names to version ranges"@
}

/// The members by which an npm manifest declares its dependencies: those of
/// `dependencies`, then those of `devDependencies`, each section in the
/// order of its members. `None` where the document is no object, or a
/// section is no map from names to texts.
pub open spec fn npm_members(document: Json) -> Option<Seq<(String, Json)>> {
    range_sections_members(document, "dependencies"@, "devDependencies"@)
}

/// The version that the npm registry's answer stands for: the highest
/// stable one among the names of the members of `versions`.
pub open spec fn npm_version(document: Json) -> Option<VersionView> {
    highest_listed(document, "versions"@)
}

impl NpmDependency {
    /// The version that the npm registry's answer stands for.
    pub fn npm_version_from_json(&self, json: &Json) -> (r: Option<Version>)
        ensures
            version_view(r) == npm_version(*json),
            r matches Some(v) ==> is_stable(v@.parts),
    {
        highest_listed_version(json, "versions")
    }

    /// The address of the package's description on the npm registry.
    pub fn npm_url(&self) -> (r: String)
        ensures
            r@ == "https://registry.npmjs.org/"@ + self.record().name,
    {
        let mut url = String::from_str("https://registry.npmjs.org/");
        url.append(self.name.as_str());
        url
    }

    /// Makes the records of an npm manifest that was read as a document:
    /// those that `dependencies` and `devDependencies` declare. A member
    /// whose range cannot be read is left out and handed back beside the
    /// records, for a warning. Nothing is returned where the document is no
    /// object, or where one of the two sections is anything else than a map
    /// from names to texts.
    pub fn records_of_document(document: &Json) -> (r: Option<(Vec<NpmDependency>, Vec<Ignored>)>)
        ensures
            match npm_members(*document) {
                Some(members) => r matches Some(read) && records_of(read.0@)
                    == members.filter_map(declared_member_fn()) && ignored_of(read.1@)
                    == members.filter_map(ignored_member_fn()),
                None => r is None,
            },
    {
        let (pairs, ignored) = match read_range_sections(
            document,
            "dependencies",
            "devDependencies",
        ) {
            Some(read) => read,
            None => {
                return None;
            },
        };
        let mut records: Vec<NpmDependency> = Vec::new();
        let mut i: usize = 0;
        while i < pairs.len()
            invariant
                i <= pairs.len(),
                records@.len() == i,
                forall|j: int|
                    0 <= j < i ==> (#[trigger] records@[j]).record() == named_records(pairs@)[j],
            decreases pairs.len() - i,
        {
            records.push(
                NpmDependency { name: pairs[i].0.clone(), version_req: pairs[i].1.clone() },
            );
            i += 1;
        }
        proof {
            assert(records_of(records@) =~= named_records(pairs@));
        }
        Some((records, ignored))
    }

    /// Reads the dependencies that an npm manifest declares, from
    /// `dependencies` and from `devDependencies`. A member whose range
    /// cannot be read is left out and handed back beside the records, for a
    /// warning. The manifest is refused as a whole where it is no JSON, no
    /// object, or where one of the two sections is anything else than a map
    /// from names to texts.
    pub fn to_check(package_json_contents: &str) -> (r: Result<
        (Vec<NpmDependency>, Vec<Ignored>),
        FatalError,
    >)
        ensures
            match json_document(package_json_contents@) {
                Ok(document) => match npm_members(document) {
                    Some(members) => r matches Ok(read) && records_of(read.0@)
                        == members.filter_map(declared_member_fn()) && ignored_of(read.1@)
                        == members.filter_map(ignored_member_fn()),
                    None => r matches Err(FatalError::MalformedManifest(m)) && m@
                        == npm_shape_message(),
                },
                Err(message) => r matches Err(FatalError::MalformedManifest(m)) && m@ == message,
            },
            json_document(package_json_contents@) matches Ok(document)
                ==> document.names_are_distinct(),
    {
        let document = match Json::parse(package_json_contents) {
            Ok(document) => document,
            Err(message) => {
                return Err(FatalError::MalformedManifest(message));
            },
        };
        match NpmDependency::records_of_document(&document) {
            Some(read) => Ok(read),
            None => Err(
                FatalError::MalformedManifest(
                    String::from_str(
                        "package.json: dependencies and devDependencies must map names to version ranges",
                    ),
                ),
            ),
        }
    }
}

impl Dependency for NpmDependency {
    closed spec fn record(&self) -> RecordView {
        RecordView { name: self.name@, requirement: self.version_req@ }
    }

    open spec fn registry_url_of(&self) -> Option<Seq<char>> {
        Some("https://registry.npmjs.org/"@ + self.record().name)
    }

    open spec fn registry_version_of(&self, response: Option<Seq<char>>) -> Option<VersionView> {
        match response_document(response) {
            Some(document) => npm_version(document),
            None => None,
        }
    }

    fn name(&self) -> (r: &str) {
        self.name.as_str()
    }

    fn version_req(&self) -> (r: &VersionReq) {
        &self.version_req
    }

    fn registry_url(&self) -> (r: Option<String>) {
        Some(self.npm_url())
    }

    fn registry_version(&self, response: Option<&str>) -> (r: Option<Version>) {
        match read_response(response) {
            Some(document) => self.npm_version_from_json(&document),
            None => None,
        }
    }
}

} // verus!
