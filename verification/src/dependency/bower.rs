//! Dependencies that a Bower manifest declares. Bower's packages live in
//! git repositories; no registry is asked for them.

use crate::dependency::Dependency;
use crate::dependency::FatalError;
use crate::dependency::Ignored;
use crate::dependency::RecordView;
use crate::dependency::declared_member_fn;
use crate::dependency::ignored_member_fn;
use crate::dependency::ignored_of;
use crate::dependency::named_records;
use crate::dependency::range_sections_members;
use crate::dependency::read_range_sections;
use crate::dependency::records_of;
use crate::json::Json;
use crate::json::json_document;
use crate::version::Version;
use crate::version::VersionReq;
use crate::version::VersionView;
use vstd::prelude::*;
use vstd::string::*;

verus! {

/// A package that a `bower.json` depends on.
#[derive(Clone, Debug)]
pub struct BowerDependency {
    name: String,
    version_req: VersionReq,
}

/// What is said of a `bower.json` whose sections of dependencies are not
/// maps from names to ranges.
pub open spec fn bower_shape_message() -> Seq<char> {
    "bower.json: dependencies and devDependencies must map names to version ranges"@
}

/// The members by which a Bower manifest declares its dependencies: those of
/// `dependencies`, then those of `devDependencies`, each section in the
/// order of its members. `None` where the document is no object, or a
/// section is no map from names to texts.
pub open spec fn bower_members(document: Json) -> Option<Seq<(String, Json)>> {
    range_sections_members(document, "dependencies"@, "devDependencies"@)
}

impl BowerDependency {
    /// Makes the records of a Bower manifest that was read as a document:
    /// those that `dependencies` and `devDependencies` declare. A member
    /// whose range cannot be read is left out and handed back beside the
    /// records, for a warning. Nothing is returned where the document is no
    /// object, or where one of the two sections is anything else than a map
    /// from names to texts.
    pub fn records_of_document(document: &Json) -> (r: Option<(Vec<BowerDependency>, Vec<Ignored>)>)
        ensures
            match bower_members(*document) {
                Some(members) => r matches Some(read) && records_of(read.0@)
                    == members.filter_map(declared_member_fn()) && ignored_of(read.1@)
                    == members.filter_map(ignored_member_fn()),
                None => r is None,
            },
    {
        let (pairs, ignored) = match read_range_sections(
            document,
            "dependencies",
            "devDependencies",
        ) {
            Some(read) => read,
            None => {
                return None;
            },
        };
        let mut records: Vec<BowerDependency> = Vec::new();
        let mut i: usize = 0;
        while i < pairs.len()
            invariant
                i <= pairs.len(),
                records@.len() == i,
                forall|j: int|
                    0 <= j < i ==> (#[trigger] records@[j]).record() == named_records(pairs@)[j],
            decreases pairs.len() - i,
        {
            records.push(
                BowerDependency { name: pairs[i].0.clone(), version_req: pairs[i].1.clone() },
            );
            i += 1;
        }
        proof {
            assert(records_of(records@) =~= named_records(pairs@));
        }
        Some((records, ignored))
    }

    /// Reads the dependencies that a Bower manifest declares, from
    /// `dependencies` and from `devDependencies`. A member whose range
    /// cannot be read is left out and handed back beside the records, for a
    /// warning. The manifest is refused as a whole where it is no JSON, no
    /// object, or where one of the two sections is anything else than a map
    /// from names to texts.
    pub fn to_check(bower_json_contents: &str) -> (r: Result<
        (Vec<BowerDependency>, Vec<Ignored>),
        FatalError,
    >)
        ensures
            match json_document(bower_json_contents@) {
                Ok(document) => match bower_members(document) {
                    Some(members) => r matches Ok(read) && records_of(read.0@)
                        == members.filter_map(declared_member_fn()) && ignored_of(read.1@)
                        == members.filter_map(ignored_member_fn()),
                    None => r matches Err(FatalError::MalformedManifest(m)) && m@
                        == bower_shape_message(),
                },
                Err(message) => r matches Err(FatalError::MalformedManifest(m)) && m@ == message,
            },
            json_document(bower_json_contents@) matches Ok(document)
                ==> document.names_are_distinct(),
    {
        let document = match Json::parse(bower_json_contents) {
            Ok(document) => document,
            Err(message) => {
                return Err(FatalError::MalformedManifest(message));
            },
        };
        match BowerDependency::records_of_document(&document) {
            Some(read) => Ok(read),
            None => Err(
                FatalError::MalformedManifest(
                    String::from_str(
                        "bower.json: dependencies and devDependencies must map names to version ranges",
                    ),
                ),
            ),
        }
    }
}

impl Dependency for BowerDependency {
    closed spec fn record(&self) -> RecordView {
        RecordView { name: self.name@, requirement: self.version_req@ }
    }

    open spec fn registry_url_of(&self) -> Option<Seq<char>> {
        None
    }

    open spec fn registry_version_of(&self, response: Option<Seq<char>>) -> Option<VersionView> {
        None
    }

    fn name(&self) -> (r: &str) {
        self.name.as_str()
    }

    fn version_req(&self) -> (r: &VersionReq) {
        &self.version_req
    }

    fn registry_url(&self) -> (r: Option<String>) {
        None
    }

    fn registry_version(&self, response: Option<&str>) -> (r: Option<Version>) {
        None
    }
}

} // verus!
