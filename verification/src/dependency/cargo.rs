//! Dependencies that a Cargo manifest declares, looked up on crates.io.
//!
//! A Cargo manifest is read together with the project that it belongs to,
//! which takes the file system. That is the caller's part: it hands over
//! what was read, and this module makes the records of it.

use crate::dependency::Dependency;
use crate::dependency::FatalError;
use crate::dependency::Ignored;
use crate::dependency::IgnoredView;
use crate::dependency::RecordView;
use crate::dependency::ignored_of;
use crate::dependency::read_response;
use crate::dependency::records_of;
use crate::dependency::response_document;
use crate::json::Json;
use crate::version::Version;
use crate::version::VersionReq;
use crate::version::VersionView;
use crate::version::is_stable;
use crate::version::parse_stable;
use crate::version::requirement_of;
use crate::version::stable_version_of;
use crate::version::version_view;
use vstd::prelude::*;
use vstd::string::*;

verus! {

/// A crate that a `Cargo.toml` depends on.
#[derive(Clone, Debug)]
pub struct CargoDependency {
    name: String,
    version_req: VersionReq,
}

/// The range that a manifest declares for a dependency, as text.
#[derive(Debug)]
pub enum DeclaredRequirement {
    /// Any version will do.
    Any,
    /// The versions of a range.
    Req(String),
    /// A range, with the version that the project is locked to.
    Locked(String, String),
}

/// A dependency as the manifest declares it.
#[derive(Debug)]
pub struct DeclaredDependency {
    pub name: String,
    pub requirement: DeclaredRequirement,
}

/// What reading a Cargo manifest gave.
#[derive(Debug)]
pub enum ManifestRead {
    /// The manifest of a package, with its dependencies.
    Real(Vec<DeclaredDependency>),
    /// The manifest of a workspace without a package of its own.
    Virtual,
    /// The manifest could not be read. The text says why.
    Failed(String),
}

/// The text of the range that a dependency declares. Any version is the
/// range `*`; a locked dependency counts by its range.
pub open spec fn declared_range(requirement: DeclaredRequirement) -> Seq<char> {
    match requirement {
        DeclaredRequirement::Any => "*"@,
        DeclaredRequirement::Req(range) => range@,
        DeclaredRequirement::Locked(_, range) => range@,
    }
}

/// The record that a declared dependency stands for. The text of its range
/// is taken as it stands; `None` where it is no range.
pub open spec fn cargo_record(declared: DeclaredDependency) -> Option<RecordView> {
    match requirement_of(declared_range(declared.requirement)) {
        Some(requirement) => Some(RecordView { name: declared.name@, requirement }),
        None => None,
    }
}

/// [`cargo_record`] as a function value.
pub open spec fn cargo_record_fn() -> spec_fn(DeclaredDependency) -> Option<RecordView> {
    |declared: DeclaredDependency| cargo_record(declared)
}

/// The declared dependency that is left out with a warning: one whose text
/// is no range.
pub open spec fn cargo_ignored(declared: DeclaredDependency) -> Option<IgnoredView> {
    if requirement_of(declared_range(declared.requirement)) is None {
        Some(IgnoredView { name: declared.name@, range: declared_range(declared.requirement) })
    } else {
        None
    }
}

/// [`cargo_ignored`] as a function value.
pub open spec fn cargo_ignored_fn() -> spec_fn(DeclaredDependency) -> Option<IgnoredView> {
    |declared: DeclaredDependency| cargo_ignored(declared)
}

/// The dependencies that a Cargo manifest declares, in order. A workspace
/// without a package declares none. `None` where the manifest could not be
/// read.
pub open spec fn cargo_declared(read: ManifestRead) -> Option<Seq<DeclaredDependency>> {
    match read {
        ManifestRead::Real(declared) => Some(declared@),
        ManifestRead::Virtual => Some(Seq::empty()),
        ManifestRead::Failed(_) => None,
    }
}

/// The version that the answer of crates.io stands for: the text of
/// `crate.max_stable_version`, where it is a stable version.
pub open spec fn crates_io_version(document: Json) -> Option<VersionView> {
    match document.member("crate"@) {
        Some(description) => match description.member("max_stable_version"@) {
            Some(version) => match version.text() {
                Some(text) => stable_version_of(text),
                None => None,
            },
            None => None,
        },
        None => None,
    }
}

/// Pairs the configuration that the manifest reader was set up with and the
/// registry source that was derived from it. Both steps can fail; the
/// configuration is loaded first, so its failure is the one reported.
pub fn get_config_source_id<C, S, E>(config: Result<C, E>, source_id: Result<S, E>) -> (r: Result<
    (C, S),
    E,
>)
    ensures
        r == (match (config, source_id) {
            (Ok(c), Ok(s)) => Ok::<(C, S), E>((c, s)),
            (Err(e), _) => Err::<(C, S), E>(e),
            (Ok(_), Err(e)) => Err::<(C, S), E>(e),
        }),
{
    match config {
        Ok(c) => match source_id {
            Ok(s) => Ok((c, s)),
            Err(e) => Err(e),
        },
        Err(e) => Err(e),
    }
}

impl CargoDependency {
    /// The address of the crate's description on crates.io.
    pub fn cargo_url(&self) -> (r: String)
        ensures
            r@ == "https://crates.io/api/v1/crates/"@ + self.record().name,
    {
        let mut url = String::from_str("https://crates.io/api/v1/crates/");
        url.append(self.name.as_str());
        url
    }

    /// The version that the answer of crates.io stands for.
    pub fn crates_io_version_from_json(&self, json: &Json) -> (r: Option<Version>)
        ensures
            version_view(r) == crates_io_version(*json),
            r matches Some(v) ==> is_stable(v@.parts),
    {
        match json.get("crate") {
            Some(description) => match description.get("max_stable_version") {
                Some(version) => match version.as_str() {
                    Some(text) => parse_stable(text),
                    None => None,
                },
                None => None,
            },
            None => None,
        }
    }

    /// Reads one declared dependency.
    fn read(declared: &DeclaredDependency) -> (r: Result<CargoDependency, Ignored>)
        ensures
            match cargo_record(*declared) {
                Some(record) => r matches Ok(d) && d.record() == record,
                None => r matches Err(i) && cargo_ignored(*declared) == Some(
                    IgnoredView { name: i.name@, range: i.range@ },
                ),
            },
            cargo_record(*declared) is Some ==> cargo_ignored(*declared) is None,
    {
        let range = match &declared.requirement {
            DeclaredRequirement::Any => "*",
            DeclaredRequirement::Req(range) => range.as_str(),
            DeclaredRequirement::Locked(_, range) => range.as_str(),
        };
        match VersionReq::parse(range) {
            Some(version_req) => Ok(CargoDependency { name: declared.name.clone(), version_req }),
            None => Err(Ignored { name: declared.name.clone(), range: range.to_owned() }),
        }
    }

    /// Makes the records of what was read from a Cargo manifest: one for
    /// each declared dependency, in order. A dependency whose range cannot
    /// be read is left out and handed back beside the records, for a
    /// warning. A manifest that could not be read is refused as a whole.
    pub fn to_check(read: &ManifestRead) -> (r: Result<
        (Vec<CargoDependency>, Vec<Ignored>),
        FatalError,
    >)
        ensures
            match cargo_declared(*read) {
                Some(declared) => r matches Ok(made) && records_of(made.0@)
                    == declared.filter_map(cargo_record_fn()) && ignored_of(made.1@)
                    == declared.filter_map(cargo_ignored_fn()),
                None => r matches Err(FatalError::MalformedManifest(m)) && *read
                    matches ManifestRead::Failed(message) && m@ == message@,
            },
    {
        let mut records: Vec<CargoDependency> = Vec::new();
        let mut ignored: Vec<Ignored> = Vec::new();
        proof {
            assert(records_of(records@) =~= Seq::<RecordView>::empty());
            assert(ignored_of(ignored@) =~= Seq::<IgnoredView>::empty());
            assert(Seq::<DeclaredDependency>::empty().filter_map(cargo_record_fn())
                =~= Seq::<RecordView>::empty());
            assert(Seq::<DeclaredDependency>::empty().filter_map(cargo_ignored_fn())
                =~= Seq::<IgnoredView>::empty());
        }
        match read {
            ManifestRead::Real(declared) => {
                let mut i: usize = 0;
                proof {
                    assert(declared@.take(0) =~= Seq::<DeclaredDependency>::empty());
                }
                while i < declared.len()
                    invariant
                        i <= declared.len(),
                        records_of(records@) == declared@.take(i as int).filter_map(
                            cargo_record_fn(),
                        ),
                        ignored_of(ignored@) == declared@.take(i as int).filter_map(
                            cargo_ignored_fn(),
                        ),
                    decreases declared.len() - i,
                {
                    let ghost so_far = records_of(records@);
                    let ghost so_far_ignored = ignored_of(ignored@);
                    proof {
                        declared@.lemma_filter_map_take_succ(cargo_record_fn(), i as int);
                        declared@.lemma_filter_map_take_succ(cargo_ignored_fn(), i as int);
                    }
                    match CargoDependency::read(&declared[i]) {
                        Ok(dependency) => {
                            records.push(dependency);
                            proof {
                                assert(records_of(records@) =~= so_far + seq![dependency.record()]);
                            }
                        },
                        Err(entry) => {
                            let ghost view = IgnoredView { name: entry.name@, range: entry.range@ };
                            ignored.push(entry);
                            proof {
                                assert(ignored_of(ignored@) =~= so_far_ignored + seq![view]);
                            }
                        },
                    }
                    proof {
                        assert(records_of(records@) =~= declared@.take(i as int + 1).filter_map(
                            cargo_record_fn(),
                        ));
                        assert(ignored_of(ignored@) =~= declared@.take(i as int + 1).filter_map(
                            cargo_ignored_fn(),
                        ));
                    }
                    i += 1;
                }
                proof {
                    assert(declared@.take(i as int) =~= declared@);
                }
                Ok((records, ignored))
            },
            ManifestRead::Virtual => Ok((records, ignored)),
            ManifestRead::Failed(message) => Err(FatalError::MalformedManifest(message.clone())),
        }
    }
}

impl Dependency for CargoDependency {
    closed spec fn record(&self) -> RecordView {
        RecordView { name: self.name@, requirement: self.version_req@ }
    }

    open spec fn registry_url_of(&self) -> Option<Seq<char>> {
        Some("https://crates.io/api/v1/crates/"@ + self.record().name)
    }

    open spec fn registry_version_of(&self, response: Option<Seq<char>>) -> Option<VersionView> {
        match response_document(response) {
            Some(document) => crates_io_version(document),
            None => None,
        }
    }

    fn name(&self) -> (r: &str) {
        self.name.as_str()
    }

    fn version_req(&self) -> (r: &VersionReq) {
        &self.version_req
    }

    fn registry_url(&self) -> (r: Option<String>) {
        Some(self.cargo_url())
    }

    fn registry_version(&self, response: Option<&str>) -> (r: Option<Version>) {
        match read_response(response) {
            Some(document) => self.crates_io_version_from_json(&document),
            None => None,
        }
    }
}

} // verus!
