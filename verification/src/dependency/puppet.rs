//! Modules that a Puppetfile declares, looked up on the forge that it
//! names.
//!
//! Reading the Puppetfile and asking the forge are the caller's part. It
//! hands over the forge and the modules that were read, and later the
//! version that the forge reported for a module.

use crate::dependency::Dependency;
use crate::dependency::FatalError;
use crate::dependency::Ignored;
use crate::dependency::IgnoredView;
use crate::dependency::RecordView;
use crate::dependency::ignored_of;
use crate::dependency::records_of;
use crate::version::Version;
use crate::version::VersionReq;
use crate::version::VersionView;
use crate::version::parse_stable;
use crate::version::requirement_of;
use crate::version::stable_version_of;
use vstd::prelude::*;
use vstd::string::*;

verus! {

/// A module that a Puppetfile declares with a range of versions.
#[derive(Clone, Debug)]
pub struct PuppetDependency {
    name: String,
    version_req: VersionReq,
    forge_url: String,
}

/// A module as the Puppetfile declares it.
#[derive(Debug)]
pub struct DeclaredModule {
    pub name: String,
    /// The text of the range of versions, where the module declares one.
    pub version: Option<String>,
}

/// What was read from a Puppetfile.
#[derive(Debug)]
pub struct Puppetfile {
    /// The address of the forge.
    pub forge: String,
    pub modules: Vec<DeclaredModule>,
}

/// The record that a declared module stands for. A module without a range
/// stands for none, as does one whose text is no range.
pub open spec fn puppet_record(module: DeclaredModule) -> Option<RecordView> {
    match module.version {
        Some(range) => match requirement_of(range@) {
            Some(requirement) => Some(RecordView { name: module.name@, requirement }),
            None => None,
        },
        None => None,
    }
}

/// [`puppet_record`] as a function value.
pub open spec fn puppet_record_fn() -> spec_fn(DeclaredModule) -> Option<RecordView> {
    |module: DeclaredModule| puppet_record(module)
}

/// The declared module that is left out with a warning: one whose text is
/// no range.
pub open spec fn puppet_ignored(module: DeclaredModule) -> Option<IgnoredView> {
    match module.version {
        Some(range) => if requirement_of(range@) is None {
            Some(IgnoredView { name: module.name@, range: range@ })
        } else {
            None
        },
        None => None,
    }
}

/// [`puppet_ignored`] as a function value.
pub open spec fn puppet_ignored_fn() -> spec_fn(DeclaredModule) -> Option<IgnoredView> {
    |module: DeclaredModule| puppet_ignored(module)
}

impl PuppetDependency {
    /// The address of the forge that the Puppetfile names.
    pub closed spec fn forge(&self) -> Seq<char> {
        self.forge_url@
    }

    /// The address of the forge that the Puppetfile names.
    pub fn forge_url(&self) -> (r: &str)
        ensures
            r@ == self.forge(),
    {
        self.forge_url.as_str()
    }

    /// Reads one declared module.
    fn read(module: &DeclaredModule, forge: &String) -> (r: Option<
        Result<PuppetDependency, Ignored>,
    >)
        ensures
            match puppet_record(*module) {
                Some(record) => r matches Some(Ok(d)) && d.record() == record && d.forge()
                    == forge@ && puppet_ignored(*module) is None,
                None => match puppet_ignored(*module) {
                    Some(view) => r matches Some(Err(i)) && view == (IgnoredView {
                        name: i.name@,
                        range: i.range@,
                    }),
                    None => r is None,
                },
            },
    {
        match &module.version {
            Some(range) => match VersionReq::parse(range.as_str()) {
                Some(version_req) => Some(
                    Ok(
                        PuppetDependency {
                            name: module.name.clone(),
                            version_req,
                            forge_url: forge.clone(),
                        },
                    ),
                ),
                None => Some(Err(Ignored { name: module.name.clone(), range: range.clone() })),
            },
            None => None,
        }
    }

    /// Makes the records of what was read from a Puppetfile: one for each
    /// module that declares a range of versions, in order, each with the
    /// forge of the file. A module whose range cannot be read is left out
    /// and handed back beside the records, for a warning. A Puppetfile that
    /// could not be read is refused as a whole; the text says why.
    pub fn to_check(puppetfile: &Result<Puppetfile, String>) -> (r: Result<
        (Vec<PuppetDependency>, Vec<Ignored>),
        FatalError,
    >)
        ensures
            match *puppetfile {
                Ok(file) => r matches Ok(made) && records_of(made.0@)
                    == file.modules@.filter_map(puppet_record_fn()) && ignored_of(made.1@)
                    == file.modules@.filter_map(puppet_ignored_fn()) && forall|i: int|
                    0 <= i < made.0.len() ==> (#[trigger] made.0@[i]).forge() == file.forge@,
                Err(message) => r matches Err(FatalError::MalformedManifest(m)) && m@ == message@,
            },
    {
        let file = match puppetfile {
            Ok(file) => file,
            Err(message) => {
                return Err(FatalError::MalformedManifest(message.clone()));
            },
        };
        let mut records: Vec<PuppetDependency> = Vec::new();
        let mut ignored: Vec<Ignored> = Vec::new();
        let mut i: usize = 0;
        proof {
            assert(file.modules@.take(0) =~= Seq::<DeclaredModule>::empty());
            assert(records_of(records@) =~= file.modules@.take(0).filter_map(puppet_record_fn()));
            assert(ignored_of(ignored@) =~= file.modules@.take(0).filter_map(puppet_ignored_fn()));
        }
        while i < file.modules.len()
            invariant
                i <= file.modules.len(),
                records_of(records@) == file.modules@.take(i as int).filter_map(
                    puppet_record_fn(),
                ),
                ignored_of(ignored@) == file.modules@.take(i as int).filter_map(
                    puppet_ignored_fn(),
                ),
                forall|j: int|
                    0 <= j < records.len() ==> (#[trigger] records@[j]).forge() == file.forge@,
            decreases file.modules.len() - i,
        {
            let ghost so_far = records_of(records@);
            let ghost so_far_ignored = ignored_of(ignored@);
            proof {
                file.modules@.lemma_filter_map_take_succ(puppet_record_fn(), i as int);
                file.modules@.lemma_filter_map_take_succ(puppet_ignored_fn(), i as int);
            }
            match PuppetDependency::read(&file.modules[i], &file.forge) {
                Some(Ok(dependency)) => {
                    records.push(dependency);
                    proof {
                        assert(records_of(records@) =~= so_far + seq![dependency.record()]);
                    }
                },
                Some(Err(entry)) => {
                    let ghost view = IgnoredView { name: entry.name@, range: entry.range@ };
                    ignored.push(entry);
                    proof {
                        assert(ignored_of(ignored@) =~= so_far_ignored + seq![view]);
                    }
                },
                None => {},
            }
            proof {
                assert(records_of(records@) =~= file.modules@.take(i as int + 1).filter_map(
                    puppet_record_fn(),
                ));
                assert(ignored_of(ignored@) =~= file.modules@.take(i as int + 1).filter_map(
                    puppet_ignored_fn(),
                ));
            }
            i += 1;
        }
        proof {
            assert(file.modules@.take(i as int) =~= file.modules@);
        }
        Ok((records, ignored))
    }
}

impl Dependency for PuppetDependency {
    closed spec fn record(&self) -> RecordView {
        RecordView { name: self.name@, requirement: self.version_req@ }
    }

    open spec fn registry_url_of(&self) -> Option<Seq<char>> {
        None
    }

    /// The answer is the text of the version that the forge reported.
    open spec fn registry_version_of(&self, response: Option<Seq<char>>) -> Option<VersionView> {
        match response {
            Some(text) => stable_version_of(text),
            None => None,
        }
    }

    fn name(&self) -> (r: &str) {
        self.name.as_str()
    }

    fn version_req(&self) -> (r: &VersionReq) {
        &self.version_req
    }

    fn registry_url(&self) -> (r: Option<String>) {
        None
    }

    fn registry_version(&self, response: Option<&str>) -> (r: Option<Version>) {
        match response {
            Some(text) => parse_stable(text),
            None => None,
        }
    }
}

} // verus!
