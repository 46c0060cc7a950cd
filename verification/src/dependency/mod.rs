//! Dependency records, one kind for each packaging ecosystem.
//!
//! A record is a name and the range of versions that the manifest declares
//! for it. Each ecosystem says how its manifest is read into records, where
//! its registry answers for a name, and how that answer is reduced to one
//! version.

use crate::json::Json;
use crate::json::json_document;
use crate::version::Version;
use crate::version::VersionReq;
use crate::version::VersionReqView;
use crate::version::VersionView;
use crate::version::declared_requirement;
use crate::version::highest_stable;
use crate::version::highest_stable_version;
use crate::version::is_stable;
use crate::version::version_view;
use vstd::prelude::*;
use vstd::string::*;

pub mod bower;
pub mod cargo;
pub mod composer;
pub mod npm;
pub mod puppet;

pub use self::bower::BowerDependency;
pub use self::cargo::CargoDependency;
pub use self::composer::ComposerDependency;
pub use self::npm::NpmDependency;
pub use self::puppet::PuppetDependency;

verus! {

/// What a dependency record stands for.
pub struct RecordView {
    pub name: Seq<char>,
    pub requirement: VersionReqView,
}

/// What a declared entry stands for that was left out because the text of
/// its range is no range.
pub struct IgnoredView {
    pub name: Seq<char>,
    pub range: Seq<char>,
}

/// An entry of a manifest that was left out because the text of its range
/// is no range.
#[derive(Debug)]
pub struct Ignored {
    pub name: String,
    pub range: String,
}

/// Why a manifest could not be checked at all.
#[derive(Debug)]
pub enum FatalError {
    /// The manifest is not well-formed. The text says what the reader found.
    MalformedManifest(String),
    /// The file's name is that of no manifest that is known here.
    UnrecognizedFileType,
}

/// A dependency that a manifest declares.
pub trait Dependency: Clone + Send + Sized {
    /// The name and the declared range.
    spec fn record(&self) -> RecordView;

    /// Where the registry answers for this dependency; `None` for an
    /// ecosystem whose registry is not asked from here.
    spec fn registry_url_of(&self) -> Option<Seq<char>>;

    /// The version that the registry's answer stands for. `response` is the
    /// body of the answer, `None` where the request failed.
    spec fn registry_version_of(&self, response: Option<Seq<char>>) -> Option<VersionView>;

    fn name(&self) -> (r: &str)
        ensures
            r@ == self.record().name,
    ;

    fn version_req(&self) -> (r: &VersionReq)
        ensures
            r@ == self.record().requirement,
    ;

    /// The address at which the registry is asked for this dependency.
    fn registry_url(&self) -> (r: Option<String>)
        ensures
            match self.registry_url_of() {
                Some(url) => r matches Some(u) && u@ == url,
                None => r is None,
            },
    ;

    /// Reduces the registry's answer to the highest stable version. Nothing
    /// is returned where the request failed, where the answer cannot be
    /// read, and where it lists no stable version.
    fn registry_version(&self, response: Option<&str>) -> (r: Option<Version>)
        ensures
            version_view(r) == self.registry_version_of(
                match response {
                    Some(body) => Some(body@),
                    None => None,
                },
            ),
            r matches Some(v) ==> is_stable(v@.parts),
    ;
}

/// The records that `dependencies` stand for, in order.
pub open spec fn records_of<Dep: Dependency>(dependencies: Seq<Dep>) -> Seq<RecordView> {
    dependencies.map_values(|d: Dep| d.record())
}

/// What the entries that were left out stand for, in order.
pub open spec fn ignored_of(ignored: Seq<Ignored>) -> Seq<IgnoredView> {
    ignored.map_values(|i: Ignored| IgnoredView { name: i.name@, range: i.range@ })
}

/// The record that a manifest declares by a name and the text of a range.
/// `None` where the text is no range.
pub open spec fn declared_record(name: Seq<char>, range: Seq<char>) -> Option<RecordView> {
    match declared_requirement(range) {
        Some(requirement) => Some(RecordView { name, requirement }),
        None => None,
    }
}

/// The record that a member of a manifest's section declares: its name is
/// the member's, its range the member's text. `None` where the member holds
/// no text, or a text that is no range.
pub open spec fn declared_member(member: (String, Json)) -> Option<RecordView> {
    match member.1.text() {
        Some(range) => declared_record(member.0@, range),
        None => None,
    }
}

/// [`declared_member`] as a function value.
pub open spec fn declared_member_fn() -> spec_fn((String, Json)) -> Option<RecordView> {
    |member: (String, Json)| declared_member(member)
}

/// The member of a manifest's section that is left out with a warning: one
/// that holds a text which declares no range.
pub open spec fn ignored_member(member: (String, Json)) -> Option<IgnoredView> {
    match member.1.text() {
        Some(range) => if declared_requirement(range) is None {
            Some(IgnoredView { name: member.0@, range })
        } else {
            None
        },
        None => None,
    }
}

/// [`ignored_member`] as a function value.
pub open spec fn ignored_member_fn() -> spec_fn((String, Json)) -> Option<IgnoredView> {
    |member: (String, Json)| ignored_member(member)
}

/// Whether every member holds a text.
pub open spec fn all_texts(members: Seq<(String, Json)>) -> bool {
    forall|i: int| 0 <= i < members.len() ==> (#[trigger] members[i]).1 is Text
}

/// The members of a section that maps names to ranges. A section that is
/// missing or null has none. `None` where the section is anything else than
/// an object whose members all hold texts.
pub open spec fn range_section(document: Json, key: Seq<char>) -> Option<Seq<(String, Json)>> {
    match document.member(key) {
        None => Some(Seq::empty()),
        Some(Json::Null) => Some(Seq::empty()),
        Some(Json::Object(members)) => if all_texts(members@) {
            Some(members@)
        } else {
            None
        },
        Some(_) => None,
    }
}

/// The members of the two sections of a manifest that keeps its
/// dependencies in two maps from names to ranges: those of the first
/// section, then those of the second. `None` where the document is no
/// object, or one of the sections is not such a map.
pub open spec fn range_sections_members(
    document: Json,
    first: Seq<char>,
    second: Seq<char>,
) -> Option<Seq<(String, Json)>> {
    if document is Object {
        match (range_section(document, first), range_section(document, second)) {
            (Some(a), Some(b)) => Some(a + b),
            _ => None,
        }
    } else {
        None
    }
}

/// The members of the section of `document` that is named `key`; none where
/// the document has no such member, or one that is no object.
pub open spec fn section_of(document: Json, key: Seq<char>) -> Seq<(String, Json)> {
    match document.member(key) {
        Some(section) => section.members(),
        None => Seq::empty(),
    }
}

/// The highest stable version among the names of the members of the object
/// that `document` holds under `key`. `None` where there is no such object.
pub open spec fn highest_listed(document: Json, key: Seq<char>) -> Option<VersionView> {
    match document.member(key) {
        Some(versions) => match versions.keys() {
            Some(keys) => highest_stable(keys),
            None => None,
        },
        None => None,
    }
}

/// Taking what `f` keeps of `a` and then of `b` is taking what it keeps of
/// the two in a row.
pub proof fn lemma_filter_map_add<A, B>(a: Seq<A>, b: Seq<A>, f: spec_fn(A) -> Option<B>)
    ensures
        (a + b).filter_map(f) == a.filter_map(f) + b.filter_map(f),
    decreases b.len(),
{
    if b.len() == 0 {
        assert(a + b =~= a);
        assert(a.filter_map(f) + b.filter_map(f) =~= a.filter_map(f));
    } else {
        lemma_filter_map_add(a, b.drop_last(), f);
        assert((a + b).drop_last() =~= a + b.drop_last());
        assert((a + b).last() == b.last());
        match f(b.last()) {
            Some(x) => {
                assert((a.filter_map(f) + b.drop_last().filter_map(f)) + seq![x] =~= a.filter_map(
                    f,
                ) + (b.drop_last().filter_map(f) + seq![x]));
            },
            None => {},
        }
    }
}

/// Reads the member of a manifest's section. It gives the name and the
/// declared range, where the member holds the text of one; the name and the
/// text, where the text is no range; and nothing for a member that holds no
/// text.
pub fn read_member(name: &String, value: &Json) -> (r: Option<
    Result<(String, VersionReq), Ignored>,
>)
    ensures
        match value.text() {
            Some(range) => match declared_requirement(range) {
                Some(requirement) => r matches Some(Ok(p)) && p.0@ == name@ && p.1@
                    == requirement,
                None => r matches Some(Err(i)) && i.name@ == name@ && i.range@ == range,
            },
            None => r is None,
        },
{
    match value.as_str() {
        Some(range) => match VersionReq::parse_declared(range) {
            Some(requirement) => Some(Ok((name.clone(), requirement))),
            None => Some(Err(Ignored { name: name.clone(), range: range.to_owned() })),
        },
        None => None,
    }
}

/// What names with their declared ranges stand for, in order.
pub open spec fn named_records(pairs: Seq<(String, VersionReq)>) -> Seq<RecordView> {
    pairs.map_values(|p: (String, VersionReq)| RecordView { name: p.0@, requirement: p.1@ })
}

/// Adds what the members of one section declare: the names with their
/// ranges, and the entries that are left out.
fn collect_ranges(
    section: &Vec<(String, Json)>,
    pairs: &mut Vec<(String, VersionReq)>,
    ignored: &mut Vec<Ignored>,
)
    ensures
        named_records(final(pairs)@) == named_records(old(pairs)@) + section@.filter_map(
            declared_member_fn(),
        ),
        ignored_of(final(ignored)@) == ignored_of(old(ignored)@) + section@.filter_map(
            ignored_member_fn(),
        ),
{
    let ghost before = named_records(pairs@);
    let ghost before_ignored = ignored_of(ignored@);
    let mut i: usize = 0;
    proof {
        assert(section@.take(0) =~= Seq::<(String, Json)>::empty());
        assert(before + section@.take(0).filter_map(declared_member_fn()) =~= before);
        assert(before_ignored + section@.take(0).filter_map(ignored_member_fn())
            =~= before_ignored);
    }
    while i < section.len()
        invariant
            i <= section.len(),
            named_records(pairs@) == before + section@.take(i as int).filter_map(
                declared_member_fn(),
            ),
            ignored_of(ignored@) == before_ignored + section@.take(i as int).filter_map(
                ignored_member_fn(),
            ),
        decreases section.len() - i,
    {
        let ghost so_far = named_records(pairs@);
        let ghost so_far_ignored = ignored_of(ignored@);
        proof {
            section@.lemma_filter_map_take_succ(declared_member_fn(), i as int);
            section@.lemma_filter_map_take_succ(ignored_member_fn(), i as int);
        }
        match read_member(&section[i].0, &section[i].1) {
            Some(Ok(pair)) => {
                let ghost record = RecordView { name: pair.0@, requirement: pair.1@ };
                pairs.push(pair);
                proof {
                    assert(named_records(pairs@) =~= so_far + seq![record]);
                }
            },
            Some(Err(entry)) => {
                let ghost view = IgnoredView { name: entry.name@, range: entry.range@ };
                ignored.push(entry);
                proof {
                    assert(ignored_of(ignored@) =~= so_far_ignored + seq![view]);
                }
            },
            None => {},
        }
        proof {
            assert(named_records(pairs@) =~= before + section@.take(i as int + 1).filter_map(
                declared_member_fn(),
            ));
            assert(ignored_of(ignored@) =~= before_ignored + section@.take(
                i as int + 1,
            ).filter_map(ignored_member_fn()));
        }
        i += 1;
    }
    proof {
        assert(section@.take(i as int) =~= section@);
    }
}

/// Whether every member holds a text.
fn has_only_texts(members: &Vec<(String, Json)>) -> (r: bool)
    ensures
        r == all_texts(members@),
{
    let mut i: usize = 0;
    while i < members.len()
        invariant
            i <= members.len(),
            forall|j: int| 0 <= j < i ==> (#[trigger] members@[j]).1 is Text,
        decreases members.len() - i,
    {
        match &members[i].1 {
            Json::Text(_) => {},
            _ => {
                return false;
            },
        }
        i += 1;
    }
    true
}

/// Reads a section that maps names to ranges. `Ok(None)` stands for a
/// section without members.
fn read_range_section<'a>(document: &'a Json, key: &str) -> (r: Result<
    Option<&'a Vec<(String, Json)>>,
    (),
>)
    ensures
        match range_section(*document, key@) {
            Some(members) => r matches Ok(found) && members_of(found) == members,
            None => r is Err,
        },
{
    match document.get(key) {
        None => Ok(None),
        Some(section) => match section {
            Json::Null => Ok(None),
            Json::Object(members) => if has_only_texts(members) {
                Ok(Some(members))
            } else {
                Err(())
            },
            _ => Err(()),
        },
    }
}

/// The members of a section that was looked up; none where there is no
/// section.
pub open spec fn members_of(section: Option<&Vec<(String, Json)>>) -> Seq<(String, Json)> {
    match section {
        Some(members) => members@,
        None => Seq::empty(),
    }
}

/// Reads the members of two sections, those of the first and then those of
/// the second. It gives the names with their declared ranges, and the
/// entries that are left out because their text is no range.
pub fn read_members(
    first: Option<&Vec<(String, Json)>>,
    second: Option<&Vec<(String, Json)>>,
) -> (r: (Vec<(String, VersionReq)>, Vec<Ignored>))
    ensures
        named_records(r.0@) == (members_of(first) + members_of(second)).filter_map(
            declared_member_fn(),
        ),
        ignored_of(r.1@) == (members_of(first) + members_of(second)).filter_map(
            ignored_member_fn(),
        ),
{
    let mut pairs: Vec<(String, VersionReq)> = Vec::new();
    let mut ignored: Vec<Ignored> = Vec::new();
    proof {
        assert(named_records(pairs@) =~= Seq::<RecordView>::empty());
        assert(ignored_of(ignored@) =~= Seq::<IgnoredView>::empty());
        assert(Seq::<(String, Json)>::empty().filter_map(declared_member_fn())
            =~= Seq::<RecordView>::empty());
        assert(Seq::<(String, Json)>::empty().filter_map(ignored_member_fn())
            =~= Seq::<IgnoredView>::empty());
    }
    match first {
        Some(members) => {
            collect_ranges(members, &mut pairs, &mut ignored);
        },
        None => {},
    }
    assert(named_records(pairs@) =~= members_of(first).filter_map(declared_member_fn()));
    assert(ignored_of(ignored@) =~= members_of(first).filter_map(ignored_member_fn()));
    match second {
        Some(members) => {
            collect_ranges(members, &mut pairs, &mut ignored);
        },
        None => {},
    }
    proof {
        assert(named_records(pairs@) =~= members_of(first).filter_map(declared_member_fn())
            + members_of(second).filter_map(declared_member_fn()));
        assert(ignored_of(ignored@) =~= members_of(first).filter_map(ignored_member_fn())
            + members_of(second).filter_map(ignored_member_fn()));
        lemma_filter_map_add(members_of(first), members_of(second), declared_member_fn());
        lemma_filter_map_add(members_of(first), members_of(second), ignored_member_fn());
    }
    (pairs, ignored)
}

/// Reads a manifest that keeps its dependencies in two sections, each a map
/// from names to ranges. It gives the names with their ranges, and the
/// entries that are left out because their text is no range. Nothing is
/// returned where the document is no object, or a section is not such a
/// map.
pub fn read_range_sections(document: &Json, first: &str, second: &str) -> (r: Option<
    (Vec<(String, VersionReq)>, Vec<Ignored>),
>)
    ensures
        match range_sections_members(*document, first@, second@) {
            Some(members) => r matches Some(read) && named_records(read.0@) == members.filter_map(
                declared_member_fn(),
            ) && ignored_of(read.1@) == members.filter_map(ignored_member_fn()),
            None => r is None,
        },
{
    match document {
        Json::Object(_) => {},
        _ => {
            return None;
        },
    }
    let a = match read_range_section(document, first) {
        Ok(a) => a,
        Err(_) => {
            return None;
        },
    };
    let b = match read_range_section(document, second) {
        Ok(b) => b,
        Err(_) => {
            return None;
        },
    };
    Some(read_members(a, b))
}

/// Looks up the section of `document` that is named `key`. Nothing is
/// returned where the document has no such member, or one that is no
/// object.
pub fn read_section<'a>(document: &'a Json, key: &str) -> (r: Option<&'a Vec<(String, Json)>>)
    ensures
        members_of(r) == section_of(*document, key@),
{
    match document.get(key) {
        Some(section) => section.as_object(),
        None => None,
    }
}

/// The highest stable version among the names of the members of the object
/// that `document` holds under `key`.
pub fn highest_listed_version(document: &Json, key: &str) -> (r: Option<Version>)
    ensures
        version_view(r) == highest_listed(*document, key@),
        r matches Some(v) ==> is_stable(v@.parts),
{
    match document.get(key) {
        Some(versions) => match versions.object_keys() {
            Some(keys) => highest_stable_version(&keys),
            None => None,
        },
        None => None,
    }
}

/// Reads the body of a registry's answer as a document. Nothing is returned
/// where the request failed, or the body is no JSON.
pub fn read_response(response: Option<&str>) -> (r: Option<Json>)
    ensures
        r == response_document(
            match response {
                Some(body) => Some(body@),
                None => None,
            },
        ),
{
    match response {
        Some(body) => match Json::parse(body) {
            Ok(document) => Some(document),
            Err(_) => None,
        },
        None => None,
    }
}

/// The document that a registry's answer holds; `None` where the request
/// failed, or the body is no JSON.
pub open spec fn response_document(response: Option<Seq<char>>) -> Option<Json> {
    match response {
        Some(body) => match json_document(body) {
            Ok(document) => Some(document),
            Err(_) => None,
        },
        None => None,
    }
}

} // verus!
