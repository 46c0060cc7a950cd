//! Versions and version ranges.
//!
//! The grammar of both, and the rule by which a range admits a version, are
//! those of the `semver` crate. This module keeps what that crate read as
//! plain values, and adds the rules of its own: which prefix is taken from a
//! declared range, and which of the versions that a registry lists is the
//! highest stable one.

use crate::text::is_range_prefix;
use crate::text::lemma_strip_v_takes_the_v_before_the_number;
use crate::text::strip_v;
use crate::text::strip_v_prefix;
use crate::text::trim_v;
use crate::text::trim_v_prefix;
use vstd::prelude::*;
use vstd::string::*;

verus! {

/// The parts of a version as `semver` reads them from its text.
pub struct VersionParts {
    pub major: u64,
    pub minor: u64,
    pub patch: u64,
    /// The pre-release tag; empty for a stable version.
    pub pre: Seq<char>,
    /// The build metadata; empty where there is none.
    pub build: Seq<char>,
}

/// What a [`Version`] stands for: its text, and the parts read from it.
pub struct VersionView {
    pub text: Seq<char>,
    pub parts: VersionParts,
}

/// What a [`VersionReq`] stands for: the text it was read from, and the
/// form in which `semver` prints it.
pub struct VersionReqView {
    pub source: Seq<char>,
    pub shown: Seq<char>,
}

/// The parts that `semver::Version::parse` reads from `text`; `None` where
/// it rejects the text.
pub uninterp spec fn semver_version(text: Seq<char>) -> Option<VersionParts>;

/// The text that `semver` prints for the range that
/// `semver::VersionReq::parse` reads from `text`; `None` where it rejects
/// the text.
pub uninterp spec fn semver_requirement(text: Seq<char>) -> Option<Seq<char>>;

/// Whether the range read from the text `requirement` admits the version
/// read from the text `version`, as `semver::VersionReq::matches` decides.
pub uninterp spec fn semver_matches(requirement: Seq<char>, version: Seq<char>) -> bool;

/// Whether a pre-release tag with build metadata comes after another such
/// pair in the order that `semver` gives to versions of equal release
/// numbers: by the tags first, then by the build metadata.
pub uninterp spec fn semver_tags_exceed(
    pre: Seq<char>,
    build: Seq<char>,
    other_pre: Seq<char>,
    other_build: Seq<char>,
) -> bool;

/// A version is stable where it carries no pre-release tag.
pub open spec fn is_stable(parts: VersionParts) -> bool {
    parts.pre.len() == 0
}

/// Whether the release numbers of `a` are lower than those of `b`: major
/// first, then minor, then patch.
pub open spec fn precedes(a: VersionParts, b: VersionParts) -> bool {
    a.major < b.major || (a.major == b.major && (a.minor < b.minor || (a.minor == b.minor
        && a.patch < b.patch)))
}

/// Whether `a` comes after `b` in the order of `semver`: by the release
/// numbers, and among versions of equal numbers by tag and build metadata.
pub open spec fn exceeds(a: VersionParts, b: VersionParts) -> bool {
    precedes(b, a) || (a.major == b.major && a.minor == b.minor && a.patch == b.patch
        && semver_tags_exceed(a.pre, a.build, b.pre, b.build))
}

/// The range that the text stands for, `None` where `semver` rejects it.
pub open spec fn requirement_of(text: Seq<char>) -> Option<VersionReqView> {
    match semver_requirement(text) {
        Some(shown) => Some(VersionReqView { source: text, shown }),
        None => None,
    }
}

/// The range that a manifest declares by `text`: a single `v` directly
/// before the version number is not part of it.
pub open spec fn declared_requirement(text: Seq<char>) -> Option<VersionReqView> {
    requirement_of(strip_v(text))
}

/// The version that the text stands for, `None` where `semver` rejects it.
pub open spec fn version_of(text: Seq<char>) -> Option<VersionView> {
    match semver_version(text) {
        Some(parts) => Some(VersionView { text, parts }),
        None => None,
    }
}

/// The stable version that an entry of a registry's list stands for.
/// Leading `v`s are not part of it. `None` where what is left is no
/// version, or carries a pre-release tag.
pub open spec fn stable_candidate(text: Seq<char>) -> Option<VersionView> {
    match version_of(trim_v(text)) {
        Some(v) => if is_stable(v.parts) {
            Some(v)
        } else {
            None
        },
        None => None,
    }
}

/// The highest stable version among `texts`, in the order of `semver`. Of
/// two entries of which neither comes after the other, the later one is
/// taken.
pub open spec fn highest_stable(texts: Seq<Seq<char>>) -> Option<VersionView>
    decreases texts.len(),
{
    if texts.len() == 0 {
        None
    } else {
        let before = highest_stable(texts.drop_last());
        match (before, stable_candidate(texts.last())) {
            (_, None) => before,
            (None, Some(v)) => Some(v),
            (Some(best), Some(v)) => if exceeds(best.parts, v.parts) {
                Some(best)
            } else {
                Some(v)
            },
        }
    }
}

/// Whether the range admits the version.
pub open spec fn admits(requirement: VersionReqView, version: VersionView) -> bool {
    semver_matches(requirement.source, version.text)
}

/// A semantic version.
#[derive(Debug)]
pub struct Version {
    text: String,
    major: u64,
    minor: u64,
    patch: u64,
    pre: String,
    build: String,
}

/// A range of semantic versions.
#[derive(Debug)]
pub struct VersionReq {
    source: String,
    shown: String,
}

/// `semver::Version::parse`: the parts of the version that it reads from
/// `text`, each field handed over as it stands. Nothing is returned where
/// it reports an error.
#[verifier::external_body]
fn semver_parse_version(text: &str) -> (r: Option<(u64, u64, u64, String, String)>)
    ensures
        r is Some <==> semver_version(text@) is Some,
        r matches Some(p) ==> semver_version(text@) == Some(
            VersionParts { major: p.0, minor: p.1, patch: p.2, pre: p.3@, build: p.4@ },
        ),
{
    match semver::Version::parse(text) {
        Ok(v) => Some(
            (v.major, v.minor, v.patch, v.pre.as_str().to_owned(), v.build.as_str().to_owned()),
        ),
        Err(_) => None,
    }
}

/// `semver::VersionReq::parse`, and the text that `semver` prints for what
/// was read. Nothing is returned where the parser reports an error.
#[verifier::external_body]
fn semver_parse_requirement(text: &str) -> (r: Option<String>)
    ensures
        r is Some <==> semver_requirement(text@) is Some,
        r matches Some(shown) ==> semver_requirement(text@) == Some(shown@),
{
    match semver::VersionReq::parse(text) {
        Ok(requirement) => Some(requirement.to_string()),
        Err(_) => None,
    }
}

/// `semver::VersionReq::matches`, on the range and the version that
/// `semver` reads from the two texts. Both texts must be ones that it
/// accepts.
#[verifier::external_body]
fn semver_requirement_matches(requirement: &str, version: &str) -> (r: bool)
    requires
        semver_requirement(requirement@) is Some,
        semver_version(version@) is Some,
    ensures
        r == semver_matches(requirement@, version@),
{
    let requirement = semver::VersionReq::parse(requirement).unwrap();
    requirement.matches(&semver::Version::parse(version).unwrap())
}

/// The order of `semver::Version`, on the versions that `semver` reads
/// from the two texts: whether the first comes after the second. The order
/// is the one derived for the struct, field by field: major, minor, patch,
/// then tag and build metadata. Both texts must be ones that `semver`
/// accepts.
#[verifier::external_body]
fn semver_version_exceeds(a: &str, b: &str) -> (r: bool)
    requires
        semver_version(a@) is Some,
        semver_version(b@) is Some,
    ensures
        ({
            let x = semver_version(a@)->0;
            let y = semver_version(b@)->0;
            r == (precedes(y, x) || (x.major == y.major && x.minor == y.minor && x.patch
                == y.patch && semver_tags_exceed(x.pre, x.build, y.pre, y.build)))
        }),
{
    semver::Version::parse(a).unwrap() > semver::Version::parse(b).unwrap()
}

impl View for Version {
    type V = VersionView;

    closed spec fn view(&self) -> VersionView {
        VersionView {
            text: self.text@,
            parts: VersionParts {
                major: self.major,
                minor: self.minor,
                patch: self.patch,
                pre: self.pre@,
                build: self.build@,
            },
        }
    }
}

impl Version {
    #[verifier::type_invariant]
    spec fn well_formed(&self) -> bool {
        semver_version(self.text@) == Some(
            VersionParts {
                major: self.major,
                minor: self.minor,
                patch: self.patch,
                pre: self.pre@,
                build: self.build@,
            },
        )
    }

    /// Reads a version. The text is taken as it stands.
    pub fn parse(text: &str) -> (r: Option<Version>)
        ensures
            r is Some <==> version_of(text@) is Some,
            r matches Some(v) ==> Some(v@) == version_of(text@),
    {
        match semver_parse_version(text) {
            Some((major, minor, patch, pre, build)) => Some(
                Version { text: text.to_owned(), major, minor, patch, pre, build },
            ),
            None => None,
        }
    }

    /// The text of the version. It is the text that the version was read
    /// from, and reading it again gives the same version.
    pub fn as_str(&self) -> (r: &str)
        ensures
            r@ == self@.text,
            version_of(r@) == Some(self@),
    {
        proof {
            use_type_invariant(self);
        }
        self.text.as_str()
    }

    pub fn major(&self) -> (r: u64)
        ensures
            r == self@.parts.major,
    {
        self.major
    }

    pub fn minor(&self) -> (r: u64)
        ensures
            r == self@.parts.minor,
    {
        self.minor
    }

    pub fn patch(&self) -> (r: u64)
        ensures
            r == self@.parts.patch,
    {
        self.patch
    }

    /// The pre-release tag, empty for a stable version.
    pub fn pre(&self) -> (r: &str)
        ensures
            r@ == self@.parts.pre,
    {
        self.pre.as_str()
    }

    /// The build metadata, empty where there is none.
    pub fn build(&self) -> (r: &str)
        ensures
            r@ == self@.parts.build,
    {
        self.build.as_str()
    }

    /// Whether the version carries no pre-release tag.
    pub fn is_stable(&self) -> (r: bool)
        ensures
            r == is_stable(self@.parts),
    {
        self.pre.as_str().is_empty()
    }

    /// Whether this version comes after `other` in the order of `semver`.
    pub fn exceeds(&self, other: &Version) -> (r: bool)
        ensures
            r == exceeds(self@.parts, other@.parts),
    {
        proof {
            use_type_invariant(self);
            use_type_invariant(other);
        }
        semver_version_exceeds(self.text.as_str(), other.text.as_str())
    }
}

impl Clone for Version {
    fn clone(&self) -> (r: Version)
        ensures
            r@ == self@,
    {
        proof {
            use_type_invariant(self);
        }
        Version {
            text: self.text.clone(),
            major: self.major,
            minor: self.minor,
            patch: self.patch,
            pre: self.pre.clone(),
            build: self.build.clone(),
        }
    }
}

impl View for VersionReq {
    type V = VersionReqView;

    closed spec fn view(&self) -> VersionReqView {
        VersionReqView { source: self.source@, shown: self.shown@ }
    }
}

impl VersionReq {
    #[verifier::type_invariant]
    spec fn well_formed(&self) -> bool {
        semver_requirement(self.source@) == Some(self.shown@)
    }

    /// Reads a range. The text is taken as it stands.
    pub fn parse(text: &str) -> (r: Option<VersionReq>)
        ensures
            r is Some <==> requirement_of(text@) is Some,
            r matches Some(q) ==> Some(q@) == requirement_of(text@),
    {
        match semver_parse_requirement(text) {
            Some(shown) => Some(VersionReq { source: text.to_owned(), shown }),
            None => None,
        }
    }

    /// Reads the range that a manifest declares: a single `v` directly
    /// before the version number is taken from the text first.
    pub fn parse_declared(text: &str) -> (r: Option<VersionReq>)
        ensures
            r is Some <==> declared_requirement(text@) is Some,
            r matches Some(q) ==> Some(q@) == declared_requirement(text@),
    {
        let stripped = strip_v_prefix(text);
        VersionReq::parse(stripped.as_str())
    }

    /// The range as `semver` prints it.
    pub fn as_str(&self) -> (r: &str)
        ensures
            r@ == self@.shown,
    {
        self.shown.as_str()
    }

    /// The text that the range was read from. Reading it again gives the
    /// same range.
    pub fn source(&self) -> (r: &str)
        ensures
            r@ == self@.source,
            requirement_of(r@) == Some(self@),
    {
        proof {
            use_type_invariant(self);
        }
        self.source.as_str()
    }

    /// Whether the range admits `version`.
    pub fn matches(&self, version: &Version) -> (r: bool)
        ensures
            r == admits(self@, version@),
    {
        proof {
            use_type_invariant(self);
            use_type_invariant(version);
        }
        semver_requirement_matches(self.source.as_str(), version.text.as_str())
    }
}

impl Clone for VersionReq {
    fn clone(&self) -> (r: VersionReq)
        ensures
            r@ == self@,
    {
        proof {
            use_type_invariant(self);
        }
        VersionReq { source: self.source.clone(), shown: self.shown.clone() }
    }
}

/// What an optional version stands for.
pub open spec fn version_view(version: Option<Version>) -> Option<VersionView> {
    match version {
        Some(v) => Some(v@),
        None => None,
    }
}

/// The stable version that the text stands for, taken as it stands. `None`
/// where it is no version, or carries a pre-release tag.
pub open spec fn stable_version_of(text: Seq<char>) -> Option<VersionView> {
    match version_of(text) {
        Some(v) => if is_stable(v.parts) {
            Some(v)
        } else {
            None
        },
        None => None,
    }
}

/// The views of the texts in `texts`, in order.
pub open spec fn texts_of(texts: Seq<String>) -> Seq<Seq<char>> {
    texts.map_values(|t: String| t@)
}

/// Reads a version and keeps it where it is stable.
pub fn parse_stable(text: &str) -> (r: Option<Version>)
    ensures
        version_view(r) == stable_version_of(text@),
        r matches Some(v) ==> is_stable(v@.parts),
{
    match Version::parse(text) {
        Some(v) => if v.is_stable() {
            Some(v)
        } else {
            None
        },
        None => None,
    }
}

/// Reads one entry of a registry's list of versions.
pub fn parse_stable_candidate(text: &str) -> (r: Option<Version>)
    ensures
        r is Some <==> stable_candidate(text@) is Some,
        r matches Some(v) ==> Some(v@) == stable_candidate(text@),
{
    match Version::parse(trim_v_prefix(text)) {
        Some(v) => if v.is_stable() {
            Some(v)
        } else {
            None
        },
        None => None,
    }
}

/// Reduces the versions that a registry lists to the highest stable one.
/// Entries that are no version, and entries with a pre-release tag, do not
/// count. Nothing is returned where no entry is left.
pub fn highest_stable_version(candidates: &Vec<String>) -> (r: Option<Version>)
    ensures
        r is Some <==> highest_stable(texts_of(candidates@)) is Some,
        r matches Some(v) ==> Some(v@) == highest_stable(texts_of(candidates@)),
        r matches Some(v) ==> is_stable(v@.parts),
{
    let ghost texts = texts_of(candidates@);
    let mut best: Option<Version> = None;
    let mut i: usize = 0;
    proof {
        assert(texts.take(0) =~= Seq::<Seq<char>>::empty());
    }
    while i < candidates.len()
        invariant
            i <= candidates.len(),
            texts == texts_of(candidates@),
            best is Some <==> highest_stable(texts.take(i as int)) is Some,
            best matches Some(v) ==> Some(v@) == highest_stable(texts.take(i as int)),
            best matches Some(v) ==> is_stable(v@.parts),
        decreases candidates.len() - i,
    {
        proof {
            assert(texts.take(i as int + 1).drop_last() =~= texts.take(i as int));
            assert(texts.take(i as int + 1).last() == candidates@[i as int]@);
        }
        match parse_stable_candidate(candidates[i].as_str()) {
            Some(v) => {
                let keep = match &best {
                    Some(b) => b.exceeds(&v),
                    None => false,
                };
                if !keep {
                    best = Some(v);
                }
            },
            None => {},
        }
        i += 1;
    }
    proof {
        assert(texts.take(i as int) =~= texts);
    }
    best
}

/// A single `v` directly before the version number is no part of a
/// declared range, at the start of the text and behind the leading
/// comparison operator and its spaces alike: with it the text declares what
/// it stands for without it. A second `v` is not taken away.
pub proof fn lemma_leading_v_is_no_part_of_a_range(prefix: Seq<char>, text: Seq<char>)
    requires
        is_range_prefix(prefix),
    ensures
        declared_requirement(prefix + seq!['v'] + text) == requirement_of(prefix + text),
{
    lemma_strip_v_takes_the_v_before_the_number(prefix, text);
}

/// What the highest stable version is. It is stable, and it is what some
/// entry of the list stands for. No entry stands for a stable version with
/// higher release numbers. Entries with a pre-release tag never count,
/// whatever their numbers. There is no highest stable version exactly if no
/// entry stands for a stable version.
pub proof fn lemma_highest_stable_is_the_highest(texts: Seq<Seq<char>>)
    ensures
        match highest_stable(texts) {
            Some(best) => {
                &&& is_stable(best.parts)
                &&& exists|i: int|
                    0 <= i < texts.len() && #[trigger] stable_candidate(texts[i]) == Some(best)
                &&& forall|j: int|
                    0 <= j < texts.len() ==> (#[trigger] stable_candidate(texts[j]) matches Some(
                        other,
                    ) ==> !precedes(best.parts, other.parts))
            },
            None => forall|j: int|
                0 <= j < texts.len() ==> #[trigger] stable_candidate(texts[j]) is None,
        },
    decreases texts.len(),
{
    if texts.len() > 0 {
        let front = texts.drop_last();
        lemma_highest_stable_is_the_highest(front);
        assert forall|j: int| 0 <= j < front.len() implies stable_candidate(front[j])
            == #[trigger] stable_candidate(texts[j]) by {
            assert(front[j] == texts[j]);
        }
        if let Some(before) = highest_stable(front) {
            let i = choose|i: int|
                0 <= i < front.len() && #[trigger] stable_candidate(front[i]) == Some(before);
            assert(stable_candidate(texts[i]) == Some(before));
        }
        if stable_candidate(texts.last()) is Some {
            assert(stable_candidate(texts[texts.len() - 1]) is Some);
        }
    }
}

} // verus!
