//! The report on one manifest, and the decision which kind of manifest a
//! file is.

use crate::classify::Resolved;
use crate::classify::filter_dependencies;
use crate::classify::get_published_versions;
use crate::classify::joined;
use crate::classify::lookups_of;
use crate::classify::pairs_of;
use crate::dependency::Dependency;
use crate::dependency::FatalError;
use crate::dependency::records_of;
use crate::partition::outdated_side;
use crate::partition::up_to_date_side;
use crate::text::same_text;
use crate::version::Version;
use vstd::prelude::*;
use vstd::string::*;

verus! {

/// The packaging ecosystems whose manifests are known by their file names.
#[derive(Clone, Copy, Debug, PartialEq, Eq, Structural)]
pub enum Ecosystem {
    Cargo,
    Composer,
    Npm,
}

/// The ecosystem whose manifests have this file name.
pub open spec fn ecosystem_named(file_name: Seq<char>) -> Option<Ecosystem> {
    if file_name == "Cargo.toml"@ {
        Some(Ecosystem::Cargo)
    } else if file_name == "composer.json"@ {
        Some(Ecosystem::Composer)
    } else if file_name == "package.json"@ {
        Some(Ecosystem::Npm)
    } else {
        None
    }
}

/// The line of the report for one dependency: its name, the version found,
/// the verdict, and the declared range.
pub open spec fn line_of(pair: Resolved, verdict: Seq<char>) -> Seq<char> {
    pair.0.name + ": "@ + pair.1.text + verdict + pair.0.requirement.shown + "\n"@
}

/// The lines for the dependencies of one side, in order.
pub open spec fn lines_of(pairs: Seq<Resolved>, verdict: Seq<char>) -> Seq<char>
    decreases pairs.len(),
{
    if pairs.len() == 0 {
        Seq::empty()
    } else {
        lines_of(pairs.drop_last(), verdict) + line_of(pairs.last(), verdict)
    }
}

/// The report: the dependencies that are up to date, one line each; then,
/// where there are outdated ones, an empty line and those, one line each.
/// A side without dependencies contributes nothing.
pub open spec fn report_of(outdated: Seq<Resolved>, up_to_date: Seq<Resolved>) -> Seq<char> {
    lines_of(up_to_date, " matches "@) + if outdated.len() > 0 {
        "\n"@ + lines_of(outdated, " doesn't match "@)
    } else {
        Seq::empty()
    }
}

/// Decides by its file name which kind of manifest a file is. Only the
/// name counts, not what the file holds.
pub fn ecosystem_of(file_name: &str) -> (r: Result<Ecosystem, FatalError>)
    ensures
        match ecosystem_named(file_name@) {
            Some(ecosystem) => r == Ok::<Ecosystem, FatalError>(ecosystem),
            None => r == Err::<Ecosystem, FatalError>(FatalError::UnrecognizedFileType),
        },
{
    if same_text(file_name, "Cargo.toml") {
        Ok(Ecosystem::Cargo)
    } else if same_text(file_name, "composer.json") {
        Ok(Ecosystem::Composer)
    } else if same_text(file_name, "package.json") {
        Ok(Ecosystem::Npm)
    } else {
        Err(FatalError::UnrecognizedFileType)
    }
}

/// Writes the lines for the dependencies of one side behind `text`.
fn append_lines<Dep: Dependency>(text: &mut String, pairs: &Vec<(&Dep, Version)>, verdict: &str)
    ensures
        final(text)@ == old(text)@ + lines_of(pairs_of(pairs@), verdict@),
{
    let ghost before = text@;
    let ghost all = pairs_of(pairs@);
    let mut i: usize = 0;
    proof {
        assert(all.take(0) =~= Seq::<Resolved>::empty());
        assert(text@ =~= before + lines_of(all.take(0), verdict@));
    }
    while i < pairs.len()
        invariant
            i <= pairs.len(),
            all == pairs_of(pairs@),
            text@ == before + lines_of(all.take(i as int), verdict@),
        decreases pairs.len() - i,
    {
        let ghost so_far = text@;
        text.append(pairs[i].0.name());
        text.append(": ");
        text.append(pairs[i].1.as_str());
        text.append(verdict);
        text.append(pairs[i].0.version_req().as_str());
        text.append("\n");
        proof {
            assert(all.take(i as int + 1).drop_last() =~= all.take(i as int));
            assert(all.take(i as int + 1).last() == all[i as int]);
            assert(text@ =~= so_far + line_of(all[i as int], verdict@));
            assert(text@ =~= before + lines_of(all.take(i as int + 1), verdict@));
        }
        i += 1;
    }
    proof {
        assert(all.take(i as int) =~= all);
    }
}

/// Renders the report for the two sides of the split.
pub fn out<Dep: Dependency>(
    outdated_dependencies: &Vec<(&Dep, Version)>,
    up_to_date_dependencies: &Vec<(&Dep, Version)>,
) -> (r: String)
    ensures
        r@ == report_of(pairs_of(outdated_dependencies@), pairs_of(up_to_date_dependencies@)),
{
    let mut text = String::new();
    if up_to_date_dependencies.len() != 0 {
        append_lines(&mut text, up_to_date_dependencies, " matches ");
    }
    proof {
        assert(text@ =~= lines_of(pairs_of(up_to_date_dependencies@), " matches "@));
    }
    if outdated_dependencies.len() != 0 {
        text.append("\n");
        append_lines(&mut text, outdated_dependencies, " doesn't match ");
    }
    proof {
        assert(text@ =~= report_of(
            pairs_of(outdated_dependencies@),
            pairs_of(up_to_date_dependencies@),
        ));
    }
    text
}

/// The report on the dependencies of one manifest, from the answers of the
/// lookups: which of them the highest stable version satisfies, and which
/// it does not. A dependency whose lookup found no version is not in the
/// report.
pub fn check<Dep: Dependency>(
    dependencies: &Vec<Dep>,
    lookups: &Vec<(&str, Option<Version>)>,
) -> (r: String)
    ensures
        r@ == report_of(
            outdated_side(records_of(dependencies@), joined(lookups_of(lookups@))),
            up_to_date_side(records_of(dependencies@), joined(lookups_of(lookups@))),
        ),
{
    let published_versions = get_published_versions(lookups);
    let (outdated, up_to_date) = filter_dependencies(dependencies, &published_versions);
    out(&outdated, &up_to_date)
}

} // verus!
