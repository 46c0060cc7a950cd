//! Joining the registries' answers, and splitting the dependencies into
//! those that are up to date and those that are outdated.

use crate::dependency::Dependency;
use crate::dependency::RecordView;
use crate::dependency::records_of;
use crate::text::name_le;
use crate::text::name_precedes_or_equals;
use crate::text::same_text;
use crate::version::Version;
use crate::version::VersionView;
use crate::version::admits;
use vstd::prelude::*;
use vstd::string::*;

verus! {

/// What a dependency and the version found for it stand for.
pub type Resolved = (RecordView, VersionView);

/// What a name and the version that a registry answered for it stand for.
pub type Published = (Seq<char>, VersionView);

/// What the answers of the lookups stand for, in order.
pub open spec fn lookups_of(lookups: Seq<(&str, Option<Version>)>) -> Seq<
    (Seq<char>, Option<VersionView>),
> {
    lookups.map_values(
        |l: (&str, Option<Version>)|
            (
                l.0@,
                match l.1 {
                    Some(v) => Some(v@),
                    None => None,
                },
            ),
    )
}

/// What the published versions stand for, in order.
pub open spec fn published_of(published: Seq<(&str, Version)>) -> Seq<Published> {
    published.map_values(|p: (&str, Version)| (p.0@, p.1@))
}

/// What the pairs of a partition stand for, in order.
pub open spec fn pairs_of<Dep: Dependency>(pairs: Seq<(&Dep, Version)>) -> Seq<Resolved> {
    pairs.map_values(|p: (&Dep, Version)| (p.0.record(), p.1@))
}

/// The answer of a lookup that found a version.
pub open spec fn found() -> spec_fn((Seq<char>, Option<VersionView>)) -> Option<Published> {
    |l: (Seq<char>, Option<VersionView>)|
        match l.1 {
            Some(v) => Some((l.0, v)),
            None => None,
        }
}

/// The versions that the lookups found, in the order of the lookups.
/// Lookups that found none leave no entry.
pub open spec fn joined(lookups: Seq<(Seq<char>, Option<VersionView>)>) -> Seq<Published> {
    lookups.filter_map(found())
}

/// The version that was found for `name`: that of the first entry of
/// `published` with this name.
pub open spec fn resolved_version(published: Seq<Published>, name: Seq<char>) -> Option<
    VersionView,
>
    decreases published.len(),
{
    if published.len() == 0 {
        None
    } else if published[0].0 == name {
        Some(published[0].1)
    } else {
        resolved_version(published.drop_first(), name)
    }
}

/// The record with the version found for it, where one was found and the
/// declared range admits it exactly if `up_to_date` says so.
pub open spec fn classified(published: Seq<Published>, up_to_date: bool) -> spec_fn(
    RecordView,
) -> Option<Resolved> {
    |record: RecordView|
        match resolved_version(published, record.name) {
            Some(version) => if admits(record.requirement, version) == up_to_date {
                Some((record, version))
            } else {
                None
            },
            None => None,
        }
}

/// One side of the split, in the order of the manifest: with `up_to_date`
/// the records whose range admits the version found for them, without it
/// those whose range does not. Records for which no version was found are
/// on neither side.
pub open spec fn selected(
    records: Seq<RecordView>,
    published: Seq<Published>,
    up_to_date: bool,
) -> Seq<Resolved> {
    records.filter_map(classified(published, up_to_date))
}

/// `sorted` with `item` put behind the last entry whose name does not come
/// after the item's.
pub open spec fn insert_by_name(sorted: Seq<Resolved>, item: Resolved) -> Seq<Resolved>
    decreases sorted.len(),
{
    if sorted.len() == 0 {
        seq![item]
    } else if name_le(sorted.last().0.name, item.0.name) {
        sorted.push(item)
    } else {
        insert_by_name(sorted.drop_last(), item).push(sorted.last())
    }
}

/// `pairs` in ascending order of their names. Pairs of one name keep the
/// order that they have in `pairs`.
pub open spec fn sorted_by_name(pairs: Seq<Resolved>) -> Seq<Resolved>
    decreases pairs.len(),
{
    if pairs.len() == 0 {
        Seq::empty()
    } else {
        insert_by_name(sorted_by_name(pairs.drop_last()), pairs.last())
    }
}

/// Whether the names of `pairs` ascend.
pub open spec fn ascending(pairs: Seq<Resolved>) -> bool {
    forall|i: int, j: int|
        0 <= i <= j < pairs.len() ==> name_le(
            (#[trigger] pairs[i]).0.name,
            (#[trigger] pairs[j]).0.name,
        )
}

/// Where the item goes: behind the `k` first entries, if none of the later
/// entries has a name that comes before or is the item's, and the entry just
/// before has one.
pub proof fn lemma_insert_by_name_at(sorted: Seq<Resolved>, item: Resolved, k: int)
    requires
        0 <= k <= sorted.len(),
        forall|j: int|
            k <= j < sorted.len() ==> !name_le((#[trigger] sorted[j]).0.name, item.0.name),
        k > 0 ==> name_le(sorted[k - 1].0.name, item.0.name),
    ensures
        insert_by_name(sorted, item) == sorted.take(k).push(item) + sorted.skip(k),
    decreases sorted.len(),
{
    if sorted.len() == 0 {
        assert(insert_by_name(sorted, item) =~= sorted.take(k).push(item) + sorted.skip(k));
    } else if k == sorted.len() {
        assert(sorted.push(item) =~= sorted.take(k).push(item) + sorted.skip(k));
    } else {
        let front = sorted.drop_last();
        assert(!name_le(sorted[sorted.len() - 1].0.name, item.0.name));
        assert forall|j: int| k <= j < front.len() implies !name_le(
            (#[trigger] front[j]).0.name,
            item.0.name,
        ) by {
            assert(front[j] == sorted[j]);
        }
        lemma_insert_by_name_at(front, item, k);
        assert((front.take(k).push(item) + front.skip(k)).push(sorted.last()) =~= sorted.take(
            k,
        ).push(item) + sorted.skip(k));
    }
}

/// Joins the answers of the lookups: the names for which a version was
/// found, each with its version, in the order of the lookups. A lookup that
/// failed leaves no entry, and takes none away.
pub fn get_published_versions<'a>(lookups: &Vec<(&'a str, Option<Version>)>) -> (r: Vec<
    (&'a str, Version),
>)
    ensures
        published_of(r@) == joined(lookups_of(lookups@)),
{
    let ghost answers = lookups_of(lookups@);
    let mut published: Vec<(&'a str, Version)> = Vec::new();
    let mut i: usize = 0;
    proof {
        assert(answers.take(0) =~= Seq::<(Seq<char>, Option<VersionView>)>::empty());
        assert(published_of(published@) =~= joined(answers.take(0)));
    }
    while i < lookups.len()
        invariant
            i <= lookups.len(),
            answers == lookups_of(lookups@),
            published_of(published@) == joined(answers.take(i as int)),
        decreases lookups.len() - i,
    {
        let ghost so_far = published_of(published@);
        proof {
            answers.lemma_filter_map_take_succ(found(), i as int);
        }
        match &lookups[i].1 {
            Some(version) => {
                let entry = (lookups[i].0, version.clone());
                published.push(entry);
                proof {
                    assert(published_of(published@) =~= so_far + seq![(entry.0@, entry.1@)]);
                }
            },
            None => {},
        }
        proof {
            assert(published_of(published@) =~= joined(answers.take(i as int + 1)));
        }
        i += 1;
    }
    proof {
        assert(answers.take(i as int) =~= answers);
    }
    published
}

/// Looks up the version that was found for a name.
pub fn find_version<'p>(published: &'p Vec<(&str, Version)>, name: &str) -> (r: Option<
    &'p Version,
>)
    ensures
        match resolved_version(published_of(published@), name@) {
            Some(version) => r matches Some(v) && v@ == version,
            None => r is None,
        },
{
    let ghost entries = published_of(published@);
    let mut i: usize = 0;
    proof {
        assert(entries.skip(0) =~= entries);
    }
    while i < published.len()
        invariant
            i <= published.len(),
            entries == published_of(published@),
            resolved_version(entries, name@) == resolved_version(entries.skip(i as int), name@),
        decreases published.len() - i,
    {
        proof {
            assert(entries.skip(i as int)[0] == entries[i as int]);
        }
        if same_text(published[i].0, name) {
            return Some(&published[i].1);
        }
        proof {
            assert(entries.skip(i as int).drop_first() =~= entries.skip(i as int + 1));
        }
        i += 1;
    }
    None
}

/// Puts a pair into a partition, behind the last pair whose name does not
/// come after its own.
pub fn insert_sorted<'a, Dep: Dependency>(
    partition: &mut Vec<(&'a Dep, Version)>,
    pair: (&'a Dep, Version),
)
    ensures
        pairs_of(final(partition)@) == insert_by_name(
            pairs_of(old(partition)@),
            (pair.0.record(), pair.1@),
        ),
        forall|j: int|
            0 <= j < final(partition)@.len() ==> (#[trigger] final(partition)@[j]) == pair || old(
                partition,
            )@.contains(final(partition)@[j]),
{
    let ghost before = pairs_of(partition@);
    let ghost item = (pair.0.record(), pair.1@);
    let mut k: usize = partition.len();
    while k > 0 && !name_precedes_or_equals(partition[k - 1].0.name(), pair.0.name())
        invariant
            k <= partition.len(),
            before == pairs_of(partition@),
            item == (pair.0.record(), pair.1@),
            forall|j: int|
                k <= j < before.len() ==> !name_le((#[trigger] before[j]).0.name, item.0.name),
        decreases k,
    {
        k -= 1;
    }
    proof {
        lemma_insert_by_name_at(before, item, k as int);
    }
    let ghost held = partition@;
    partition.insert(k, pair);
    proof {
        assert(pairs_of(partition@) =~= before.take(k as int).push(item) + before.skip(k as int));
        assert forall|j: int| 0 <= j < partition@.len() implies (#[trigger] partition@[j]) == pair
            || held.contains(partition@[j]) by {
            if j < k {
                assert(held[j] == partition@[j]);
            } else if j > k {
                assert(held[j - 1] == partition@[j]);
            }
        }
    }
}

/// Splits the dependencies by the versions that were found for them. The
/// first list holds the outdated ones, whose declared range does not admit
/// the version found; the second those that are up to date. A dependency for
/// which no version was found is in neither. Both lists ascend by name, and
/// dependencies of one name keep the order of the manifest.
pub fn filter_dependencies<'a, Dep: Dependency>(
    dependencies_to_check: &'a Vec<Dep>,
    published_versions: &Vec<(&str, Version)>,
) -> (r: (Vec<(&'a Dep, Version)>, Vec<(&'a Dep, Version)>))
    ensures
        pairs_of(r.0@) == sorted_by_name(
            selected(records_of(dependencies_to_check@), published_of(published_versions@), false),
        ),
        pairs_of(r.1@) == sorted_by_name(
            selected(records_of(dependencies_to_check@), published_of(published_versions@), true),
        ),
        ascending(pairs_of(r.0@)),
        ascending(pairs_of(r.1@)),
        forall|k: int|
            0 <= k < r.0@.len() ==> dependencies_to_check@.contains(*(#[trigger] r.0@[k]).0),
        forall|k: int|
            0 <= k < r.1@.len() ==> dependencies_to_check@.contains(*(#[trigger] r.1@[k]).0),
{
    let ghost records = records_of(dependencies_to_check@);
    let ghost published = published_of(published_versions@);
    let mut outdated: Vec<(&'a Dep, Version)> = Vec::new();
    let mut up_to_date: Vec<(&'a Dep, Version)> = Vec::new();
    let mut i: usize = 0;
    proof {
        assert(records.take(0) =~= Seq::<RecordView>::empty());
        assert(pairs_of(outdated@) =~= sorted_by_name(
            selected(records.take(0), published, false),
        ));
        assert(pairs_of(up_to_date@) =~= sorted_by_name(
            selected(records.take(0), published, true),
        ));
    }
    while i < dependencies_to_check.len()
        invariant
            i <= dependencies_to_check.len(),
            records == records_of(dependencies_to_check@),
            published == published_of(published_versions@),
            pairs_of(outdated@) == sorted_by_name(
                selected(records.take(i as int), published, false),
            ),
            pairs_of(up_to_date@) == sorted_by_name(
                selected(records.take(i as int), published, true),
            ),
            forall|k: int|
                0 <= k < outdated@.len() ==> dependencies_to_check@.contains(
                    *(#[trigger] outdated@[k]).0,
                ),
            forall|k: int|
                0 <= k < up_to_date@.len() ==> dependencies_to_check@.contains(
                    *(#[trigger] up_to_date@[k]).0,
                ),
        decreases dependencies_to_check.len() - i,
    {
        let dependency = &dependencies_to_check[i];
        let ghost held_outdated = outdated@;
        let ghost held_up_to_date = up_to_date@;
        let ghost old_outdated = selected(records.take(i as int), published, false);
        let ghost old_up_to_date = selected(records.take(i as int), published, true);
        proof {
            records.lemma_filter_map_take_succ(classified(published, false), i as int);
            records.lemma_filter_map_take_succ(classified(published, true), i as int);
            assert(records[i as int] == dependency.record());
        }
        match find_version(published_versions, dependency.name()) {
            Some(version) => {
                let ghost item = (dependency.record(), version@);
                if dependency.version_req().matches(version) {
                    insert_sorted(&mut up_to_date, (dependency, version.clone()));
                    proof {
                        assert((old_up_to_date + seq![item]).drop_last() =~= old_up_to_date);
                    }
                } else {
                    insert_sorted(&mut outdated, (dependency, version.clone()));
                    proof {
                        assert((old_outdated + seq![item]).drop_last() =~= old_outdated);
                    }
                }
            },
            None => {},
        }
        proof {
            assert(dependencies_to_check@.contains(*dependency));
            assert forall|k: int| 0 <= k < outdated@.len() implies dependencies_to_check@.contains(
                *(#[trigger] outdated@[k]).0,
            ) by {
                if held_outdated.contains(outdated@[k]) {
                    let m = choose|m: int|
                        0 <= m < held_outdated.len() && held_outdated[m] == outdated@[k];
                    assert(dependencies_to_check@.contains(*held_outdated[m].0));
                }
            }
            assert forall|k: int|
                0 <= k < up_to_date@.len() implies dependencies_to_check@.contains(
                *(#[trigger] up_to_date@[k]).0,
            ) by {
                if held_up_to_date.contains(up_to_date@[k]) {
                    let m = choose|m: int|
                        0 <= m < held_up_to_date.len() && held_up_to_date[m] == up_to_date@[k];
                    assert(dependencies_to_check@.contains(*held_up_to_date[m].0));
                }
            }
            assert(selected(records.take(i as int + 1), published, false) =~= old_outdated
                + match classified(published, false)(records[i as int]) {
                Some(p) => seq![p],
                None => Seq::empty(),
            });
            assert(selected(records.take(i as int + 1), published, true) =~= old_up_to_date
                + match classified(published, true)(records[i as int]) {
                Some(p) => seq![p],
                None => Seq::empty(),
            });
        }
        i += 1;
    }
    proof {
        assert(records.take(i as int) =~= records);
        lemma_sorted_by_name_ascends(selected(records, published, false));
        lemma_sorted_by_name_ascends(selected(records, published, true));
    }
    (outdated, up_to_date)
}

/// Putting a pair into an ascending list leaves the list ascending.
pub proof fn lemma_insert_by_name_ascends(sorted: Seq<Resolved>, item: Resolved)
    requires
        ascending(sorted),
    ensures
        ascending(insert_by_name(sorted, item)),
        insert_by_name(sorted, item).len() == sorted.len() + 1,
    decreases sorted.len(),
{
    let result = insert_by_name(sorted, item);
    if sorted.len() == 0 {
        crate::text::lemma_name_le_reflexive(item.0.name);
    } else if name_le(sorted.last().0.name, item.0.name) {
        crate::text::lemma_name_le_reflexive(item.0.name);
        assert forall|i: int, j: int| 0 <= i <= j < result.len() implies name_le(
            (#[trigger] result[i]).0.name,
            (#[trigger] result[j]).0.name,
        ) by {
            if j == sorted.len() && i < sorted.len() {
                assert(name_le(sorted[i].0.name, sorted[sorted.len() - 1].0.name));
                crate::text::lemma_name_le_transitive(
                    sorted[i].0.name,
                    sorted.last().0.name,
                    item.0.name,
                );
            }
        }
    } else {
        let front = sorted.drop_last();
        assert forall|i: int, j: int| 0 <= i <= j < front.len() implies name_le(
            (#[trigger] front[i]).0.name,
            (#[trigger] front[j]).0.name,
        ) by {
            assert(front[i] == sorted[i] && front[j] == sorted[j]);
        }
        lemma_insert_by_name_ascends(front, item);
        lemma_insert_by_name_holds(front, item);
        let inner = insert_by_name(front, item);
        crate::text::lemma_name_le_total(sorted.last().0.name, item.0.name);
        crate::text::lemma_name_le_reflexive(sorted.last().0.name);
        assert forall|i: int, j: int| 0 <= i <= j < result.len() implies name_le(
            (#[trigger] result[i]).0.name,
            (#[trigger] result[j]).0.name,
        ) by {
            if j == inner.len() && i < inner.len() {
                if inner[i] == item {
                } else {
                    let m = choose|m: int| 0 <= m < front.len() && front[m] == inner[i];
                    assert(name_le(sorted[m].0.name, sorted[sorted.len() - 1].0.name));
                }
            } else if j < inner.len() {
                assert(result[i] == inner[i] && result[j] == inner[j]);
            }
        }
    }
}

/// What a list holds after a pair was put into it: the pair, and what it
/// held before.
pub proof fn lemma_insert_by_name_holds(sorted: Seq<Resolved>, item: Resolved)
    ensures
        forall|i: int|
            0 <= i < insert_by_name(sorted, item).len() ==> (#[trigger] insert_by_name(
                sorted,
                item,
            )[i]) == item || exists|m: int|
                0 <= m < sorted.len() && sorted[m] == insert_by_name(sorted, item)[i],
        insert_by_name(sorted, item).to_multiset() == sorted.to_multiset().insert(item),
    decreases sorted.len(),
{
    broadcast use vstd::seq_lib::group_to_multiset_ensures;

    let result = insert_by_name(sorted, item);
    if sorted.len() == 0 {
        assert(result =~= Seq::<Resolved>::empty().push(item));
        assert(sorted =~= Seq::<Resolved>::empty());
    } else if name_le(sorted.last().0.name, item.0.name) {
        assert forall|i: int| 0 <= i < result.len() implies (#[trigger] result[i]) == item
            || exists|m: int| 0 <= m < sorted.len() && sorted[m] == result[i] by {
            if i < sorted.len() {
                assert(sorted[i] == result[i]);
            }
        }
    } else {
        let front = sorted.drop_last();
        lemma_insert_by_name_holds(front, item);
        let inner = insert_by_name(front, item);
        assert forall|i: int| 0 <= i < result.len() implies (#[trigger] result[i]) == item
            || exists|m: int| 0 <= m < sorted.len() && sorted[m] == result[i] by {
            if i < inner.len() {
                assert(result[i] == inner[i]);
                if inner[i] != item {
                    let m = choose|m: int| 0 <= m < front.len() && front[m] == inner[i];
                    assert(sorted[m] == result[i]);
                }
            } else {
                assert(sorted[sorted.len() - 1] == result[i]);
            }
        }
        assert(sorted =~= front.push(sorted.last()));
        assert(result.to_multiset() =~= sorted.to_multiset().insert(item));
    }
}

/// The sorted list ascends by name, and is as long as the list it was made
/// of.
pub proof fn lemma_sorted_by_name_ascends(pairs: Seq<Resolved>)
    ensures
        ascending(sorted_by_name(pairs)),
        sorted_by_name(pairs).len() == pairs.len(),
    decreases pairs.len(),
{
    if pairs.len() > 0 {
        lemma_sorted_by_name_ascends(pairs.drop_last());
        lemma_insert_by_name_ascends(sorted_by_name(pairs.drop_last()), pairs.last());
    }
}

/// Sorting neither adds a pair nor loses one: the sorted list holds each
/// pair as often as the list it was made of.
pub proof fn lemma_sorted_by_name_permutes(pairs: Seq<Resolved>)
    ensures
        sorted_by_name(pairs).to_multiset() == pairs.to_multiset(),
    decreases pairs.len(),
{
    broadcast use vstd::seq_lib::group_to_multiset_ensures;

    if pairs.len() > 0 {
        lemma_sorted_by_name_permutes(pairs.drop_last());
        lemma_insert_by_name_holds(sorted_by_name(pairs.drop_last()), pairs.last());
        assert(pairs =~= pairs.drop_last().push(pairs.last()));
    } else {
        assert(sorted_by_name(pairs) =~= pairs);
    }
}

} // verus!
