//! What holds of the two sides into which the dependencies are split.

use crate::classify::Published;
use crate::classify::Resolved;
use crate::classify::classified;
use crate::classify::insert_by_name;
use crate::classify::lemma_sorted_by_name_permutes;
use crate::classify::resolved_version;
use crate::classify::selected;
use crate::classify::sorted_by_name;
use crate::dependency::RecordView;
use crate::dependency::composer::composer_members;
use crate::dependency::composer::composer_records;
use crate::dependency::composer::package;
use crate::dependency::declared_member_fn;
use crate::dependency::section_of;
use crate::json::Json;
use crate::json::find_member;
use crate::json::names_of;
use crate::text::lemma_name_le_reflexive;
use crate::text::name_le;
use crate::version::VersionView;
use crate::version::admits;
use vstd::prelude::*;

verus! {

/// The outdated side of the split, as the report lists it.
pub open spec fn outdated_side(records: Seq<RecordView>, published: Seq<Published>) -> Seq<
    Resolved,
> {
    sorted_by_name(selected(records, published, false))
}

/// The side of the split that is up to date, as the report lists it.
pub open spec fn up_to_date_side(records: Seq<RecordView>, published: Seq<Published>) -> Seq<
    Resolved,
> {
    sorted_by_name(selected(records, published, true))
}

/// Whether no two of the records have one name.
pub open spec fn distinct_record_names(records: Seq<RecordView>) -> bool {
    forall|a: int, b: int|
        0 <= a < b < records.len() ==> (#[trigger] records[a]).name != (#[trigger] records[b]).name
}

/// Whether no two of the pairs have one name.
pub open spec fn distinct_names(pairs: Seq<Resolved>) -> bool {
    forall|a: int, b: int|
        0 <= a < b < pairs.len() ==> (#[trigger] pairs[a]).0.name != (#[trigger] pairs[b]).0.name
}

/// The names of the pairs.
pub open spec fn names_in(pairs: Seq<Resolved>) -> Set<Seq<char>> {
    Set::new(
        |name: Seq<char>|
            exists|k: int| 0 <= k < pairs.len() && (#[trigger] pairs[k]).0.name == name,
    )
}

/// The names of the records for which a version was found.
pub open spec fn resolved_names(records: Seq<RecordView>, published: Seq<Published>) -> Set<
    Seq<char>,
> {
    Set::new(
        |name: Seq<char>|
            resolved_version(published, name) is Some && exists|i: int|
                0 <= i < records.len() && (#[trigger] records[i]).name == name,
    )
}

/// A pair is on a side of the unsorted split exactly if it is a record with
/// the version found for it, and the record's range admits that version as
/// the side asks.
pub proof fn lemma_selected_holds(
    records: Seq<RecordView>,
    published: Seq<Published>,
    up_to_date: bool,
    pair: Resolved,
)
    ensures
        selected(records, published, up_to_date).contains(pair) <==> (records.contains(pair.0)
            && resolved_version(published, pair.0.name) == Some(pair.1) && admits(
            pair.0.requirement,
            pair.1,
        ) == up_to_date),
    decreases records.len(),
{
    let f = classified(published, up_to_date);
    let side = selected(records, published, up_to_date);
    if records.len() == 0 {
        assert(side =~= Seq::<Resolved>::empty());
    } else {
        let front = records.drop_last();
        let last = records.last();
        lemma_selected_holds(front, published, up_to_date, pair);
        let before = selected(front, published, up_to_date);
        assert(records =~= front.push(last));
        if front.contains(pair.0) {
            let i = choose|i: int| 0 <= i < front.len() && front[i] == pair.0;
            assert(records[i] == pair.0);
        }
        if records.contains(pair.0) {
            let i = choose|i: int| 0 <= i < records.len() && records[i] == pair.0;
            if i < front.len() {
                assert(front[i] == pair.0);
            }
        }
        match f(last) {
            Some(p) => {
                assert(side =~= before.push(p));
                if before.contains(pair) {
                    let k = choose|k: int| 0 <= k < before.len() && before[k] == pair;
                    assert(side[k] == pair);
                }
                if p == pair {
                    assert(side[side.len() - 1] == pair);
                    assert(records[records.len() - 1] == pair.0);
                }
                if side.contains(pair) {
                    let k = choose|k: int| 0 <= k < side.len() && side[k] == pair;
                    if k < before.len() {
                        assert(before[k] == pair);
                    }
                }
            },
            None => {
                assert(side =~= before);
            },
        }
    }
}

/// A pair is on a side of the split exactly if it is on that side before
/// the side is sorted.
pub proof fn lemma_sorting_keeps_pairs(pairs: Seq<Resolved>, pair: Resolved)
    ensures
        sorted_by_name(pairs).contains(pair) <==> pairs.contains(pair),
{
    broadcast use vstd::seq_lib::group_to_multiset_ensures;

    lemma_sorted_by_name_permutes(pairs);
    assert(sorted_by_name(pairs).to_multiset().count(pair) == pairs.to_multiset().count(pair));
}

/// Every dependency for which a version was found is on exactly one side
/// of the split, and the side is decided by whether the declared range
/// admits the version: on the side that is up to date if it does, on the
/// outdated side if it does not.
pub proof fn lemma_resolved_dependency_is_on_one_side(
    records: Seq<RecordView>,
    published: Seq<Published>,
    i: int,
    version: VersionView,
)
    requires
        0 <= i < records.len(),
        resolved_version(published, records[i].name) == Some(version),
    ensures
        up_to_date_side(records, published).contains((records[i], version)) <==> admits(
            records[i].requirement,
            version,
        ),
        outdated_side(records, published).contains((records[i], version)) <==> !admits(
            records[i].requirement,
            version,
        ),
{
    let pair = (records[i], version);
    assert(records.contains(pair.0));
    lemma_selected_holds(records, published, true, pair);
    lemma_selected_holds(records, published, false, pair);
    lemma_sorting_keeps_pairs(selected(records, published, true), pair);
    lemma_sorting_keeps_pairs(selected(records, published, false), pair);
}

/// A dependency for which no version was found is on neither side of the
/// split, with whatever version.
pub proof fn lemma_unresolved_dependency_is_on_no_side(
    records: Seq<RecordView>,
    published: Seq<Published>,
    record: RecordView,
    version: VersionView,
)
    requires
        resolved_version(published, record.name) is None,
    ensures
        !up_to_date_side(records, published).contains((record, version)),
        !outdated_side(records, published).contains((record, version)),
{
    let pair = (record, version);
    lemma_selected_holds(records, published, true, pair);
    lemma_selected_holds(records, published, false, pair);
    lemma_sorting_keeps_pairs(selected(records, published, true), pair);
    lemma_sorting_keeps_pairs(selected(records, published, false), pair);
}

/// The names on the two sides of the split are together the names of the
/// declared dependencies for which a version was found.
pub proof fn lemma_sides_hold_the_resolved_names(
    records: Seq<RecordView>,
    published: Seq<Published>,
)
    ensures
        names_in(up_to_date_side(records, published)).union(
            names_in(outdated_side(records, published)),
        ) == resolved_names(records, published),
{
    let up = up_to_date_side(records, published);
    let out = outdated_side(records, published);
    let left = names_in(up).union(names_in(out));
    let right = resolved_names(records, published);
    assert forall|name: Seq<char>| left.contains(name) implies right.contains(name) by {
        let pair = if names_in(up).contains(name) {
            let k = choose|k: int| 0 <= k < up.len() && (#[trigger] up[k]).0.name == name;
            up[k]
        } else {
            let k = choose|k: int| 0 <= k < out.len() && (#[trigger] out[k]).0.name == name;
            out[k]
        };
        assert(up.contains(pair) || out.contains(pair));
        lemma_sorting_keeps_pairs(selected(records, published, true), pair);
        lemma_sorting_keeps_pairs(selected(records, published, false), pair);
        lemma_selected_holds(records, published, true, pair);
        lemma_selected_holds(records, published, false, pair);
        let i = choose|i: int| 0 <= i < records.len() && records[i] == pair.0;
        assert(records[i].name == name);
    }
    assert forall|name: Seq<char>| right.contains(name) implies left.contains(name) by {
        let i = choose|i: int| 0 <= i < records.len() && (#[trigger] records[i]).name == name;
        let version = resolved_version(published, name)->0;
        lemma_resolved_dependency_is_on_one_side(records, published, i, version);
        let pair = (records[i], version);
        if up.contains(pair) {
            let k = choose|k: int| 0 <= k < up.len() && up[k] == pair;
            assert(up[k].0.name == name);
        } else {
            let k = choose|k: int| 0 <= k < out.len() && out[k] == pair;
            assert(out[k].0.name == name);
        }
    }
    assert(left =~= right);
}

/// Where no two pairs of a list have one name, no two pairs have one name
/// in any list that holds each pair as often.
pub proof fn lemma_reordering_keeps_names_distinct(pairs: Seq<Resolved>, reordered: Seq<Resolved>)
    requires
        distinct_names(pairs),
        pairs.to_multiset() == reordered.to_multiset(),
    ensures
        distinct_names(reordered),
{
    broadcast use vstd::seq_lib::group_to_multiset_ensures;

    assert forall|a: int, b: int| 0 <= a < b < reordered.len() implies (
    #[trigger] reordered[a]).0.name != (#[trigger] reordered[b]).0.name by {
        let x = reordered[a];
        let y = reordered[b];
        assert(reordered.contains(x) && reordered.contains(y));
        assert(reordered.to_multiset().count(x) > 0);
        assert(reordered.to_multiset().count(y) > 0);
        assert(pairs.contains(x) && pairs.contains(y));
        let p = choose|p: int| 0 <= p < pairs.len() && pairs[p] == x;
        let q = choose|q: int| 0 <= q < pairs.len() && pairs[q] == y;
        if x == y {
            assert(pairs.no_duplicates()) by {
                assert forall|m: int, n: int|
                    0 <= m < pairs.len() && 0 <= n < pairs.len() && m != n implies pairs[m]
                    != pairs[n] by {
                    if m < n {
                        assert(pairs[m].0.name != pairs[n].0.name);
                    } else {
                        assert(pairs[n].0.name != pairs[m].0.name);
                    }
                }
            }
            pairs.lemma_multiset_has_no_duplicates();
            assert(pairs.to_multiset().count(x) <= 1);
            assert(reordered.to_multiset().count(x) <= 1);
            assert(!reordered.no_duplicates());
            reordered.lemma_multiset_has_no_duplicates_conv();
            assert(false);
        } else {
            if p < q {
                assert(pairs[p].0.name != pairs[q].0.name);
            } else if q < p {
                assert(pairs[q].0.name != pairs[p].0.name);
            }
        }
    }
}

/// Where no two declared dependencies have one name, no name is twice on
/// the two sides of the split: neither twice on one side, nor once on each.
pub proof fn lemma_no_name_is_on_the_sides_twice(
    records: Seq<RecordView>,
    published: Seq<Published>,
)
    requires
        distinct_record_names(records),
    ensures
        distinct_names(up_to_date_side(records, published) + outdated_side(records, published)),
{
    broadcast use vstd::seq_lib::group_to_multiset_ensures;

    let first = selected(records, published, true);
    let second = selected(records, published, false);
    let unsorted = first + second;
    lemma_selected_names_distinct(records, published, true);
    lemma_selected_names_distinct(records, published, false);
    assert forall|a: int, b: int| 0 <= a < b < unsorted.len() implies (
    #[trigger] unsorted[a]).0.name != (#[trigger] unsorted[b]).0.name by {
        if b < first.len() {
            assert(unsorted[a] == first[a] && unsorted[b] == first[b]);
        } else if a >= first.len() {
            assert(unsorted[a] == second[a - first.len()]);
            assert(unsorted[b] == second[b - first.len()]);
        } else {
            let x = first[a];
            let y = second[b - first.len()];
            assert(first.contains(x) && second.contains(y));
            lemma_selected_holds(records, published, true, x);
            lemma_selected_holds(records, published, false, y);
            if x.0.name == y.0.name {
                let i = choose|i: int| 0 <= i < records.len() && records[i] == x.0;
                let j = choose|j: int| 0 <= j < records.len() && records[j] == y.0;
                if i < j {
                    assert(records[i].name != records[j].name);
                } else if j < i {
                    assert(records[j].name != records[i].name);
                }
                assert(false);
            }
        }
    }
    lemma_sorted_by_name_permutes(first);
    lemma_sorted_by_name_permutes(second);
    vstd::seq_lib::lemma_multiset_commutative(first, second);
    vstd::seq_lib::lemma_multiset_commutative(sorted_by_name(first), sorted_by_name(second));
    lemma_reordering_keeps_names_distinct(
        unsorted,
        sorted_by_name(first) + sorted_by_name(second),
    );
}

/// The name of a record, as a function value.
pub open spec fn record_name() -> spec_fn(RecordView) -> Seq<char> {
    |record: RecordView| record.name
}

/// The name of a pair, as a function value.
pub open spec fn pair_name() -> spec_fn(Resolved) -> Seq<char> {
    |pair: Resolved| pair.0.name
}

/// The name of a member, as a function value.
pub open spec fn member_name() -> spec_fn((String, Json)) -> Seq<char> {
    |member: (String, Json)| member.0@
}

/// Whether no two of the items have one name.
pub open spec fn names_differ<A>(items: Seq<A>, name: spec_fn(A) -> Seq<char>) -> bool {
    forall|a: int, b: int|
        0 <= a < b < items.len() ==> name(#[trigger] items[a]) != name(#[trigger] items[b])
}

/// Where no two items have one name, and what is kept of an item has the
/// item's name, no two of the kept have one name.
pub proof fn lemma_kept_names_differ<A, B>(
    items: Seq<A>,
    keep: spec_fn(A) -> Option<B>,
    name: spec_fn(A) -> Seq<char>,
    kept_name: spec_fn(B) -> Seq<char>,
)
    requires
        names_differ(items, name),
        forall|x: A| #[trigger] keep(x) is Some ==> kept_name(keep(x)->0) == name(x),
    ensures
        names_differ(items.filter_map(keep), kept_name),
    decreases items.len(),
{
    let kept = items.filter_map(keep);
    if items.len() > 0 {
        let front = items.drop_last();
        let last = items.last();
        assert forall|a: int, b: int| 0 <= a < b < front.len() implies name(#[trigger] front[a])
            != name(#[trigger] front[b]) by {
            assert(front[a] == items[a] && front[b] == items[b]);
        }
        lemma_kept_names_differ(front, keep, name, kept_name);
        let before = front.filter_map(keep);
        match keep(last) {
            Some(y) => {
                assert(kept =~= before.push(y));
                assert forall|a: int, b: int| 0 <= a < b < kept.len() implies kept_name(
                    #[trigger] kept[a],
                ) != kept_name(#[trigger] kept[b]) by {
                    if b == before.len() {
                        assert(before.contains(before[a]));
                        front.lemma_filter_map_contains(keep, before[a]);
                        let x = choose|x: A| #[trigger]
                            front.contains(x) && keep(x) == Some(before[a]);
                        let i = choose|i: int| 0 <= i < front.len() && front[i] == x;
                        assert(name(items[i]) != name(items[items.len() - 1]));
                    } else {
                        assert(kept[a] == before[a] && kept[b] == before[b]);
                    }
                }
            },
            None => {
                assert(kept =~= before);
            },
        }
    }
}

/// Where no two declared dependencies have one name, no two pairs on a side
/// of the unsorted split have one.
pub proof fn lemma_selected_names_distinct(
    records: Seq<RecordView>,
    published: Seq<Published>,
    up_to_date: bool,
)
    requires
        distinct_record_names(records),
    ensures
        distinct_names(selected(records, published, up_to_date)),
{
    lemma_kept_names_differ(
        records,
        classified(published, up_to_date),
        record_name(),
        pair_name(),
    );
}

/// Whether a pair has this name, as a function value.
pub open spec fn named(name: Seq<char>) -> spec_fn(Resolved) -> bool {
    |pair: Resolved| pair.0.name == name
}

/// Putting a pair into a list leaves the pairs of every name in their
/// order, with the new pair behind those of its own name.
pub proof fn lemma_insert_keeps_the_order_within_a_name(
    sorted: Seq<Resolved>,
    item: Resolved,
    name: Seq<char>,
)
    ensures
        insert_by_name(sorted, item).filter(named(name)) == if item.0.name == name {
            sorted.filter(named(name)).push(item)
        } else {
            sorted.filter(named(name))
        },
    decreases sorted.len(),
{
    if sorted.len() == 0 {
        assert(seq![item] =~= sorted.push(item));
        sorted.lemma_filter_push(item, named(name));
    } else if name_le(sorted.last().0.name, item.0.name) {
        sorted.lemma_filter_push(item, named(name));
    } else {
        let front = sorted.drop_last();
        let last = sorted.last();
        lemma_name_le_reflexive(item.0.name);
        assert(last.0.name != item.0.name);
        lemma_insert_keeps_the_order_within_a_name(front, item, name);
        insert_by_name(front, item).lemma_filter_push(last, named(name));
        front.lemma_filter_push(last, named(name));
        assert(sorted =~= front.push(last));
    }
}

/// Sorting is stable: the pairs of one name are, after sorting, in the
/// order that they had before.
pub proof fn lemma_sorting_keeps_the_order_within_a_name(pairs: Seq<Resolved>, name: Seq<char>)
    ensures
        sorted_by_name(pairs).filter(named(name)) == pairs.filter(named(name)),
    decreases pairs.len(),
{
    if pairs.len() > 0 {
        let front = pairs.drop_last();
        lemma_sorting_keeps_the_order_within_a_name(front, name);
        lemma_insert_keeps_the_order_within_a_name(sorted_by_name(front), pairs.last(), name);
        front.lemma_filter_push(pairs.last(), named(name));
        assert(pairs =~= front.push(pairs.last()));
    }
}

/// The record with the version found for it, where one was found.
pub open spec fn with_version(published: Seq<Published>) -> spec_fn(RecordView) -> Option<
    Resolved,
> {
    |record: RecordView|
        match resolved_version(published, record.name) {
            Some(version) => Some((record, version)),
            None => None,
        }
}

/// The declared dependencies for which a version was found, each with its
/// version, in the order of the manifest.
pub open spec fn resolved_pairs(records: Seq<RecordView>, published: Seq<Published>) -> Seq<
    Resolved,
> {
    records.filter_map(with_version(published))
}

/// The two sides of the unsorted split hold together what was resolved, each
/// pair as often as it was declared.
pub proof fn lemma_selected_sides_hold_what_was_resolved(
    records: Seq<RecordView>,
    published: Seq<Published>,
)
    ensures
        selected(records, published, true).to_multiset().add(
            selected(records, published, false).to_multiset(),
        ) == resolved_pairs(records, published).to_multiset(),
    decreases records.len(),
{
    broadcast use vstd::seq_lib::group_to_multiset_ensures;

    let up = selected(records, published, true);
    let out = selected(records, published, false);
    let all = resolved_pairs(records, published);
    if records.len() == 0 {
        assert(up =~= Seq::<Resolved>::empty());
        assert(out =~= Seq::<Resolved>::empty());
        assert(all =~= Seq::<Resolved>::empty());
        assert(up.to_multiset().add(out.to_multiset()) =~= all.to_multiset());
    } else {
        let front = records.drop_last();
        let last = records.last();
        lemma_selected_sides_hold_what_was_resolved(front, published);
        let front_up = selected(front, published, true);
        let front_out = selected(front, published, false);
        let front_all = resolved_pairs(front, published);
        match resolved_version(published, last.name) {
            Some(version) => {
                let pair = (last, version);
                assert(all =~= front_all.push(pair));
                if admits(last.requirement, version) {
                    assert(up =~= front_up.push(pair));
                    assert(out =~= front_out);
                } else {
                    assert(up =~= front_up);
                    assert(out =~= front_out.push(pair));
                }
                assert(up.to_multiset().add(out.to_multiset()) =~= all.to_multiset());
            },
            None => {
                assert(all =~= front_all);
                assert(up =~= front_up);
                assert(out =~= front_out);
            },
        }
    }
}

/// The two sides of the split hold together the declared dependencies for
/// which a version was found, each as often as it was declared, and nothing
/// else.
pub proof fn lemma_sides_hold_what_was_resolved(
    records: Seq<RecordView>,
    published: Seq<Published>,
)
    ensures
        up_to_date_side(records, published).to_multiset().add(
            outdated_side(records, published).to_multiset(),
        ) == resolved_pairs(records, published).to_multiset(),
{
    lemma_selected_sides_hold_what_was_resolved(records, published);
    lemma_sorted_by_name_permutes(selected(records, published, true));
    lemma_sorted_by_name_permutes(selected(records, published, false));
}

/// What a lookup by name finds is the value of a member of that name.
pub proof fn lemma_found_member_is_a_member(members: Seq<(String, Json)>, key: Seq<char>)
    requires
        find_member(members, key) is Some,
    ensures
        exists|i: int|
            0 <= i < members.len() && (#[trigger] members[i]).0@ == key && members[i].1
                == find_member(members, key)->0,
    decreases members.len(),
{
    if members[0].0@ != key {
        let rest = members.drop_first();
        lemma_found_member_is_a_member(rest, key);
        let i = choose|i: int|
            0 <= i < rest.len() && (#[trigger] rest[i]).0@ == key && rest[i].1 == find_member(
                rest,
                key,
            )->0;
        assert(members[i + 1] == rest[i]);
    }
}

/// In a document of which no object holds a name twice, no section holds
/// one twice.
pub proof fn lemma_section_holds_no_name_twice(document: Json, key: Seq<char>)
    requires
        document.names_are_distinct(),
    ensures
        names_of(section_of(document, key)).no_duplicates(),
{
    if let Some(section) = document.member(key) {
        lemma_found_member_is_a_member(document.members(), key);
        let i = choose|i: int|
            0 <= i < document.members().len() && (#[trigger] document.members()[i]).0@ == key
                && document.members()[i].1 == section;
        assert(document.members()[i].1.names_are_distinct());
    }
}

/// Where no two members have one name, no two of the records that they
/// declare have one.
pub proof fn lemma_declared_records_have_distinct_names(members: Seq<(String, Json)>)
    requires
        names_of(members).no_duplicates(),
    ensures
        distinct_record_names(members.filter_map(declared_member_fn())),
{
    assert forall|a: int, b: int| 0 <= a < b < members.len() implies member_name()(
        #[trigger] members[a],
    ) != member_name()(#[trigger] members[b]) by {
        assert(names_of(members)[a] != names_of(members)[b]);
    }
    lemma_kept_names_differ(members, declared_member_fn(), member_name(), record_name());
}

/// Where no two records have one name, no two of those that name a
/// package have one.
pub proof fn lemma_packages_have_distinct_names(records: Seq<RecordView>)
    requires
        distinct_record_names(records),
    ensures
        distinct_record_names(records.filter_map(package())),
{
    lemma_kept_names_differ(records, package(), record_name(), record_name());
}

/// Of a Composer manifest that was read from text, no name is twice on the
/// two sides of the split, unless the manifest declares it in both of its
/// sections: within a section the reader admits no name twice.
pub proof fn lemma_composer_names_are_on_the_sides_once(
    document: Json,
    published: Seq<Published>,
)
    requires
        document.names_are_distinct(),
        forall|i: int, j: int|
            0 <= i < section_of(document, "require"@).len() && 0 <= j < section_of(
                document,
                "require-dev"@,
            ).len() ==> (#[trigger] section_of(document, "require"@)[i]).0@ != (
            #[trigger] section_of(document, "require-dev"@)[j]).0@,
    ensures
        distinct_names(
            up_to_date_side(composer_records(document), published) + outdated_side(
                composer_records(document),
                published,
            ),
        ),
{
    let first = section_of(document, "require"@);
    let second = section_of(document, "require-dev"@);
    let members = composer_members(document);
    lemma_section_holds_no_name_twice(document, "require"@);
    lemma_section_holds_no_name_twice(document, "require-dev"@);
    assert forall|a: int, b: int| 0 <= a < members.len() && 0 <= b < members.len() && a
        != b implies names_of(members)[a] != names_of(members)[b] by {
        if a < first.len() && b < first.len() {
            assert(names_of(first)[a] != names_of(first)[b]);
        } else if a >= first.len() && b >= first.len() {
            assert(names_of(second)[a - first.len()] != names_of(second)[b - first.len()]);
        } else if a < first.len() {
            assert(first[a].0@ != second[b - first.len()].0@);
        } else {
            assert(first[b].0@ != second[a - first.len()].0@);
        }
    }
    lemma_declared_records_have_distinct_names(members);
    lemma_packages_have_distinct_names(members.filter_map(declared_member_fn()));
    lemma_no_name_is_on_the_sides_twice(composer_records(document), published);
}

/// A manifest with a single dependency, for which a version was found:
/// the dependency alone is on the side that its range decides, and the
/// other side is empty.
pub proof fn lemma_single_dependency_is_placed_by_its_range(
    record: RecordView,
    version: VersionView,
)
    ensures
        admits(record.requirement, version) ==> up_to_date_side(
            seq![record],
            seq![(record.name, version)],
        ) == seq![(record, version)] && outdated_side(seq![record], seq![(record.name, version)])
            == Seq::<Resolved>::empty(),
        !admits(record.requirement, version) ==> outdated_side(
            seq![record],
            seq![(record.name, version)],
        ) == seq![(record, version)] && up_to_date_side(
            seq![record],
            seq![(record.name, version)],
        ) == Seq::<Resolved>::empty(),
{
    let records = seq![record];
    let published = seq![(record.name, version)];
    assert(resolved_version(published, record.name) == Some(version));
    assert(records.drop_last() =~= Seq::<RecordView>::empty());
    assert(records.last() == record);
    reveal_with_fuel(Seq::filter_map, 2);
    let kept = seq![(record, version)];
    assert(kept.drop_last() =~= Seq::<Resolved>::empty());
    reveal_with_fuel(sorted_by_name, 2);
    if admits(record.requirement, version) {
        assert(selected(records, published, true) =~= kept);
        assert(selected(records, published, false) =~= Seq::<Resolved>::empty());
        assert(sorted_by_name(kept) =~= kept);
    } else {
        assert(selected(records, published, false) =~= kept);
        assert(selected(records, published, true) =~= Seq::<Resolved>::empty());
        assert(sorted_by_name(kept) =~= kept);
    }
}

} // verus!
