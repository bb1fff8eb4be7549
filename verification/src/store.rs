//! The aggregation store: feature records grouped by version, each group in
//! the order in which its records arrived.
//!
//! The records are kept in a `dashmap::DashMap` keyed by the three numbers of
//! a version. What the map holds is named by [`bucket_contents`]; the four
//! trusted functions below say what each call does to it. The store is
//! changed through `&mut self`, so that each change can be stated: where
//! several workers find records, one owner of the store takes them in.

use crate::feature::{FeatureDecorator, FeatureView};
use crate::version::Version;
use dashmap::DashMap;
use vstd::prelude::*;

verus! {

/// `DashMap`: a hash map that can be shared between threads. Opaque here;
/// what one holds is named by [`bucket_contents`].
#[verifier::external_type_specification]
#[verifier::external_body]
#[verifier::reject_recursive_types(K)]
#[verifier::reject_recursive_types(V)]
#[verifier::reject_recursive_types(S)]
pub struct ExDashMap<K, V, S>(DashMap<K, V, S>);

/// What a map holds: its keys, each read as a version, and under each key
/// the records of its bucket, oldest first.
pub uninterp spec fn bucket_contents(map: DashMap<(u64, u64, u64), Vec<FeatureDecorator>>) -> Map<
    Version,
    Seq<FeatureView>,
>;

/// Calls `DashMap::new`: a map without keys.
#[verifier::external_body]
fn new_buckets() -> (map: DashMap<(u64, u64, u64), Vec<FeatureDecorator>>)
    ensures
        bucket_contents(map) =~= Map::empty(),
{
    DashMap::new()
}

/// Calls `DashMap::entry`, `Entry::or_default` and `Vec::push`: the bucket
/// of `version` is created empty if the map has none, and `record` is put at
/// its end. No other bucket changes.
#[verifier::external_body]
fn append_record(map: &mut DashMap<(u64, u64, u64), Vec<FeatureDecorator>>, version: Version, record: FeatureDecorator)
    ensures
        bucket_contents(*final(map)) == add_record(bucket_contents(*old(map)), version, record.deep_view()),
{
    map.entry((version.major, version.minor, version.patch)).or_default().push(record);
}

/// Calls `DashMap::len`: the number of keys.
#[verifier::external_body]
fn bucket_count(map: &DashMap<(u64, u64, u64), Vec<FeatureDecorator>>) -> (count: usize)
    ensures
        count == bucket_contents(*map).dom().len(),
{
    map.len()
}

/// Calls `DashMap::into_iter`, which hands out every key with its bucket
/// once, in no particular order.
#[verifier::external_body]
fn into_pairs(map: DashMap<(u64, u64, u64), Vec<FeatureDecorator>>) -> (pairs: Vec<(Version, Vec<FeatureDecorator>)>)
    ensures
        forall|i: int| 0 <= i < pairs.len() ==> holds_bucket(bucket_contents(map), #[trigger] pairs[i]),
        forall|i: int, j: int| 0 <= i < j < pairs.len() ==> (#[trigger] pairs[i]).0 != (#[trigger] pairs[j]).0,
        forall|version: Version| #[trigger]
            bucket_contents(map).contains_key(version) ==> has_version(pairs@, version),
{
    map.into_iter().map(|(k, v)| (Version { major: k.0, minor: k.1, patch: k.2 }, v)).collect()
}

/// The bucket of `version` in `buckets`, empty where there is none.
pub open spec fn bucket_of(buckets: Map<Version, Seq<FeatureView>>, version: Version) -> Seq<FeatureView> {
    if buckets.contains_key(version) {
        buckets[version]
    } else {
        Seq::empty()
    }
}

/// The buckets after `record` has been put at the end of the bucket of
/// `version`.
pub open spec fn add_record(buckets: Map<Version, Seq<FeatureView>>, version: Version, record: FeatureView) -> Map<
    Version,
    Seq<FeatureView>,
> {
    buckets.insert(version, bucket_of(buckets, version).push(record))
}

/// The buckets after each of `records` has been inserted under its own
/// version, in order.
pub open spec fn add_records(buckets: Map<Version, Seq<FeatureView>>, records: Seq<FeatureView>) -> Map<
    Version,
    Seq<FeatureView>,
>
    decreases records.len(),
{
    if records.len() == 0 {
        buckets
    } else {
        add_record(add_records(buckets, records.drop_last()), records.last().version, records.last())
    }
}

/// Whether `pair` is a key of `buckets` together with its bucket.
pub open spec fn holds_bucket(buckets: Map<Version, Seq<FeatureView>>, pair: (Version, Vec<FeatureDecorator>)) -> bool {
    buckets.contains_key(pair.0) && buckets[pair.0] == pair.1.deep_view()
}

/// Whether one of `pairs` has the key `version`.
pub open spec fn has_version(pairs: Seq<(Version, Vec<FeatureDecorator>)>, version: Version) -> bool {
    exists|i: int| 0 <= i < pairs.len() && (#[trigger] pairs[i]).0 == version
}

/// The records of one version, in the order in which they were inserted.
#[derive(Clone, Debug, PartialEq, Eq)]
pub struct VersionGroup {
    pub version: Version,
    pub features: Vec<FeatureDecorator>,
}

/// The mathematical content of a [`VersionGroup`].
pub ghost struct GroupView {
    pub version: Version,
    pub features: Seq<FeatureView>,
}

impl DeepView for VersionGroup {
    type V = GroupView;

    open spec fn deep_view(&self) -> GroupView {
        GroupView { version: self.version, features: self.features.deep_view() }
    }
}

/// Later versions come first, and no version occurs twice.
pub open spec fn descending(groups: Seq<GroupView>) -> bool {
    forall|i: int, j: int| 0 <= i < j < groups.len() ==> (#[trigger] groups[j]).version.precedes((#[trigger] groups[i]).version)
}

/// Whether one of `groups` is for `version`.
pub open spec fn has_group(groups: Seq<GroupView>, version: Version) -> bool {
    exists|i: int| 0 <= i < groups.len() && (#[trigger] groups[i]).version == version
}

/// Each group is a bucket with its version, and every bucket has a group.
pub open spec fn covers(groups: Seq<GroupView>, buckets: Map<Version, Seq<FeatureView>>) -> bool {
    &&& forall|i: int| 0 <= i < groups.len() ==> buckets.contains_key((#[trigger] groups[i]).version) && buckets[groups[i].version] == groups[i].features
    &&& forall|version: Version| #[trigger] buckets.contains_key(version) ==> has_group(groups, version)
}

/// What holds of the buckets of a store: there are finitely many, none is
/// empty, and each holds records of its own version only.
pub open spec fn well_formed(buckets: Map<Version, Seq<FeatureView>>) -> bool {
    &&& buckets.dom().finite()
    &&& forall|version: Version| #[trigger] buckets.contains_key(version) ==> buckets[version].len() > 0
    &&& forall|version: Version, i: int|
        buckets.contains_key(version) && 0 <= i < buckets[version].len() ==> (#[trigger] buckets[version][i]).version
            == version
}

/// Adding a record under its own version keeps the buckets well formed.
pub proof fn lemma_add_record_well_formed(buckets: Map<Version, Seq<FeatureView>>, record: FeatureView)
    requires
        well_formed(buckets),
    ensures
        well_formed(add_record(buckets, record.version, record)),
{
    let after = add_record(buckets, record.version, record);
    assert forall|version: Version, i: int|
        after.contains_key(version) && 0 <= i < after[version].len() implies (#[trigger] after[version][i]).version
        == version by {
        if version == record.version {
            if i < bucket_of(buckets, version).len() {
                assert(after[version][i] == buckets[version][i]);
            }
        } else {
            assert(after[version][i] == buckets[version][i]);
        }
    }
}

/// The test for "is a record of `version`".
pub open spec fn is_of(version: Version) -> spec_fn(FeatureView) -> bool {
    |record: FeatureView| record.version == version
}

/// The records of `version` among `records`, in their order.
pub open spec fn of_version(records: Seq<FeatureView>, version: Version) -> Seq<FeatureView> {
    records.filter(is_of(version))
}

/// Whether one of `records` is of `version`.
pub open spec fn targets(records: Seq<FeatureView>, version: Version) -> bool {
    exists|i: int| 0 <= i < records.len() && (#[trigger] records[i]).version == version
}

/// The number of records in all buckets together.
pub open spec fn total_records(buckets: Map<Version, Seq<FeatureView>>) -> nat
    decreases buckets.dom().len(),
    when buckets.dom().finite()
{
    if buckets.dom().len() == 0 {
        0
    } else {
        let version = buckets.dom().choose();
        proof {
            vstd::set::axiom_set_choose_len(buckets.dom());
            vstd::set::axiom_set_remove_len(buckets.dom(), version);
        }
        buckets[version].len() + total_records(buckets.remove(version))
    }
}

/// After records have been inserted, a version has a bucket exactly when it
/// had one before or one of the records is of that version, and its bucket
/// is what it was before followed by the records of that version, in the
/// order in which they were inserted.
pub proof fn lemma_buckets_select(start: Map<Version, Seq<FeatureView>>, records: Seq<FeatureView>, version: Version)
    ensures
        add_records(start, records).contains_key(version) <==> start.contains_key(version) || targets(
            records,
            version,
        ),
        bucket_of(add_records(start, records), version) == bucket_of(start, version) + of_version(
            records,
            version,
        ),
    decreases records.len(),
{
    if records.len() == 0 {
        reveal(Seq::filter);
        assert(of_version(records, version) == Seq::<FeatureView>::empty());
    } else {
        let init = records.drop_last();
        let last = records.last();
        lemma_buckets_select(start, init, version);
        assert(records == init.push(last));
        init.lemma_filter_push(last, is_of(version));
        if targets(records, version) {
            let i = choose|i: int| 0 <= i < records.len() && (#[trigger] records[i]).version == version;
            if i < init.len() {
                assert(init[i] == records[i]);
                assert(targets(init, version));
            }
        }
        if targets(init, version) {
            let i = choose|i: int| 0 <= i < init.len() && (#[trigger] init[i]).version == version;
            assert(init[i] == records[i]);
        }
        if last.version == version {
            assert(records[records.len() - 1].version == version);
        }
    }
}

/// Inserting records keeps the buckets well formed.
pub proof fn lemma_add_records_well_formed(start: Map<Version, Seq<FeatureView>>, records: Seq<FeatureView>)
    requires
        well_formed(start),
    ensures
        well_formed(add_records(start, records)),
    decreases records.len(),
{
    if records.len() > 0 {
        lemma_add_records_well_formed(start, records.drop_last());
        lemma_add_record_well_formed(add_records(start, records.drop_last()), records.last());
    }
}

/// The total is the length of any one bucket plus the total of the others.
pub proof fn lemma_total_split(buckets: Map<Version, Seq<FeatureView>>, version: Version)
    requires
        buckets.dom().finite(),
        buckets.contains_key(version),
    ensures
        total_records(buckets) == buckets[version].len() + total_records(buckets.remove(version)),
    decreases buckets.dom().len(),
{
    vstd::set::axiom_set_contains_len(buckets.dom(), version);
    let chosen = buckets.dom().choose();
    vstd::set::axiom_set_choose_len(buckets.dom());
    if chosen != version {
        vstd::set::axiom_set_remove_len(buckets.dom(), chosen);
        vstd::set::axiom_set_remove_len(buckets.dom(), version);
        lemma_total_split(buckets.remove(chosen), version);
        lemma_total_split(buckets.remove(version), chosen);
        assert(buckets.remove(chosen).remove(version) == buckets.remove(version).remove(chosen));
    }
}

/// One more record makes the total one larger.
pub proof fn lemma_total_add_record(buckets: Map<Version, Seq<FeatureView>>, version: Version, record: FeatureView)
    requires
        buckets.dom().finite(),
    ensures
        total_records(add_record(buckets, version, record)) == total_records(buckets) + 1,
{
    let after = add_record(buckets, version, record);
    lemma_total_split(after, version);
    if buckets.contains_key(version) {
        lemma_total_split(buckets, version);
        assert(after.remove(version) == buckets.remove(version));
    } else {
        assert(after.remove(version) == buckets);
    }
}

/// What holds of the buckets collected from `records`, whatever their
/// number and whatever their versions: every record is in exactly one
/// place. The buckets hold as many records as were inserted; a version has a
/// bucket exactly when a record is of that version, and no bucket is empty;
/// and the bucket of a version holds the records of that version, each once,
/// in the order in which they were inserted.
pub proof fn lemma_collected(records: Seq<FeatureView>)
    ensures
        well_formed(add_records(Map::empty(), records)),
        total_records(add_records(Map::empty(), records)) == records.len(),
        forall|version: Version| #[trigger]
            add_records(Map::empty(), records).contains_key(version) <==> targets(records, version),
        forall|version: Version| #[trigger]
            bucket_of(add_records(Map::empty(), records), version) == of_version(records, version),
    decreases records.len(),
{
    let start = Map::<Version, Seq<FeatureView>>::empty();
    lemma_add_records_well_formed(start, records);
    assert forall|version: Version| #[trigger]
        add_records(start, records).contains_key(version) <==> targets(records, version) by {
        lemma_buckets_select(start, records, version);
    }
    assert forall|version: Version| #[trigger]
        bucket_of(add_records(start, records), version) == of_version(records, version) by {
        lemma_buckets_select(start, records, version);
        assert(Seq::<FeatureView>::empty() + of_version(records, version) == of_version(records, version));
    }
    if records.len() > 0 {
        let init = records.drop_last();
        lemma_collected(init);
        lemma_total_add_record(add_records(start, init), records.last().version, records.last());
    }
}

/// How often `record` occurs among the records of `version` in `records`: as
/// often as in `records` if it is of that version, else never.
pub proof fn lemma_of_version_count(records: Seq<FeatureView>, version: Version, record: FeatureView)
    ensures
        of_version(records, version).to_multiset().count(record) == if record.version == version {
            records.to_multiset().count(record)
        } else {
            0
        },
    decreases records.len(),
{
    broadcast use vstd::multiset::group_multiset_axioms;

    if records.len() == 0 {
        reveal(Seq::filter);
        assert(of_version(records, version) == Seq::<FeatureView>::empty());
        assert(records == Seq::<FeatureView>::empty());
        assert(Seq::<FeatureView>::empty().to_multiset().count(record) == 0) by {
            vstd::seq_lib::to_multiset_len(Seq::<FeatureView>::empty());
        }
    } else {
        let init = records.drop_last();
        let last = records.last();
        assert(records == init.push(last));
        lemma_of_version_count(init, version, record);
        init.lemma_filter_push(last, is_of(version));
        vstd::seq_lib::to_multiset_build(init, last);
        if last.version == version {
            vstd::seq_lib::to_multiset_build(of_version(init, version), last);
        }
    }
}

/// The order of insertion decides the order within a bucket and nothing
/// else: the same records inserted in another order give the same versions,
/// and under each version the same records, each as often.
pub proof fn lemma_order_only_reorders(first: Seq<FeatureView>, second: Seq<FeatureView>, version: Version)
    requires
        first.to_multiset() == second.to_multiset(),
    ensures
        add_records(Map::empty(), first).contains_key(version) <==> add_records(
            Map::empty(),
            second,
        ).contains_key(version),
        bucket_of(add_records(Map::empty(), first), version).to_multiset() == bucket_of(
            add_records(Map::empty(), second),
            version,
        ).to_multiset(),
{
    lemma_collected(first);
    lemma_collected(second);
    let a = of_version(first, version);
    let b = of_version(second, version);
    assert(bucket_of(add_records(Map::empty(), first), version) == a);
    assert(bucket_of(add_records(Map::empty(), second), version) == b);
    assert forall|record: FeatureView| a.to_multiset().count(record) == b.to_multiset().count(record) by {
        lemma_of_version_count(first, version, record);
        lemma_of_version_count(second, version, record);
    }
    assert(a.to_multiset() =~= b.to_multiset());
    assert(add_records(Map::empty(), first).contains_key(version) <==> targets(first, version));
    assert(add_records(Map::empty(), second).contains_key(version) <==> targets(second, version));
    if targets(first, version) {
        let i = choose|i: int| 0 <= i < first.len() && (#[trigger] first[i]).version == version;
        lemma_targets_by_count(first, second, first[i]);
    }
    if targets(second, version) {
        let i = choose|i: int| 0 <= i < second.len() && (#[trigger] second[i]).version == version;
        lemma_targets_by_count(second, first, second[i]);
    }
}

/// A record of one list that the other list holds as often is of a version
/// that the other list targets.
proof fn lemma_targets_by_count(first: Seq<FeatureView>, second: Seq<FeatureView>, record: FeatureView)
    requires
        first.to_multiset() == second.to_multiset(),
        first.contains(record),
    ensures
        targets(second, record.version),
{
    vstd::seq_lib::to_multiset_contains(first, record);
    vstd::seq_lib::to_multiset_contains(second, record);
    let j = choose|j: int| 0 <= j < second.len() && second[j] == record;
    assert(second[j].version == record.version);
}

/// The buckets decide their groups: two lists of groups that both cover the
/// same buckets, latest version first, are equal.
pub proof fn lemma_groups_determined(first: Seq<GroupView>, second: Seq<GroupView>, buckets: Map<Version, Seq<FeatureView>>)
    requires
        descending(first),
        covers(first, buckets),
        descending(second),
        covers(second, buckets),
    ensures
        first == second,
    decreases first.len(),
{
    if first.len() == 0 {
        if second.len() > 0 {
            assert(buckets.contains_key(second[0].version));
            assert(has_group(first, second[0].version));
        }
        assert(first == second);
    } else {
        let top = first[0];
        assert(buckets.contains_key(top.version));
        assert(has_group(second, top.version));
        let j = choose|j: int| 0 <= j < second.len() && (#[trigger] second[j]).version == top.version;
        assert(buckets.contains_key(second[0].version));
        assert(has_group(first, second[0].version));
        let k = choose|k: int| 0 <= k < first.len() && (#[trigger] first[k]).version == second[0].version;
        if j > 0 {
            assert(second[j].version.precedes(second[0].version));
            if k > 0 {
                assert(first[k].version.precedes(first[0].version));
            }
        }
        assert(j == 0);
        assert(second[0] == top);
        let rest = buckets.remove(top.version);
        let first_rest = first.drop_first();
        let second_rest = second.drop_first();
        assert forall|i: int| 0 <= i < first_rest.len() implies rest.contains_key((#[trigger] first_rest[i]).version)
            && rest[first_rest[i].version] == first_rest[i].features by {
            assert(first_rest[i] == first[i + 1]);
            assert(first[i + 1].version.precedes(first[0].version));
        }
        assert forall|i: int| 0 <= i < second_rest.len() implies rest.contains_key(
            (#[trigger] second_rest[i]).version,
        ) && rest[second_rest[i].version] == second_rest[i].features by {
            assert(second_rest[i] == second[i + 1]);
            assert(second[i + 1].version.precedes(second[0].version));
        }
        assert forall|version: Version| #[trigger] rest.contains_key(version) implies has_group(
            first_rest,
            version,
        ) && has_group(second_rest, version) by {
            assert(buckets.contains_key(version));
            assert(has_group(first, version));
            let a = choose|a: int| 0 <= a < first.len() && (#[trigger] first[a]).version == version;
            assert(first_rest[a - 1] == first[a]);
            assert(has_group(second, version));
            let b = choose|b: int| 0 <= b < second.len() && (#[trigger] second[b]).version == version;
            assert(second_rest[b - 1] == second[b]);
        }
        assert forall|a: int, b: int| 0 <= a < b < first_rest.len() implies (#[trigger] first_rest[b]).version.precedes(
            (#[trigger] first_rest[a]).version,
        ) by {
            assert(first_rest[a] == first[a + 1]);
            assert(first_rest[b] == first[b + 1]);
        }
        assert forall|a: int, b: int| 0 <= a < b < second_rest.len() implies (#[trigger] second_rest[b]).version.precedes(
            (#[trigger] second_rest[a]).version,
        ) by {
            assert(second_rest[a] == second[a + 1]);
            assert(second_rest[b] == second[b + 1]);
        }
        lemma_groups_determined(first_rest, second_rest, rest);
        assert(first == seq![top] + first_rest);
        assert(second == seq![top] + second_rest);
    }
}

/// The number of records in all groups together.
pub open spec fn group_total(groups: Seq<GroupView>) -> nat
    decreases groups.len(),
{
    if groups.len() == 0 {
        0
    } else {
        group_total(groups.drop_last()) + groups.last().features.len()
    }
}

/// Groups that cover well-formed buckets are none of them empty, and each
/// holds records of its own version only.
pub proof fn lemma_groups_well_formed(groups: Seq<GroupView>, buckets: Map<Version, Seq<FeatureView>>)
    requires
        well_formed(buckets),
        covers(groups, buckets),
    ensures
        forall|i: int| 0 <= i < groups.len() ==> (#[trigger] groups[i]).features.len() > 0,
        forall|i: int, k: int|
            0 <= i < groups.len() && 0 <= k < groups[i].features.len() ==> (#[trigger] groups[i].features[k]).version
                == groups[i].version,
{
    assert forall|i: int, k: int|
        0 <= i < groups.len() && 0 <= k < groups[i].features.len() implies (#[trigger] groups[i].features[k]).version
        == groups[i].version by {
        assert(buckets[groups[i].version][k].version == groups[i].version);
    }
}

/// The groups hold as many records as the buckets that they cover.
pub proof fn lemma_group_total(groups: Seq<GroupView>, buckets: Map<Version, Seq<FeatureView>>)
    requires
        buckets.dom().finite(),
        descending(groups),
        covers(groups, buckets),
    ensures
        group_total(groups) == total_records(buckets),
        groups.len() == buckets.dom().len(),
    decreases groups.len(),
{
    if groups.len() == 0 {
        if buckets.dom().len() != 0 {
            vstd::set::axiom_set_choose_len(buckets.dom());
            assert(buckets.contains_key(buckets.dom().choose()));
            assert(has_group(groups, buckets.dom().choose()));
        }
    } else {
        let init = groups.drop_last();
        let last = groups.last();
        let n = init.len() as int;
        assert(groups[n] == last);
        let rest = buckets.remove(last.version);
        assert forall|i: int| 0 <= i < init.len() implies rest.contains_key((#[trigger] init[i]).version)
            && rest[init[i].version] == init[i].features by {
            assert(init[i] == groups[i]);
            assert(groups[n].version.precedes(groups[i].version));
        }
        assert forall|version: Version| #[trigger] rest.contains_key(version) implies has_group(init, version) by {
            assert(buckets.contains_key(version));
            assert(has_group(groups, version));
            let a = choose|a: int| 0 <= a < groups.len() && (#[trigger] groups[a]).version == version;
            assert(init[a] == groups[a]);
        }
        assert forall|a: int, b: int| 0 <= a < b < init.len() implies (#[trigger] init[b]).version.precedes(
            (#[trigger] init[a]).version,
        ) by {
            assert(init[a] == groups[a]);
            assert(init[b] == groups[b]);
        }
        vstd::set::axiom_set_remove_len(buckets.dom(), last.version);
        lemma_group_total(init, rest);
        lemma_total_split(buckets, last.version);
    }
}

/// What the groups of a store hold that took in `records` and nothing else:
/// as many records as were inserted; a group for exactly the versions that
/// a record is of; and in each group the records of its version, each once
/// and in the order in which they were inserted.
pub proof fn lemma_groups_of_collected(records: Seq<FeatureView>, groups: Seq<GroupView>)
    requires
        descending(groups),
        covers(groups, add_records(Map::empty(), records)),
    ensures
        group_total(groups) == records.len(),
        forall|version: Version| #[trigger] has_group(groups, version) <==> targets(records, version),
        forall|i: int|
            0 <= i < groups.len() ==> (#[trigger] groups[i]).features == of_version(records, groups[i].version),
{
    let buckets = add_records(Map::<Version, Seq<FeatureView>>::empty(), records);
    lemma_collected(records);
    lemma_group_total(groups, buckets);
    assert forall|version: Version| #[trigger] has_group(groups, version) <==> targets(records, version) by {
        assert(buckets.contains_key(version) <==> targets(records, version));
        if has_group(groups, version) {
            let i = choose|i: int| 0 <= i < groups.len() && (#[trigger] groups[i]).version == version;
            assert(buckets.contains_key(groups[i].version));
        }
    }
    assert forall|i: int| 0 <= i < groups.len() implies (#[trigger] groups[i]).features == of_version(
        records,
        groups[i].version,
    ) by {
        assert(bucket_of(buckets, groups[i].version) == of_version(records, groups[i].version));
    }
}

/// Feature records grouped by the version that introduced them.
pub struct AggregationStore {
    buckets: DashMap<(u64, u64, u64), Vec<FeatureDecorator>>,
}

impl View for AggregationStore {
    type V = Map<Version, Seq<FeatureView>>;

    closed spec fn view(&self) -> Map<Version, Seq<FeatureView>> {
        bucket_contents(self.buckets)
    }
}

impl AggregationStore {
    /// Creates a store without records.
    pub fn new() -> (store: AggregationStore)
        ensures
            store@ == Map::<Version, Seq<FeatureView>>::empty(),
    {
        AggregationStore { buckets: new_buckets() }
    }

    /// Puts `record` at the end of the bucket of its version, which is created
    /// if this is the first record of that version.
    pub fn insert(&mut self, record: FeatureDecorator)
        ensures
            final(self)@ == add_record(old(self)@, record.version, record.deep_view()),
    {
        let version = record.version;
        append_record(&mut self.buckets, version, record);
    }

    /// Inserts each of `records`, in order.
    pub fn insert_all(&mut self, records: Vec<FeatureDecorator>)
        ensures
            final(self)@ == add_records(old(self)@, records.deep_view()),
    {
        let ghost items = records@;
        let ghost all = records.deep_view();
        let ghost start = self@;
        for record in iter: records
            invariant
                iter.seq() == items,
                all.len() == items.len(),
                forall|i: int| 0 <= i < items.len() ==> all[i] == (#[trigger] items[i]).deep_view(),
                self@ == add_records(start, all.take(iter.index() as int)),
        {
            proof {
                let upto = all.take(iter.index() + 1);
                assert(upto.drop_last() == all.take(iter.index() as int));
                assert(upto.last() == record.deep_view());
            }
            self.insert(record);
        }
        assert(all.take(all.len() as int) == all);
    }

    /// Returns the number of versions that have a record.
    pub fn len(&self) -> (count: usize)
        ensures
            count == self@.dom().len(),
    {
        bucket_count(&self.buckets)
    }

    /// Ends the collection and returns the buckets, latest version first,
    /// each with its records in insertion order.
    pub fn into_groups(self) -> (groups: Vec<VersionGroup>)
        ensures
            descending(groups.deep_view()),
            covers(groups.deep_view(), self@),
    {
        let ghost buckets = self@;
        let mut rest = into_pairs(self.buckets);
        let mut groups: Vec<VersionGroup> = Vec::new();
        assert forall|version: Version| #[trigger] buckets.contains_key(version) implies has_version(rest@, version)
            || has_group(groups.deep_view(), version) by {}
        while rest.len() > 0
            invariant
                forall|i: int| 0 <= i < rest.len() ==> holds_bucket(buckets, #[trigger] rest[i]),
                forall|i: int, j: int| 0 <= i < j < rest.len() ==> (#[trigger] rest[i]).0 != (#[trigger] rest[j]).0,
                forall|version: Version| #[trigger]
                    buckets.contains_key(version) ==> has_version(rest@, version) || has_group(
                        groups.deep_view(),
                        version,
                    ),
                forall|i: int| 0 <= i < groups.len() ==> buckets.contains_key((#[trigger] groups.deep_view()[i]).version)
                    && buckets[groups.deep_view()[i].version] == groups.deep_view()[i].features,
                descending(groups.deep_view()),
                forall|i: int, j: int| 0 <= i < rest.len() && 0 <= j < groups.len() ==> (#[trigger] rest[i]).0.precedes((#[trigger] groups.deep_view()[j]).version),
            decreases rest.len(),
        {
            let mut best: usize = 0;
            let mut k: usize = 1;
            while k < rest.len()
                invariant
                    0 <= best < k <= rest.len(),
                    forall|i: int, j: int| 0 <= i < j < rest.len() ==> (#[trigger] rest[i]).0 != (#[trigger] rest[j]).0,
                    forall|t: int| 0 <= t < k && t != best ==> (#[trigger] rest[t]).0.precedes(rest[best as int].0),
                decreases rest.len() - k,
            {
                if rest[best].0.is_before(&rest[k].0) {
                    best = k;
                }
                k += 1;
            }
            let ghost old_rest = rest@;
            let ghost old_groups = groups.deep_view();
            let (version, features) = rest.remove(best);
            let group = VersionGroup { version, features };
            groups.push(group);
            proof {
                let new_groups = groups.deep_view();
                assert(new_groups == old_groups.push(group.deep_view()));
                assert(rest@ == old_rest.remove(best as int));
                assert(holds_bucket(buckets, old_rest[best as int]));
                assert forall|v: Version| #[trigger] buckets.contains_key(v) implies has_version(rest@, v)
                    || has_group(new_groups, v) by {
                    if has_group(old_groups, v) {
                        let g = choose|g: int| 0 <= g < old_groups.len() && (#[trigger] old_groups[g]).version == v;
                        assert(new_groups[g].version == v);
                    } else {
                        assert(has_version(old_rest, v));
                        let r = choose|r: int| 0 <= r < old_rest.len() && (#[trigger] old_rest[r]).0 == v;
                        if r == best {
                            assert(new_groups[old_groups.len() as int].version == v);
                        } else if r < best {
                            assert(rest@[r].0 == v);
                        } else {
                            assert(rest@[r - 1].0 == v);
                        }
                    }
                }
            }
        }
        proof {
            assert forall|v: Version| #[trigger] buckets.contains_key(v) implies has_group(groups.deep_view(), v) by {
                if has_version(rest@, v) {
                    let r = choose|r: int| 0 <= r < rest@.len() && (#[trigger] rest@[r]).0 == v;
                }
            }
        }
        groups
    }
}

} // verus!
