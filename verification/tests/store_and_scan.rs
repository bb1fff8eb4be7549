use brint::feature::FeatureDecorator;
use brint::scan::{reader_step, walk_step, EntryKind, Extension, ReaderStep, RunCounters, Scan, WalkStep};
use brint::store::{AggregationStore, VersionGroup};
use brint::version::Version;

fn v(major: u64, minor: u64, patch: u64) -> Version {
    Version { major, minor, patch }
}

fn record(name: &str, version: Version) -> FeatureDecorator {
    FeatureDecorator {
        path: "a.py".to_string(),
        line: 1,
        feature_name: name.to_string(),
        version,
        new: "def f".to_string(),
        old: None,
        author: None,
        description: None,
    }
}

fn names(group: &VersionGroup) -> Vec<&str> {
    group.features.iter().map(|f| f.feature_name.as_str()).collect()
}

#[test]
fn new_store_is_empty() {
    let store = AggregationStore::new();
    assert_eq!(store.len(), 0);
    assert!(store.into_groups().is_empty());
}

#[test]
fn first_record_of_a_version_creates_its_bucket() {
    let mut store = AggregationStore::new();
    store.insert(record("a", v(1, 0, 0)));
    assert_eq!(store.len(), 1);
    let groups = store.into_groups();
    assert_eq!(groups, vec![VersionGroup { version: v(1, 0, 0), features: vec![record("a", v(1, 0, 0))] }]);
}

#[test]
fn records_of_one_version_keep_their_order() {
    let mut store = AggregationStore::new();
    for name in ["c", "a", "b", "a"] {
        store.insert(record(name, v(1, 0, 0)));
    }
    assert_eq!(store.len(), 1);
    let groups = store.into_groups();
    assert_eq!(groups.len(), 1);
    assert_eq!(names(&groups[0]), vec!["c", "a", "b", "a"]);
}

#[test]
fn groups_come_latest_version_first() {
    let mut store = AggregationStore::new();
    let versions = [v(1, 5, 0), v(1, 19, 0), v(0, 9, 9), v(2, 0, 0), v(1, 19, 1), v(1, 5, 0)];
    for (i, version) in versions.iter().enumerate() {
        store.insert(record(&format!("r{}", i), *version));
    }
    assert_eq!(store.len(), 5);
    let groups = store.into_groups();
    let order: Vec<Version> = groups.iter().map(|g| g.version).collect();
    assert_eq!(order, vec![v(2, 0, 0), v(1, 19, 1), v(1, 19, 0), v(1, 5, 0), v(0, 9, 9)]);
    assert_eq!(names(&groups[3]), vec!["r0", "r5"]);
    assert_eq!(names(&groups[0]), vec!["r3"]);
}

#[test]
fn every_record_is_in_exactly_one_bucket() {
    let mut store = AggregationStore::new();
    let mut inserted = Vec::new();
    for i in 0..60u64 {
        let r = record(&format!("r{}", i), v(i % 7, (i % 3) * 10, 0));
        inserted.push(r.clone());
        store.insert(r);
    }
    let groups = store.into_groups();
    let total: usize = groups.iter().map(|g| g.features.len()).sum();
    assert_eq!(total, 60);
    for group in &groups {
        assert!(!group.features.is_empty());
        let expected: Vec<FeatureDecorator> = inserted.iter().filter(|r| r.version == group.version).cloned().collect();
        assert_eq!(group.features, expected);
    }
    for r in &inserted {
        assert_eq!(groups.iter().filter(|g| g.version == r.version).count(), 1);
    }
    for pair in groups.windows(2) {
        assert!(pair[1].version < pair[0].version);
    }
}

#[test]
fn insert_all_is_insert_in_order() {
    let records = vec![record("a", v(1, 0, 0)), record("b", v(2, 0, 0)), record("c", v(1, 0, 0))];
    let mut one = AggregationStore::new();
    one.insert_all(records.clone());
    let mut other = AggregationStore::new();
    for r in records {
        other.insert(r);
    }
    assert_eq!(one.len(), 2);
    assert_eq!(one.into_groups(), other.into_groups());
}

#[test]
fn insert_all_adds_to_what_is_there() {
    let mut store = AggregationStore::new();
    store.insert(record("first", v(1, 0, 0)));
    store.insert_all(vec![record("second", v(1, 0, 0)), record("third", v(0, 1, 0))]);
    store.insert_all(vec![]);
    let groups = store.into_groups();
    assert_eq!(groups.len(), 2);
    assert_eq!(names(&groups[0]), vec!["first", "second"]);
    assert_eq!(names(&groups[1]), vec!["third"]);
}

#[test]
fn another_order_gives_the_same_buckets_as_sets() {
    let records: Vec<FeatureDecorator> = (0..12u64).map(|i| record(&format!("r{}", i), v(i % 3, 0, 0))).collect();
    let mut reversed = records.clone();
    reversed.reverse();
    let mut one = AggregationStore::new();
    one.insert_all(records);
    let mut other = AggregationStore::new();
    other.insert_all(reversed);
    let a = one.into_groups();
    let b = other.into_groups();
    assert_eq!(a.len(), b.len());
    for (x, y) in a.iter().zip(b.iter()) {
        assert_eq!(x.version, y.version);
        let mut left = names(x);
        let mut right = names(y);
        assert_ne!(left, right);
        left.sort();
        right.sort();
        assert_eq!(left, right);
    }
}

#[test]
fn only_py_files_are_read() {
    assert_eq!(walk_step(EntryKind::File, &Extension::Text("py".to_string())), WalkStep::Read);
    for other in ["", "PY", "Py", "pyc", "pyi", "p", "y", "rs", "py ", ".py"] {
        assert_eq!(walk_step(EntryKind::File, &Extension::Text(other.to_string())), WalkStep::Skip, "{:?}", other);
    }
    assert_eq!(walk_step(EntryKind::File, &Extension::Absent), WalkStep::Skip);
    assert_eq!(walk_step(EntryKind::File, &Extension::NotUtf8), WalkStep::WarnExtension);
}

#[test]
fn only_regular_files_are_read() {
    assert_eq!(walk_step(EntryKind::Directory, &Extension::Text("py".to_string())), WalkStep::Skip);
    assert_eq!(walk_step(EntryKind::Other, &Extension::Text("py".to_string())), WalkStep::Skip);
    assert_eq!(walk_step(EntryKind::Directory, &Extension::Absent), WalkStep::Skip);
    assert_eq!(walk_step(EntryKind::Other, &Extension::Absent), WalkStep::Skip);
    assert_eq!(walk_step(EntryKind::Directory, &Extension::Text("rs".to_string())), WalkStep::Skip);
    assert_eq!(walk_step(EntryKind::Directory, &Extension::NotUtf8), WalkStep::WarnExtension);
    assert_eq!(walk_step(EntryKind::Other, &Extension::NotUtf8), WalkStep::WarnExtension);
}

#[test]
fn reader_reads_paths_until_the_input_ends() {
    assert_eq!(reader_step(Some(Some("a.py".to_string()))), ReaderStep::Read("a.py".to_string()));
    assert_eq!(reader_step(Some(Some(String::new()))), ReaderStep::Read(String::new()));
    assert_eq!(reader_step::<String>(Some(None)), ReaderStep::Drain);
    assert_eq!(reader_step::<String>(None), ReaderStep::Drain);
    let path = std::path::PathBuf::from("dir/b.py");
    assert_eq!(reader_step(Some(Some(path.clone()))), ReaderStep::Read(path));
}

#[test]
fn counters_add_up() {
    let mut counters = RunCounters::new();
    assert_eq!(counters, RunCounters { files: 0, bytes: 0 });
    counters.add_file(10);
    counters.add_file(0);
    counters.add_file(32);
    assert_eq!(counters, RunCounters { files: 3, bytes: 42 });
}

#[test]
fn counters_stay_at_the_largest_value() {
    let mut counters = RunCounters { files: usize::MAX - 1, bytes: usize::MAX - 5 };
    counters.add_file(5);
    assert_eq!(counters, RunCounters { files: usize::MAX, bytes: usize::MAX });
    counters.add_file(7);
    assert_eq!(counters, RunCounters { files: usize::MAX, bytes: usize::MAX });
}

#[test]
fn scan_counts_every_file_and_keeps_the_records() {
    let mut scan = Scan::new();
    scan.absorb(100, Some(vec![record("a", v(1, 0, 0)), record("b", v(2, 0, 0))]));
    scan.absorb(7, None);
    scan.absorb(0, Some(vec![]));
    scan.absorb(3, Some(vec![record("c", v(1, 0, 0))]));
    assert_eq!(scan.counters, RunCounters { files: 4, bytes: 110 });
    assert_eq!(scan.store.len(), 2);
    let groups = scan.store.into_groups();
    assert_eq!(names(&groups[0]), vec!["b"]);
    assert_eq!(names(&groups[1]), vec!["a", "c"]);
}
