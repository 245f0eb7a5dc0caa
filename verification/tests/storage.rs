use supervisor::storage::{AddressChanges, Change, Patch, ResolvedAddr, TemporaryDB};

fn addr(name: &str) -> ResolvedAddr {
    ResolvedAddr { name: name.to_string(), id: None }
}

fn grouped_addr(name: &str, id: u64) -> ResolvedAddr {
    ResolvedAddr { name: name.to_string(), id: Some(id) }
}

fn put(key: &[u8], value: &[u8]) -> (Vec<u8>, Change) {
    (key.to_vec(), Change::Put(value.to_vec()))
}

fn delete(key: &[u8]) -> (Vec<u8>, Change) {
    (key.to_vec(), Change::Delete)
}

fn patch_for(name: &str, cleared: bool, data: Vec<(Vec<u8>, Change)>) -> Patch {
    Patch { changes: vec![(addr(name), AddressChanges { cleared, data })] }
}

#[test]
fn merge_put_and_get() {
    let mut db = TemporaryDB::new();
    db.merge(&patch_for("table", false, vec![put(b"alpha", b"1"), put(b"beta", b"2")]));

    let snapshot = db.snapshot();
    assert_eq!(snapshot.get(&addr("table"), &b"alpha".to_vec()), Some(b"1".to_vec()));
    assert_eq!(snapshot.get(&addr("table"), &b"beta".to_vec()), Some(b"2".to_vec()));
    assert_eq!(snapshot.get(&addr("table"), &b"gamma".to_vec()), None);
    assert_eq!(snapshot.get(&addr("other"), &b"alpha".to_vec()), None);
}

#[test]
fn merge_overwrites_and_deletes() {
    let mut db = TemporaryDB::new();
    db.merge(&patch_for("table", false, vec![put(b"alpha", b"1"), put(b"beta", b"2")]));
    db.merge(&patch_for("table", false, vec![put(b"alpha", b"3"), delete(b"beta")]));

    let snapshot = db.snapshot();
    assert_eq!(snapshot.get(&addr("table"), &b"alpha".to_vec()), Some(b"3".to_vec()));
    assert_eq!(snapshot.get(&addr("table"), &b"beta".to_vec()), None);
}

#[test]
fn cleared_address_drops_earlier_cells() {
    let mut db = TemporaryDB::new();
    db.merge(&patch_for("table", false, vec![put(b"alpha", b"1")]));
    db.merge(&patch_for("keep", false, vec![put(b"alpha", b"9")]));
    db.merge(&patch_for("table", true, vec![put(b"beta", b"2")]));

    let snapshot = db.snapshot();
    assert_eq!(snapshot.get(&addr("table"), &b"alpha".to_vec()), None);
    assert_eq!(snapshot.get(&addr("table"), &b"beta".to_vec()), Some(b"2".to_vec()));
    assert_eq!(snapshot.get(&addr("keep"), &b"alpha".to_vec()), Some(b"9".to_vec()));
}

#[test]
fn snapshots_are_isolated_from_later_merges() {
    let mut db = TemporaryDB::new();
    db.merge(&patch_for("table", false, vec![put(b"alpha", b"1")]));
    let before = db.snapshot();

    db.merge(&patch_for("table", false, vec![put(b"alpha", b"2")]));
    let after = db.snapshot();

    assert_eq!(before.get(&addr("table"), &b"alpha".to_vec()), Some(b"1".to_vec()));
    assert_eq!(after.get(&addr("table"), &b"alpha".to_vec()), Some(b"2".to_vec()));
}

#[test]
fn clear_empties_the_database() {
    let mut db = TemporaryDB::new();
    db.merge(&patch_for("table", false, vec![put(b"alpha", b"1")]));
    db.clear();
    let snapshot = db.snapshot();
    assert_eq!(snapshot.get(&addr("table"), &b"alpha".to_vec()), None);
}

#[test]
fn merge_sync_behaves_like_merge() {
    let mut db = TemporaryDB::new();
    db.merge_sync(&patch_for("table", false, vec![put(b"alpha", b"1")]));
    let snapshot = db.snapshot();
    assert_eq!(snapshot.get(&addr("table"), &b"alpha".to_vec()), Some(b"1".to_vec()));
}

#[test]
fn grouped_addresses_are_distinct_tables() {
    let mut db = TemporaryDB::new();
    db.merge(&Patch {
        changes: vec![
            (grouped_addr("group", 1), AddressChanges { cleared: false, data: vec![put(b"k", b"one")] }),
            (grouped_addr("group", 2), AddressChanges { cleared: false, data: vec![put(b"k", b"two")] }),
        ],
    });
    let snapshot = db.snapshot();
    assert_eq!(snapshot.get(&grouped_addr("group", 1), &b"k".to_vec()), Some(b"one".to_vec()));
    assert_eq!(snapshot.get(&grouped_addr("group", 2), &b"k".to_vec()), Some(b"two".to_vec()));
    assert_eq!(snapshot.get(&addr("group"), &b"k".to_vec()), None);

    // Clearing one grouped table leaves its sibling untouched.
    db.merge(&Patch {
        changes: vec![(grouped_addr("group", 1), AddressChanges { cleared: true, data: Vec::new() })],
    });
    let snapshot = db.snapshot();
    assert_eq!(snapshot.get(&grouped_addr("group", 1), &b"k".to_vec()), None);
    assert_eq!(snapshot.get(&grouped_addr("group", 2), &b"k".to_vec()), Some(b"two".to_vec()));
}

#[test]
fn iter_returns_sorted_range() {
    let mut db = TemporaryDB::new();
    db.merge(&patch_for(
        "table",
        false,
        vec![
            put(b"delta", b"4"),
            put(b"alpha", b"1"),
            put(b"gamma", b"3"),
            put(b"beta", b"2"),
        ],
    ));
    db.merge(&patch_for("other", false, vec![put(b"epsilon", b"5")]));

    let snapshot = db.snapshot();
    let all = snapshot.iter(&addr("table"), &Vec::new());
    let keys: Vec<Vec<u8>> = all.iter().map(|(k, _)| k.clone()).collect();
    assert_eq!(
        keys,
        vec![b"alpha".to_vec(), b"beta".to_vec(), b"delta".to_vec(), b"gamma".to_vec()]
    );

    let from_beta = snapshot.iter(&addr("table"), &b"beta".to_vec());
    let keys: Vec<Vec<u8>> = from_beta.iter().map(|(k, _)| k.clone()).collect();
    assert_eq!(keys, vec![b"beta".to_vec(), b"delta".to_vec(), b"gamma".to_vec()]);
    let values: Vec<Vec<u8>> = from_beta.iter().map(|(_, v)| v.clone()).collect();
    assert_eq!(values, vec![b"2".to_vec(), b"4".to_vec(), b"3".to_vec()]);
}
