use openqr::history::{flat_insert, flat_list, migrate_into_flat, migration_order, storage_method_from, ScanObject, StorageMethod};

fn make_scan(url: &str, ts: &str) -> ScanObject {
    ScanObject {
        id: 0,
        url: url.to_string(),
        timestamp: ts.to_string(),
    }
}

#[test]
fn json_add_and_get() {
    let mut store: Vec<ScanObject> = Vec::new();

    let scan = make_scan("https://example.com", "2024-01-01 00:00:00");
    flat_insert(&mut store, 100, &scan);

    let history = flat_list(&store, 100);
    assert_eq!(history.len(), 1);
    assert_eq!(history[0].url, "https://example.com");
}

#[test]
fn json_max_items_enforced() {
    let mut store: Vec<ScanObject> = Vec::new();

    for i in 0..10 {
        let scan = make_scan(
            &format!("https://example{}.com", i),
            &format!("2024-01-01 00:00:{:02}", i),
        );
        flat_insert(&mut store, 5, &scan);
    }

    let history = flat_list(&store, 5);
    assert_eq!(history.len(), 5);
}

#[test]
fn json_clear() {
    let mut store: Vec<ScanObject> = Vec::new();

    let scan = make_scan("https://example.com", "2024-01-01 00:00:00");
    flat_insert(&mut store, 100, &scan);

    store.clear();

    let history = flat_list(&store, 100);
    assert!(history.is_empty());
}

#[test]
fn json_empty_history() {
    let store: Vec<ScanObject> = Vec::new();

    let history = flat_list(&store, 100);
    assert!(history.is_empty());
}

#[test]
fn json_order_is_newest_first() {
    let mut store: Vec<ScanObject> = Vec::new();

    flat_insert(&mut store, 100, &make_scan("https://first.com", "2024-01-01 00:00:00"));
    flat_insert(&mut store, 100, &make_scan("https://second.com", "2024-06-01 00:00:00"));

    let history = flat_list(&store, 100);
    assert_eq!(history[0].url, "https://second.com");
    assert_eq!(history[1].url, "https://first.com");
}

#[test]
fn ten_inserts_with_cap_five_keep_the_five_newest() {
    let mut store: Vec<ScanObject> = Vec::new();
    for i in 0..10 {
        let scan = make_scan(
            &format!("https://example{}.com", i),
            &format!("2024-01-01 00:00:{:02}", i),
        );
        flat_insert(&mut store, 5, &scan);
    }
    let history = flat_list(&store, 5);
    let stamps: Vec<&str> = history.iter().map(|s| s.timestamp.as_str()).collect();
    assert_eq!(
        stamps,
        vec![
            "2024-01-01 00:00:09",
            "2024-01-01 00:00:08",
            "2024-01-01 00:00:07",
            "2024-01-01 00:00:06",
            "2024-01-01 00:00:05",
        ]
    );
    let ids: Vec<i64> = history.iter().map(|s| s.id).collect();
    assert_eq!(ids, vec![0, 1, 2, 3, 4]);
}

#[test]
fn listing_is_capped_by_its_own_limit() {
    let mut store: Vec<ScanObject> = Vec::new();
    for i in 0..4 {
        flat_insert(&mut store, 100, &make_scan(&format!("https://s{}.com", i), "2024-01-01 00:00:00"));
    }
    assert_eq!(flat_list(&store, 2).len(), 2);
    assert_eq!(flat_list(&store, 2)[0].url, "https://s3.com");
    flat_insert(&mut store, 0, &make_scan("https://z.com", "2024-01-01 00:00:00"));
    assert!(store.is_empty());
}

#[test]
fn migration_inserts_oldest_first() {
    let items = vec![
        make_scan("https://b.com", "2024-01-02 00:00:00"),
        make_scan("https://a.com", "2024-01-01 00:00:00"),
    ];
    let order = migration_order(&items);
    assert_eq!(order[0].url, "https://a.com");
    assert_eq!(order[1].url, "https://b.com");
}

#[test]
fn round_trip_migration_keeps_pairs() {
    let mut source: Vec<ScanObject> = Vec::new();
    flat_insert(&mut source, 100, &make_scan("https://a.com", "2024-01-01 00:00:00"));
    flat_insert(&mut source, 100, &make_scan("https://b.com", "2024-01-02 00:00:00"));

    let mut other: Vec<ScanObject> = Vec::new();
    let read = flat_list(&source, 100);
    assert_eq!(migrate_into_flat(&read, &mut other, 100), 2);

    let mut back: Vec<ScanObject> = Vec::new();
    let read = flat_list(&other, 100);
    assert_eq!(migrate_into_flat(&read, &mut back, 100), 2);

    let before: Vec<(String, String)> = source.iter().map(|s| (s.url.clone(), s.timestamp.clone())).collect();
    let after: Vec<(String, String)> = back.iter().map(|s| (s.url.clone(), s.timestamp.clone())).collect();
    assert_eq!(before, after);
}

#[test]
fn migration_into_smaller_cap_keeps_newest() {
    let items = vec![
        make_scan("https://c.com", "2024-01-03 00:00:00"),
        make_scan("https://b.com", "2024-01-02 00:00:00"),
        make_scan("https://a.com", "2024-01-01 00:00:00"),
    ];
    let mut dest: Vec<ScanObject> = Vec::new();
    assert_eq!(migrate_into_flat(&items, &mut dest, 2), 3);
    assert_eq!(dest.len(), 2);
    assert_eq!(dest[0].url, "https://c.com");
    assert_eq!(dest[1].url, "https://b.com");
}

#[test]
fn storage_method_names() {
    assert_eq!(storage_method_from("sqlite"), StorageMethod::Relational);
    assert_eq!(storage_method_from("json"), StorageMethod::Flat);
    assert_eq!(storage_method_from("SQLite"), StorageMethod::Flat);
}
