use switch::codec::{decode_entry, encode_entry};
use switch::entry::{AppEntry, AppEntryKind};
use switch::history::{merge_history, merge_record, FrecencyStore};

fn rec(name: &str, use_count: u32, t: u64) -> AppEntry {
    AppEntry {
        name: name.to_string(),
        use_count,
        last_use_time: t,
        kind: AppEntryKind::Exe { path: format!("{}.exe", name), params: String::new() },
    }
}

#[test]
fn merge_stores_first_record_verbatim() {
    let mut store = FrecencyStore::new();
    store.merge(rec("a", 1, 10));
    let e = store.lookup("a").unwrap();
    assert_eq!(e.use_count, 1);
    assert_eq!(e.last_use_time, 10);
}

#[test]
fn merge_bumps_count_and_keeps_prior_timestamp() {
    let mut store = FrecencyStore::new();
    store.merge(rec("a", 1, 10));
    store.merge(rec("a", 1, 99));
    let e = store.lookup("a").unwrap();
    assert_eq!(e.use_count, 2);
    // The merge operator itself keeps the stored timestamp; stamping the
    // operand is the caller's convention.
    assert_eq!(e.last_use_time, 10);
    assert_eq!(store.len(), 1);
}

#[test]
fn merge_order_of_concurrent_writers_is_irrelevant_to_count() {
    let r1 = rec("x", 1, 10);
    let r2 = rec("x", 1, 20);

    let mut sa = FrecencyStore::new();
    sa.merge(r1.clone());
    sa.merge(r2.clone());

    let mut sb = FrecencyStore::new();
    sb.merge(r2);
    sb.merge(r1);

    assert_eq!(
        sa.lookup("x").unwrap().use_count,
        sb.lookup("x").unwrap().use_count,
    );
    assert_eq!(sa.lookup("x").unwrap().use_count, 2);
}

#[test]
fn delete_removes_only_its_key() {
    let mut store = FrecencyStore::new();
    store.merge(rec("a", 1, 1));
    store.merge(rec("b", 1, 2));
    store.delete("a");
    assert!(store.lookup("a").is_none());
    assert!(store.lookup("b").is_some());
    assert_eq!(store.len(), 1);
    // Deleting an absent key is a no-op.
    store.delete("zzz");
    assert_eq!(store.len(), 1);
}

#[test]
fn iterate_returns_insertion_order() {
    let mut store = FrecencyStore::new();
    store.merge(rec("a", 1, 1));
    store.merge(rec("b", 1, 2));
    store.merge(rec("c", 1, 3));
    let all = store.iterate();
    let names: Vec<String> = all.iter().map(|e| e.name.clone()).collect();
    assert_eq!(names, vec!["a".to_string(), "b".to_string(), "c".to_string()]);
}

#[test]
fn codec_round_trip_all_kinds() {
    let entries = vec![
        rec("plain", 3, 77),
        AppEntry {
            name: "héllo β".to_string(),
            use_count: 1,
            last_use_time: 2,
            kind: AppEntryKind::Link {
                path: "a.lnk".to_string(),
                params: "-x".to_string(),
                target_path: "C:\\β\\b.exe".to_string(),
            },
        },
        AppEntry {
            name: "store app".to_string(),
            use_count: 0,
            last_use_time: 0,
            kind: AppEntryKind::Appx {
                identity_id: "id".to_string(),
                publisher_id: "pub".to_string(),
                application_id: "app".to_string(),
                path: "somewhere".to_string(),
            },
        },
        AppEntry {
            name: "run me".to_string(),
            use_count: 9,
            last_use_time: 123456789,
            kind: AppEntryKind::Command { command: "run me -v".to_string() },
        },
    ];
    for e in entries {
        let bytes = encode_entry(&e);
        let back = decode_entry(&bytes).unwrap();
        assert_eq!(back.name, e.name);
        assert_eq!(back.use_count, e.use_count);
        assert_eq!(back.last_use_time, e.last_use_time);
        match (&back.kind, &e.kind) {
            (
                AppEntryKind::Exe { path: p1, params: q1 },
                AppEntryKind::Exe { path: p2, params: q2 },
            ) => {
                assert_eq!(p1, p2);
                assert_eq!(q1, q2);
            },
            (
                AppEntryKind::Link { target_path: t1, .. },
                AppEntryKind::Link { target_path: t2, .. },
            ) => assert_eq!(t1, t2),
            (AppEntryKind::Appx { identity_id: i1, .. }, AppEntryKind::Appx {
                identity_id: i2, ..
            }) => assert_eq!(i1, i2),
            (AppEntryKind::Command { command: c1 }, AppEntryKind::Command { command: c2 }) => {
                assert_eq!(c1, c2)
            },
            _ => panic!("kind changed across the codec"),
        }
    }
}

#[test]
fn decode_rejects_malformed_bytes() {
    assert!(decode_entry(&vec![]).is_none());
    assert!(decode_entry(&vec![1, 2, 3]).is_none());
    // A valid record with a trailing byte is refused.
    let mut bytes = encode_entry(&rec("a", 1, 1));
    bytes.push(0);
    assert!(decode_entry(&bytes).is_none());
    // A record with a mangled tag is refused.
    let good = encode_entry(&rec("a", 1, 1));
    let mut bad = good.clone();
    let tag_pos = 4 + 8 + 8 + 1;
    bad[tag_pos] = 200;
    assert!(decode_entry(&bad).is_none());
}

#[test]
fn merge_record_matches_store_semantics() {
    let merged = merge_record(None, rec("n", 1, 50));
    assert_eq!(merged.use_count, 1);
    let prior = rec("n", 4, 40);
    let merged = merge_record(Some(&prior), rec("n", 1, 50));
    assert_eq!(merged.use_count, 5);
    assert_eq!(merged.last_use_time, 40);
}

#[test]
fn merge_history_folds_encoded_operands() {
    let r1 = rec("x", 1, 10);
    let r2 = rec("x", 1, 20);
    let out = merge_history(None, &vec![encode_entry(&r1), encode_entry(&r2)]).unwrap();
    let folded = decode_entry(&out).unwrap();
    assert_eq!(folded.use_count, 2);
    assert_eq!(folded.last_use_time, 10);

    // With a stored prior value, each operand is one more use event.
    let prior = encode_entry(&rec("x", 7, 5));
    let out = merge_history(Some(&prior), &vec![encode_entry(&r1)]).unwrap();
    let folded = decode_entry(&out).unwrap();
    assert_eq!(folded.use_count, 8);
    assert_eq!(folded.last_use_time, 5);

    // Undecodable operands are ignored; nothing at all decodable is None.
    let out = merge_history(Some(&prior), &vec![vec![9, 9, 9]]).unwrap();
    assert_eq!(decode_entry(&out).unwrap().use_count, 7);
    assert!(merge_history(None, &vec![vec![9, 9, 9]]).is_none());
}

#[test]
fn merge_saturates_at_the_largest_count() {
    let mut store = FrecencyStore::new();
    store.merge(rec("m", u32::MAX, 1));
    store.merge(rec("m", 1, 2));
    assert_eq!(store.lookup("m").unwrap().use_count, u32::MAX);
}
