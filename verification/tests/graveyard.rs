use aktags_cloud::graveyard::{
    decompress_object, new_entry, object_dir, object_path, shard_of, ExpiredEntry, GraveyardEntry, GraveyardObject,
    ReapAction, ReapEvent, Reaper,
};
use aktags_cloud::time::{add_days, days_later_fits, Timestamp, MAX_TIMESTAMP, MIN_TIMESTAMP};

#[test]
fn object_layout_under_root() {
    assert_eq!(object_path("/g", "abcdef"), "/g/objects/ab/abcdef");
    assert_eq!(object_dir("/g/", "abcdef"), "/g/objects/ab");
    assert_eq!(shard_of("ab").as_deref(), Some("ab"));
    assert_eq!(shard_of("éx").as_deref(), Some("é"));
    assert_eq!(shard_of("a"), None);
    assert_eq!(shard_of("aé"), None);
    assert_eq!(shard_of("€x"), None);
}

#[test]
fn entomb_then_restore_round_trip() {
    let content = b"hello graveyard, hello graveyard, hello graveyard".to_vec();
    let o = GraveyardObject::from_content("/g", &content).unwrap();
    assert_eq!(o.hash, aktags_cloud::tagger::compute_file_hash(&content));
    assert_eq!(o.path, format!("/g/objects/{}/{}", &o.hash[..2], o.hash));
    assert_eq!(o.dir, format!("/g/objects/{}", &o.hash[..2]));
    assert_eq!(o.compressed, zstd::encode_all(content.as_slice(), 3).unwrap());
    assert_ne!(o.compressed, content);
    assert_eq!(decompress_object(&o.compressed).unwrap(), content);
}

#[test]
fn empty_content_round_trip() {
    let o = GraveyardObject::from_content("g", b"").unwrap();
    assert_eq!(decompress_object(&o.compressed).unwrap(), Vec::<u8>::new());
}

#[test]
fn decompress_rejects_garbage() {
    assert!(decompress_object(b"not a zstd frame").is_err());
}

#[test]
fn new_entry_records_the_burial() {
    let content = b"version one".to_vec();
    let o = GraveyardObject::from_content("/g", &content).unwrap();
    let now = Timestamp { secs: 0, nanos: 0 };
    let e: GraveyardEntry =
        new_entry("/data/a.txt", &o, "oldhash", "newhash", Some("peer1"), None, Some("sum"), now, 30);
    assert_eq!(e.id, 0);
    assert_eq!(e.original_path, "/data/a.txt");
    assert_eq!(e.object_hash, o.hash);
    assert_eq!(e.original_hash, "oldhash");
    assert_eq!(e.size_bytes, content.len() as i64);
    assert_eq!(e.compressed_bytes, o.compressed.len() as i64);
    assert_eq!(e.replaced_by, "newhash");
    assert_eq!(e.replaced_at, "1970-01-01T00:00:00+00:00");
    assert_eq!(e.expires_at, "1970-01-31T00:00:00+00:00");
    assert_eq!(e.peer_node_id.as_deref(), Some("peer1"));
    assert_eq!(e.tags, None);
    assert_eq!(e.summary.as_deref(), Some("sum"));
    assert_eq!(e.object_path("/g"), o.path);
    assert!(e.has_object_name());
}

#[test]
fn rfc3339_matches_chrono() {
    for (secs, nanos) in [(0i64, 0u32), (1725029869, 123456789), (1700000000, 500_000_000), (-1, 0), (951782400, 1000)] {
        let t = Timestamp { secs, nanos };
        let expected = chrono::DateTime::from_timestamp(secs, nanos).unwrap().to_rfc3339();
        assert_eq!(t.to_rfc3339(), expected);
    }
    let now = Timestamp::now().unwrap();
    assert!(now.secs > 1_600_000_000);
    assert!(now.nanos < 1_000_000_000);
}

#[test]
fn days_later_bounds_match_chrono() {
    assert!(chrono::DateTime::from_timestamp(MAX_TIMESTAMP, 0).is_some());
    assert!(chrono::DateTime::from_timestamp(MAX_TIMESTAMP + 1, 0).is_none());
    assert!(chrono::DateTime::from_timestamp(MIN_TIMESTAMP, 0).is_some());
    assert!(chrono::DateTime::from_timestamp(MIN_TIMESTAMP - 1, 0).is_none());
    assert_eq!(chrono::DateTime::<chrono::Utc>::MIN_UTC.timestamp(), MIN_TIMESTAMP);
    assert_eq!(chrono::DateTime::<chrono::Utc>::MAX_UTC.timestamp(), MAX_TIMESTAMP);
    let t = Timestamp { secs: 1_700_000_000, nanos: 7 };
    assert!(days_later_fits(t, 30));
    assert!(days_later_fits(t, -30));
    assert!(!days_later_fits(t, i64::MAX));
    assert!(!days_later_fits(t, i64::MIN));
    assert_eq!(add_days(t, 30), Timestamp { secs: 1_700_000_000 + 30 * 86400, nanos: 7 });
    let dt = chrono::DateTime::from_timestamp(t.secs, t.nanos).unwrap() + chrono::Duration::days(30);
    assert_eq!(add_days(t, 30).to_rfc3339(), dt.to_rfc3339());
    let edge_days = (MAX_TIMESTAMP - t.secs) / 86400;
    assert!(days_later_fits(t, edge_days));
    assert!(!days_later_fits(t, edge_days + 1));
}

fn run_reaper(expired: Vec<ExpiredEntry>, refs: &[i64]) -> (Vec<String>, usize) {
    let mut r = Reaper::new("/g".to_string(), expired);
    let mut log = Vec::new();
    let mut counts = refs.iter();
    loop {
        match r.next_action() {
            ReapAction::DeleteEntry(id) => {
                log.push(format!("delete {}", id));
                r.on_event(ReapEvent::Done);
            }
            ReapAction::CountReferences(h) => {
                log.push(format!("count {}", h));
                r.on_event(ReapEvent::References(*counts.next().unwrap()));
            }
            ReapAction::RemoveObject(p) => {
                log.push(format!("remove {}", p));
                r.on_event(ReapEvent::Done);
            }
            ReapAction::BadObjectName(h) => {
                log.push(format!("bad {}", h));
                break (log, usize::MAX);
            }
            ReapAction::Finished(n) => break (log, n),
        }
    }
}

#[test]
fn reaper_removes_only_unreferenced_objects() {
    let expired = vec![
        ExpiredEntry { id: 1, object_hash: "aa11".to_string() },
        ExpiredEntry { id: 2, object_hash: "bb22".to_string() },
    ];
    let (log, n) = run_reaper(expired, &[0, 3]);
    assert_eq!(
        log,
        vec!["delete 1", "count aa11", "remove /g/objects/aa/aa11", "delete 2", "count bb22"]
    );
    assert_eq!(n, 2);
}

#[test]
fn reaper_with_nothing_expired() {
    let (log, n) = run_reaper(Vec::new(), &[]);
    assert!(log.is_empty());
    assert_eq!(n, 0);
}

#[test]
fn reaper_reports_unnameable_object() {
    let (log, _) = run_reaper(vec![ExpiredEntry { id: 9, object_hash: "x".to_string() }], &[0]);
    assert_eq!(log, vec!["delete 9", "count x", "bad x"]);
}

#[test]
fn reaper_ignores_unexpected_answers() {
    let mut r = Reaper::new("/g".to_string(), vec![ExpiredEntry { id: 5, object_hash: "cc33".to_string() }]);
    r.on_event(ReapEvent::References(0));
    assert!(matches!(r.next_action(), ReapAction::DeleteEntry(5)));
}

#[test]
fn entomb_hello_scenario() {
    let content = b"hello".to_vec();
    let o = GraveyardObject::from_content("/g", &content).unwrap();
    assert_eq!(o.hash, "2cf24dba5fb0a30e26e83b2ac5b9e29e1b161e5c1fa7425e73043362938b9824");
    assert_eq!(o.path, "/g/objects/2c/2cf24dba5fb0a30e26e83b2ac5b9e29e1b161e5c1fa7425e73043362938b9824");
    assert_eq!(decompress_object(&o.compressed).unwrap(), content);
    let now = Timestamp { secs: 1_704_067_200, nanos: 0 };
    let e = new_entry("/tmp/a.txt", &o, "h0", "h1", None, None, None, now, 30);
    assert_eq!(e.original_path, "/tmp/a.txt");
    assert_eq!(o.size, 5);
    assert_eq!(e.size_bytes, 5);
    assert_eq!(e.object_hash, "2cf24dba5fb0a30e26e83b2ac5b9e29e1b161e5c1fa7425e73043362938b9824");
    assert_eq!(e.original_hash, "h0");
    assert_eq!(e.replaced_by, "h1");
    assert_eq!(e.replaced_at, "2024-01-01T00:00:00+00:00");
    assert_eq!(e.expires_at, "2024-01-31T00:00:00+00:00");
    assert_eq!(e.peer_node_id, None);
}

#[test]
fn reaping_keeps_objects_still_referenced() {
    let mut index: std::collections::BTreeMap<i64, String> = std::collections::BTreeMap::new();
    for (id, h) in [(1, "aa11"), (2, "aa11"), (3, "bb22"), (4, "cc33"), (5, "cc33")] {
        index.insert(id, h.to_string());
    }
    let mut files: std::collections::BTreeSet<String> = index.values().map(|h| object_path("/g", h)).collect();
    let expired = vec![
        ExpiredEntry { id: 1, object_hash: "aa11".to_string() },
        ExpiredEntry { id: 3, object_hash: "bb22".to_string() },
        ExpiredEntry { id: 4, object_hash: "cc33".to_string() },
        ExpiredEntry { id: 5, object_hash: "cc33".to_string() },
    ];
    let mut r = Reaper::new("/g".to_string(), expired);
    let n = loop {
        match r.next_action() {
            ReapAction::DeleteEntry(id) => {
                index.remove(&id);
                r.on_event(ReapEvent::Done);
            }
            ReapAction::CountReferences(h) => {
                let c = index.values().filter(|v| **v == h).count() as i64;
                r.on_event(ReapEvent::References(c));
            }
            ReapAction::RemoveObject(p) => {
                files.remove(&p);
                r.on_event(ReapEvent::Done);
            }
            ReapAction::BadObjectName(h) => panic!("bad name {}", h),
            ReapAction::Finished(n) => break n,
        }
    };
    assert_eq!(n, 4);
    assert_eq!(index.keys().copied().collect::<Vec<_>>(), vec![2]);
    let expected: std::collections::BTreeSet<String> = [object_path("/g", "aa11")].into_iter().collect();
    assert_eq!(files, expected);
}
