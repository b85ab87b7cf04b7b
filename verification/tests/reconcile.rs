use harvest_sync::model::{HarvestItem, HarvestResponse};
use harvest_sync::store::{resolve, ApplyError, LocalStore, Payload, Stamp, Verdict};
use harvest_sync::sync::{apply_page, drain, next_watermark, sync_page, StoreError, SyncWatermark};

fn upsert(id: &str, title: &str, updated: i64) -> HarvestItem {
    HarvestItem::Event {
        id: id.to_string(),
        title: title.to_string(),
        description: None,
        part_of: None,
        updated,
    }
}

fn delete(id: &str, updated: i64) -> HarvestItem {
    HarvestItem::EventDeleted { id: id.to_string(), updated }
}

fn page(until: i64, has_more: bool, items: Vec<HarvestItem>) -> HarvestResponse {
    HarvestResponse { includes_items_until: until, has_more, items }
}

fn state(store: &LocalStore, ids: &[&str]) -> Vec<(Option<Stamp>, Option<Payload>)> {
    ids.iter().map(|id| (store.stamp(&id.to_string()), store.get(&id.to_string()))).collect()
}

#[test]
fn updated_reads_either_variant() {
    assert_eq!(upsert("A", "a", 17).updated(), 17);
    assert_eq!(delete("A", 23).updated(), 23);
    assert_eq!(upsert("A", "a", 17).id(), "A");
    assert!(delete("A", 1).is_deletion());
    assert!(!upsert("A", "a", 1).is_deletion());
}

#[test]
fn page_then_empty_page() {
    let mut store = LocalStore::new();
    let mut mark = SyncWatermark::new(0);
    let first = page(1000, false, vec![upsert("A", "a", 900), upsert("B", "b", 1000)]);
    let report = sync_page(&mut store, &mut mark, &first);
    assert_eq!(report.invalid, 0);
    assert!(report.advanced);
    assert!(!report.has_more);
    assert!(store.is_visible(&"A".to_string()));
    assert!(store.is_visible(&"B".to_string()));
    assert_eq!(store.len(), 2);
    assert_eq!(mark.load(), 1000);

    let before = state(&store, &["A", "B"]);
    let second = page(1000, false, vec![]);
    let report = sync_page(&mut store, &mut mark, &second);
    assert!(!report.advanced);
    assert_eq!(report.invalid, 0);
    assert_eq!(mark.load(), 1000);
    assert_eq!(state(&store, &["A", "B"]), before);
    assert_eq!(store.len(), 2);
}

#[test]
fn newer_delete_beats_late_upsert() {
    let mut store = LocalStore::new();
    assert_eq!(store.apply(&delete("A", 1500)), Ok(()));
    assert_eq!(store.apply(&upsert("A", "late", 1400)), Ok(()));
    assert!(!store.is_visible(&"A".to_string()));
    assert_eq!(store.get(&"A".to_string()), None);
    assert_eq!(store.stamp(&"A".to_string()), Some(Stamp { updated: 1500, tombstone: true }));

    let mut in_order = LocalStore::new();
    assert_eq!(in_order.apply(&upsert("A", "late", 1400)), Ok(()));
    assert_eq!(in_order.apply(&delete("A", 1500)), Ok(()));
    assert_eq!(state(&in_order, &["A"]), state(&store, &["A"]));
}

#[test]
fn applying_twice_is_applying_once() {
    for item in [upsert("A", "a", 10), delete("A", 10), upsert("A", "x", 5), delete("B", 30)] {
        let mut once = LocalStore::new();
        once.apply(&upsert("A", "old", 7)).unwrap();
        let mut twice = LocalStore::new();
        twice.apply(&upsert("A", "old", 7)).unwrap();
        once.apply(&item).unwrap();
        twice.apply(&item).unwrap();
        twice.apply(&item).unwrap();
        assert_eq!(state(&once, &["A", "B"]), state(&twice, &["A", "B"]));
        assert_eq!(once.len(), twice.len());
    }
}

#[test]
fn delete_wins_a_tie_in_either_order() {
    let mut a = LocalStore::new();
    a.apply(&upsert("A", "a", 50)).unwrap();
    a.apply(&delete("A", 50)).unwrap();
    let mut b = LocalStore::new();
    b.apply(&delete("A", 50)).unwrap();
    b.apply(&upsert("A", "a", 50)).unwrap();
    assert_eq!(state(&a, &["A"]), state(&b, &["A"]));
    assert_eq!(a.stamp(&"A".to_string()), Some(Stamp { updated: 50, tombstone: true }));
    assert!(!b.is_visible(&"A".to_string()));
}

#[test]
fn equal_time_upsert_replaces_live_entity() {
    let mut s = LocalStore::new();
    s.apply(&upsert("A", "first", 50)).unwrap();
    s.apply(&upsert("A", "second", 50)).unwrap();
    assert_eq!(s.get(&"A".to_string()).unwrap().title, "second");
}

#[test]
fn older_items_change_nothing() {
    let mut s = LocalStore::new();
    s.apply(&upsert("A", "new", 100)).unwrap();
    assert_eq!(s.apply(&upsert("A", "old", 99)), Ok(()));
    assert_eq!(s.apply(&delete("A", 99)), Ok(()));
    assert_eq!(s.get(&"A".to_string()).unwrap().title, "new");
    assert_eq!(s.stamp(&"A".to_string()), Some(Stamp { updated: 100, tombstone: false }));
}

#[test]
fn delete_of_unknown_or_deleted_entity_succeeds() {
    let mut s = LocalStore::new();
    assert_eq!(s.apply(&delete("ghost", 5)), Ok(()));
    assert!(!s.is_visible(&"ghost".to_string()));
    assert_eq!(s.apply(&delete("ghost", 6)), Ok(()));
    assert!(!s.is_visible(&"ghost".to_string()));
    assert_eq!(s.stamp(&"ghost".to_string()), Some(Stamp { updated: 6, tombstone: true }));
    assert_eq!(s.stamp(&"other".to_string()), None);
}

#[test]
fn payload_is_kept_whole() {
    let mut s = LocalStore::new();
    let item = HarvestItem::Event {
        id: "A".to_string(),
        title: "Lecture".to_string(),
        description: Some("First".to_string()),
        part_of: Some("series-1".to_string()),
        updated: 3,
    };
    s.apply(&item).unwrap();
    assert_eq!(
        s.get(&"A".to_string()),
        Some(Payload {
            title: "Lecture".to_string(),
            description: Some("First".to_string()),
            part_of: Some("series-1".to_string()),
        })
    );
}

#[test]
fn invalid_item_is_refused_and_changes_nothing() {
    let mut s = LocalStore::new();
    assert!(!upsert("", "nameless", 5).is_valid());
    assert!(upsert("A", "", 5).is_valid());
    assert_eq!(s.apply(&upsert("", "nameless", 5)), Err(ApplyError::Invalid));
    assert_eq!(s.apply(&delete("", 5)), Err(ApplyError::Invalid));
    assert_eq!(s.len(), 0);
    assert_ne!(ApplyError::Invalid, ApplyError::Unavailable);
}

#[test]
fn invalid_item_does_not_hold_the_page_back() {
    let mut store = LocalStore::new();
    let mut mark = SyncWatermark::new(0);
    let p = page(300, true, vec![upsert("A", "a", 100), upsert("", "bad", 200), delete("B", 300)]);
    let report = sync_page(&mut store, &mut mark, &p);
    assert_eq!(report.invalid, 1);
    assert!(report.advanced);
    assert!(report.has_more);
    assert_eq!(mark.load(), 300);
    assert!(store.is_visible(&"A".to_string()));
    assert_eq!(store.stamp(&"B".to_string()), Some(Stamp { updated: 300, tombstone: true }));
    assert_eq!(store.len(), 2);

    let mut without = LocalStore::new();
    apply_page(&mut without, &vec![upsert("A", "a", 100), delete("B", 300)]);
    assert_eq!(state(&without, &["A", "B", ""]), state(&store, &["A", "B", ""]));
}

#[test]
fn resolve_follows_the_rule() {
    let live = |t| Some(Stamp { updated: t, tombstone: false });
    let dead = |t| Some(Stamp { updated: t, tombstone: true });
    assert_eq!(resolve(None, &upsert("A", "a", 1)), Verdict::Write);
    assert_eq!(resolve(None, &delete("A", 1)), Verdict::Write);
    assert_eq!(resolve(live(2), &upsert("A", "a", 1)), Verdict::Keep);
    assert_eq!(resolve(live(2), &delete("A", 1)), Verdict::Keep);
    assert_eq!(resolve(live(1), &upsert("A", "a", 1)), Verdict::Write);
    assert_eq!(resolve(live(1), &delete("A", 1)), Verdict::Write);
    assert_eq!(resolve(dead(1), &upsert("A", "a", 1)), Verdict::Keep);
    assert_eq!(resolve(dead(1), &delete("A", 1)), Verdict::Write);
    assert_eq!(resolve(dead(0), &upsert("A", "a", 1)), Verdict::Write);
    assert_eq!(resolve(live(9), &upsert("", "a", 1)), Verdict::Reject);
    assert_eq!(resolve(None, &delete("", 1)), Verdict::Reject);
}

#[test]
fn watermark_never_moves_back() {
    let mut mark = SyncWatermark::new(10);
    assert_eq!(mark.load(), 10);
    assert_eq!(mark.save(5), Err(StoreError::Regression));
    assert_eq!(mark.load(), 10);
    assert_eq!(mark.save(10), Ok(()));
    assert_eq!(mark.save(15), Ok(()));
    assert_eq!(mark.load(), 15);

    let mut store = LocalStore::new();
    let mut seen = mark.load();
    for until in [20, 12, 20, 7, 31, 31, 30] {
        sync_page(&mut store, &mut mark, &page(until, false, vec![]));
        assert!(mark.load() >= seen);
        seen = mark.load();
        // A restart loads what was kept.
        mark = SyncWatermark::new(mark.load());
    }
    assert_eq!(mark.load(), 31);
}

#[test]
fn next_watermark_is_the_later_instant() {
    assert_eq!(next_watermark(1000, 1000), 1000);
    assert_eq!(next_watermark(1000, 1001), 1001);
    assert_eq!(next_watermark(1000, 999), 1000);
    assert_eq!(next_watermark(-5, i64::MAX), i64::MAX);
}

#[test]
fn empty_page_with_later_promise_advances() {
    let mut store = LocalStore::new();
    let mut mark = SyncWatermark::new(1000);
    let report = sync_page(&mut store, &mut mark, &page(2000, false, vec![]));
    assert!(report.advanced);
    assert_eq!(mark.load(), 2000);
    assert_eq!(store.len(), 0);
}

fn stream() -> Vec<HarvestItem> {
    vec![
        upsert("A", "a1", 1),
        upsert("B", "b1", 2),
        upsert("A", "a2", 3),
        delete("B", 4),
        upsert("C", "c1", 5),
        upsert("B", "b2", 6),
        delete("A", 7),
        upsert("D", "d1", 8),
    ]
}

#[test]
fn no_update_is_lost_however_the_stream_is_paged() {
    let items = stream();
    let mut whole = LocalStore::new();
    apply_page(&mut whole, &items);
    assert_eq!(whole.get(&"A".to_string()), None);
    assert_eq!(whole.get(&"B".to_string()).unwrap().title, "b2");
    assert_eq!(whole.get(&"C".to_string()).unwrap().title, "c1");
    assert_eq!(whole.get(&"D".to_string()).unwrap().title, "d1");
    assert_eq!(whole.len(), 4);

    for cuts in [vec![8], vec![1, 7], vec![3, 3, 2], vec![1, 1, 1, 1, 1, 1, 1, 1], vec![0, 5, 0, 3]] {
        let mut pages = Vec::new();
        let mut at = 0;
        for (n, size) in cuts.iter().enumerate() {
            let chunk: Vec<HarvestItem> = items[at..at + size].to_vec();
            at += size;
            let until = chunk.last().map(|i| i.updated()).unwrap_or(at as i64);
            pages.push(page(until, n + 1 < cuts.len(), chunk));
        }
        let mut store = LocalStore::new();
        let mut mark = SyncWatermark::new(0);
        let skipped = drain(&mut store, &mut mark, &pages);
        assert_eq!(skipped, vec![0; cuts.len()]);
        assert_eq!(state(&store, &["A", "B", "C", "D"]), state(&whole, &["A", "B", "C", "D"]));
        assert_eq!(store.len(), 4);
        assert_eq!(mark.load(), 8);
    }
}

#[test]
fn crash_in_the_middle_of_a_page_leaves_no_trace() {
    let items = vec![
        upsert("A", "a1", 1),
        upsert("A", "a2", 1),
        delete("B", 2),
        upsert("B", "b", 2),
        upsert("C", "c", 3),
        upsert("", "bad", 3),
        delete("A", 4),
    ];
    let mut clean = LocalStore::new();
    clean.apply(&upsert("C", "old", 9)).unwrap();
    apply_page(&mut clean, &items);
    for k in 0..=items.len() {
        let mut store = LocalStore::new();
        store.apply(&upsert("C", "old", 9)).unwrap();
        apply_page(&mut store, &items[..k].to_vec());
        // The watermark was not saved: the same page comes again.
        apply_page(&mut store, &items);
        assert_eq!(state(&store, &["A", "B", "C"]), state(&clean, &["A", "B", "C"]));
        assert_eq!(store.len(), clean.len());
    }
}

#[test]
fn drain_counts_skipped_items_per_page() {
    let pages = vec![
        page(10, true, vec![upsert("", "x", 1), upsert("A", "a", 2), delete("", 3)]),
        page(5, true, vec![]),
        page(20, false, vec![upsert("", "y", 11)]),
    ];
    let mut store = LocalStore::new();
    let mut mark = SyncWatermark::new(0);
    assert_eq!(drain(&mut store, &mut mark, &pages), vec![2, 0, 1]);
    assert_eq!(mark.load(), 20);
    assert_eq!(store.len(), 1);
}
