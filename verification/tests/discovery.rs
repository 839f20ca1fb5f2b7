use reply_agent::discovery::{discover, read_listing, Discovery};
use reply_agent::queue::{DedupQueue, SetName};

fn listing(items: &[&str]) -> Vec<String> {
    items.iter().map(|s| s.to_string()).collect()
}

#[test]
fn listing_with_a_bad_entry_and_a_duplicate() {
    let mut q = DedupQueue::new(86400);
    let report = discover(&mut q, &listing(&["12a", "77", "77"]), 500);
    assert_eq!(report, Discovery { admitted: 1, already_present: 1, unreadable: 1 });
    assert_eq!(q.len(SetName::Pending), 1);
    assert_eq!(q.score_of(SetName::Pending, 77), Some(500));
    assert_eq!(q.withdraw(), Some(77));
    assert_eq!(q.withdraw(), None);
}

#[test]
fn reading_keeps_order_and_counts_failures() {
    let read = read_listing(&listing(&["3", "x", " 1 ", "", "3", "4294967296", "+2"]));
    assert_eq!(read.ids, vec![3, 1, 3, 2]);
    assert_eq!(read.unreadable, 3);
}

#[test]
fn empty_listing() {
    let mut q = DedupQueue::new(1);
    let read = read_listing(&Vec::new());
    assert!(read.ids.is_empty());
    assert_eq!(read.unreadable, 0);
    let report = discover(&mut q, &Vec::new(), 0);
    assert_eq!(report, Discovery { admitted: 0, already_present: 0, unreadable: 0 });
}

#[test]
fn discovery_skips_pending_and_cooling_items() {
    let mut q = DedupQueue::new(100);
    q.admit_item(1, 0);
    q.retire(2, 0);
    let report = discover(&mut q, &listing(&["1", "2", "3", "oops", "4"]), 10);
    assert_eq!(report, Discovery { admitted: 2, already_present: 2, unreadable: 1 });
    assert_eq!(q.score_of(SetName::Pending, 1), Some(0));
    assert_eq!(q.score_of(SetName::Pending, 3), Some(10));
    assert_eq!(q.score_of(SetName::Pending, 4), Some(10));
    assert!(!q.contains(SetName::Pending, 2));
}

#[test]
fn rediscovery_after_the_cooldown_was_reaped() {
    let mut q = DedupQueue::new(100);
    discover(&mut q, &listing(&["9"]), 0);
    let id = q.withdraw().unwrap();
    q.retire(id, 5);
    assert_eq!(discover(&mut q, &listing(&["9"]), 50).admitted, 0);
    assert_eq!(q.sweep(104), (0, 0));
    assert_eq!(discover(&mut q, &listing(&["9"]), 104).admitted, 0);
    assert_eq!(q.sweep(105), (0, 1));
    assert_eq!(discover(&mut q, &listing(&["9"]), 105).admitted, 1);
}
