use reply_agent::queue::{
    admission, release_time, Admission, DedupQueue, Mark, SetName, DEFAULT_COOLDOWN_SECS,
};

#[test]
fn lifecycle_of_one_item() {
    let mut q = DedupQueue::new(86400);
    assert_eq!(q.admit_item(101, 1000), Admission::Admitted);
    assert_eq!(q.withdraw(), Some(101));
    assert_eq!(q.withdraw(), None);
    q.retire(101, 1000);
    assert_eq!(q.admit_item(101, 1000), Admission::AlreadyPresent);
    assert_eq!(q.reap(SetName::Cooldown, 1000 + 86400), 1);
    assert_eq!(q.admit_item(101, 1000 + 86400), Admission::Admitted);
    assert!(q.contains(SetName::Pending, 101));
    assert!(!q.contains(SetName::Cooldown, 101));
}

#[test]
fn new_queue_is_empty() {
    let mut q = DedupQueue::new(5);
    assert_eq!(q.cooldown_secs(), 5);
    assert_eq!(q.len(SetName::Pending), 0);
    assert_eq!(q.len(SetName::Cooldown), 0);
    assert_eq!(q.withdraw(), None);
    assert_eq!(q.sweep(u64::MAX), (0, 0));
}

#[test]
fn default_cooldown_is_one_day() {
    assert_eq!(DEFAULT_COOLDOWN_SECS, 86400);
    let mut q = DedupQueue::default();
    assert_eq!(q.cooldown_secs(), 86400);
    assert_eq!(q.len(SetName::Pending), 0);
    q.retire(1, 10);
    assert_eq!(q.score_of(SetName::Cooldown, 1), Some(86410));
}

#[test]
fn admission_rule() {
    assert_eq!(admission(false, false), Admission::Admitted);
    assert_eq!(admission(true, false), Admission::AlreadyPresent);
    assert_eq!(admission(false, true), Admission::AlreadyPresent);
    assert_eq!(admission(true, true), Admission::AlreadyPresent);
}

#[test]
fn release_time_adds_cooldown() {
    assert_eq!(release_time(1000, 86400), Some(87400));
    assert_eq!(release_time(0, 0), Some(0));
    assert_eq!(release_time(u64::MAX - 1, 1), Some(u64::MAX));
    assert_eq!(release_time(u64::MAX, 1), None);
}

#[test]
fn admissions_never_put_an_id_in_both_sets() {
    let mut q = DedupQueue::new(100);
    q.retire(3, 0);
    q.retire(5, 0);
    for round in 0..3u64 {
        for id in 0..10u32 {
            q.admit_item(id, round);
        }
    }
    for id in 0..10u32 {
        let pending = q.contains(SetName::Pending, id);
        let cooling = q.contains(SetName::Cooldown, id);
        assert!(!(pending && cooling));
        assert!(pending || cooling);
    }
    assert_eq!(q.len(SetName::Pending), 8);
    assert_eq!(q.len(SetName::Cooldown), 2);
}

#[test]
fn second_admission_changes_nothing() {
    let mut q = DedupQueue::new(100);
    assert_eq!(q.admit_item(7, 10), Admission::Admitted);
    assert_eq!(q.admit_item(7, 20), Admission::AlreadyPresent);
    assert_eq!(q.len(SetName::Pending), 1);
    assert_eq!(q.score_of(SetName::Pending, 7), Some(10));
    assert_eq!(q.withdraw(), Some(7));
    assert_eq!(q.withdraw(), None);
}

#[test]
fn admission_of_a_cooling_item_is_refused() {
    let mut q = DedupQueue::new(100);
    q.retire(7, 10);
    assert_eq!(q.admit_item(7, 11), Admission::AlreadyPresent);
    assert_eq!(q.admit_item(7, 12), Admission::AlreadyPresent);
    assert_eq!(q.len(SetName::Pending), 0);
}

#[test]
fn withdrawals_are_exclusive() {
    let mut q = DedupQueue::new(100);
    for id in [40u32, 10, 30, 20] {
        q.admit_item(id, 1);
    }
    let mut got = Vec::new();
    let mut none = 0;
    for _ in 0..7 {
        match q.withdraw() {
            Some(id) => got.push(id),
            None => none += 1,
        }
    }
    assert_eq!(got, vec![10, 20, 30, 40]);
    assert_eq!(none, 3);
}

#[test]
fn withdrawal_is_oldest_first() {
    let mut q = DedupQueue::new(100);
    q.admit_item(1, 30);
    q.admit_item(2, 10);
    q.admit_item(3, 20);
    q.admit_item(4, 10);
    assert_eq!(q.withdraw(), Some(2));
    assert_eq!(q.withdraw(), Some(4));
    assert_eq!(q.withdraw(), Some(3));
    assert_eq!(q.withdraw(), Some(1));
    assert_eq!(q.withdraw(), None);
}

#[test]
fn retire_sets_the_release_time() {
    let mut q = DedupQueue::new(86400);
    q.retire(9, 1_700_000_000);
    assert_eq!(q.score_of(SetName::Cooldown, 9), Some(1_700_086_400));
    assert_eq!(q.score_of(SetName::Pending, 9), None);
}

#[test]
fn retire_overwrites_the_score() {
    let mut q = DedupQueue::new(10);
    q.retire(9, 100);
    q.retire(9, 50);
    assert_eq!(q.score_of(SetName::Cooldown, 9), Some(60));
    assert_eq!(q.len(SetName::Cooldown), 1);
    q.retire(9, 200);
    assert_eq!(q.score_of(SetName::Cooldown, 9), Some(210));
    assert_eq!(q.len(SetName::Cooldown), 1);
}

#[test]
fn withdrawn_item_ends_in_cooldown() {
    let mut q = DedupQueue::new(60);
    q.admit_item(5, 1);
    let id = q.withdraw().unwrap();
    q.retire(id, 2);
    assert!(q.contains(SetName::Cooldown, 5));
    assert!(!q.contains(SetName::Pending, 5));
    assert_eq!(q.mark(5), Mark::Processed);
}

#[test]
fn reap_boundary() {
    let mut q = DedupQueue::new(0);
    q.retire(1, 99);
    q.retire(2, 100);
    q.retire(3, 101);
    assert_eq!(q.reap(SetName::Cooldown, 100), 2);
    assert!(!q.contains(SetName::Cooldown, 1));
    assert!(!q.contains(SetName::Cooldown, 2));
    assert!(q.contains(SetName::Cooldown, 3));
    assert_eq!(q.score_of(SetName::Cooldown, 3), Some(101));
}

#[test]
fn reap_of_pending_drops_stale_items() {
    let mut q = DedupQueue::new(10);
    q.admit_item(1, 5);
    q.admit_item(2, 6);
    q.admit_item(3, 7);
    assert_eq!(q.reap(SetName::Pending, 6), 2);
    assert_eq!(q.withdraw(), Some(3));
    assert_eq!(q.withdraw(), None);
}

#[test]
fn reap_touches_only_the_named_set() {
    let mut q = DedupQueue::new(0);
    q.admit_item(1, 5);
    q.retire(2, 5);
    assert_eq!(q.reap(SetName::Cooldown, 5), 1);
    assert!(q.contains(SetName::Pending, 1));
    assert_eq!(q.reap(SetName::Pending, 4), 0);
    assert!(q.contains(SetName::Pending, 1));
}

#[test]
fn sweep_reaps_both_sets() {
    let mut q = DedupQueue::new(10);
    q.admit_item(1, 5);
    q.admit_item(2, 50);
    q.retire(3, 0);
    q.retire(4, 1);
    q.retire(5, 90);
    assert_eq!(q.sweep(11), (1, 2));
    assert_eq!(q.len(SetName::Pending), 1);
    assert_eq!(q.len(SetName::Cooldown), 1);
    assert_eq!(q.sweep(11), (0, 0));
}

#[test]
fn cooldown_holds_until_release() {
    let t = 1000u64;
    let c = 300u64;
    for now in [t, t + 1, t + c - 1] {
        let mut q = DedupQueue::new(c);
        q.retire(8, t);
        assert_eq!(q.reap(SetName::Cooldown, now), 0);
        assert_eq!(q.admit_item(8, now), Admission::AlreadyPresent);
    }
    for now in [t + c, t + c + 1, u64::MAX] {
        let mut q = DedupQueue::new(c);
        q.retire(8, t);
        assert_eq!(q.reap(SetName::Cooldown, now), 1);
        assert_eq!(q.admit_item(8, now), Admission::Admitted);
    }
}

#[test]
fn zero_cooldown_is_reaped_at_once() {
    let mut q = DedupQueue::new(0);
    q.retire(8, 1000);
    assert_eq!(q.reap(SetName::Cooldown, 1000), 1);
    assert_eq!(q.admit_item(8, 1000), Admission::Admitted);
    assert_eq!(q.reap(SetName::Pending, 1000), 1);
}

#[test]
fn mark_follows_cooldown() {
    let mut q = DedupQueue::new(10);
    assert_eq!(q.mark(4), Mark::UnProcessed(4));
    q.admit_item(4, 0);
    assert_eq!(q.mark(4), Mark::UnProcessed(4));
    q.withdraw();
    q.retire(4, 0);
    assert_eq!(q.mark(4), Mark::Processed);
    q.reap(SetName::Cooldown, 10);
    assert_eq!(q.mark(4), Mark::UnProcessed(4));
}

#[test]
fn batch_admission_counts() {
    let mut q = DedupQueue::new(10);
    q.retire(3, 0);
    let n = q.admit_all(&vec![1, 2, 2, 3, 4, 1], 7);
    assert_eq!(n, 3);
    assert_eq!(q.len(SetName::Pending), 3);
    assert_eq!(q.admit_all(&vec![], 7), 0);
    assert_eq!(q.admit_all(&vec![1, 2, 4], 8), 0);
    assert_eq!(q.score_of(SetName::Pending, 1), Some(7));
}

#[test]
fn retirement_that_does_not_fit_changes_nothing() {
    let mut q = DedupQueue::new(10);
    assert!(q.try_retire(1, u64::MAX - 10));
    assert_eq!(q.score_of(SetName::Cooldown, 1), Some(u64::MAX));
    assert!(!q.try_retire(2, u64::MAX - 9));
    assert!(!q.contains(SetName::Cooldown, 2));
    assert_eq!(q.len(SetName::Cooldown), 1);
    assert!(q.try_retire(1, 5));
    assert_eq!(q.score_of(SetName::Cooldown, 1), Some(15));
}
