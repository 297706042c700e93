use keyreplay::{replay_all, KeyHistory, STALE_MS, TRIGGER_KEY};

#[test]
fn defaults() {
    let h = KeyHistory::with_defaults(0);
    assert_eq!(h.trigger(), 119);
    assert_eq!(TRIGGER_KEY, 119);
    assert_eq!(STALE_MS, 2000);
    assert!(h.keys().is_empty());
}

#[test]
fn keys_within_a_second_are_replayed_in_order() {
    let mut h = KeyHistory::with_defaults(0);
    assert!(h.on_key(30, 0).is_empty());
    assert!(h.on_key(48, 1000).is_empty());
    assert!(h.on_key(32, 2000).is_empty());
    let out = h.on_key(119, 2500);
    assert_eq!(out, vec![30, 48, 32]);
    assert!(h.keys().is_empty());
    assert_eq!(replay_all(&out).len(), 12);
}

#[test]
fn pause_of_three_seconds_drops_earlier_keys() {
    let mut h = KeyHistory::with_defaults(0);
    h.on_key(30, 0);
    h.on_key(48, 3000);
    assert_eq!(h.on_key(119, 3100), vec![48]);
}

#[test]
fn order_is_kept_within_window() {
    let mut h = KeyHistory::new(1, 100, 0);
    let keys = [5u16, 9, 5, 200, 7, 7];
    for (i, k) in keys.iter().enumerate() {
        assert!(h.on_key(*k, 50 * i as u64).is_empty());
    }
    assert_eq!(h.keys(), &keys);
    assert_eq!(h.on_key(1, 1000), keys.to_vec());
}

#[test]
fn stale_gap_keeps_only_later_keys() {
    let mut h = KeyHistory::with_defaults(0);
    h.on_key(10, 0);
    h.on_key(11, 500);
    h.on_key(12, 4000);
    h.on_key(13, 5000);
    assert_eq!(h.on_key(119, 9000), vec![12, 13]);
}

#[test]
fn gap_equal_to_threshold_is_not_stale() {
    let mut h = KeyHistory::with_defaults(0);
    h.on_key(10, 1000);
    h.on_key(11, 3000);
    assert_eq!(h.keys(), &[10, 11]);
    h.on_key(12, 5001);
    assert_eq!(h.keys(), &[12]);
}

#[test]
fn trigger_does_not_reset_timer() {
    let mut h = KeyHistory::with_defaults(0);
    h.on_key(10, 0);
    assert_eq!(h.on_key(119, 1500), vec![10]);
    h.on_key(11, 1900);
    assert_eq!(h.on_key(119, 2000), vec![11]);
    h.on_key(12, 3000);
    h.on_key(13, 5500);
    assert_eq!(h.on_key(119, 5600), vec![13]);
}

#[test]
fn trigger_is_never_replayed() {
    let mut h = KeyHistory::with_defaults(0);
    h.on_key(30, 10);
    let first = h.on_key(119, 20);
    let second = h.on_key(119, 30);
    let third = h.on_key(119, 40);
    assert_eq!(first, vec![30]);
    assert!(second.is_empty());
    assert!(third.is_empty());
    assert!(!h.keys().contains(&119));
}

#[test]
fn empty_replay_emits_nothing() {
    let mut h = KeyHistory::with_defaults(0);
    let out = h.on_key(119, 100);
    assert!(out.is_empty());
    assert!(replay_all(&out).is_empty());
    assert!(h.keys().is_empty());
}

#[test]
fn clock_going_back_is_not_stale() {
    let mut h = KeyHistory::with_defaults(10000);
    h.on_key(20, 10000);
    h.on_key(21, 500);
    assert_eq!(h.keys(), &[20, 21]);
}
