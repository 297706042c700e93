use keyreplay::{key_from_record, pressed_key, InputEvent, RECORD_SIZE};

fn event(evt_type: u16, code: u16, value: i32) -> InputEvent {
    InputEvent { tv_sec: 1700000000, tv_usec: 250, evt_type, code, value }
}

#[test]
fn press_surfaces_code() {
    assert_eq!(pressed_key(&event(1, 30, 1)), Some(30));
}

#[test]
fn repeat_surfaces_code() {
    assert_eq!(pressed_key(&event(1, 48, 2)), Some(48));
}

#[test]
fn release_is_dropped() {
    assert_eq!(pressed_key(&event(1, 30, 0)), None);
}

#[test]
fn sync_marker_is_dropped() {
    assert_eq!(pressed_key(&event(0, 0, 0)), None);
    assert_eq!(pressed_key(&event(0, 30, 1)), None);
}

#[test]
fn other_event_types_are_dropped() {
    assert_eq!(pressed_key(&event(4, 30, 1)), None);
    assert_eq!(pressed_key(&event(2, 30, 2)), None);
}

#[test]
fn record_press_surfaces_code() {
    let bytes = event(1, 32, 1).encode();
    assert_eq!(bytes.len(), RECORD_SIZE);
    assert_eq!(key_from_record(&bytes), Some(32));
}

#[test]
fn record_release_is_dropped() {
    let bytes = event(1, 32, 0).encode();
    assert_eq!(key_from_record(&bytes), None);
}

#[test]
fn short_record_is_dropped() {
    let bytes = event(1, 32, 1).encode();
    assert_eq!(key_from_record(&bytes[..RECORD_SIZE - 1]), None);
    assert_eq!(key_from_record(&[]), None);
}

#[test]
fn record_from_raw_bytes() {
    let mut bytes = vec![0u8; 16];
    bytes.extend_from_slice(&[1, 0, 0x1e, 0x01, 2, 0, 0, 0]);
    assert_eq!(key_from_record(&bytes), Some(0x011e));
}
