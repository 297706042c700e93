use keyreplay::{replay_all, replay_records, InputEvent};

fn quad(code: u16) -> Vec<InputEvent> {
    vec![InputEvent::key(code, 1), InputEvent::sync(), InputEvent::key(code, 0), InputEvent::sync()]
}

#[test]
fn one_key_is_four_records() {
    let r = replay_records(30);
    assert_eq!(r, quad(30));
    assert_eq!((r[0].evt_type, r[0].code, r[0].value), (1, 30, 1));
    assert_eq!((r[1].evt_type, r[1].code, r[1].value), (0, 0, 0));
    assert_eq!((r[2].evt_type, r[2].code, r[2].value), (1, 30, 0));
    assert_eq!((r[3].evt_type, r[3].code, r[3].value), (0, 0, 0));
}

#[test]
fn keys_expand_in_order() {
    let r = replay_all(&[30, 48, 32]);
    let mut expected = quad(30);
    expected.extend(quad(48));
    expected.extend(quad(32));
    assert_eq!(r.len(), 12);
    assert_eq!(r, expected);
}

#[test]
fn no_keys_no_records() {
    assert!(replay_all(&[]).is_empty());
}

#[test]
fn repeated_key_is_not_deduplicated() {
    let r = replay_all(&[17, 17]);
    let mut expected = quad(17);
    expected.extend(quad(17));
    assert_eq!(r, expected);
}
