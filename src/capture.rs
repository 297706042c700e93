use vstd::prelude::*;

use crate::event::{record_event, InputEvent, EV_KEY, KEY_PRESS, KEY_REPEAT, RECORD_SIZE};

verus! {

/// The key that an event makes active: the code of a key event that reports
/// a press or a repeat. Releases and every other event type give nothing.
pub open spec fn active_key(e: InputEvent) -> Option<u16> {
    if e.evt_type == EV_KEY && (e.value == KEY_PRESS || e.value == KEY_REPEAT) {
        Some(e.code)
    } else {
        None
    }
}

/// The key that a captured event surfaces, if any.
pub fn pressed_key(e: &InputEvent) -> (r: Option<u16>)
    ensures
        r == active_key(*e),
{
    if e.evt_type == EV_KEY && (e.value == KEY_PRESS || e.value == KEY_REPEAT) {
        Some(e.code)
    } else {
        None
    }
}

/// The key that one captured record surfaces; nothing for a record that is
/// not exactly `RECORD_SIZE` bytes long.
pub fn key_from_record(b: &[u8]) -> (r: Option<u16>)
    ensures
        r == (if b@.len() == RECORD_SIZE {
            active_key(record_event(b@))
        } else {
            None
        }),
{
    match InputEvent::decode(b) {
        Some(e) => pressed_key(&e),
        None => None,
    }
}

} // verus!
