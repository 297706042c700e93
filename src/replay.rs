use vstd::prelude::*;

use crate::event::{InputEvent, EV_KEY, EV_SYN, KEY_PRESS, KEY_RELEASE};

verus! {

/// A key event with a zero timestamp.
pub open spec fn key_event(code: u16, value: i32) -> InputEvent {
    InputEvent { tv_sec: 0, tv_usec: 0, evt_type: EV_KEY, code, value }
}

/// A synchronization marker with a zero timestamp.
pub open spec fn sync_event() -> InputEvent {
    InputEvent { tv_sec: 0, tv_usec: 0, evt_type: EV_SYN, code: 0, value: 0 }
}

/// The four records that replay one key: press, sync, release, sync.
pub open spec fn key_records(code: u16) -> Seq<InputEvent> {
    seq![key_event(code, KEY_PRESS), sync_event(), key_event(code, KEY_RELEASE), sync_event()]
}

/// The records that replay `keys`, one group of four per key, in order.
pub open spec fn keys_records(keys: Seq<u16>) -> Seq<InputEvent>
    decreases keys.len(),
{
    if keys.len() == 0 {
        Seq::empty()
    } else {
        keys_records(keys.drop_last()) + key_records(keys.last())
    }
}

/// The records that replay one key.
pub fn replay_records(code: u16) -> (r: Vec<InputEvent>)
    ensures
        r@ == key_records(code),
{
    let syn = InputEvent::sync();
    let r = vec![InputEvent::key(code, KEY_PRESS), syn, InputEvent::key(code, KEY_RELEASE), syn];
    assert(r@ =~= key_records(code));
    r
}

/// The records that replay `keys`, in order.
pub fn replay_all(keys: &[u16]) -> (r: Vec<InputEvent>)
    ensures
        r@ == keys_records(keys@),
        r@.len() == 4 * keys@.len(),
{
    let mut r: Vec<InputEvent> = Vec::new();
    let mut i: usize = 0;
    while i < keys.len()
        invariant
            i <= keys@.len(),
            r@ == keys_records(keys@.subrange(0, i as int)),
            r@.len() == 4 * i,
        decreases keys@.len() - i,
    {
        let mut quad = replay_records(keys[i]);
        r.append(&mut quad);
        assert(keys@.subrange(0, i + 1).drop_last() =~= keys@.subrange(0, i as int));
        i = i + 1;
    }
    assert(keys@.subrange(0, keys@.len() as int) =~= keys@);
    r
}

} // verus!
