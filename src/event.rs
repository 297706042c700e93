use vstd::bytes::*;
use vstd::prelude::*;
use vstd::slice::slice_subrange;

verus! {

/// Event-type discriminant of a synchronization marker.
pub const EV_SYN: u16 = 0;

/// Event-type discriminant of a key event.
pub const EV_KEY: u16 = 1;

/// Value of a key event that reports a release.
pub const KEY_RELEASE: i32 = 0;

/// Value of a key event that reports a press.
pub const KEY_PRESS: i32 = 1;

/// Value of a key event that reports an auto-repeat.
pub const KEY_REPEAT: i32 = 2;

/// Size in bytes of one record as the kernel reads and writes it on a
/// 64-bit little-endian Linux host: two 8-byte timestamp words, a 16-bit
/// type, a 16-bit code and a 32-bit value, with no padding.
pub const RECORD_SIZE: usize = 24;

/// One kernel input event.
#[derive(Clone, Copy, Debug, PartialEq, Eq, Structural)]
pub struct InputEvent {
    pub tv_sec: i64,
    pub tv_usec: i64,
    pub evt_type: u16,
    pub code: u16,
    pub value: i32,
}

/// The bytes of `e` in the kernel's record layout.
pub open spec fn record_bytes(e: InputEvent) -> Seq<u8> {
    spec_u64_to_le_bytes(#[verifier::truncate] (e.tv_sec as u64))
        + spec_u64_to_le_bytes(#[verifier::truncate] (e.tv_usec as u64))
        + spec_u16_to_le_bytes(e.evt_type)
        + spec_u16_to_le_bytes(e.code)
        + spec_u32_to_le_bytes(#[verifier::truncate] (e.value as u32))
}

/// The event whose record is `b` (of length `RECORD_SIZE`).
pub open spec fn record_event(b: Seq<u8>) -> InputEvent {
    InputEvent {
        tv_sec: #[verifier::truncate] (spec_u64_from_le_bytes(b.subrange(0, 8)) as i64),
        tv_usec: #[verifier::truncate] (spec_u64_from_le_bytes(b.subrange(8, 16)) as i64),
        evt_type: spec_u16_from_le_bytes(b.subrange(16, 18)),
        code: spec_u16_from_le_bytes(b.subrange(18, 20)),
        value: #[verifier::truncate] (spec_u32_from_le_bytes(b.subrange(20, 24)) as i32),
    }
}

impl InputEvent {
    /// A key event with a zero timestamp.
    pub fn key(code: u16, value: i32) -> (r: InputEvent)
        ensures
            r == (InputEvent { tv_sec: 0, tv_usec: 0, evt_type: EV_KEY, code, value }),
    {
        InputEvent { tv_sec: 0, tv_usec: 0, evt_type: EV_KEY, code, value }
    }

    /// A synchronization marker with a zero timestamp.
    pub fn sync() -> (r: InputEvent)
        ensures
            r == (InputEvent { tv_sec: 0, tv_usec: 0, evt_type: EV_SYN, code: 0, value: 0 }),
    {
        InputEvent { tv_sec: 0, tv_usec: 0, evt_type: EV_SYN, code: 0, value: 0 }
    }

    /// Encodes the event as one record.
    pub fn encode(&self) -> (r: Vec<u8>)
        ensures
            r@ == record_bytes(*self),
            r@.len() == RECORD_SIZE,
    {
        proof {
            lemma_auto_spec_u64_to_from_le_bytes();
            lemma_auto_spec_u32_to_from_le_bytes();
            lemma_auto_spec_u16_to_from_le_bytes();
        }
        let mut r = u64_to_le_bytes(self.tv_sec as u64);
        let mut b = u64_to_le_bytes(self.tv_usec as u64);
        r.append(&mut b);
        let mut b = u16_to_le_bytes(self.evt_type);
        r.append(&mut b);
        let mut b = u16_to_le_bytes(self.code);
        r.append(&mut b);
        let mut b = u32_to_le_bytes(self.value as u32);
        r.append(&mut b);
        r
    }

    /// Decodes one record; `None` unless `b` is exactly one record long.
    pub fn decode(b: &[u8]) -> (r: Option<InputEvent>)
        ensures
            r == (if b@.len() == RECORD_SIZE {
                Some(record_event(b@))
            } else {
                None
            }),
    {
        if b.len() != RECORD_SIZE {
            return None;
        }
        let tv_sec = u64_from_le_bytes(slice_subrange(b, 0, 8)) as i64;
        let tv_usec = u64_from_le_bytes(slice_subrange(b, 8, 16)) as i64;
        let evt_type = u16_from_le_bytes(slice_subrange(b, 16, 18));
        let code = u16_from_le_bytes(slice_subrange(b, 18, 20));
        let value = u32_from_le_bytes(slice_subrange(b, 20, 24)) as i32;
        Some(InputEvent { tv_sec, tv_usec, evt_type, code, value })
    }
}

/// Decoding the record of an event gives the event back.
pub proof fn lemma_decode_encode(e: InputEvent)
    ensures
        record_bytes(e).len() == RECORD_SIZE,
        record_event(record_bytes(e)) == e,
{
    lemma_auto_spec_u64_to_from_le_bytes();
    lemma_auto_spec_u32_to_from_le_bytes();
    lemma_auto_spec_u16_to_from_le_bytes();
    let b = record_bytes(e);
    let (sec, usec, value) = (e.tv_sec, e.tv_usec, e.value);
    assert(#[verifier::truncate] ((#[verifier::truncate] (sec as u64)) as i64) == sec) by (bit_vector);
    assert(#[verifier::truncate] ((#[verifier::truncate] (usec as u64)) as i64) == usec) by (bit_vector);
    assert(#[verifier::truncate] ((#[verifier::truncate] (value as u32)) as i32) == value) by (bit_vector);
    assert(b.subrange(0, 8) =~= spec_u64_to_le_bytes(#[verifier::truncate] (e.tv_sec as u64)));
    assert(b.subrange(8, 16) =~= spec_u64_to_le_bytes(#[verifier::truncate] (e.tv_usec as u64)));
    assert(b.subrange(16, 18) =~= spec_u16_to_le_bytes(e.evt_type));
    assert(b.subrange(18, 20) =~= spec_u16_to_le_bytes(e.code));
    assert(b.subrange(20, 24) =~= spec_u32_to_le_bytes(#[verifier::truncate] (e.value as u32)));
}

} // verus!
