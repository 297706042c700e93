//! Keystroke capture and replay at the kernel input-event layer.
//!
//! The library holds the logic of the pipeline: the binary layout of an
//! input event record, the filter that turns captured records into key
//! codes, the record sequence that replays a key on a virtual device, the
//! setup sequence of that device, and the history that decides what to
//! replay when the trigger key is pressed.
mod capture;
mod device;
mod event;
mod history;
mod replay;

pub use capture::{active_key, key_from_record, pressed_key};
pub use device::{
    descriptor_bytes, setup_calls, setup_sequence, LinuxInputId, LinuxUSetup, SetupCall, BUS_USB,
    DESCRIPTOR_SIZE, FIRST_KEY, KEY_LIMIT, NAME_SIZE,
};
pub use event::{
    lemma_decode_encode, record_bytes, record_event, InputEvent, EV_KEY, EV_SYN, KEY_PRESS,
    KEY_RELEASE, KEY_REPEAT, RECORD_SIZE,
};
pub use history::{
    codes, in_window, is_stale, lemma_empty_replay, lemma_order_preserved, lemma_run_concat,
    lemma_run_config, lemma_stale_clear, lemma_trigger_never_replayed, run, step, HistoryModel,
    KeyHistory, STALE_MS, TRIGGER_KEY,
};
pub use replay::{key_event, key_records, keys_records, replay_all, replay_records, sync_event};
