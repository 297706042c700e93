use vstd::prelude::*;

use crate::replay::keys_records;

verus! {

/// The key code that triggers a replay unless another is configured.
pub const TRIGGER_KEY: u16 = 119;

/// The staleness threshold, in milliseconds, unless another is configured.
pub const STALE_MS: u64 = 2000;

/// The abstract state of a key history.
pub struct HistoryModel {
    /// Recorded keys, oldest first.
    pub keys: Seq<u16>,
    /// Time of the last recorded key, in milliseconds.
    pub last_ms: u64,
    /// The key that triggers a replay.
    pub trigger: u16,
    /// Largest gap, in milliseconds, allowed between consecutive recorded keys.
    pub stale_ms: u64,
}

impl HistoryModel {
    /// The trigger key is never recorded.
    pub open spec fn wf(self) -> bool {
        !self.keys.contains(self.trigger)
    }
}

/// Whether the gap from `last` to `now` exceeds `stale_ms`.
pub open spec fn is_stale(last: u64, now: u64, stale_ms: u64) -> bool {
    now > last && now - last > stale_ms
}

/// One key observed at time `now`: the next state, and the keys sent to
/// replay. The trigger sends the recorded keys and clears them; any other
/// key is appended, after the recorded keys are dropped if they are stale.
pub open spec fn step(m: HistoryModel, v: u16, now: u64) -> (HistoryModel, Seq<u16>) {
    if v == m.trigger {
        (HistoryModel { keys: Seq::empty(), ..m }, m.keys)
    } else {
        let kept = if is_stale(m.last_ms, now, m.stale_ms) {
            Seq::empty()
        } else {
            m.keys
        };
        (HistoryModel { keys: kept.push(v), last_ms: now, ..m }, Seq::empty())
    }
}

/// A sequence of keys with the time each was observed: the final state, and
/// all keys sent to replay, in order.
pub open spec fn run(m: HistoryModel, events: Seq<(u16, u64)>) -> (HistoryModel, Seq<u16>)
    decreases events.len(),
{
    if events.len() == 0 {
        (m, Seq::empty())
    } else {
        let (m1, out1) = run(m, events.drop_last());
        let (m2, out2) = step(m1, events.last().0, events.last().1);
        (m2, out1 + out2)
    }
}

/// The key codes of timed events.
pub open spec fn codes(events: Seq<(u16, u64)>) -> Seq<u16> {
    events.map_values(|e: (u16, u64)| e.0)
}

/// None of the events is the trigger, and no gap between consecutive events
/// exceeds the threshold.
pub open spec fn in_window(events: Seq<(u16, u64)>, trigger: u16, stale_ms: u64) -> bool {
    &&& forall|i: int| 0 <= i < events.len() ==> #[trigger] events[i].0 != trigger
    &&& forall|i: int|
        0 < i < events.len() ==> !is_stale(events[i - 1].1, #[trigger] events[i].1, stale_ms)
}

/// Running `a` and then `b` is running `a` followed by `b`.
pub proof fn lemma_run_concat(m: HistoryModel, a: Seq<(u16, u64)>, b: Seq<(u16, u64)>)
    ensures
        run(m, a + b) == (run(run(m, a).0, b).0, run(m, a).1 + run(run(m, a).0, b).1),
    decreases b.len(),
{
    if b.len() == 0 {
        assert(a + b =~= a);
        assert(run(m, a).1 + Seq::<u16>::empty() =~= run(m, a).1);
    } else {
        lemma_run_concat(m, a, b.drop_last());
        assert((a + b).drop_last() =~= a + b.drop_last());
        let (m1, o1) = run(m, a);
        let (mb, ob) = run(m1, b.drop_last());
        let (m2, o2) = step(mb, b.last().0, b.last().1);
        assert(o1 + ob + o2 =~= o1 + (ob + o2));
    }
}

/// A run keeps the trigger key and the threshold.
pub proof fn lemma_run_config(m: HistoryModel, events: Seq<(u16, u64)>)
    ensures
        run(m, events).0.trigger == m.trigger,
        run(m, events).0.stale_ms == m.stale_ms,
    decreases events.len(),
{
    if events.len() > 0 {
        lemma_run_config(m, events.drop_last());
    }
}

/// Keys observed within the window, starting from an empty or a stale
/// history, are recorded in order and nothing is replayed.
proof fn lemma_window(m: HistoryModel, events: Seq<(u16, u64)>)
    requires
        events.len() > 0,
        in_window(events, m.trigger, m.stale_ms),
        m.keys.len() == 0 || is_stale(m.last_ms, events[0].1, m.stale_ms),
    ensures
        run(m, events).0 == (HistoryModel {
            keys: codes(events),
            last_ms: events.last().1,
            ..m
        }),
        run(m, events).1 == Seq::<u16>::empty(),
    decreases events.len(),
{
    let prefix = events.drop_last();
    let e = events.last();
    assert(e.0 != m.trigger) by {
        assert(events[events.len() - 1].0 != m.trigger);
    }
    if events.len() == 1 {
        assert(prefix =~= Seq::<(u16, u64)>::empty());
        assert(run(m, prefix) == (m, Seq::<u16>::empty()));
        assert(codes(events) =~= seq![e.0]);
        assert(m.keys.len() != 0 ==> is_stale(m.last_ms, e.1, m.stale_ms));
        let (m1, o1) = step(m, e.0, e.1);
        assert(m1.keys =~= seq![e.0]);
        assert(Seq::<u16>::empty() + Seq::<u16>::empty() =~= Seq::<u16>::empty());
    } else {
        assert(in_window(prefix, m.trigger, m.stale_ms)) by {
            assert forall|i: int| 0 <= i < prefix.len() implies #[trigger] prefix[i].0 != m.trigger by {
                assert(events[i].0 != m.trigger);
            }
            assert forall|i: int| 0 < i < prefix.len() implies !is_stale(
                prefix[i - 1].1,
                #[trigger] prefix[i].1,
                m.stale_ms,
            ) by {
                assert(!is_stale(events[i - 1].1, events[i].1, m.stale_ms));
            }
        }
        assert(prefix[0] == events[0]);
        lemma_window(m, prefix);
        assert(!is_stale(events[events.len() - 2].1, events[events.len() - 1].1, m.stale_ms));
        assert(prefix.last() == events[events.len() - 2]);
        assert(codes(events) =~= codes(prefix).push(e.0));
        assert(Seq::<u16>::empty() + Seq::<u16>::empty() =~= Seq::<u16>::empty());
    }
}

/// Keys observed one after the other within the staleness window are
/// replayed by the next trigger in the order observed, and the history is
/// empty afterwards; this holds when nothing was recorded before them, or
/// when what was recorded had gone stale by the first of them.
pub proof fn lemma_order_preserved(m: HistoryModel, events: Seq<(u16, u64)>, t: u64)
    requires
        m.keys.len() == 0 || (events.len() > 0 && is_stale(m.last_ms, events[0].1, m.stale_ms)),
        in_window(events, m.trigger, m.stale_ms),
    ensures
        run(m, events.push((m.trigger, t))).1 == codes(events),
        run(m, events.push((m.trigger, t))).0.keys.len() == 0,
{
    let all = events.push((m.trigger, t));
    assert(all.drop_last() =~= events);
    assert(all.last() == (m.trigger, t));
    if events.len() == 0 {
        assert(run(m, events) == (m, Seq::<u16>::empty()));
        assert(codes(events) =~= Seq::<u16>::empty());
        assert(Seq::<u16>::empty() + m.keys =~= Seq::<u16>::empty());
    } else {
        lemma_window(m, events);
        assert(Seq::<u16>::empty() + codes(events) =~= codes(events));
    }
}

/// When the gap between two consecutive non-trigger keys exceeds the
/// threshold, what was recorded before the gap is dropped: a trigger after
/// the keys that follow the gap replays those keys only.
pub proof fn lemma_stale_clear(
    m: HistoryModel,
    before: Seq<(u16, u64)>,
    after: Seq<(u16, u64)>,
    t: u64,
)
    requires
        before.len() > 0,
        before.last().0 != m.trigger,
        after.len() > 0,
        in_window(after, m.trigger, m.stale_ms),
        is_stale(before.last().1, after[0].1, m.stale_ms),
    ensures
        run(m, before + after.push((m.trigger, t))).1 == run(m, before).1 + codes(after),
{
    let tail = after.push((m.trigger, t));
    lemma_run_concat(m, before, tail);
    lemma_run_config(m, before.drop_last());
    lemma_run_config(m, before);
    let (m1, o1) = run(m, before);
    assert(m1.last_ms == before.last().1);
    assert(tail.drop_last() =~= after);
    lemma_window(m1, after);
    assert(Seq::<u16>::empty() + codes(after) =~= codes(after));
}

/// The trigger key is never replayed and never recorded, however often and
/// whenever it is pressed.
pub proof fn lemma_trigger_never_replayed(m: HistoryModel, events: Seq<(u16, u64)>)
    requires
        m.wf(),
    ensures
        run(m, events).0.wf(),
        run(m, events).0.trigger == m.trigger,
        !run(m, events).1.contains(m.trigger),
    decreases events.len(),
{
    if events.len() > 0 {
        lemma_trigger_never_replayed(m, events.drop_last());
        let (m1, o1) = run(m, events.drop_last());
        let (m2, o2) = step(m1, events.last().0, events.last().1);
        assert forall|i: int| 0 <= i < m2.keys.len() implies m2.keys[i] != m.trigger by {
            if i < m2.keys.len() - 1 && events.last().0 != m.trigger {
                if !is_stale(m1.last_ms, events.last().1, m1.stale_ms) {
                    assert(m2.keys[i] == m1.keys[i]);
                }
            }
        }
        assert forall|i: int| 0 <= i < (o1 + o2).len() implies (o1 + o2)[i] != m.trigger by {
            if i < o1.len() {
                assert((o1 + o2)[i] == o1[i]);
            } else {
                assert((o1 + o2)[i] == o2[i - o1.len()]);
            }
        }
    }
}

/// A trigger on an empty history replays nothing, emits no records, and
/// leaves the history as it was.
pub proof fn lemma_empty_replay(m: HistoryModel, t: u64)
    requires
        m.keys.len() == 0,
    ensures
        step(m, m.trigger, t) == (m, Seq::<u16>::empty()),
        keys_records(step(m, m.trigger, t).1).len() == 0,
{
    assert(m.keys =~= Seq::<u16>::empty());
}

/// The recorded keys and the staleness timer of the orchestrator.
pub struct KeyHistory {
    keys: Vec<u16>,
    last_ms: u64,
    trigger: u16,
    stale_ms: u64,
}

impl View for KeyHistory {
    type V = HistoryModel;

    closed spec fn view(&self) -> HistoryModel {
        HistoryModel {
            keys: self.keys@,
            last_ms: self.last_ms,
            trigger: self.trigger,
            stale_ms: self.stale_ms,
        }
    }
}

impl KeyHistory {
    /// An empty history created at time `now_ms`.
    pub fn new(trigger: u16, stale_ms: u64, now_ms: u64) -> (r: KeyHistory)
        ensures
            r@ == (HistoryModel { keys: Seq::empty(), last_ms: now_ms, trigger, stale_ms }),
            r@.wf(),
    {
        KeyHistory { keys: Vec::new(), last_ms: now_ms, trigger, stale_ms }
    }

    /// An empty history with the default trigger key and threshold.
    pub fn with_defaults(now_ms: u64) -> (r: KeyHistory)
        ensures
            r@ == (HistoryModel {
                keys: Seq::empty(),
                last_ms: now_ms,
                trigger: TRIGGER_KEY,
                stale_ms: STALE_MS,
            }),
    {
        KeyHistory::new(TRIGGER_KEY, STALE_MS, now_ms)
    }

    /// Handles key `v` observed at time `now_ms`, and returns the keys to
    /// send to replay, in order.
    pub fn on_key(&mut self, v: u16, now_ms: u64) -> (r: Vec<u16>)
        ensures
            (final(self)@, r@) == step(old(self)@, v, now_ms),
            old(self)@.wf() ==> final(self)@.wf(),
            old(self)@.wf() ==> !r@.contains(old(self)@.trigger),
    {
        if v == self.trigger {
            let mut out: Vec<u16> = Vec::new();
            std::mem::swap(&mut out, &mut self.keys);
            out
        } else {
            if now_ms > self.last_ms && now_ms - self.last_ms > self.stale_ms {
                self.keys.clear();
            }
            self.keys.push(v);
            self.last_ms = now_ms;
            proof {
                let m = old(self)@;
                if m.wf() {
                    assert forall|i: int| 0 <= i < self.keys@.len() implies self.keys@[i]
                        != m.trigger by {
                        if i < self.keys@.len() - 1 {
                            assert(m.keys[i] == self.keys@[i]);
                        }
                    }
                }
            }
            Vec::new()
        }
    }

    /// The recorded keys, oldest first.
    pub fn keys(&self) -> (r: &[u16])
        ensures
            r@ == self@.keys,
    {
        self.keys.as_slice()
    }

    /// The trigger key.
    pub fn trigger(&self) -> (r: u16)
        ensures
            r == self@.trigger,
    {
        self.trigger
    }
}

} // verus!
