//! Time-driven audio triggers: scheduled sample events kept in time order,
//! and the decisions of which one is due next. Playing a due sample is left
//! to the caller, which reports back whether it played.
use vstd::prelude::*;

verus! {

/// A sample to play at a game time. Volume and pan are kept as the raw
/// bits of their IEEE-754 single-precision values.
#[derive(Debug, Clone, Copy, PartialEq, Eq, Structural)]
pub struct AudioTriggerEvent {
    pub sample_id: u32,
    pub target_game_time_ms: u64,
    pub volume_bits: u32,
    pub pan_bits: u32,
}

/// Bits of the single-precision value 1.0.
pub const FULL_VOLUME_BITS: u32 = 0x3F80_0000;

/// `target - latency`, or 0 when the latency is larger.
pub open spec fn spec_saturating_sub(target: u64, latency: u64) -> u64 {
    if target >= latency {
        (target - latency) as u64
    } else {
        0
    }
}

impl AudioTriggerEvent {
    /// An event at full volume, centred.
    pub fn new(sample_id: u32, target_game_time_ms: u64) -> (r: Self)
        ensures
            r == (AudioTriggerEvent {
                sample_id,
                target_game_time_ms,
                volume_bits: FULL_VOLUME_BITS,
                pan_bits: 0,
            }),
    {
        AudioTriggerEvent { sample_id, target_game_time_ms, volume_bits: FULL_VOLUME_BITS, pan_bits: 0 }
    }

    /// Whether the event is due: the game time has reached its target time
    /// brought forward by the audio latency.
    pub fn should_fire(&self, game_time_ms: u64, audio_latency_ms: u64) -> (r: bool)
        ensures
            r == (game_time_ms >= spec_saturating_sub(self.target_game_time_ms, audio_latency_ms)),
    {
        game_time_ms >= self.target_game_time_ms.saturating_sub(audio_latency_ms)
    }
}

/// State of a scheduled trigger.
#[derive(Debug, Clone, Copy, PartialEq, Eq, Structural)]
pub enum TriggerState {
    Pending,
    Fired,
    Skipped,
}

/// A scheduled event and its state.
#[derive(Debug, Clone, Copy)]
pub struct AudioTrigger {
    pub event: AudioTriggerEvent,
    pub state: TriggerState,
}

impl AudioTrigger {
    /// A pending trigger for the event.
    pub fn new(event: AudioTriggerEvent) -> (r: Self)
        ensures
            r.event == event,
            r.state == TriggerState::Pending,
    {
        AudioTrigger { event, state: TriggerState::Pending }
    }

    pub fn is_pending(&self) -> (r: bool)
        ensures
            r == (self.state == TriggerState::Pending),
    {
        self.state == TriggerState::Pending
    }

    pub fn is_fired(&self) -> (r: bool)
        ensures
            r == (self.state == TriggerState::Fired),
    {
        self.state == TriggerState::Fired
    }

    pub fn is_skipped(&self) -> (r: bool)
        ensures
            r == (self.state == TriggerState::Skipped),
    {
        self.state == TriggerState::Skipped
    }
}

/// How many of the first `n` triggers are in state `st`.
pub open spec fn spec_count_state(ts: Seq<AudioTrigger>, st: TriggerState, n: int) -> nat
    decreases n,
{
    if n <= 0 {
        0
    } else {
        spec_count_state(ts, st, n - 1) + if ts[n - 1].state == st {
            1nat
        } else {
            0nat
        }
    }
}

/// The triggers are in order of target time.
pub open spec fn spec_time_sorted(ts: Seq<AudioTrigger>) -> bool {
    forall|i: int, j: int|
        0 <= i <= j < ts.len() ==> ts[i].event.target_game_time_ms
            <= ts[j].event.target_game_time_ms
}

/// Where a trigger for time `t` goes in sorted triggers: after every trigger
/// due no later than `t` (so that triggers of equal time keep the order in
/// which they were scheduled).
pub open spec fn spec_insert_position(ts: Seq<AudioTrigger>, t: u64, n: int) -> int
    decreases n,
{
    if n <= 0 {
        0
    } else if ts[n - 1].event.target_game_time_ms <= t {
        n
    } else {
        spec_insert_position(ts, t, n - 1)
    }
}

/// Sorted triggers with one more trigger put in its place.
pub open spec fn spec_insert_sorted(ts: Seq<AudioTrigger>, tr: AudioTrigger) -> Seq<AudioTrigger> {
    let p = spec_insert_position(ts, tr.event.target_game_time_ms, ts.len() as int);
    ts.take(p).push(tr) + ts.skip(p)
}

/// Sorted triggers with pending triggers for `events` put in place one by
/// one.
pub open spec fn spec_schedule_all(ts: Seq<AudioTrigger>, events: Seq<AudioTriggerEvent>) -> Seq<
    AudioTrigger,
>
    decreases events.len(),
{
    if events.len() == 0 {
        ts
    } else {
        spec_schedule_all(
            spec_insert_sorted(
                ts,
                AudioTrigger { event: events[0], state: TriggerState::Pending },
            ),
            events.drop_first(),
        )
    }
}

/// Triggers in time order with counts of those fired and skipped.
#[derive(Debug, Clone)]
pub struct AudioTriggerSystem {
    triggers: Vec<AudioTrigger>,
    audio_latency_ms: u64,
    fire_count: u64,
    skip_count: u64,
}

/// A trigger system as plain values.
pub ghost struct TriggerSystemView {
    pub triggers: Seq<AudioTrigger>,
    pub audio_latency_ms: u64,
    pub fire_count: u64,
    pub skip_count: u64,
}

proof fn lemma_insert_position_bounds(ts: Seq<AudioTrigger>, t: u64, n: int)
    requires
        0 <= n <= ts.len(),
    ensures
        0 <= spec_insert_position(ts, t, n) <= n,
        forall|i: int|
            0 <= i < spec_insert_position(ts, t, n) && spec_time_sorted(ts) ==> #[trigger] ts[i].event.target_game_time_ms
                <= t,
        forall|i: int|
            spec_insert_position(ts, t, n) <= i < n ==> #[trigger] ts[i].event.target_game_time_ms
                > t,
    decreases n,
{
    if n > 0 {
        lemma_insert_position_bounds(ts, t, n - 1);
    }
}

proof fn lemma_count_split(ts: Seq<AudioTrigger>, st: TriggerState, n: int)
    requires
        0 <= n <= ts.len(),
    ensures
        spec_count_state(ts, st, n) <= n,
    decreases n,
{
    if n > 0 {
        lemma_count_split(ts, st, n - 1);
    }
}

proof fn lemma_count_ext(a: Seq<AudioTrigger>, b: Seq<AudioTrigger>, st: TriggerState, n: int)
    requires
        0 <= n <= a.len(),
        n <= b.len(),
        forall|i: int| 0 <= i < n ==> #[trigger] a[i].state == b[i].state,
    ensures
        spec_count_state(a, st, n) == spec_count_state(b, st, n),
    decreases n,
{
    if n > 0 {
        lemma_count_ext(a, b, st, n - 1);
    }
}

/// Counting a state over a sequence with one element put in at `p`.
proof fn lemma_count_insert(ts: Seq<AudioTrigger>, tr: AudioTrigger, p: int, st: TriggerState)
    requires
        0 <= p <= ts.len(),
    ensures
        spec_count_state(ts.take(p).push(tr) + ts.skip(p), st, ts.len() + 1int) == spec_count_state(
            ts,
            st,
            ts.len() as int,
        ) + if tr.state == st {
            1nat
        } else {
            0nat
        },
    decreases ts.len() - p,
{
    let r = ts.take(p).push(tr) + ts.skip(p);
    if p == ts.len() {
        assert(r =~= ts.push(tr));
        lemma_count_ext(r, ts, st, ts.len() as int);
    } else {
        let last = ts.len() - 1;
        let shorter = ts.take(last);
        lemma_count_insert(shorter, tr, p, st);
        let rs = shorter.take(p).push(tr) + shorter.skip(p);
        assert forall|i: int| 0 <= i < ts.len() implies #[trigger] r[i].state == rs[i].state by {
            if i < p {
                assert(r[i] == ts[i]);
                assert(rs[i] == shorter[i]);
            } else if i > p {
                assert(r[i] == ts[i - 1]);
                assert(rs[i] == shorter[i - 1]);
            }
        }
        lemma_count_ext(r, rs, st, ts.len() as int);
        lemma_count_ext(ts, shorter, st, last);
        assert(r[ts.len() as int] == ts[last]);
    }
}

/// Counting a state over a sequence with one element changed.
proof fn lemma_count_update(ts: Seq<AudioTrigger>, k: int, tr: AudioTrigger, st: TriggerState, n: int)
    requires
        0 <= k < n <= ts.len(),
    ensures
        spec_count_state(ts.update(k, tr), st, n) + (if ts[k].state == st {
            1nat
        } else {
            0nat
        }) == spec_count_state(ts, st, n) + (if tr.state == st {
            1nat
        } else {
            0nat
        }),
    decreases n,
{
    if n - 1 > k {
        lemma_count_update(ts, k, tr, st, n - 1);
    } else {
        lemma_count_ext(ts.update(k, tr), ts, st, k);
    }
}

impl AudioTriggerSystem {
    /// The system as plain values.
    pub closed spec fn view(&self) -> TriggerSystemView {
        TriggerSystemView {
            triggers: self.triggers@,
            audio_latency_ms: self.audio_latency_ms,
            fire_count: self.fire_count,
            skip_count: self.skip_count,
        }
    }

    /// Triggers are in time order and the counts are those of fired and
    /// skipped triggers.
    pub open spec fn wf(&self) -> bool {
        let v = self.view();
        &&& spec_time_sorted(v.triggers)
        &&& v.fire_count == spec_count_state(
            v.triggers,
            TriggerState::Fired,
            v.triggers.len() as int,
        )
        &&& v.skip_count == spec_count_state(
            v.triggers,
            TriggerState::Skipped,
            v.triggers.len() as int,
        )
    }

    /// An empty system with an audio latency of 50 ms.
    pub fn new() -> (r: Self)
        ensures
            r.wf(),
            r.view() == (TriggerSystemView {
                triggers: Seq::empty(),
                audio_latency_ms: 50,
                fire_count: 0,
                skip_count: 0,
            }),
    {
        AudioTriggerSystem { triggers: Vec::new(), audio_latency_ms: 50, fire_count: 0, skip_count: 0 }
    }

    pub fn set_audio_latency(&mut self, latency_ms: u64)
        requires
            old(self).wf(),
        ensures
            final(self).wf(),
            final(self).view() == (TriggerSystemView {
                audio_latency_ms: latency_ms,
                ..old(self).view()
            }),
    {
        self.audio_latency_ms = latency_ms;
    }

    pub fn audio_latency(&self) -> (r: u64)
        ensures
            r == self.view().audio_latency_ms,
    {
        self.audio_latency_ms
    }

    pub fn fire_count(&self) -> (r: u64)
        ensures
            r == self.view().fire_count,
    {
        self.fire_count
    }

    pub fn skip_count(&self) -> (r: u64)
        ensures
            r == self.view().skip_count,
    {
        self.skip_count
    }

    /// The triggers in time order.
    pub fn triggers(&self) -> (r: &[AudioTrigger])
        ensures
            r@ == self.view().triggers,
    {
        self.triggers.as_slice()
    }

    /// Put a pending trigger for `event` in time order (after triggers of the
    /// same time).
    pub fn schedule(&mut self, event: AudioTriggerEvent)
        requires
            old(self).wf(),
        ensures
            final(self).wf(),
            final(self).view() == (TriggerSystemView {
                triggers: spec_insert_sorted(
                    old(self).view().triggers,
                    AudioTrigger { event, state: TriggerState::Pending },
                ),
                ..old(self).view()
            }),
    {
        let ghost ts = self.triggers@;
        let t = event.target_game_time_ms;
        let mut p = self.triggers.len();
        while p > 0 && self.triggers[p - 1].event.target_game_time_ms > t
            invariant
                self.triggers@ == ts,
                p <= ts.len(),
                spec_insert_position(ts, t, ts.len() as int) == spec_insert_position(ts, t, p as int),
            decreases p,
        {
            p = p - 1;
        }
        let trigger = AudioTrigger::new(event);
        proof {
            lemma_insert_position_bounds(ts, t, ts.len() as int);
            lemma_count_insert(ts, trigger, p as int, TriggerState::Fired);
            lemma_count_insert(ts, trigger, p as int, TriggerState::Skipped);
        }
        self.triggers.insert(p, trigger);
        proof {
            let r = self.triggers@;
            assert(r =~= ts.take(p as int).push(trigger) + ts.skip(p as int));
            assert forall|i: int, j: int| 0 <= i <= j < r.len() implies r[i].event.target_game_time_ms
                <= r[j].event.target_game_time_ms by {
                if i < p && j > p {
                    assert(r[i] == ts[i]);
                    assert(r[j] == ts[j - 1]);
                } else if i > p {
                    assert(r[i] == ts[i - 1]);
                    assert(r[j] == ts[j - 1]);
                } else if j < p {
                    assert(r[i] == ts[i]);
                    assert(r[j] == ts[j]);
                } else if i == p && j > p {
                    assert(r[j] == ts[j - 1]);
                } else if j == p && i < p {
                    assert(r[i] == ts[i]);
                }
            }
        }
    }

    /// Schedule each event in turn.
    pub fn schedule_many(&mut self, events: Vec<AudioTriggerEvent>)
        requires
            old(self).wf(),
        ensures
            final(self).wf(),
            final(self).view() == (TriggerSystemView {
                triggers: spec_schedule_all(old(self).view().triggers, events@),
                ..old(self).view()
            }),
    {
        let mut k: usize = 0;
        assert(events@.skip(0) =~= events@);
        while k < events.len()
            invariant
                self.wf(),
                k <= events@.len(),
                self.view().audio_latency_ms == old(self).view().audio_latency_ms,
                self.view().fire_count == old(self).view().fire_count,
                self.view().skip_count == old(self).view().skip_count,
                spec_schedule_all(old(self).view().triggers, events@) == spec_schedule_all(
                    self.view().triggers,
                    events@.skip(k as int),
                ),
            decreases events@.len() - k,
        {
            assert(events@.skip(k as int).drop_first() =~= events@.skip(k + 1));
            self.schedule(events[k]);
            k = k + 1;
        }
        assert(events@.skip(k as int) =~= Seq::<AudioTriggerEvent>::empty());
    }

    /// Number of triggers still pending.
    pub fn pending_count(&self) -> (r: usize)
        ensures
            r == spec_count_state(self.view().triggers, TriggerState::Pending, self.view().triggers.len() as int),
    {
        let mut count: usize = 0;
        let mut i: usize = 0;
        while i < self.triggers.len()
            invariant
                i <= self.triggers@.len(),
                count == spec_count_state(self.triggers@, TriggerState::Pending, i as int),
            decreases self.triggers@.len() - i,
        {
            proof {
                lemma_count_split(self.triggers@, TriggerState::Pending, i as int);
            }
            if self.triggers[i].is_pending() {
                count = count + 1;
            }
            i = i + 1;
        }
        count
    }

    /// Remove every trigger and reset the counts.
    pub fn clear(&mut self)
        requires
            old(self).wf(),
        ensures
            final(self).wf(),
            final(self).view() == (TriggerSystemView {
                triggers: Seq::empty(),
                fire_count: 0,
                skip_count: 0,
                ..old(self).view()
            }),
    {
        self.triggers.clear();
        self.fire_count = 0;
        self.skip_count = 0;
    }

    /// The first pending trigger, if it is due at `game_time_ms`: the next
    /// sample to play. Triggers before it are all fired or skipped.
    pub fn next_due(&self, game_time_ms: u64) -> (r: Option<usize>)
        ensures
            match r {
                Some(k) => {
                    &&& k < self.view().triggers.len()
                    &&& self.view().triggers[k as int].state == TriggerState::Pending
                    &&& forall|i: int|
                        0 <= i < k ==> #[trigger] self.view().triggers[i].state
                            != TriggerState::Pending
                    &&& game_time_ms >= spec_saturating_sub(
                        self.view().triggers[k as int].event.target_game_time_ms,
                        self.view().audio_latency_ms,
                    )
                },
                None => forall|k: int|
                    0 <= k < self.view().triggers.len() && self.view().triggers[k].state
                        == TriggerState::Pending && (forall|i: int|
                        0 <= i < k ==> #[trigger] self.view().triggers[i].state
                            != TriggerState::Pending) ==> game_time_ms < spec_saturating_sub(
                        #[trigger] self.view().triggers[k].event.target_game_time_ms,
                        self.view().audio_latency_ms,
                    ),
            },
    {
        let mut i: usize = 0;
        while i < self.triggers.len()
            invariant
                i <= self.triggers@.len(),
                forall|j: int| 0 <= j < i ==> #[trigger] self.triggers@[j].state != TriggerState::Pending,
            decreases self.triggers@.len() - i,
        {
            if self.triggers[i].is_pending() {
                if self.triggers[i].event.should_fire(game_time_ms, self.audio_latency_ms) {
                    return Some(i);
                }
                return None;
            }
            i = i + 1;
        }
        None
    }

    /// Record the outcome of the pending trigger `k`: fired when its sample
    /// played, skipped otherwise.
    pub fn resolve(&mut self, k: usize, played: bool)
        requires
            old(self).wf(),
            k < old(self).view().triggers.len(),
            old(self).view().triggers[k as int].state == TriggerState::Pending,
        ensures
            final(self).wf(),
            final(self).view() == (TriggerSystemView {
                triggers: old(self).view().triggers.update(
                    k as int,
                    AudioTrigger {
                        event: old(self).view().triggers[k as int].event,
                        state: if played {
                            TriggerState::Fired
                        } else {
                            TriggerState::Skipped
                        },
                    },
                ),
                fire_count: if played {
                    (old(self).view().fire_count + 1) as u64
                } else {
                    old(self).view().fire_count
                },
                skip_count: if played {
                    old(self).view().skip_count
                } else {
                    (old(self).view().skip_count + 1) as u64
                },
                ..old(self).view()
            }),
    {
        let ghost ts = self.triggers@;
        let len = self.triggers.len();
        let event = self.triggers[k].event;
        let state = if played {
            TriggerState::Fired
        } else {
            TriggerState::Skipped
        };
        let tr = AudioTrigger { event, state };
        proof {
            let n = ts.len() as int;
            lemma_count_update(ts, k as int, tr, TriggerState::Fired, n);
            lemma_count_update(ts, k as int, tr, TriggerState::Skipped, n);
            lemma_count_update(ts, k as int, tr, TriggerState::Pending, n);
            lemma_count_split(ts.update(k as int, tr), TriggerState::Fired, n);
            lemma_count_split(ts.update(k as int, tr), TriggerState::Skipped, n);
            assert(n == len);
        }
        self.triggers[k] = tr;
        if played {
            self.fire_count = self.fire_count + 1;
        } else {
            self.skip_count = self.skip_count + 1;
        }
    }

    /// Whether some fired trigger played `sample_id`.
    pub fn was_triggered_within_tolerance(&self, sample_id: u32, _tolerance_ms: u64) -> (r: bool)
        ensures
            r == exists|i: int|
                0 <= i < self.view().triggers.len() && #[trigger] self.view().triggers[i].state
                    == TriggerState::Fired && self.view().triggers[i].event.sample_id == sample_id,
    {
        let mut i: usize = 0;
        while i < self.triggers.len()
            invariant
                i <= self.triggers@.len(),
                forall|j: int|
                    0 <= j < i ==> !(#[trigger] self.triggers@[j].state == TriggerState::Fired
                        && self.triggers@[j].event.sample_id == sample_id),
            decreases self.triggers@.len() - i,
        {
            if self.triggers[i].is_fired() && self.triggers[i].event.sample_id == sample_id {
                return true;
            }
            i = i + 1;
        }
        false
    }

    /// Drift of the fired trigger for `sample_id` at `target_time_ms`: 0 when
    /// there is one (firing is exact at the resolution kept), else none.
    pub fn get_trigger_drift(&self, sample_id: u32, target_time_ms: u64) -> (r: Option<u64>)
        ensures
            r == (if exists|i: int|
                0 <= i < self.view().triggers.len() && #[trigger] self.view().triggers[i].state
                    == TriggerState::Fired && self.view().triggers[i].event.sample_id == sample_id
                    && self.view().triggers[i].event.target_game_time_ms == target_time_ms {
                Some(0u64)
            } else {
                None::<u64>
            }),
    {
        let mut i: usize = 0;
        while i < self.triggers.len()
            invariant
                i <= self.triggers@.len(),
                forall|j: int|
                    0 <= j < i ==> !(#[trigger] self.triggers@[j].state == TriggerState::Fired
                        && self.triggers@[j].event.sample_id == sample_id
                        && self.triggers@[j].event.target_game_time_ms == target_time_ms),
            decreases self.triggers@.len() - i,
        {
            let t = self.triggers[i];
            if t.event.sample_id == sample_id && t.event.target_game_time_ms == target_time_ms
                && t.is_fired() {
                return Some(0);
            }
            i = i + 1;
        }
        None
    }
}

} // verus!
