use vstd::prelude::*;

use crate::input::adc::{AdcRead, AdcSource};
use crate::input::decoder::{decode_gpio1, decode_gpio2, spec_decode_gpio1, spec_decode_gpio2};
use crate::input::{same_button, ButtonEvent, ButtonId};

verus! {

/// Ticks between repeat events once a long press has fired.
pub const REPEAT_TICKS: u32 = 15;

#[derive(Clone, Copy)]
struct EventQueue {
    buf: [Option<ButtonEvent>; 4],
}

// ── Model ────────────────────────────────────────────────────────────────────

/// The index of the first empty slot at or after `k`, or the length when there is none.
pub open spec fn first_free(q: Seq<Option<ButtonEvent>>, k: int) -> int
    decreases q.len() - k,
{
    if k < 0 || k >= q.len() {
        q.len() as int
    } else if q[k] is None {
        k
    } else {
        first_free(q, k + 1)
    }
}

/// The index of the first full slot at or after `k`, or the length when there is none.
pub open spec fn first_full(q: Seq<Option<ButtonEvent>>, k: int) -> int
    decreases q.len() - k,
{
    if k < 0 || k >= q.len() {
        q.len() as int
    } else if q[k] is Some {
        k
    } else {
        first_full(q, k + 1)
    }
}

proof fn lemma_first_full(q: Seq<Option<ButtonEvent>>, k: int)
    requires
        0 <= k,
    ensures
        k <= first_full(q, k) <= q.len() || first_full(q, k) == q.len(),
        first_full(q, k) < q.len() ==> q[first_full(q, k)] is Some,
    decreases q.len() - k,
{
    if k < q.len() && q[k] is None {
        lemma_first_full(q, k + 1);
    }
}

/// Put `e` in the first empty slot; a full queue drops it.
pub open spec fn queue_push(q: Seq<Option<ButtonEvent>>, e: ButtonEvent) -> Seq<Option<ButtonEvent>> {
    let i = first_free(q, 0);
    if i < q.len() {
        q.update(i, Some(e))
    } else {
        q
    }
}

/// Take the event in the first full slot, if any.
pub open spec fn queue_pop(q: Seq<Option<ButtonEvent>>) -> (Seq<Option<ButtonEvent>>, Option<ButtonEvent>) {
    let i = first_full(q, 0);
    if i < q.len() {
        (q.update(i, None), q[i])
    } else {
        (q, None)
    }
}

pub open spec fn sat_inc(v: u32) -> u32 {
    if v == u32::MAX {
        v
    } else {
        (v + 1) as u32
    }
}

/// The poller's state as contracts see it.
#[verifier::ext_equal]
pub struct PollerView {
    pub last_gpio1: u16,
    pub last_gpio2: u16,
    pub last_raw1: Option<ButtonId>,
    pub last_raw2: Option<ButtonId>,
    pub stable: Option<ButtonId>,
    pub candidate: Option<ButtonId>,
    pub candidate_ticks: u32,
    pub press_ticks: u32,
    pub long_press_fired: bool,
    pub repeat_ticks: u32,
    pub queue: Seq<Option<ButtonEvent>>,
    pub debounce_ticks: u32,
    pub longpress_ticks: u32,
}

/// Track a new raw reading as the debounce candidate, restarting the press
/// timers when it leaves a held button.
pub open spec fn track_candidate(s: PollerView, raw: Option<ButtonId>) -> PollerView {
    if raw != s.candidate {
        let leave = s.stable is Some && raw != s.stable;
        PollerView {
            press_ticks: if leave {
                0
            } else {
                s.press_ticks
            },
            long_press_fired: if leave {
                false
            } else {
                s.long_press_fired
            },
            repeat_ticks: if leave {
                0
            } else {
                s.repeat_ticks
            },
            candidate: raw,
            candidate_ticks: sat_inc(0),
            ..s
        }
    } else {
        PollerView { candidate_ticks: sat_inc(s.candidate_ticks), ..s }
    }
}

/// One poll with an empty queue and the raw reading `raw`: the next state and
/// the event returned.
pub open spec fn poll_step(s0: PollerView, raw: Option<ButtonId>) -> (PollerView, Option<ButtonEvent>) {
    let s = track_candidate(s0, raw);
    let debounced = if s.candidate_ticks >= s.debounce_ticks {
        s.candidate
    } else {
        s.stable
    };
    if debounced != s.stable {
        let q1 = match s.stable {
            Some(old) => queue_push(s.queue, ButtonEvent::Release(old)),
            None => s.queue,
        };
        let s2 = match debounced {
            Some(new) => PollerView {
                queue: queue_push(q1, ButtonEvent::Press(new)),
                press_ticks: 0,
                long_press_fired: false,
                repeat_ticks: 0,
                stable: debounced,
                ..s
            },
            None => PollerView { queue: q1, stable: debounced, ..s },
        };
        let (q3, ev) = queue_pop(s2.queue);
        (PollerView { queue: q3, ..s2 }, ev)
    } else {
        match s.stable {
            Some(button) => {
                let press_ticks = sat_inc(s.press_ticks);
                if !s.long_press_fired && press_ticks >= s.longpress_ticks {
                    (
                        PollerView { press_ticks, long_press_fired: true, repeat_ticks: 0, ..s },
                        Some(ButtonEvent::LongPress(button)),
                    )
                } else if s.long_press_fired {
                    let repeat_ticks = sat_inc(s.repeat_ticks);
                    if repeat_ticks >= REPEAT_TICKS {
                        (
                            PollerView { press_ticks, repeat_ticks: 0, ..s },
                            Some(ButtonEvent::Repeat(button)),
                        )
                    } else {
                        (PollerView { press_ticks, repeat_ticks, ..s }, None)
                    }
                } else {
                    (PollerView { press_ticks, ..s }, None)
                }
            },
            None => (s, None),
        }
    }
}

/// The state after recording a pair of ladder samples and their decodings.
pub open spec fn sampled(s: PollerView, gpio1: u16, gpio2: u16) -> PollerView {
    PollerView {
        last_gpio1: gpio1,
        last_gpio2: gpio2,
        last_raw1: spec_decode_gpio1(gpio1),
        last_raw2: spec_decode_gpio2(gpio2),
        ..s
    }
}

/// The button a reading of both ladders selects: GPIO1 has priority.
pub open spec fn ladder_button(gpio1: u16, gpio2: u16) -> Option<ButtonId> {
    match spec_decode_gpio1(gpio1) {
        Some(b) => Some(b),
        None => spec_decode_gpio2(gpio2),
    }
}

// ── Event queue ──────────────────────────────────────────────────────────────

impl EventQueue {
    fn new() -> (q: Self)
        ensures
            q.buf@ == seq![None::<ButtonEvent>, None, None, None],
    {
        let q = Self { buf: [None; 4] };
        assert(q.buf@ =~= seq![None::<ButtonEvent>, None, None, None]);
        q
    }

    fn push(&mut self, event: ButtonEvent)
        ensures
            final(self).buf@ == queue_push(old(self).buf@, event),
    {
        let mut i: usize = 0;
        while i < 4
            invariant
                i <= 4,
                self.buf == old(self).buf,
                first_free(self.buf@, 0) == first_free(self.buf@, i as int),
            decreases 4 - i,
        {
            if self.buf[i].is_none() {
                self.buf[i] = Some(event);
                return;
            }
            i += 1;
        }
    }

    fn pop(&mut self) -> (r: Option<ButtonEvent>)
        ensures
            (final(self).buf@, r) == queue_pop(old(self).buf@),
    {
        let mut i: usize = 0;
        while i < 4
            invariant
                i <= 4,
                self.buf == old(self).buf,
                first_full(self.buf@, 0) == first_full(self.buf@, i as int),
            decreases 4 - i,
        {
            if let Some(event) = self.buf[i] {
                self.buf[i] = None;
                return Some(event);
            }
            i += 1;
        }
        None
    }
}

// ── Poller ───────────────────────────────────────────────────────────────────

/// Button poller over the two resistor ladders.
///
/// One ladder button can be active at a time. GPIO1 has priority over GPIO2.
pub struct InputPoller<A: AdcSource> {
    adc: A,
    last_gpio1: u16,
    last_gpio2: u16,
    last_raw1: Option<ButtonId>,
    last_raw2: Option<ButtonId>,
    stable: Option<ButtonId>,
    candidate: Option<ButtonId>,
    candidate_ticks: u32,
    press_ticks: u32,
    long_press_fired: bool,
    repeat_ticks: u32,
    queue: EventQueue,
    debounce_ticks: u32,
    longpress_ticks: u32,
}

impl<A: AdcSource> InputPoller<A> {
    pub closed spec fn view(&self) -> PollerView {
        PollerView {
            last_gpio1: self.last_gpio1,
            last_gpio2: self.last_gpio2,
            last_raw1: self.last_raw1,
            last_raw2: self.last_raw2,
            stable: self.stable,
            candidate: self.candidate,
            candidate_ticks: self.candidate_ticks,
            press_ticks: self.press_ticks,
            long_press_fired: self.long_press_fired,
            repeat_ticks: self.repeat_ticks,
            queue: self.queue.buf@,
            debounce_ticks: self.debounce_ticks,
            longpress_ticks: self.longpress_ticks,
        }
    }

    /// How many ADC reads have failed on this poller's source.
    pub closed spec fn adc_failures(&self) -> nat {
        self.adc.failed_reads()
    }

    /// The successful ADC reads on this poller's source, oldest first.
    pub closed spec fn adc_reads(&self) -> Seq<AdcRead> {
        self.adc.read_log()
    }

    pub fn new(adc: A, debounce_ticks: u32, longpress_ticks: u32) -> (p: Self)
        ensures
            p.view() == (PollerView {
                last_gpio1: 0,
                last_gpio2: 0,
                last_raw1: None,
                last_raw2: None,
                stable: None,
                candidate: None,
                candidate_ticks: 0,
                press_ticks: 0,
                long_press_fired: false,
                repeat_ticks: 0,
                queue: seq![None, None, None, None],
                debounce_ticks,
                longpress_ticks,
            }),
            p.adc_failures() == adc.failed_reads(),
            p.adc_reads() == adc.read_log(),
    {
        Self {
            adc,
            last_gpio1: 0,
            last_gpio2: 0,
            last_raw1: None,
            last_raw2: None,
            stable: None,
            candidate: None,
            candidate_ticks: 0,
            press_ticks: 0,
            long_press_fired: false,
            repeat_ticks: 0,
            queue: EventQueue::new(),
            debounce_ticks,
            longpress_ticks,
        }
    }

    pub fn current_button(&self) -> (r: Option<ButtonId>)
        ensures
            r == self.view().stable,
    {
        self.stable
    }

    pub fn last_samples(&self) -> (r: (u16, u16))
        ensures
            r == (self.view().last_gpio1, self.view().last_gpio2),
    {
        (self.last_gpio1, self.last_gpio2)
    }

    pub fn last_decoded(&self) -> (r: (Option<ButtonId>, Option<ButtonId>))
        ensures
            r == (self.view().last_raw1, self.view().last_raw2),
    {
        (self.last_raw1, self.last_raw2)
    }

    /// Poll once: hand out a pending event if there is one, else read both
    /// ladders (GPIO1, then GPIO2) and advance the debounce, long-press and
    /// repeat logic with those samples.
    pub fn poll(&mut self) -> (r: Result<Option<ButtonEvent>, A::Error>)
        ensures
            queue_pop(old(self).view().queue).1 is Some ==> {
                &&& r == Ok::<Option<ButtonEvent>, A::Error>(queue_pop(old(self).view().queue).1)
                &&& final(self).view() == (PollerView {
                    queue: queue_pop(old(self).view().queue).0,
                    ..old(self).view()
                })
                &&& final(self).adc_failures() == old(self).adc_failures()
                &&& final(self).adc_reads() == old(self).adc_reads()
            },
            queue_pop(old(self).view().queue).1 is None ==> {
                &&& r is Err ==> {
                    &&& final(self).view() == old(self).view()
                    &&& final(self).adc_failures() == old(self).adc_failures() + 1
                    &&& final(self).adc_reads().len() <= old(self).adc_reads().len() + 1
                    &&& old(self).adc_reads().is_prefix_of(final(self).adc_reads())
                }
                &&& r is Ok ==> {
                    let s = final(self).view();
                    &&& final(self).adc_failures() == old(self).adc_failures()
                    &&& final(self).adc_reads() == old(self).adc_reads() + seq![
                        AdcRead::Gpio1(s.last_gpio1),
                        AdcRead::Gpio2(s.last_gpio2),
                    ]
                    &&& (s, r->Ok_0) == poll_step(
                        sampled(old(self).view(), s.last_gpio1, s.last_gpio2),
                        ladder_button(s.last_gpio1, s.last_gpio2),
                    )
                }
            },
    {
        proof {
            lemma_first_full(self.queue.buf@, 0);
        }
        if let Some(event) = self.queue.pop() {
            return Ok(Some(event));
        }
        assert(self.view() =~= old(self).view());
        let raw = self.read_raw()?;
        Ok(self.advance(raw))
    }

    /// Process one pair of ladder samples taken outside the poller: record
    /// them, decode them (GPIO1 has priority) and advance the debounce,
    /// long-press and repeat logic; the event this produces, if any.
    pub fn step(&mut self, gpio1: u16, gpio2: u16) -> (ev: Option<ButtonEvent>)
        ensures
            (final(self).view(), ev) == poll_step(
                sampled(old(self).view(), gpio1, gpio2),
                ladder_button(gpio1, gpio2),
            ),
            final(self).adc_failures() == old(self).adc_failures(),
            final(self).adc_reads() == old(self).adc_reads(),
    {
        let raw = self.record_samples(gpio1, gpio2);
        self.advance(raw)
    }

    fn record_samples(&mut self, gpio1: u16, gpio2: u16) -> (raw: Option<ButtonId>)
        ensures
            final(self).view() == sampled(old(self).view(), gpio1, gpio2),
            raw == ladder_button(gpio1, gpio2),
            final(self).adc == old(self).adc,
    {
        let raw1 = decode_gpio1(gpio1);
        let raw2 = decode_gpio2(gpio2);
        self.last_gpio1 = gpio1;
        self.last_gpio2 = gpio2;
        self.last_raw1 = raw1;
        self.last_raw2 = raw2;
        match raw1 {
            Some(b) => Some(b),
            None => raw2,
        }
    }

    fn advance(&mut self, raw: Option<ButtonId>) -> (r: Option<ButtonEvent>)
        ensures
            (final(self).view(), r) == poll_step(old(self).view(), raw),
            final(self).adc == old(self).adc,
    {
        if !same_button(raw, self.candidate) {
            if self.stable.is_some() && !same_button(raw, self.stable) {
                self.press_ticks = 0;
                self.long_press_fired = false;
                self.repeat_ticks = 0;
            }
            self.candidate = raw;
            self.candidate_ticks = 0;
        }
        self.candidate_ticks = self.candidate_ticks.saturating_add(1);

        let debounced = if self.candidate_ticks >= self.debounce_ticks {
            self.candidate
        } else {
            self.stable
        };

        if !same_button(debounced, self.stable) {
            if let Some(old) = self.stable {
                self.queue.push(ButtonEvent::Release(old));
            }
            if let Some(new) = debounced {
                self.queue.push(ButtonEvent::Press(new));
                self.press_ticks = 0;
                self.long_press_fired = false;
                self.repeat_ticks = 0;
            }
            self.stable = debounced;
            return self.queue.pop();
        }
        if let Some(button) = self.stable {
            self.press_ticks = self.press_ticks.saturating_add(1);

            if !self.long_press_fired && self.press_ticks >= self.longpress_ticks {
                self.long_press_fired = true;
                self.repeat_ticks = 0;
                return Some(ButtonEvent::LongPress(button));
            }
            if self.long_press_fired {
                self.repeat_ticks = self.repeat_ticks.saturating_add(1);
                if self.repeat_ticks >= REPEAT_TICKS {
                    self.repeat_ticks = 0;
                    return Some(ButtonEvent::Repeat(button));
                }
            }
        }
        None
    }

    fn read_raw(&mut self) -> (r: Result<Option<ButtonId>, A::Error>)
        ensures
            r is Err ==> {
                &&& final(self).view() == old(self).view()
                &&& final(self).adc_failures() == old(self).adc_failures() + 1
                &&& final(self).adc_reads().len() <= old(self).adc_reads().len() + 1
                &&& old(self).adc_reads().is_prefix_of(final(self).adc_reads())
            },
            r is Ok ==> {
                let s = final(self).view();
                &&& s == sampled(old(self).view(), s.last_gpio1, s.last_gpio2)
                &&& r == Ok::<Option<ButtonId>, A::Error>(ladder_button(s.last_gpio1, s.last_gpio2))
                &&& final(self).adc_failures() == old(self).adc_failures()
                &&& final(self).adc_reads() == old(self).adc_reads() + seq![
                    AdcRead::Gpio1(s.last_gpio1),
                    AdcRead::Gpio2(s.last_gpio2),
                ]
            },
    {
        let gpio1 = match self.adc.read_gpio1() {
            Ok(v) => v,
            Err(e) => {
                assert(old(self).adc_reads().is_prefix_of(self.adc_reads()));
                return Err(e);
            },
        };
        let gpio2 = match self.adc.read_gpio2() {
            Ok(v) => v,
            Err(e) => {
                assert(old(self).adc_reads().is_prefix_of(self.adc_reads()));
                return Err(e);
            },
        };
        let raw = self.record_samples(gpio1, gpio2);
        assert(self.adc_reads() =~= old(self).adc_reads() + seq![
            AdcRead::Gpio1(gpio1),
            AdcRead::Gpio2(gpio2),
        ]);
        Ok(raw)
    }
}

/// No two slots of the queue hold an event.
pub open spec fn at_most_one_pending(q: Seq<Option<ButtonEvent>>) -> bool {
    forall|i: int, j: int| 0 <= i < j < q.len() ==> !(#[trigger] q[i] is Some && #[trigger] q[j] is Some)
}

/// The poller never has more than one event waiting: handing out the pending
/// event empties the queue, and a poll on an empty queue leaves at most one.
pub proof fn law_at_most_one_pending(s: PollerView, raw: Option<ButtonId>)
    requires
        s.queue.len() == 4,
        at_most_one_pending(s.queue),
    ensures
        queue_pop(s.queue).1 is Some ==> forall|i: int|
            0 <= i < 4 ==> #[trigger] queue_pop(s.queue).0[i] is None,
        queue_pop(s.queue).1 is None ==> at_most_one_pending(poll_step(s, raw).0.queue)
            && poll_step(s, raw).0.queue.len() == 4,
{
    reveal_with_fuel(first_full, 5);
    reveal_with_fuel(first_free, 5);
    let q = s.queue;
    if queue_pop(q).1 is None {
        assert(q =~= seq![None, None, None, None]);
    }
}

/// The state after `n` polls that all read button `b`, from `s`.
pub open spec fn held_state(s: PollerView, b: ButtonId, n: nat) -> PollerView
    decreases n,
{
    if n == 0 {
        s
    } else {
        poll_step(held_state(s, b, (n - 1) as nat), Some(b)).0
    }
}

/// The event of the `n`-th of those polls (`n >= 1`).
pub open spec fn held_event(s: PollerView, b: ButtonId, n: nat) -> Option<ButtonEvent> {
    if n == 0 {
        None
    } else {
        poll_step(held_state(s, b, (n - 1) as nat), Some(b)).1
    }
}

/// Whether `s` is the poller just after reporting the press of `b`.
pub open spec fn just_pressed(s: PollerView, b: ButtonId) -> bool {
    &&& s.stable == Some(b)
    &&& s.candidate == Some(b)
    &&& !s.long_press_fired
    &&& s.press_ticks == 0
    &&& s.repeat_ticks == 0
    &&& s.longpress_ticks >= 1
}

proof fn lemma_next_mod(m: int)
    requires
        m >= 0,
    ensures
        (m + 1) % 15 == if m % 15 == 14 {
            0
        } else {
            m % 15 + 1
        },
        0 <= m % 15 < 15,
{
    assert((m + 1) % 15 == if m % 15 == 14 {
        0
    } else {
        m % 15 + 1
    }) by (nonlinear_arith)
        requires
            m >= 0,
    ;
}

proof fn lemma_held_state(s: PollerView, b: ButtonId, n: nat)
    requires
        just_pressed(s, b),
    ensures
        held_state(s, b, n).stable == Some(b),
        held_state(s, b, n).candidate == Some(b),
        held_state(s, b, n).longpress_ticks == s.longpress_ticks,
        n < s.longpress_ticks ==> !held_state(s, b, n).long_press_fired && held_state(s, b, n).press_ticks
            == n,
        n >= s.longpress_ticks ==> held_state(s, b, n).long_press_fired && held_state(s, b, n).repeat_ticks
            == (n - s.longpress_ticks) % 15,
        n >= 1 ==> held_event(s, b, n) == if n < s.longpress_ticks {
            None
        } else if n == s.longpress_ticks {
            Some(ButtonEvent::LongPress(b))
        } else if (n - s.longpress_ticks) % 15 == 0 {
            Some(ButtonEvent::Repeat(b))
        } else {
            None
        },
    decreases n,
{
    if n > 0 {
        let m = (n - 1) as nat;
        lemma_held_state(s, b, m);
        if m >= s.longpress_ticks {
            lemma_next_mod(m - s.longpress_ticks);
        }
    }
}

/// Holding a button after its press: the polls before the long-press
/// threshold report nothing, the threshold-th poll reports `LongPress`, and
/// after that every `REPEAT_TICKS`-th poll reports `Repeat`, with nothing in
/// between; the button stays the stable state throughout.
pub proof fn law_hold_timing(s: PollerView, b: ButtonId, n: nat)
    requires
        just_pressed(s, b),
        n >= 1,
    ensures
        held_state(s, b, n).stable == Some(b),
        n < s.longpress_ticks ==> held_event(s, b, n) is None,
        n == s.longpress_ticks ==> held_event(s, b, n) == Some(ButtonEvent::LongPress(b)),
        n > s.longpress_ticks ==> held_event(s, b, n) == if (n - s.longpress_ticks) % (REPEAT_TICKS as int)
            == 0 {
            Some(ButtonEvent::Repeat(b))
        } else {
            None
        },
{
    lemma_held_state(s, b, n);
}

} // verus!
