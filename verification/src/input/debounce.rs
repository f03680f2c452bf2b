use vstd::prelude::*;

use crate::input::{same_button, ButtonId};

verus! {

/// Debounce filter: stable state only changes after `threshold_ticks` consecutive
/// identical readings.
pub struct DebounceFilter {
    stable: Option<ButtonId>,
    candidate: Option<ButtonId>,
    ticks: u32,
    threshold_ticks: u32,
}

/// The filter's state as contracts see it.
pub struct DebounceView {
    pub stable: Option<ButtonId>,
    pub candidate: Option<ButtonId>,
    pub ticks: u32,
    pub threshold_ticks: u32,
}

/// One reading: count it if it repeats the candidate, else start a new run;
/// the candidate becomes stable once its run reaches the threshold.
pub open spec fn debounce_step(s: DebounceView, raw: Option<ButtonId>) -> DebounceView {
    let ticks: u32 = if raw == s.candidate {
        (s.ticks + 1) as u32
    } else {
        1
    };
    DebounceView {
        stable: if ticks >= s.threshold_ticks {
            raw
        } else {
            s.stable
        },
        candidate: raw,
        ticks,
        threshold_ticks: s.threshold_ticks,
    }
}

impl DebounceFilter {
    pub closed spec fn view(&self) -> DebounceView {
        DebounceView {
            stable: self.stable,
            candidate: self.candidate,
            ticks: self.ticks,
            threshold_ticks: self.threshold_ticks,
        }
    }

    pub fn new(threshold_ticks: u32) -> (f: Self)
        ensures
            f.view() == (DebounceView { stable: None, candidate: None, ticks: 0, threshold_ticks }),
    {
        Self { stable: None, candidate: None, ticks: 0, threshold_ticks }
    }

    /// Feed one raw reading. Returns the current stable state after this tick.
    pub fn update(&mut self, raw: Option<ButtonId>) -> (r: Option<ButtonId>)
        requires
            raw == old(self).view().candidate ==> old(self).view().ticks < u32::MAX,
        ensures
            final(self).view() == debounce_step(old(self).view(), raw),
            r == final(self).view().stable,
    {
        if same_button(raw, self.candidate) {
            self.ticks += 1;
        } else {
            self.candidate = raw;
            self.ticks = 1;
        }
        if self.ticks >= self.threshold_ticks {
            self.stable = self.candidate;
        }
        self.stable
    }
}

/// The filter's state after a run of readings from a fresh filter.
pub open spec fn debounce_run(threshold: u32, readings: Seq<Option<ButtonId>>) -> DebounceView
    decreases readings.len(),
{
    if readings.len() == 0 {
        DebounceView { stable: None, candidate: None, ticks: 0, threshold_ticks: threshold }
    } else {
        debounce_step(debounce_run(threshold, readings.drop_last()), readings.last())
    }
}

/// How many readings at the end of `r` equal its last one.
pub open spec fn trailing_run(r: Seq<Option<ButtonId>>) -> int
    decreases r.len(),
{
    if r.len() == 0 {
        0
    } else if r.len() == 1 || r[r.len() - 2] != r.last() {
        1
    } else {
        1 + trailing_run(r.drop_last())
    }
}

pub proof fn lemma_trailing_run(r: Seq<Option<ButtonId>>)
    requires
        r.len() > 0,
    ensures
        1 <= trailing_run(r) <= r.len(),
        forall|k: int| r.len() - trailing_run(r) <= k < r.len() ==> #[trigger] r[k] == r.last(),
    decreases r.len(),
{
    if r.len() > 1 && r[r.len() - 2] == r.last() {
        let d = r.drop_last();
        lemma_trailing_run(d);
        assert forall|k: int| r.len() - trailing_run(r) <= k < r.len() implies #[trigger] r[k]
            == r.last() by {
            if k < r.len() - 1 {
                assert(d[k] == d.last());
            }
        }
    }
}

proof fn lemma_run_tracks_candidate(threshold: u32, r: Seq<Option<ButtonId>>)
    requires
        0 < r.len() < u32::MAX,
    ensures
        debounce_run(threshold, r).candidate == r.last(),
        debounce_run(threshold, r).ticks == trailing_run(r),
        debounce_run(threshold, r).threshold_ticks == threshold,
    decreases r.len(),
{
    reveal_with_fuel(debounce_run, 2);
    if r.len() > 1 {
        let d = r.drop_last();
        lemma_run_tracks_candidate(threshold, d);
        lemma_trailing_run(d);
        assert(d.last() == r[r.len() - 2]);
    }
}

/// The stable state only changes after `threshold_ticks` consecutive identical
/// readings: when a reading changes it, it becomes that reading, and the last
/// `threshold_ticks` readings were all the same.
pub proof fn law_stable_needs_a_run(threshold: u32, r: Seq<Option<ButtonId>>)
    requires
        0 < r.len() < u32::MAX,
        debounce_run(threshold, r).stable != debounce_run(threshold, r.drop_last()).stable,
    ensures
        debounce_run(threshold, r).stable == r.last(),
        threshold <= trailing_run(r),
        forall|k: int| r.len() - threshold <= k < r.len() ==> #[trigger] r[k] == r.last(),
{
    lemma_run_tracks_candidate(threshold, r);
    lemma_trailing_run(r);
}

proof fn lemma_trailing_at_least(r: Seq<Option<ButtonId>>, k: int)
    requires
        1 <= k <= r.len(),
        forall|j: int| r.len() - k <= j < r.len() ==> #[trigger] r[j] == r.last(),
    ensures
        trailing_run(r) >= k,
    decreases k,
{
    lemma_trailing_run(r);
    if k > 1 {
        let d = r.drop_last();
        assert(r[r.len() - 2] == r.last());
        assert(d.last() == r.last());
        assert forall|j: int| d.len() - (k - 1) <= j < d.len() implies #[trigger] d[j] == d.last() by {
            assert(d[j] == r[j]);
        }
        lemma_trailing_at_least(d, k - 1);
    }
}

/// A run of `threshold` equal readings makes that reading the stable state.
pub proof fn law_run_becomes_stable(threshold: u32, r: Seq<Option<ButtonId>>, b: Option<ButtonId>)
    requires
        1 <= threshold <= r.len() < u32::MAX,
        forall|k: int| r.len() - threshold <= k < r.len() ==> #[trigger] r[k] == b,
    ensures
        debounce_run(threshold, r).stable == b,
{
    assert(r.last() == r[r.len() - 1]);
    lemma_trailing_at_least(r, threshold as int);
    lemma_run_tracks_candidate(threshold, r);
    reveal_with_fuel(debounce_run, 2);
}

/// The filter's whole behaviour over a run of readings: with `k` the
/// threshold (at least 1), the stable state after the last reading is that
/// reading when the last `k` readings agree, and otherwise what it was before
/// that reading (`None` before the first).
pub proof fn law_debounce_run(threshold: u32, r: Seq<Option<ButtonId>>)
    requires
        0 < r.len() < u32::MAX,
    ensures
        ({
            let k: int = if threshold >= 1 {
                threshold as int
            } else {
                1
            };
            &&& (r.len() >= k && forall|j: int| r.len() - k <= j < r.len() ==> #[trigger] r[j]
                == r.last()) ==> debounce_run(threshold, r).stable == r.last()
            &&& !(r.len() >= k && forall|j: int| r.len() - k <= j < r.len() ==> #[trigger] r[j]
                == r.last()) ==> debounce_run(threshold, r).stable == debounce_run(
                threshold,
                r.drop_last(),
            ).stable
        }),
{
    reveal_with_fuel(debounce_run, 2);
    lemma_run_tracks_candidate(threshold, r);
    lemma_trailing_run(r);
    if threshold >= 1 {
        if r.len() >= threshold && forall|j: int| r.len() - threshold <= j < r.len() ==> #[trigger] r[j]
            == r.last() {
            law_run_becomes_stable(threshold, r, r.last());
        } else if debounce_run(threshold, r).stable != debounce_run(threshold, r.drop_last()).stable {
            law_stable_needs_a_run(threshold, r);
        }
    } else {
        assert(r[r.len() - 1] == r.last());
    }
}

} // verus!
