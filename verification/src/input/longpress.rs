use vstd::prelude::*;

use crate::input::debounce::{lemma_trailing_run, trailing_run};
use crate::input::{ButtonEvent, ButtonId};

verus! {

/// Classifies a debounced button state stream into press/release/long-press events.
pub struct LongPressDetector {
    held: Option<ButtonId>,
    held_ticks: u32,
    threshold_ticks: u32,
    /// True after a LongPress has been emitted for the current hold; suppresses re-fire.
    fired: bool,
}

/// The detector's state as contracts see it.
pub struct LongPressView {
    pub held: Option<ButtonId>,
    pub held_ticks: u32,
    pub threshold_ticks: u32,
    pub fired: bool,
}

/// One stable reading: a new button is a press, the same button held long
/// enough is one long press, no button after one is a release.
pub open spec fn longpress_step(s: LongPressView, stable: Option<ButtonId>) -> (
    LongPressView,
    Option<ButtonEvent>,
) {
    match (s.held, stable) {
        (None, Some(b)) => (
            LongPressView { held: Some(b), held_ticks: 1, fired: false, ..s },
            Some(ButtonEvent::Press(b)),
        ),
        (Some(b), Some(c)) => if b == c {
            let ticks = (s.held_ticks + 1) as u32;
            if !s.fired && ticks >= s.threshold_ticks {
                (
                    LongPressView { held_ticks: ticks, fired: true, ..s },
                    Some(ButtonEvent::LongPress(b)),
                )
            } else {
                (LongPressView { held_ticks: ticks, ..s }, None)
            }
        } else {
            (
                LongPressView { held: Some(c), held_ticks: 1, fired: false, ..s },
                Some(ButtonEvent::Press(c)),
            )
        },
        (Some(b), None) => (
            LongPressView { held: None, held_ticks: 0, fired: false, ..s },
            Some(ButtonEvent::Release(b)),
        ),
        (None, None) => (s, None),
    }
}

impl LongPressDetector {
    pub closed spec fn view(&self) -> LongPressView {
        LongPressView {
            held: self.held,
            held_ticks: self.held_ticks,
            threshold_ticks: self.threshold_ticks,
            fired: self.fired,
        }
    }

    pub fn new(threshold_ticks: u32) -> (d: Self)
        ensures
            d.view() == (LongPressView {
                held: None,
                held_ticks: 0,
                threshold_ticks,
                fired: false,
            }),
    {
        Self { held: None, held_ticks: 0, threshold_ticks, fired: false }
    }

    /// Feed one stable (debounced) state. Returns an event when one is ready.
    pub fn update(&mut self, stable: Option<ButtonId>) -> (r: Option<ButtonEvent>)
        requires
            old(self).view().held is Some && stable == old(self).view().held ==> old(
                self,
            ).view().held_ticks < u32::MAX,
        ensures
            (final(self).view(), r) == longpress_step(old(self).view(), stable),
    {
        match (self.held, stable) {
            (None, Some(b)) => {
                self.held = Some(b);
                self.held_ticks = 1;
                self.fired = false;
                Some(ButtonEvent::Press(b))
            },
            (Some(b), Some(c)) => {
                if b == c {
                    self.held_ticks += 1;
                    if !self.fired && self.held_ticks >= self.threshold_ticks {
                        self.fired = true;
                        Some(ButtonEvent::LongPress(b))
                    } else {
                        None
                    }
                } else {
                    self.held = Some(c);
                    self.held_ticks = 1;
                    self.fired = false;
                    Some(ButtonEvent::Press(c))
                }
            },
            (Some(b), None) => {
                self.held = None;
                self.held_ticks = 0;
                self.fired = false;
                Some(ButtonEvent::Release(b))
            },
            (None, None) => None,
        }
    }
}

/// A long press is reported at most once per hold, and only for the button
/// being held once it has been held for the threshold.
pub proof fn law_long_press_once_per_hold(s: LongPressView, stable: Option<ButtonId>)
    requires
        s.held is Some && stable == s.held ==> s.held_ticks < u32::MAX,
    ensures
        longpress_step(s, stable).1 matches Some(ButtonEvent::LongPress(b)) ==> {
            &&& s.held == Some(b) && stable == Some(b)
            &&& !s.fired
            &&& longpress_step(s, stable).0.held_ticks >= s.threshold_ticks
            &&& longpress_step(s, stable).0.fired
        },
        s.fired && s.held is Some && stable == s.held ==> longpress_step(s, stable).1 is None
            && longpress_step(s, stable).0.fired,
{
}

/// Letting go of a held button always reports its release.
pub proof fn law_release_reported(s: LongPressView)
    ensures
        s.held matches Some(b) ==> longpress_step(s, None).1 == Some(ButtonEvent::Release(b)),
{
}

/// The detector after `n` further readings of button `b`, from `s`.
pub open spec fn lp_held_state(s: LongPressView, b: ButtonId, n: nat) -> LongPressView
    decreases n,
{
    if n == 0 {
        s
    } else {
        longpress_step(lp_held_state(s, b, (n - 1) as nat), Some(b)).0
    }
}

/// The event of the `n`-th of those readings (`n >= 1`).
pub open spec fn lp_held_event(s: LongPressView, b: ButtonId, n: nat) -> Option<ButtonEvent> {
    if n == 0 {
        None
    } else {
        longpress_step(lp_held_state(s, b, (n - 1) as nat), Some(b)).1
    }
}

proof fn lemma_lp_held(s: LongPressView, b: ButtonId, n: nat)
    requires
        s.held == Some(b),
        s.held_ticks == 1,
        !s.fired,
        n + 1 <= u32::MAX,
    ensures
        lp_held_state(s, b, n).held == Some(b),
        lp_held_state(s, b, n).held_ticks == n + 1,
        lp_held_state(s, b, n).threshold_ticks == s.threshold_ticks,
        lp_held_state(s, b, n).fired == (n >= 1 && n + 1 >= s.threshold_ticks),
        n >= 1 ==> lp_held_event(s, b, n) == if n + 1 >= s.threshold_ticks && (n == 1 || n
            < s.threshold_ticks) {
            Some(ButtonEvent::LongPress(b))
        } else {
            None
        },
    decreases n,
{
    if n > 0 {
        lemma_lp_held(s, b, (n - 1) as nat);
    }
}

/// After the press of `b`, holding it reports nothing until it has been held
/// for the threshold (counting the press), then exactly one `LongPress`, and
/// nothing after that while it stays held.
pub proof fn law_hold_long_press_once(s: LongPressView, b: ButtonId, n: nat)
    requires
        s.held == Some(b),
        s.held_ticks == 1,
        !s.fired,
        1 <= n,
        n + 1 <= u32::MAX,
    ensures
        lp_held_state(s, b, n).held == Some(b),
        lp_held_event(s, b, n) == if n == (if s.threshold_ticks >= 2 {
            s.threshold_ticks - 1
        } else {
            1
        }) {
            Some(ButtonEvent::LongPress(b))
        } else {
            None
        },
{
    lemma_lp_held(s, b, n);
}

/// The detector after a fresh start with threshold `t` and the stable states
/// `ss`, in order.
pub open spec fn lp_run(t: u32, ss: Seq<Option<ButtonId>>) -> LongPressView
    decreases ss.len(),
{
    if ss.len() == 0 {
        LongPressView { held: None, held_ticks: 0, threshold_ticks: t, fired: false }
    } else {
        longpress_step(lp_run(t, ss.drop_last()), ss.last()).0
    }
}

/// The event the last of the states `ss` produces.
pub open spec fn lp_last_event(t: u32, ss: Seq<Option<ButtonId>>) -> Option<ButtonEvent> {
    if ss.len() == 0 {
        None
    } else {
        longpress_step(lp_run(t, ss.drop_last()), ss.last()).1
    }
}

/// The tick of a hold at which a long press is reported: the threshold, but
/// never the press itself.
pub open spec fn long_press_tick(t: u32) -> int {
    if t >= 2 {
        t as int
    } else {
        2
    }
}

proof fn lemma_lp_run(t: u32, ss: Seq<Option<ButtonId>>)
    requires
        ss.len() < u32::MAX,
    ensures
        lp_run(t, ss).threshold_ticks == t,
        lp_run(t, ss).held == if ss.len() == 0 {
            None
        } else {
            ss.last()
        },
        lp_run(t, ss).held is Some ==> lp_run(t, ss).held_ticks == trailing_run(ss) && lp_run(
            t,
            ss,
        ).fired == (trailing_run(ss) >= long_press_tick(t)),
        lp_run(t, ss).held is None ==> lp_run(t, ss).held_ticks == 0 && !lp_run(t, ss).fired,
    decreases ss.len(),
{
    if ss.len() > 0 {
        let d = ss.drop_last();
        lemma_lp_run(t, d);
        lemma_trailing_run(ss);
        if d.len() > 0 {
            lemma_trailing_run(d);
            assert(d.last() == ss[ss.len() - 2]);
        }
    }
}

/// What each stable state makes the detector report, from a fresh start:
/// `Press(c)` when `c` becomes held (also straight from another button, with
/// no release of that one), `Release(b)` when `b` is let go, `LongPress(b)` on
/// the `long_press_tick(t)`-th tick of an unbroken hold of `b` (so at most once
/// per hold), and nothing otherwise.
pub proof fn law_long_press_run(t: u32, ss: Seq<Option<ButtonId>>)
    requires
        0 < ss.len() < u32::MAX,
    ensures
        ({
            let prev = if ss.len() >= 2 {
                ss[ss.len() - 2]
            } else {
                None
            };
            lp_last_event(t, ss) == match ss.last() {
                Some(c) => if prev != Some(c) {
                    Some(ButtonEvent::Press(c))
                } else if trailing_run(ss) == long_press_tick(t) {
                    Some(ButtonEvent::LongPress(c))
                } else {
                    None
                },
                None => match prev {
                    Some(b) => Some(ButtonEvent::Release(b)),
                    None => None,
                },
            }
        }),
{
    let d = ss.drop_last();
    lemma_lp_run(t, d);
    lemma_trailing_run(ss);
    if d.len() > 0 {
        lemma_trailing_run(d);
        assert(d.last() == ss[ss.len() - 2]);
    }
}

} // verus!
