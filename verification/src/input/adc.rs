use vstd::prelude::*;

verus! {

/// One successful ADC read: the channel and the calibrated value.
#[derive(Clone, Copy, Debug, PartialEq, Eq, Structural)]
pub enum AdcRead {
    Gpio1(u16),
    Gpio2(u16),
}

/// ADC abstraction for reading the two resistor-ladder button channels.
///
/// The values are whatever the hardware reads. `read_log` is every successful
/// read, oldest first, and `failed_reads` counts the reads that failed: a read
/// that succeeds appends its channel and value, one that fails appends nothing
/// and counts one failure.
pub trait AdcSource {
    type Error;

    /// The successful reads on this source, oldest first.
    spec fn read_log(&self) -> Seq<AdcRead>;

    /// How many reads on this source have failed.
    spec fn failed_reads(&self) -> nat;

    /// Read the GPIO1 ADC channel (4-button ladder), calibrated.
    fn read_gpio1(&mut self) -> (r: Result<u16, Self::Error>)
        ensures
            r matches Ok(v) ==> final(self).read_log() == old(self).read_log().push(AdcRead::Gpio1(v))
                && final(self).failed_reads() == old(self).failed_reads(),
            r is Err ==> final(self).read_log() == old(self).read_log() && final(self).failed_reads()
                == old(self).failed_reads() + 1,
    ;

    /// Read the GPIO2 ADC channel (2-button ladder), calibrated.
    fn read_gpio2(&mut self) -> (r: Result<u16, Self::Error>)
        ensures
            r matches Ok(v) ==> final(self).read_log() == old(self).read_log().push(AdcRead::Gpio2(v))
                && final(self).failed_reads() == old(self).failed_reads(),
            r is Err ==> final(self).read_log() == old(self).read_log() && final(self).failed_reads()
                == old(self).failed_reads() + 1,
    ;
}

/// A host-side ADC that plays back a script of `(gpio1, gpio2)` samples, one
/// pair per GPIO2 read, repeating the last pair once the script runs out.
/// With `fail` set, or an empty script, every GPIO1 read fails.
pub struct ScriptedAdc {
    samples: Vec<(u16, u16)>,
    next: usize,
    fail: bool,
    failures: Ghost<nat>,
    log: Ghost<Seq<AdcRead>>,
}

impl ScriptedAdc {
    /// The scripted `(gpio1, gpio2)` pairs.
    pub closed spec fn script(&self) -> Seq<(u16, u16)> {
        self.samples@
    }

    /// How many pairs have been consumed (by GPIO2 reads).
    pub closed spec fn position(&self) -> int {
        self.next as int
    }

    /// Whether GPIO1 reads fail.
    pub closed spec fn failing(&self) -> bool {
        self.fail
    }

    /// The pair the next reads see: the one at `position`, or the last once
    /// the script has run out; none for an empty script.
    pub open spec fn current_pair(&self) -> Option<(u16, u16)> {
        if self.script().len() == 0 {
            None
        } else if self.position() < self.script().len() {
            Some(self.script()[self.position()])
        } else {
            Some(self.script().last())
        }
    }

    pub fn new(samples: Vec<(u16, u16)>, fail: bool) -> (a: Self)
        ensures
            a.failed_reads() == 0,
            a.read_log() == Seq::<AdcRead>::empty(),
            a.script() == samples@,
            a.position() == 0,
            a.failing() == fail,
    {
        ScriptedAdc { samples, next: 0, fail, failures: Ghost(0), log: Ghost(Seq::empty()) }
    }

    fn current(&self) -> (r: Option<(u16, u16)>)
        ensures
            r == self.current_pair(),
    {
        let n = self.samples.len();
        if n == 0 {
            None
        } else if self.next < n {
            Some(self.samples[self.next])
        } else {
            Some(self.samples[n - 1])
        }
    }
}

impl AdcSource for ScriptedAdc {
    type Error = ();

    closed spec fn read_log(&self) -> Seq<AdcRead> {
        self.log@
    }

    closed spec fn failed_reads(&self) -> nat {
        self.failures@
    }

    fn read_gpio1(&mut self) -> (r: Result<u16, ()>)
        ensures
            final(self).script() == old(self).script(),
            final(self).position() == old(self).position(),
            final(self).failing() == old(self).failing(),
            old(self).failing() || old(self).current_pair() is None ==> r is Err,
            !old(self).failing() && old(self).current_pair() is Some ==> r == Ok::<u16, ()>(
                old(self).current_pair()->Some_0.0,
            ),
    {
        if self.fail {
            self.failures = Ghost(self.failures@ + 1);
            return Err(());
        }
        match self.current() {
            Some((g1, _)) => {
                self.log = Ghost(self.log@.push(AdcRead::Gpio1(g1)));
                Ok(g1)
            },
            None => {
                self.failures = Ghost(self.failures@ + 1);
                Err(())
            },
        }
    }

    fn read_gpio2(&mut self) -> (r: Result<u16, ()>)
        ensures
            final(self).script() == old(self).script(),
            final(self).failing() == old(self).failing(),
            old(self).current_pair() is None ==> r is Err && final(self).position() == old(
                self,
            ).position(),
            old(self).current_pair() is Some ==> {
                &&& r == Ok::<u16, ()>(old(self).current_pair()->Some_0.1)
                &&& final(self).position() == if old(self).position() < usize::MAX {
                    old(self).position() + 1
                } else {
                    old(self).position()
                }
            },
    {
        match self.current() {
            Some((_, g2)) => {
                if self.next < usize::MAX {
                    self.next += 1;
                }
                self.log = Ghost(self.log@.push(AdcRead::Gpio2(g2)));
                Ok(g2)
            },
            None => {
                self.failures = Ghost(self.failures@ + 1);
                Err(())
            },
        }
    }
}

pub open spec fn min2(a: int, b: int) -> int {
    if a <= b {
        a
    } else {
        b
    }
}

pub open spec fn max2(a: int, b: int) -> int {
    if a >= b {
        a
    } else {
        b
    }
}

/// The mean of the two middle samples of four (rounded down).
pub open spec fn spec_trimmed_mean4(s: Seq<u16>) -> int {
    let sum = s[0] as int + s[1] as int + s[2] as int + s[3] as int;
    let lo = min2(min2(s[0] as int, s[1] as int), min2(s[2] as int, s[3] as int));
    let hi = max2(max2(s[0] as int, s[1] as int), max2(s[2] as int, s[3] as int));
    (sum - lo - hi) / 2
}

/// Return the trimmed mean of four ADC samples.
///
/// This drops the minimum and maximum sample before averaging the middle two,
/// which rejects the first stale conversion after a ladder button is released.
pub fn trimmed_mean4(samples: [u16; 4]) -> (r: u16)
    ensures
        r == spec_trimmed_mean4(samples@),
{
    let a = samples[0] as u32;
    let b = samples[1] as u32;
    let c = samples[2] as u32;
    let d = samples[3] as u32;
    let sum = a + b + c + d;
    let min_ab = if a <= b { a } else { b };
    let min_cd = if c <= d { c } else { d };
    let min = if min_ab <= min_cd { min_ab } else { min_cd };
    let max_ab = if a >= b { a } else { b };
    let max_cd = if c >= d { c } else { d };
    let max = if max_ab >= max_cd { max_ab } else { max_cd };
    ((sum - min - max) / 2) as u16
}

/// The trimmed mean lies between the smallest and the largest sample.
pub proof fn law_trimmed_mean_within_samples(s: Seq<u16>)
    requires
        s.len() == 4,
    ensures
        min2(min2(s[0] as int, s[1] as int), min2(s[2] as int, s[3] as int)) <= spec_trimmed_mean4(s),
        spec_trimmed_mean4(s) <= max2(max2(s[0] as int, s[1] as int), max2(s[2] as int, s[3] as int)),
{
}

} // verus!
