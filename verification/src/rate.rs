//! Rates from monotonic counters.
//!
//! The router reports byte and tick counts as running totals. A rate is the
//! difference of two successive samples over the time between them, so it
//! can only be reported once two samples exist, and not when both carry the
//! same time stamp. A counter that went down is not treated specially: the
//! rate is then negative.

use vstd::prelude::*;

verus! {

/// One reading of a counter.
#[derive(Clone, Copy, Debug, PartialEq, Eq, Structural)]
pub struct Sample {
    /// What the counter showed.
    pub value: u64,
    /// When it was read, in microseconds on the poller's clock.
    pub at: u64,
}

/// A rate as an exact fraction: `change` units in `elapsed` microseconds.
#[derive(Clone, Copy, Debug, PartialEq, Eq, Structural)]
pub struct Rate {
    pub change: i128,
    pub elapsed: i128,
}

/// The last two samples of one counter.
#[derive(Clone, Copy, Debug)]
pub struct CounterState {
    previous: Option<Sample>,
    latest: Option<Sample>,
}

/// What a `CounterState` remembers.
pub struct CounterView {
    pub previous: Option<Sample>,
    pub latest: Option<Sample>,
}

/// The rate from sample `a` to the later sample `b`.
pub open spec fn rate_between(a: Sample, b: Sample) -> Option<Rate> {
    if b.at == a.at {
        None
    } else {
        Some(Rate { change: (b.value - a.value) as i128, elapsed: (b.at - a.at) as i128 })
    }
}

/// The rate that is due after sample `i` of a run of samples.
pub open spec fn rate_at(samples: Seq<Sample>, i: int) -> Option<Rate> {
    if 1 <= i < samples.len() {
        rate_between(samples[i - 1], samples[i])
    } else {
        None
    }
}

/// What a fresh state remembers after it was shown `samples` in order.
pub open spec fn after(samples: Seq<Sample>) -> CounterView {
    CounterView {
        previous: if samples.len() >= 2 {
            Some(samples[samples.len() - 2])
        } else {
            None
        },
        latest: if samples.len() >= 1 {
            Some(samples.last())
        } else {
            None
        },
    }
}

impl CounterView {
    /// The rate that this state reports.
    pub open spec fn rate(self) -> Option<Rate> {
        match (self.previous, self.latest) {
            (Some(a), Some(b)) => rate_between(a, b),
            _ => None,
        }
    }

    /// The state after one more sample.
    pub open spec fn record(self, sample: Sample) -> CounterView {
        CounterView { previous: self.latest, latest: Some(sample) }
    }
}

impl View for CounterState {
    type V = CounterView;

    closed spec fn view(&self) -> CounterView {
        CounterView { previous: self.previous, latest: self.latest }
    }
}

impl CounterState {
    /// A state that has seen no sample.
    pub fn new() -> (s: Self)
        ensures
            s@ == after(Seq::empty()),
    {
        CounterState { previous: None, latest: None }
    }

    /// Takes in one more sample; the one before the last is forgotten.
    pub fn record(&mut self, sample: Sample)
        ensures
            final(self)@ == old(self)@.record(sample),
    {
        self.previous = self.latest;
        self.latest = Some(sample);
    }

    /// The newest sample, if there is one.
    pub fn latest(&self) -> (s: Option<Sample>)
        ensures
            s == self@.latest,
    {
        self.latest
    }

    /// The rate between the last two samples: `None` while fewer than two
    /// samples were recorded, and when both were taken at the same time.
    pub fn rate(&self) -> (r: Option<Rate>)
        ensures
            r == self@.rate(),
    {
        match (self.previous, self.latest) {
            (Some(a), Some(b)) => {
                if b.at == a.at {
                    None
                } else {
                    let change: i128 = b.value as i128 - a.value as i128;
                    let elapsed: i128 = b.at as i128 - a.at as i128;
                    Some(Rate { change, elapsed })
                }
            },
            _ => None,
        }
    }

    /// Records a sample and reports the rate that it completes.
    pub fn observe(&mut self, sample: Sample) -> (r: Option<Rate>)
        ensures
            final(self)@ == old(self)@.record(sample),
            r == final(self)@.rate(),
    {
        self.record(sample);
        self.rate()
    }
}

/// For every run of samples, the rate reported once sample `i` has been
/// recorded is the difference of samples `i - 1` and `i` over the time
/// between them; after the first sample no rate is reported.
pub proof fn lemma_rate_of_samples(samples: Seq<Sample>, i: int)
    requires
        0 <= i < samples.len(),
    ensures
        after(samples.take(i + 1)).rate() == rate_at(samples, i),
        i == 0 ==> after(samples.take(i + 1)).rate() is None,
        i >= 1 && samples[i].at != samples[i - 1].at ==> after(samples.take(i + 1)).rate() == Some(
            Rate {
                change: (samples[i].value - samples[i - 1].value) as i128,
                elapsed: (samples[i].at - samples[i - 1].at) as i128,
            },
        ),
{
}

/// The absolute value.
fn magnitude(x: i128) -> (r: u128)
    ensures
        r == if x < 0 {
            -x
        } else {
            x as int
        },
{
    if x >= 0 {
        x as u128
    } else if x == i128::MIN {
        0x8000_0000_0000_0000_0000_0000_0000_0000
    } else {
        (-x) as u128
    }
}

impl Rate {
    /// Units per second, rounded toward zero; `None` where no time
    /// passed, or where the number is beyond what 128 bits hold.
    pub open spec fn spec_per_second(self) -> Option<int> {
        let change: int = if self.change < 0 {
            -self.change
        } else {
            self.change as int
        };
        let elapsed: int = if self.elapsed < 0 {
            -self.elapsed
        } else {
            self.elapsed as int
        };
        if elapsed == 0 || change * 1_000_000 > i128::MAX {
            None
        } else if (self.change < 0) != (self.elapsed < 0) {
            Some(-(change * 1_000_000 / elapsed))
        } else {
            Some(change * 1_000_000 / elapsed)
        }
    }

    /// Units per second, rounded toward zero.
    pub fn per_second(&self) -> (r: Option<i128>)
        ensures
            match r {
                Some(n) => self.spec_per_second() == Some(n as int),
                None => self.spec_per_second() is None,
            },
    {
        if self.elapsed == 0 {
            return None;
        }
        let change: u128 = magnitude(self.change);
        let elapsed: u128 = magnitude(self.elapsed);
        if change > (i128::MAX as u128) / 1_000_000 {
            return None;
        }
        let scaled: u128 = change * 1_000_000;
        let magnitude: u128 = scaled / elapsed;
        assert(magnitude <= scaled) by (nonlinear_arith)
            requires
                magnitude == scaled / elapsed,
                elapsed >= 1,
        ;
        if (self.change < 0) != (self.elapsed < 0) {
            Some(-(magnitude as i128))
        } else {
            Some(magnitude as i128)
        }
    }
}

} // verus!
