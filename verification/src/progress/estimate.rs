use vstd::prelude::*;

verus! {

/// How many of the latest samples an estimate keeps.
pub const WINDOW: usize = 15;

/// Nanoseconds in a second.
pub const NANOS_PER_SEC: u64 = 1_000_000_000;

/// What an estimate knows.
pub struct EstimateView {
    /// Nanoseconds per step as measured at each of the latest steps, oldest first.
    pub samples: Seq<u64>,
    /// When measuring began.
    pub start_time: u64,
    /// The position at which measuring began.
    pub start_value: u64,
}

/// The difference `a - b`, or zero where `b` is the larger.
pub open spec fn minus(a: u64, b: u64) -> u64 {
    if a >= b {
        (a - b) as u64
    } else {
        0
    }
}

/// The sum `a + b`, or the largest number where that is smaller.
pub open spec fn plus(a: u64, b: u64) -> u64 {
    if a + b <= u64::MAX {
        (a + b) as u64
    } else {
        u64::MAX
    }
}

/// The product `a * b`, or the largest number where that is smaller.
pub open spec fn times(a: u64, b: u64) -> u64 {
    if a * b <= u64::MAX {
        (a * b) as u64
    } else {
        u64::MAX
    }
}

/// Nanoseconds per step when the position `value` is reached at `now`: the
/// time since measuring began, shared out over the steps since then.
pub open spec fn step_duration(e: EstimateView, value: u64, now: u64) -> u64 {
    if value > e.start_value {
        minus(now, e.start_time) / minus(value, e.start_value)
    } else {
        0
    }
}

/// The samples after one more: the oldest leaves once the window is full.
pub open spec fn pushed(samples: Seq<u64>, item: u64) -> Seq<u64> {
    if samples.len() < WINDOW {
        samples.push(item)
    } else {
        samples.drop_first().push(item)
    }
}

/// The sum of the samples.
pub open spec fn total(samples: Seq<u64>) -> nat
    decreases samples.len(),
{
    if samples.len() == 0 {
        0
    } else {
        total(samples.drop_last()) + samples.last() as nat
    }
}

/// The mean of the samples, rounded down; zero where there is none.
pub open spec fn mean(samples: Seq<u64>) -> u64 {
    if samples.len() == 0 {
        0
    } else {
        (total(samples) / samples.len()) as u64
    }
}

/// Steps per second at `nanos_per_step` nanoseconds a step.
pub open spec fn rate(nanos_per_step: u64) -> u64 {
    if nanos_per_step == 0 {
        0
    } else {
        NANOS_PER_SEC / nanos_per_step
    }
}

/// A running estimate of the time one step takes.
#[derive(Debug)]
pub struct Estimate {
    samples: Vec<u64>,
    start_time: u64,
    start_value: u64,
}

impl View for Estimate {
    type V = EstimateView;

    closed spec fn view(&self) -> EstimateView {
        EstimateView {
            samples: self.samples@,
            start_time: self.start_time,
            start_value: self.start_value,
        }
    }
}

impl Estimate {
    /// Every estimate that executable code can hold satisfies this.
    #[verifier::type_invariant]
    pub closed spec fn well_formed(self) -> bool {
        self.samples@.len() <= WINDOW
    }

    /// An estimate without samples that measures from the position
    /// `start_value` at the time `now`.
    pub fn new(start_value: u64, now: u64) -> (e: Estimate)
        ensures
            e@ == (EstimateView { samples: Seq::empty(), start_time: now, start_value }),
    {
        Estimate { samples: Vec::new(), start_time: now, start_value }
    }

    /// Forgets the samples and measures anew, from `start_value` at `now`.
    pub fn reset(&mut self, start_value: u64, now: u64)
        ensures
            final(self)@ == (EstimateView { samples: Seq::empty(), start_time: now, start_value }),
    {
        let fresh = Estimate::new(start_value, now);
        *self = fresh;
    }

    /// Takes note that the position `value` is reached at `now`.
    pub fn record_step(&mut self, value: u64, now: u64)
        ensures
            final(self)@ == (EstimateView {
                samples: pushed(old(self)@.samples, step_duration(old(self)@, value, now)),
                ..old(self)@
            }),
    {
        proof {
            use_type_invariant(&*self);
        }
        let item = if value > self.start_value {
            now.saturating_sub(self.start_time) / (value - self.start_value)
        } else {
            0
        };
        let mut samples: Vec<u64> = Vec::new();
        std::mem::swap(&mut samples, &mut self.samples);
        if samples.len() >= WINDOW {
            samples.remove(0);
            assert(samples@ =~= old(self)@.samples.drop_first());
        }
        samples.push(item);
        self.samples = samples;
    }

    /// Nanoseconds per step: the mean of the samples.
    pub fn time_per_step(&self) -> (t: u64)
        ensures
            t == mean(self@.samples),
    {
        proof {
            use_type_invariant(self);
        }
        let n = self.samples.len();
        if n == 0 {
            return 0;
        }
        let mut sum: u128 = 0;
        let mut i: usize = 0;
        while i < n
            invariant
                n == self.samples@.len(),
                n <= WINDOW,
                i <= n,
                sum == total(self.samples@.take(i as int)),
                sum <= i * u64::MAX,
            decreases n - i,
        {
            proof {
                assert(self.samples@.take(i + 1).drop_last() =~= self.samples@.take(i as int));
                assert((i + 1) * u64::MAX == i * u64::MAX + u64::MAX) by (nonlinear_arith);
                assert(i * u64::MAX <= 15 * u64::MAX) by (nonlinear_arith)
                    requires
                        i <= 15,
                ;
            }
            sum = sum + self.samples[i] as u128;
            i = i + 1;
        }
        proof {
            assert(self.samples@.take(n as int) =~= self.samples@);
            assert(sum / (n as u128) <= u64::MAX) by (nonlinear_arith)
                requires
                    sum <= n * u64::MAX,
                    n >= 1,
            ;
        }
        (sum / (n as u128)) as u64
    }

    /// Steps per second, rounded down; zero where a step takes no time or
    /// more than a second.
    pub fn per_sec(&self) -> (r: u64)
        ensures
            r == rate(mean(self@.samples)),
    {
        let t = self.time_per_step();
        if t == 0 {
            0
        } else {
            NANOS_PER_SEC / t
        }
    }
}

} // verus!
