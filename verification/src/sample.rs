//! Timed samples and their aggregation into a throughput figure.

use vstd::prelude::*;

verus! {

/// Microseconds in one second: the factor between bytes per microsecond and
/// bytes per second.
pub const MICROS_PER_SECOND: u64 = 1_000_000;

/// What one timed trial moved, and how long it took.
#[derive(Clone, Copy, Debug, PartialEq, Eq)]
pub struct TrialSample {
    pub bytes: u64,
    pub micros: u64,
}

/// Why no throughput figure can be given.
#[derive(Clone, Copy, Debug, PartialEq, Eq)]
pub enum SpeedError {
    /// The run has steps left: no figure before the work tree is gone.
    Unfinished,
    /// No time at all was measured, so there is nothing to divide by.
    NoElapsedTime,
    /// The figure does not fit in 64 bits.
    OutOfRange,
}

/// Bytes moved by all of `samples`.
pub open spec fn sum_bytes(samples: Seq<TrialSample>) -> nat
    decreases samples.len(),
{
    if samples.len() == 0 {
        0
    } else {
        sum_bytes(samples.drop_last()) + samples.last().bytes as nat
    }
}

/// Microseconds spent on all of `samples`.
pub open spec fn sum_micros(samples: Seq<TrialSample>) -> nat
    decreases samples.len(),
{
    if samples.len() == 0 {
        0
    } else {
        sum_micros(samples.drop_last()) + samples.last().micros as nat
    }
}

/// Bytes per second, rounded down, of `bytes` moved in `micros`.
pub open spec fn bytes_per_second(bytes: nat, micros: nat) -> nat
    recommends
        micros > 0,
{
    bytes * 1_000_000 / micros
}

/// The figure for a finished run over `samples`, or why there is none.
pub open spec fn speed_of(samples: Seq<TrialSample>) -> Result<u64, SpeedError> {
    if sum_micros(samples) == 0 {
        Err(SpeedError::NoElapsedTime)
    } else if bytes_per_second(sum_bytes(samples), sum_micros(samples)) > u64::MAX {
        Err(SpeedError::OutOfRange)
    } else {
        Ok(bytes_per_second(sum_bytes(samples), sum_micros(samples)) as u64)
    }
}

/// Adding a sample adds its two fields to the sums.
pub proof fn lemma_sum_push(samples: Seq<TrialSample>, sample: TrialSample)
    ensures
        sum_bytes(samples.push(sample)) == sum_bytes(samples) + sample.bytes,
        sum_micros(samples.push(sample)) == sum_micros(samples) + sample.micros,
{
    assert(samples.push(sample).drop_last() =~= samples);
}

/// No sum exceeds what as many largest samples would give.
pub proof fn lemma_sum_bound(samples: Seq<TrialSample>)
    ensures
        sum_bytes(samples) <= samples.len() * 0xffff_ffff_ffff_ffff,
        sum_micros(samples) <= samples.len() * 0xffff_ffff_ffff_ffff,
    decreases samples.len(),
{
    if samples.len() > 0 {
        lemma_sum_bound(samples.drop_last());
    }
}

/// Running totals of the samples credited to a run.
pub struct Totals {
    bytes: u128,
    micros: u128,
    trials: u32,
    credited: Ghost<Seq<TrialSample>>,
}

impl Totals {
    /// The samples credited so far, oldest first.
    pub closed spec fn history(&self) -> Seq<TrialSample> {
        self.credited@
    }

    /// The totals are the sums over the history.
    pub closed spec fn wf(&self) -> bool {
        &&& self.trials == self.credited@.len()
        &&& self.bytes == sum_bytes(self.credited@)
        &&& self.micros == sum_micros(self.credited@)
    }

    /// Totals of nothing.
    pub fn new() -> (totals: Totals)
        ensures
            totals.wf(),
            totals.history() == Seq::<TrialSample>::empty(),
    {
        Totals { bytes: 0, micros: 0, trials: 0, credited: Ghost(Seq::empty()) }
    }

    /// Credits one more sample.
    pub fn record(&mut self, sample: TrialSample)
        requires
            old(self).wf(),
            old(self).history().len() < u32::MAX,
        ensures
            final(self).wf(),
            final(self).history() == old(self).history().push(sample),
    {
        proof {
            lemma_sum_bound(self.credited@);
            lemma_sum_push(self.credited@, sample);
        }
        self.bytes = self.bytes + sample.bytes as u128;
        self.micros = self.micros + sample.micros as u128;
        self.trials = self.trials + 1;
        self.credited = Ghost(self.credited@.push(sample));
    }

    /// How many samples were credited.
    pub fn trials(&self) -> (n: u32)
        requires
            self.wf(),
        ensures
            n == self.history().len(),
    {
        self.trials
    }

    /// Bytes moved by the credited samples: exactly their sum.
    pub fn bytes(&self) -> (total: u128)
        requires
            self.wf(),
        ensures
            total == sum_bytes(self.history()),
    {
        self.bytes
    }

    /// Microseconds spent on the credited samples: exactly their sum.
    pub fn micros(&self) -> (total: u128)
        requires
            self.wf(),
        ensures
            total == sum_micros(self.history()),
    {
        self.micros
    }

    /// Bytes per second over everything credited, rounded down.
    ///
    /// With no time measured there is no figure: the division is never
    /// attempted.
    pub fn throughput(&self) -> (speed: Result<u64, SpeedError>)
        requires
            self.wf(),
        ensures
            speed == speed_of(self.history()),
    {
        if self.micros == 0 {
            return Err(SpeedError::NoElapsedTime);
        }
        proof {
            lemma_sum_bound(self.credited@);
            assert(self.bytes * MICROS_PER_SECOND == self.bytes * 1_000_000);
        }
        let scaled: u128 = self.bytes * (MICROS_PER_SECOND as u128);
        let rate: u128 = scaled / self.micros;
        if rate > u64::MAX as u128 {
            Err(SpeedError::OutOfRange)
        } else {
            Ok(rate as u64)
        }
    }
}

} // verus!
