//! The throughput benchmarks as a sequence of steps.
//!
//! A [`Benchmark`] names the step to carry out next and is told what the
//! step gave. Which step comes at which position depends on the kind of
//! benchmark and the batch size alone; only the size of a file to write and
//! the file that a timed read picks are drawn at random.

use crate::payload::{
    file_size, next_raw, pick_index, spec_file_size, spec_pick_index, thread_generator,
};
use crate::sample::{
    lemma_sum_push, speed_of, sum_bytes, sum_micros, SpeedError, Totals, TrialSample,
};
use vstd::prelude::*;

verus! {

/// How many trials a throughput benchmark makes. Enough for a steady
/// average, few enough to be done in seconds on a slow disk.
pub const FILE_TEST_BATCH: u32 = 200;

/// Which throughput is measured.
#[derive(Clone, Copy, Debug, PartialEq, Eq)]
pub enum BenchKind {
    /// Time the writing of each trial file, and read the first file of the
    /// batch after each write: the device has to leave the place where it
    /// wrote last, so that no write gains from following on the one before.
    Write,
    /// Write all trial files first, untimed, then time reads of files picked
    /// at random.
    Read,
}

/// One thing to do on disk. File indices stand for the names that
/// [`crate::names::trial_file_name`] gives, inside the work directory.
#[derive(Clone, Copy, Debug, PartialEq, Eq)]
pub enum Step {
    /// Create the work directory, and what is missing above it.
    CreateWorkDir,
    /// Create or truncate file `index` and write `size` random bytes to it.
    /// Where `timed`, report how long creating and writing took.
    WriteFile { index: u32, size: u64, timed: bool },
    /// Read file `index` whole. Whether that works is of no interest.
    ProbeRead { index: u32 },
    /// Read file `index` whole, and report its length and how long it took;
    /// or that it could not be read.
    TimedRead { index: u32 },
    /// Remove the work directory with all that is in it.
    RemoveWorkDir,
}

/// What carrying out a step gave.
#[derive(Clone, Copy, Debug, PartialEq, Eq)]
pub enum Outcome {
    /// The step was carried out; there is nothing to measure.
    Done,
    /// The file was written in `micros`.
    Written { micros: u64 },
    /// The file was read: `bytes` in `micros`.
    Read { bytes: u64, micros: u64 },
    /// The file could not be read: the trial does not count.
    Skipped,
    /// The step could not be carried out.
    Failed,
}

/// How many steps a run with `batch` trials has.
pub open spec fn step_count(batch: u32) -> nat {
    2 * (batch as nat) + 2
}

/// The step at position `pos` of a run, where `raw` is what was drawn for
/// it. Past the last step there is none.
pub open spec fn spec_step_at(kind: BenchKind, batch: u32, pos: nat, raw: u64) -> Option<Step> {
    if pos == 0 {
        Some(Step::CreateWorkDir)
    } else if pos == 2 * batch + 1 {
        Some(Step::RemoveWorkDir)
    } else if pos > 2 * batch + 1 {
        None
    } else {
        match kind {
            BenchKind::Write => if pos % 2 == 1 {
                Some(
                    Step::WriteFile {
                        index: ((pos - 1) / 2) as u32,
                        size: spec_file_size(raw),
                        timed: true,
                    },
                )
            } else {
                Some(Step::ProbeRead { index: 0 })
            },
            BenchKind::Read => if pos <= batch {
                Some(
                    Step::WriteFile {
                        index: (pos - 1) as u32,
                        size: spec_file_size(raw),
                        timed: false,
                    },
                )
            } else {
                Some(Step::TimedRead { index: spec_pick_index(raw, batch) })
            },
        }
    }
}

/// Whether the step at position `pos` leaves something to draw: the size
/// of a file to write, or the file to read.
pub open spec fn leaves_open(kind: BenchKind, batch: u32, pos: nat) -> bool {
    match spec_step_at(kind, batch, pos, 0) {
        Some(Step::WriteFile { .. }) => true,
        Some(Step::TimedRead { .. }) => true,
        _ => false,
    }
}

/// The sample that `outcome` earns for `step`: a timed write counts the
/// size that the step asked for, a timed read what it reports. Everything
/// else, a skipped read above all, counts nothing.
pub open spec fn credited(step: Option<Step>, outcome: Outcome) -> Option<TrialSample> {
    match step {
        Some(Step::WriteFile { index, size, timed }) => match outcome {
            Outcome::Written { micros } => if timed {
                Some(TrialSample { bytes: size, micros })
            } else {
                None
            },
            _ => None,
        },
        Some(Step::TimedRead { index }) => match outcome {
            Outcome::Read { bytes, micros } => Some(TrialSample { bytes, micros }),
            _ => None,
        },
        _ => None,
    }
}

/// A run as contracts see it.
pub struct BenchmarkView {
    pub kind: BenchKind,
    pub batch: u32,
    /// How many steps were completed.
    pub position: nat,
    /// The step to carry out now; `None` when the run is over.
    pub pending: Option<Step>,
    /// The samples credited so far, oldest first.
    pub history: Seq<TrialSample>,
}

/// A run before its first step.
pub open spec fn initial(kind: BenchKind, batch: u32) -> BenchmarkView {
    BenchmarkView {
        kind,
        batch,
        position: 0,
        pending: Some(Step::CreateWorkDir),
        history: Seq::empty(),
    }
}

/// The run after its pending step gave `outcome`, where `raw` is what was
/// drawn for the step that follows. A run that is over stays as it is.
pub open spec fn after(state: BenchmarkView, outcome: Outcome, raw: u64) -> BenchmarkView {
    if state.position >= step_count(state.batch) {
        state
    } else {
        BenchmarkView {
            kind: state.kind,
            batch: state.batch,
            position: state.position + 1,
            pending: spec_step_at(state.kind, state.batch, state.position + 1, raw),
            history: match credited(state.pending, outcome) {
                Some(sample) => state.history.push(sample),
                None => state.history,
            },
        }
    }
}

/// How many timed steps stand before position `pos`.
spec fn timed_before(kind: BenchKind, batch: u32, pos: nat) -> nat {
    match kind {
        BenchKind::Write => if pos / 2 < batch {
            pos / 2
        } else {
            batch as nat
        },
        BenchKind::Read => if pos <= batch + 1 {
            0
        } else if pos - (batch + 1) < batch {
            (pos - (batch + 1)) as nat
        } else {
            batch as nat
        },
    }
}

/// The run that `start` becomes when its steps give `reports` in turn: each
/// report is what the pending step gave, and what was drawn for the step
/// after it.
pub open spec fn run(start: BenchmarkView, reports: Seq<(Outcome, u64)>) -> BenchmarkView
    decreases reports.len(),
{
    if reports.len() == 0 {
        start
    } else {
        after(run(start, reports.drop_last()), reports.last().0, reports.last().1)
    }
}

/// In a write run, what trial `i` was reported to give.
pub open spec fn write_report(reports: Seq<(Outcome, u64)>, i: int) -> Outcome {
    reports[2 * i + 1].0
}

/// In a write run, the sample that trial `i` earns when it is reported as
/// written: the size drawn for it, and the time reported for it.
pub open spec fn write_sample(reports: Seq<(Outcome, u64)>, i: int) -> TrialSample {
    TrialSample {
        bytes: spec_file_size(reports[2 * i].1),
        micros: write_report(reports, i)->Written_micros,
    }
}

/// Removing the work directory is the last step of a run, and stands at no
/// other position, whatever is drawn; past it there is no step.
pub proof fn lemma_cleanup_is_last_step(kind: BenchKind, batch: u32, pos: nat, raw: u64)
    ensures
        spec_step_at(kind, batch, pos, raw) == Some(Step::RemoveWorkDir) <==> pos + 1
            == step_count(batch),
        spec_step_at(kind, batch, pos, raw) is None <==> pos >= step_count(batch),
{
}

/// Whatever is drawn, a step stays within its run: a file to write or to
/// read is one of the batch, a file to write has at least 1024 bytes and
/// fewer than 4096, writes are timed in a write run and in no other, and a
/// probe reads the first file of the batch.
pub proof fn lemma_steps_stay_in_range(kind: BenchKind, batch: u32, pos: nat, raw: u64)
    ensures
        match spec_step_at(kind, batch, pos, raw) {
            Some(Step::WriteFile { index, size, timed }) => index < batch && 1024 <= size < 4096
                && timed == (kind is Write),
            Some(Step::ProbeRead { index }) => index == 0 && 0 < batch && kind is Write,
            Some(Step::TimedRead { index }) => index < batch && kind is Read,
            _ => true,
        },
{
    if 0 < pos <= 2 * batch && kind is Read && pos > batch {
        let trials = batch as u64;
        assert(raw % trials < trials) by (nonlinear_arith)
            requires
                trials > 0,
        ;
    }
}

/// In a write run every timed write is followed by a read of the first file
/// of the batch.
pub proof fn lemma_probe_follows_write(batch: u32, pos: nat, raw: u64, later: u64)
    requires
        spec_step_at(BenchKind::Write, batch, pos, raw) matches Some(Step::WriteFile { .. }),
    ensures
        spec_step_at(BenchKind::Write, batch, pos + 1, later) == Some(
            Step::ProbeRead { index: 0 },
        ),
{
}

/// What a step gives moves a run on by one step and changes nothing else
/// but the history, which grows by at most the one sample that the step
/// earned: a timed write adds exactly the size generated for it to the byte
/// total, a skipped read adds nothing.
pub proof fn lemma_step_counts_what_it_earned(state: BenchmarkView, outcome: Outcome, raw: u64)
    requires
        state.position < step_count(state.batch),
    ensures
        after(state, outcome, raw).position == state.position + 1,
        credited(state.pending, outcome) matches Some(sample) ==> {
            &&& sum_bytes(after(state, outcome, raw).history) == sum_bytes(state.history)
                + sample.bytes
            &&& sum_micros(after(state, outcome, raw).history) == sum_micros(state.history)
                + sample.micros
        },
        credited(state.pending, outcome) is None ==> after(state, outcome, raw).history
            == state.history,
        credited(state.pending, Outcome::Skipped) is None,
        state.pending matches Some(Step::WriteFile { size, timed: true, .. }) ==> forall|
            micros: u64,
        |
            credited(state.pending, Outcome::Written { micros }) == Some(
                TrialSample { bytes: size, micros },
            ),
{
    match credited(state.pending, outcome) {
        Some(sample) => {
            lemma_sum_push(state.history, sample);
        },
        None => {},
    }
}

/// Whatever the steps give and whatever is drawn, a run goes through its
/// steps in order: it asks for the work directory to be removed exactly
/// when one step is left, and is over exactly when as many reports came in
/// as it has steps.
pub proof fn lemma_every_run_ends_with_cleanup(
    kind: BenchKind,
    batch: u32,
    reports: Seq<(Outcome, u64)>,
)
    ensures
        run(initial(kind, batch), reports).kind == kind,
        run(initial(kind, batch), reports).batch == batch,
        run(initial(kind, batch), reports).position == if reports.len() <= step_count(batch) {
            reports.len()
        } else {
            step_count(batch)
        },
        run(initial(kind, batch), reports).pending == Some(Step::RemoveWorkDir) <==> reports.len()
            + 1 == step_count(batch),
        run(initial(kind, batch), reports).pending is None <==> reports.len() >= step_count(
            batch,
        ),
    decreases reports.len(),
{
    if reports.len() > 0 {
        lemma_every_run_ends_with_cleanup(kind, batch, reports.drop_last());
    }
}

/// A write run, `n` reports in, where every write so far was reported as
/// written.
proof fn lemma_write_run_prefix(batch: u32, reports: Seq<(Outcome, u64)>, n: nat)
    requires
        n <= reports.len(),
        n <= step_count(batch),
        forall|i: int| 0 <= i < batch && 2 * i + 1 < n ==> #[trigger] write_report(reports, i) is Written,
    ensures
        run(initial(BenchKind::Write, batch), reports.take(n as int)).kind == BenchKind::Write,
        run(initial(BenchKind::Write, batch), reports.take(n as int)).batch == batch,
        run(initial(BenchKind::Write, batch), reports.take(n as int)).position == n,
        n > 0 ==> run(initial(BenchKind::Write, batch), reports.take(n as int)).pending
            == spec_step_at(BenchKind::Write, batch, n, reports[n - 1].1),
        run(initial(BenchKind::Write, batch), reports.take(n as int)).history =~= Seq::new(
            timed_before(BenchKind::Write, batch, n),
            |i: int| write_sample(reports, i),
        ),
    decreases n,
{
    if n > 0 {
        let last = n - 1;
        assert(reports.take(n as int).drop_last() =~= reports.take(last));
        lemma_write_run_prefix(batch, reports, last as nat);
        if last % 2 == 1 && last <= 2 * batch {
            assert(reports[last].0 == write_report(reports, (last - 1) / 2));
        }
    }
}

/// A write run that is carried through, and in which every write is
/// reported as written, credits one sample to each trial, in the order of
/// the trials: the size that was generated for the trial, and the time
/// reported for it. So the byte total of the run is the sum of the sizes
/// generated, each of them at least 1024 and under 4096.
pub proof fn lemma_write_run_counts_generated_sizes(batch: u32, reports: Seq<(Outcome, u64)>)
    requires
        reports.len() == step_count(batch),
        forall|i: int| 0 <= i < batch ==> #[trigger] write_report(reports, i) is Written,
    ensures
        run(initial(BenchKind::Write, batch), reports).position == step_count(batch),
        run(initial(BenchKind::Write, batch), reports).history == Seq::new(
            batch as nat,
            |i: int| write_sample(reports, i),
        ),
        forall|i: int|
            0 <= i < batch ==> 1024 <= (#[trigger] write_sample(reports, i)).bytes < 4096,
{
    lemma_write_run_prefix(batch, reports, reports.len());
    assert(reports.take(reports.len() as int) =~= reports);
}

/// The step at position `pos`, for the draw `raw`.
pub fn step_at(kind: BenchKind, batch: u32, pos: u64, raw: u64) -> (step: Option<Step>)
    ensures
        step == spec_step_at(kind, batch, pos as nat, raw),
{
    let trials: u64 = batch as u64;
    if pos == 0 {
        Some(Step::CreateWorkDir)
    } else if pos == 2 * trials + 1 {
        Some(Step::RemoveWorkDir)
    } else if pos > 2 * trials + 1 {
        None
    } else {
        match kind {
            BenchKind::Write => if pos % 2 == 1 {
                Some(
                    Step::WriteFile { index: ((pos - 1) / 2) as u32, size: file_size(raw), timed: true },
                )
            } else {
                Some(Step::ProbeRead { index: 0 })
            },
            BenchKind::Read => if pos <= trials {
                Some(Step::WriteFile { index: (pos - 1) as u32, size: file_size(raw), timed: false })
            } else {
                Some(Step::TimedRead { index: pick_index(raw, batch) })
            },
        }
    }
}

/// The sample that `outcome` earns for `step`, if any.
pub fn credit(step: Option<Step>, outcome: Outcome) -> (sample: Option<TrialSample>)
    ensures
        sample == credited(step, outcome),
{
    match step {
        Some(Step::WriteFile { index: _, size, timed }) => match outcome {
            Outcome::Written { micros } => if timed {
                Some(TrialSample { bytes: size, micros })
            } else {
                None
            },
            _ => None,
        },
        Some(Step::TimedRead { index: _ }) => match outcome {
            Outcome::Read { bytes, micros } => Some(TrialSample { bytes, micros }),
            _ => None,
        },
        _ => None,
    }
}

/// One run of a throughput benchmark.
pub struct Benchmark {
    kind: BenchKind,
    batch: u32,
    cursor: u64,
    pending: Option<Step>,
    totals: Totals,
}

impl View for Benchmark {
    type V = BenchmarkView;

    closed spec fn view(&self) -> BenchmarkView {
        BenchmarkView {
            kind: self.kind,
            batch: self.batch,
            position: self.cursor as nat,
            pending: self.pending,
            history: self.totals.history(),
        }
    }
}

impl Benchmark {
    /// The run is at a position of its sequence, the pending step is the one
    /// of that position for some draw, and no more samples were credited
    /// than timed steps were passed.
    pub closed spec fn wf(&self) -> bool {
        &&& self.totals.wf()
        &&& self.cursor <= step_count(self.batch)
        &&& exists|raw: u64|
            self.pending == spec_step_at(self.kind, self.batch, self.cursor as nat, raw)
        &&& self.totals.history().len() <= timed_before(
            self.kind,
            self.batch,
            self.cursor as nat,
        )
    }

    /// A run of `batch` trials, before its first step.
    pub fn new(kind: BenchKind, batch: u32) -> (run: Benchmark)
        ensures
            run.wf(),
            run@ == initial(kind, batch),
    {
        let run = Benchmark {
            kind,
            batch,
            cursor: 0,
            pending: Some(Step::CreateWorkDir),
            totals: Totals::new(),
        };
        assert(run.pending == spec_step_at(kind, batch, 0, 0));
        run
    }

    /// Which throughput the run measures.
    pub fn kind(&self) -> (kind: BenchKind)
        ensures
            kind == self@.kind,
    {
        self.kind
    }

    /// How many trials the run makes.
    pub fn batch(&self) -> (batch: u32)
        ensures
            batch == self@.batch,
    {
        self.batch
    }

    /// How many steps were completed.
    pub fn position(&self) -> (pos: u64)
        ensures
            pos == self@.position,
    {
        self.cursor
    }

    /// The step to carry out now; `None` when the run is over.
    pub fn pending(&self) -> (step: Option<Step>)
        ensures
            step == self@.pending,
    {
        self.pending
    }

    /// Whether every step was completed.
    pub fn finished(&self) -> (over: bool)
        requires
            self.wf(),
        ensures
            over == (self@.position == step_count(self@.batch)),
            over == (self@.pending is None),
    {
        self.cursor == 2 * (self.batch as u64) + 2
    }

    /// The totals of the samples credited so far.
    pub fn totals(&self) -> (totals: &Totals)
        requires
            self.wf(),
        ensures
            totals.wf(),
            totals.history() == self@.history,
    {
        &self.totals
    }

    /// Takes what the pending step gave and moves on to the step after it,
    /// for which `raw` was drawn.
    pub fn complete_with(&mut self, outcome: Outcome, raw: u64)
        requires
            old(self).wf(),
        ensures
            final(self).wf(),
            final(self)@ == after(old(self)@, outcome, raw),
    {
        if self.finished() {
            return ;
        }
        match credit(self.pending, outcome) {
            Some(sample) => {
                self.totals.record(sample);
            },
            None => {},
        }
        self.cursor = self.cursor + 1;
        self.pending = step_at(self.kind, self.batch, self.cursor, raw);
    }

    /// Takes what the pending step gave and moves on to the step after it,
    /// drawing at random what that step leaves open: the size of a file to
    /// write, or the file that a timed read picks.
    pub fn complete(&mut self, outcome: Outcome)
        requires
            old(self).wf(),
        ensures
            final(self).wf(),
            exists|raw: u64| final(self)@ == after(old(self)@, outcome, raw),
    {
        let raw: u64 = if self.next_is_drawn() {
            let mut rng = thread_generator();
            next_raw(&mut rng)
        } else {
            0
        };
        self.complete_with(outcome, raw);
    }

    /// Whether the step after the pending one leaves something to draw.
    fn next_is_drawn(&self) -> (drawn: bool)
        requires
            self.wf(),
        ensures
            drawn == leaves_open(self.kind, self.batch, self.cursor as nat + 1),
    {
        let trials: u64 = self.batch as u64;
        self.cursor < 2 * trials && match self.kind {
            BenchKind::Write => self.cursor % 2 == 0,
            BenchKind::Read => true,
        }
    }

    /// Bytes per second over the credited samples, once the run is over.
    pub fn speed(&self) -> (speed: Result<u64, SpeedError>)
        requires
            self.wf(),
        ensures
            speed == if self@.position < step_count(self@.batch) {
                Err(SpeedError::Unfinished)
            } else {
                speed_of(self@.history)
            },
    {
        if !self.finished() {
            return Err(SpeedError::Unfinished);
        }
        self.totals.throughput()
    }
}

/// Whether `step` comes up in a run, at some position and for some draw.
pub open spec fn occurs(kind: BenchKind, batch: u32, step: Step) -> bool {
    exists|pos: nat, raw: u64| spec_step_at(kind, batch, pos, raw) == Some(step)
}

/// Whether `reports` is what carrying out a whole run with `carry_out`
/// gave: one report for each step, and in each the outcome that `carry_out`
/// gave for the step that was pending then.
pub open spec fn carried_out<F: Fn(Step) -> Outcome>(
    kind: BenchKind,
    batch: u32,
    carry_out: F,
    reports: Seq<(Outcome, u64)>,
) -> bool {
    &&& reports.len() == step_count(batch)
    &&& forall|i: int| 0 <= i < reports.len() ==> #[trigger] gave(kind, batch, carry_out, reports, i)
}

/// Whether report `i` holds what `carry_out` gave for the step that was
/// pending after the reports before it.
pub open spec fn gave<F: Fn(Step) -> Outcome>(
    kind: BenchKind,
    batch: u32,
    carry_out: F,
    reports: Seq<(Outcome, u64)>,
    i: int,
) -> bool {
    match run(initial(kind, batch), reports.take(i)).pending {
        Some(step) => call_ensures(carry_out, (step,), reports[i].0),
        None => false,
    }
}

/// In a run that was carried through, whatever the steps before it gave,
/// the last thing handed to `carry_out` was the removal of the work
/// directory.
pub proof fn lemma_carried_out_ends_with_cleanup<F: Fn(Step) -> Outcome>(
    kind: BenchKind,
    batch: u32,
    carry_out: F,
    reports: Seq<(Outcome, u64)>,
)
    requires
        carried_out(kind, batch, carry_out, reports),
    ensures
        reports.len() == step_count(batch),
        call_ensures(carry_out, (Step::RemoveWorkDir,), reports.last().0),
{
    let last = reports.len() - 1;
    assert(gave(kind, batch, carry_out, reports, last));
    lemma_every_run_ends_with_cleanup(kind, batch, reports.take(last));
}

/// Carries a whole run through: hands each step in turn to `carry_out`,
/// counts what it gives, and computes the speed when nothing is left to do.
/// The work directory is removed before the speed is computed, whatever
/// the trials gave.
pub fn measure<F: Fn(Step) -> Outcome>(kind: BenchKind, batch: u32, carry_out: F) -> (speed: Result<
    u64,
    SpeedError,
>)
    requires
        forall|step: Step| #[trigger] occurs(kind, batch, step) ==> call_requires(carry_out, (step,)),
    ensures
        exists|reports: Seq<(Outcome, u64)>| #[trigger]
            carried_out(kind, batch, carry_out, reports) && speed == speed_of(
                run(initial(kind, batch), reports).history,
            ),
        speed != Err::<u64, SpeedError>(SpeedError::Unfinished),
{
    let mut bench = Benchmark::new(kind, batch);
    let ghost mut reports: Seq<(Outcome, u64)> = Seq::empty();
    while !bench.finished()
        invariant
            bench.wf(),
            bench@ == run(initial(kind, batch), reports),
            bench@.kind == kind,
            bench@.batch == batch,
            reports.len() == bench@.position,
            reports.len() <= step_count(batch),
            forall|i: int| 0 <= i < reports.len() ==> #[trigger] gave(kind, batch, carry_out, reports, i),
            forall|step: Step| #[trigger]
                occurs(kind, batch, step) ==> call_requires(carry_out, (step,)),
        decreases step_count(batch) - reports.len(),
    {
        let ghost before = bench@;
        let ghost earlier = reports;
        match bench.pending() {
            Some(step) => {
                assert(occurs(kind, batch, step));
                let outcome = carry_out(step);
                bench.complete(outcome);
                proof {
                    let raw = choose|raw: u64| bench@ == after(before, outcome, raw);
                    reports = earlier.push((outcome, raw));
                    assert(reports.drop_last() =~= earlier);
                    assert forall|i: int| 0 <= i < reports.len() implies #[trigger] gave(
                        kind,
                        batch,
                        carry_out,
                        reports,
                        i,
                    ) by {
                        if i < earlier.len() {
                            assert(gave(kind, batch, carry_out, earlier, i));
                            assert(reports.take(i) =~= earlier.take(i));
                        }
                    }
                }
            },
            None => {},
        }
    }
    assert(carried_out(kind, batch, carry_out, reports));
    bench.speed()
}

/// Measures how many bytes a second can be written in small files:
/// [`measure`] for a write run of [`FILE_TEST_BATCH`] trials.
pub fn get_4k_write_speed<F: Fn(Step) -> Outcome>(carry_out: F) -> (speed: Result<u64, SpeedError>)
    requires
        forall|step: Step| #[trigger]
            occurs(BenchKind::Write, FILE_TEST_BATCH, step) ==> call_requires(carry_out, (step,)),
    ensures
        exists|reports: Seq<(Outcome, u64)>| #[trigger]
            carried_out(BenchKind::Write, FILE_TEST_BATCH, carry_out, reports) && speed
                == speed_of(run(initial(BenchKind::Write, FILE_TEST_BATCH), reports).history),
        speed != Err::<u64, SpeedError>(SpeedError::Unfinished),
{
    measure(BenchKind::Write, FILE_TEST_BATCH, carry_out)
}

/// Measures how many bytes a second can be read from small files:
/// [`measure`] for a read run of [`FILE_TEST_BATCH`] trials.
pub fn get_4k_read_speed<F: Fn(Step) -> Outcome>(carry_out: F) -> (speed: Result<u64, SpeedError>)
    requires
        forall|step: Step| #[trigger]
            occurs(BenchKind::Read, FILE_TEST_BATCH, step) ==> call_requires(carry_out, (step,)),
    ensures
        exists|reports: Seq<(Outcome, u64)>| #[trigger]
            carried_out(BenchKind::Read, FILE_TEST_BATCH, carry_out, reports) && speed == speed_of(
                run(initial(BenchKind::Read, FILE_TEST_BATCH), reports).history,
            ),
        speed != Err::<u64, SpeedError>(SpeedError::Unfinished),
{
    measure(BenchKind::Read, FILE_TEST_BATCH, carry_out)
}

} // verus!
