//! The latency probes: one small read, one small write.
//!
//! The read probe is pointed at a path and goes down through first entries
//! until it meets a file. The write probe creates a file of its own, writes
//! to it and removes it again.

use crate::bench::Outcome;
use crate::tree::Tree;
use vstd::prelude::*;

verus! {

/// What the read probe gives for an empty directory, in microseconds.
pub const EMPTY_DIR_MICROS: u64 = 1;

/// How many bytes the read probe reads: the first of the file, whatever the
/// file's length.
pub const READ_PROBE_LEN: usize = 1;

/// The one byte that the write probe writes.
pub const WRITE_PROBE_BYTE: u8 = 0;

/// What looking at an entry found.
pub enum Found<P> {
    /// It is no directory.
    File(P),
    /// It is a directory, and `first` is the entry that its listing starts
    /// with, if it has any.
    Dir { first: Option<P> },
}

/// What the read probe does next.
pub enum ReadProbeStep<P> {
    /// Look at this entry.
    Examine(P),
    /// Open this file, read `len` bytes from its start, and take the time of
    /// both together, whether or not the file has that many: that is the
    /// probe's result.
    TimeRead { file: P, len: usize },
    /// Nothing to read: the result is `micros`.
    Settled { micros: u64 },
}

/// The step that follows on what was found.
pub open spec fn spec_descend<P>(found: Found<P>) -> ReadProbeStep<P> {
    match found {
        Found::File(file) => ReadProbeStep::TimeRead { file, len: 1 },
        Found::Dir { first: Some(entry) } => ReadProbeStep::Examine(entry),
        Found::Dir { first: None } => ReadProbeStep::Settled { micros: 1 },
    }
}

/// Decides what the read probe does after looking at an entry: a file is
/// read, a directory is left for its first entry, and an empty directory
/// settles the probe at [`EMPTY_DIR_MICROS`].
pub fn descend<P>(found: Found<P>) -> (step: ReadProbeStep<P>)
    ensures
        step == spec_descend(found),
        found matches Found::Dir { first: None } ==> step == (ReadProbeStep::<P>::Settled {
            micros: EMPTY_DIR_MICROS,
        }),
        found matches Found::File(file) ==> step == (ReadProbeStep::TimeRead {
            file,
            len: READ_PROBE_LEN,
        }),
{
    match found {
        Found::File(file) => ReadProbeStep::TimeRead { file, len: READ_PROBE_LEN },
        Found::Dir { first: Some(entry) } => ReadProbeStep::Examine(entry),
        Found::Dir { first: None } => ReadProbeStep::Settled { micros: EMPTY_DIR_MICROS },
    }
}

/// What looking at the top of `tree` finds.
pub open spec fn found_at<P>(tree: Tree<P>) -> Found<P> {
    match tree {
        Tree::File(file) => Found::File(file),
        Tree::Dir(_, entries) => Found::Dir {
            first: if entries.len() > 0 {
                Some(entries[0].name())
            } else {
                None
            },
        },
    }
}

/// Where the read probe ends when it starts at the top of `tree`: at the
/// file that it reaches by going down through first entries, or settled, at
/// the first directory on that way that is empty.
pub open spec fn probe_end<P>(tree: Tree<P>) -> ReadProbeStep<P>
    decreases tree,
{
    match tree {
        Tree::File(file) => ReadProbeStep::TimeRead { file, len: 1 },
        Tree::Dir(_, entries) => if entries.len() > 0 {
            probe_end(entries[0])
        } else {
            ReadProbeStep::Settled { micros: 1 }
        },
    }
}

/// Each step of the read probe keeps its end in sight: looking at a tree
/// either ends the probe where [`probe_end`] says, or leads to the tree's
/// first entry, from where the probe ends in the same place.
pub proof fn lemma_descend_keeps_end<P>(tree: Tree<P>)
    ensures
        match spec_descend(found_at(tree)) {
            ReadProbeStep::Examine(entry) => tree matches Tree::Dir(_, entries) && entries.len() > 0
                && entry == entries[0].name() && probe_end(tree) == probe_end(entries[0]),
            last => last == probe_end(tree),
        },
{
}

/// One thing that the write probe does on disk. The file is the one that
/// [`crate::names::TEMP_FILE`] names, in the directory that the probe is
/// pointed at.
#[derive(Clone, Copy, Debug, PartialEq, Eq)]
pub enum WriteProbeStep {
    /// Create or truncate the file.
    CreateTemp,
    /// Write `byte` to the file and report how long the write took, whether
    /// or not it went through.
    TimedWrite { byte: u8 },
    /// Remove the file.
    RemoveTemp,
}

/// The write probe: where it stands, and what it has measured.
#[derive(Clone, Copy, Debug, PartialEq, Eq)]
pub enum WriteProbe {
    /// The file is to be created.
    Create,
    /// The file is to be written to.
    Write,
    /// The file is to be removed.
    Remove { measured: Option<u64> },
    /// Nothing is left to do.
    Over { measured: Option<u64> },
}

impl WriteProbe {
    /// The step to carry out now; `None` when the probe is over.
    pub open spec fn spec_pending(self) -> Option<WriteProbeStep> {
        match self {
            WriteProbe::Create => Some(WriteProbeStep::CreateTemp),
            WriteProbe::Write => Some(WriteProbeStep::TimedWrite { byte: 0 }),
            WriteProbe::Remove { .. } => Some(WriteProbeStep::RemoveTemp),
            WriteProbe::Over { .. } => None,
        }
    }

    /// The probe after its pending step gave `outcome`. Only the write is
    /// measured; what the removal gave is of no account.
    pub open spec fn spec_advance(self, outcome: Outcome) -> WriteProbe {
        match self {
            WriteProbe::Create => WriteProbe::Write,
            WriteProbe::Write => WriteProbe::Remove {
                measured: match outcome {
                    Outcome::Written { micros } => Some(micros),
                    _ => None,
                },
            },
            WriteProbe::Remove { measured } => WriteProbe::Over { measured },
            WriteProbe::Over { measured } => WriteProbe::Over { measured },
        }
    }

    /// The delay in microseconds, once the probe is over and if the write
    /// was timed.
    pub open spec fn spec_delay(self) -> Option<u64> {
        match self {
            WriteProbe::Over { measured } => measured,
            _ => None,
        }
    }

    /// A probe before its first step.
    pub fn new() -> (probe: WriteProbe)
        ensures
            probe == WriteProbe::Create,
    {
        WriteProbe::Create
    }

    /// The step to carry out now; `None` when the probe is over.
    pub fn pending(&self) -> (step: Option<WriteProbeStep>)
        ensures
            step == self.spec_pending(),
    {
        match self {
            WriteProbe::Create => Some(WriteProbeStep::CreateTemp),
            WriteProbe::Write => Some(WriteProbeStep::TimedWrite { byte: WRITE_PROBE_BYTE }),
            WriteProbe::Remove { .. } => Some(WriteProbeStep::RemoveTemp),
            WriteProbe::Over { .. } => None,
        }
    }

    /// Takes what the pending step gave and moves on.
    pub fn advance(self, outcome: Outcome) -> (next: WriteProbe)
        ensures
            next == self.spec_advance(outcome),
    {
        match self {
            WriteProbe::Create => WriteProbe::Write,
            WriteProbe::Write => match outcome {
                Outcome::Written { micros } => WriteProbe::Remove { measured: Some(micros) },
                _ => WriteProbe::Remove { measured: None },
            },
            WriteProbe::Remove { measured } => WriteProbe::Over { measured },
            WriteProbe::Over { measured } => WriteProbe::Over { measured },
        }
    }

    /// The delay in microseconds, once the probe is over and if the write
    /// was timed.
    pub fn delay(&self) -> (micros: Option<u64>)
        ensures
            micros == self.spec_delay(),
    {
        match self {
            WriteProbe::Over { measured } => *measured,
            _ => None,
        }
    }
}

/// The probe goes through its three steps whatever they give: it creates
/// its file, writes one zero byte to it, and asks for the file to be removed
/// as soon as the write has been attempted.
pub proof fn lemma_temp_file_is_removed(created: Outcome, written: Outcome)
    ensures
        WriteProbe::Create.spec_pending() == Some(WriteProbeStep::CreateTemp),
        WriteProbe::Create.spec_advance(created).spec_pending() == Some(
            WriteProbeStep::TimedWrite { byte: 0 },
        ),
        WriteProbe::Create.spec_advance(created).spec_advance(written).spec_pending() == Some(
            WriteProbeStep::RemoveTemp,
        ),
{
}

/// A removal that fails changes nothing in the result: whatever the removal
/// gives, the probe is over after it, and its delay is the time of the
/// write.
pub proof fn lemma_failed_removal_is_swallowed(created: Outcome, micros: u64, removed: Outcome)
    ensures
        WriteProbe::Create.spec_advance(created).spec_advance(
            Outcome::Written { micros },
        ).spec_advance(removed).spec_delay() == Some(micros),
        WriteProbe::Create.spec_advance(created).spec_advance(
            Outcome::Written { micros },
        ).spec_advance(removed).spec_pending() is None,
{
}

/// Measures how long a write of one byte takes: creates the probe's file
/// with `carry_out`, has the write timed, and has the file removed again.
/// The result is the time of the write in microseconds, whether or not the
/// removal went through; `None` if `carry_out` gave no time for the write.
pub fn get_write_delay<F: Fn(WriteProbeStep) -> Outcome>(carry_out: F) -> (micros: Option<u64>)
    requires
        call_requires(carry_out, (WriteProbeStep::CreateTemp,)),
        call_requires(carry_out, (WriteProbeStep::TimedWrite { byte: 0 },)),
        call_requires(carry_out, (WriteProbeStep::RemoveTemp,)),
    ensures
        exists|created: Outcome, written: Outcome, removed: Outcome|
            {
                &&& call_ensures(carry_out, (WriteProbeStep::CreateTemp,), created)
                &&& call_ensures(carry_out, (WriteProbeStep::TimedWrite { byte: 0 },), written)
                &&& call_ensures(carry_out, (WriteProbeStep::RemoveTemp,), removed)
                &&& micros == #[trigger] WriteProbe::Create.spec_advance(created).spec_advance(
                    written,
                ).spec_advance(removed).spec_delay()
            },
{
    let mut probe = WriteProbe::new();
    let created = carry_out(WriteProbeStep::CreateTemp);
    probe = probe.advance(created);
    let written = carry_out(WriteProbeStep::TimedWrite { byte: WRITE_PROBE_BYTE });
    probe = probe.advance(written);
    let removed = carry_out(WriteProbeStep::RemoveTemp);
    probe = probe.advance(removed);
    probe.delay()
}

} // verus!
