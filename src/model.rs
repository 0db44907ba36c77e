//! The reader as plain values, and what one call does to it.
use vstd::prelude::*;

use crate::lines::{consumed_len, lemma_line_len, line_len, min_len, LF};

verus! {

/// A reader at one moment.
pub struct ReaderModel {
    /// The bytes that its source has yet to hand out.
    pub pending: Seq<u8>,
    /// The most bytes of a line that it keeps.
    pub capacity: nat,
    /// The kept part of the last line read; empty once the input has ended.
    pub line: Seq<u8>,
    /// The true length of the last line read.
    pub full_len: nat,
    /// How many lines have been read.
    pub line_number: nat,
    /// The longest true length of all lines read.
    pub max_full_len: nat,
    /// Whether the end of the input (or a failure) has been reported.
    pub at_end: bool,
}

/// A fresh reader of `pending` that keeps up to `capacity` bytes of a line.
pub open spec fn initial(pending: Seq<u8>, capacity: nat) -> ReaderModel {
    ReaderModel {
        pending,
        capacity,
        line: Seq::empty(),
        full_len: 0,
        line_number: 0,
        max_full_len: 0,
        at_end: false,
    }
}

/// Whether the next call hands out a line (when its source does not fail).
pub open spec fn yields_line(m: ReaderModel) -> bool {
    !m.at_end && 0 < m.capacity && 0 < m.pending.len()
}

/// The larger of two lengths.
pub open spec fn max_nat(a: nat, b: nat) -> nat {
    if a < b {
        b
    } else {
        a
    }
}


/// The reader after one call whose reads all succeed. Either it takes the next
/// line from the input and keeps its first `capacity` bytes, or it reports the
/// end of the input, clears the kept line and stays at the end.
pub open spec fn next(m: ReaderModel) -> ReaderModel {
    if yields_line(m) {
        let full = line_len(m.pending);
        ReaderModel {
            pending: m.pending.skip(consumed_len(m.pending) as int),
            line: m.pending.take(min_len(full, m.capacity) as int),
            full_len: full,
            line_number: m.line_number + 1,
            max_full_len: max_nat(m.max_full_len, full),
            ..m
        }
    } else {
        ReaderModel { line: Seq::empty(), at_end: true, ..m }
    }
}

/// The reader after a call whose source failed, leaving `pending` behind: the
/// counts are those from before the call, and it stays at the end.
pub open spec fn after_failure(m: ReaderModel, pending: Seq<u8>) -> ReaderModel {
    ReaderModel { pending, line: Seq::empty(), at_end: true, ..m }
}

/// Where a line machine stands.
#[derive(Clone, Copy, Debug, PartialEq, Eq, Structural)]
pub enum Phase {
    /// Between lines: the next piece read starts a line.
    LineStart,
    /// The kept part of a line is full; the rest of the line is being counted.
    Discarding,
    /// The input has ended, or a read failed, or a piece was rejected.
    Ended,
}

/// What a line machine asks of its driver after a step.
#[derive(Clone, Copy, Debug, PartialEq, Eq, Structural)]
pub enum Step {
    /// Read up to this many bytes, through the first line feed, and feed them.
    Read(usize),
    /// A line is complete; its kept part is the machine's line.
    Line,
    /// The input has ended.
    End,
    /// The piece fed was not one that a bounded read can return, or counting
    /// it would overflow; the machine has ended.
    Rejected,
}

/// A line machine at one moment.
pub struct MachineModel {
    /// The most bytes of a line that it keeps.
    pub capacity: nat,
    /// The kept part of the current or last line; empty once ended.
    pub line: Seq<u8>,
    /// The true length of the last complete line.
    pub full_len: nat,
    /// How many lines are complete.
    pub line_number: nat,
    /// The longest true length of all complete lines.
    pub max_full_len: nat,
    /// Where it stands.
    pub phase: Phase,
    /// While discarding: the bytes of the current line counted so far.
    pub counted: nat,
}

/// A fresh machine that keeps up to `capacity` bytes of a line.
pub open spec fn fresh(capacity: nat) -> MachineModel {
    MachineModel {
        capacity,
        line: Seq::empty(),
        full_len: 0,
        line_number: 0,
        max_full_len: 0,
        phase: Phase::LineStart,
        counted: 0,
    }
}

/// The machine once ended: the counts of complete lines stay as they were.
pub open spec fn ended(m: MachineModel) -> MachineModel {
    MachineModel { line: Seq::empty(), phase: Phase::Ended, counted: 0, ..m }
}

/// The machine at the start of a call: ready for a line's first piece, or
/// ended when it was ended already or keeps no bytes at all.
pub open spec fn started(m: MachineModel) -> MachineModel {
    if m.phase == Phase::Ended || m.capacity == 0 {
        ended(m)
    } else {
        MachineModel { line: Seq::empty(), phase: Phase::LineStart, counted: 0, ..m }
    }
}

/// What the machine asks for at the start of a call.
pub open spec fn start_step(m: MachineModel) -> Step {
    if started(m).phase == Phase::Ended {
        Step::End
    } else {
        Step::Read(m.capacity as usize)
    }
}

/// Whether `chunk` is what one bounded read of at most `capacity` bytes can
/// return: no longer than that, with no line feed before its last byte.
pub open spec fn is_piece(chunk: Seq<u8>, capacity: nat) -> bool {
    &&& chunk.len() <= capacity
    &&& forall|i: int| 0 <= i < chunk.len() - 1 ==> chunk[i] != LF
}

/// Whether `chunk` ends with a line feed.
pub open spec fn ends_line(chunk: Seq<u8>) -> bool {
    0 < chunk.len() && chunk.last() == LF
}

/// Whether feeding `chunk` completes a line.
pub open spec fn completes(m: MachineModel, chunk: Seq<u8>) -> bool {
    ends_line(chunk) || (m.phase == Phase::Discarding && chunk.len() == 0)
}

/// Whether the counts after feeding `chunk` fit in a `usize`.
pub open spec fn fits(m: MachineModel, chunk: Seq<u8>) -> bool {
    &&& m.counted + chunk.len() <= usize::MAX
    &&& completes(m, chunk) ==> m.line_number < usize::MAX
}

/// The machine after its current line is complete, with true length `full`.
pub open spec fn completed(m: MachineModel, full: nat) -> MachineModel {
    MachineModel {
        full_len: full,
        line_number: m.line_number + 1,
        max_full_len: max_nat(m.max_full_len, full),
        phase: Phase::LineStart,
        counted: 0,
        ..m
    }
}

/// The machine after it is fed `chunk`. A line's first piece is kept, without
/// its line feed; an empty one ends the input. Pieces after it are only
/// counted, until one ends with a line feed or is empty, which completes the
/// line.
pub open spec fn fed(m: MachineModel, chunk: Seq<u8>) -> MachineModel {
    if m.phase == Phase::Ended {
        m
    } else if !is_piece(chunk, m.capacity) || !fits(m, chunk) {
        ended(m)
    } else if m.phase == Phase::LineStart {
        if chunk.len() == 0 {
            ended(m)
        } else if ends_line(chunk) {
            completed(MachineModel { line: chunk.drop_last(), ..m }, (chunk.len() - 1) as nat)
        } else {
            MachineModel { line: chunk, counted: chunk.len(), phase: Phase::Discarding, ..m }
        }
    } else if chunk.len() == 0 {
        completed(m, m.counted)
    } else if ends_line(chunk) {
        completed(m, (m.counted + chunk.len() - 1) as nat)
    } else {
        MachineModel { counted: m.counted + chunk.len(), ..m }
    }
}

/// What the machine asks for after it is fed `chunk`.
pub open spec fn feed_step(m: MachineModel, chunk: Seq<u8>) -> Step {
    if m.phase == Phase::Ended {
        Step::End
    } else if !is_piece(chunk, m.capacity) || !fits(m, chunk) {
        Step::Rejected
    } else if fed(m, chunk).phase == Phase::Ended {
        Step::End
    } else if fed(m, chunk).phase == Phase::Discarding {
        Step::Read(m.capacity as usize)
    } else {
        Step::Line
    }
}

/// The reader after `k` calls whose reads all succeed.
pub open spec fn run(m: ReaderModel, k: nat) -> ReaderModel
    decreases k,
{
    if k == 0 {
        m
    } else {
        next(run(m, (k - 1) as nat))
    }
}

/// After any call the kept line fits the capacity, and no longer than the
/// true length, which is at most the longest length.
pub proof fn lemma_next_bounds(m: ReaderModel)
    requires
        m.line.len() <= m.full_len <= m.max_full_len,
    ensures
        next(m).line.len() <= next(m).capacity,
        next(m).line.len() <= next(m).full_len <= next(m).max_full_len,
        next(m).capacity == m.capacity,
{
    lemma_line_len(m.pending);
}

} // verus!
