//! The decisions of the line reader as a state machine, apart from any source:
//! a driver reads the pieces that it asks for and feeds them in.
use vstd::prelude::*;

use crate::lines::LF;
use crate::model::{
    completes, ended, ends_line, fed, feed_step, fits, fresh, is_piece, started, start_step,
    MachineModel, Phase, Step,
};

verus! {

/// Keeps the first `capacity` bytes of each line fed to it and counts the
/// rest, along with the line count and the longest true length.
pub struct LineMachine {
    capacity: usize,
    line: Vec<u8>,
    full_line_len: usize,
    line_number: usize,
    max_full_line_len: usize,
    phase: Phase,
    counted: usize,
}

impl View for LineMachine {
    type V = MachineModel;

    closed spec fn view(&self) -> MachineModel {
        MachineModel {
            capacity: self.capacity as nat,
            line: self.line@,
            full_len: self.full_line_len as nat,
            line_number: self.line_number as nat,
            max_full_len: self.max_full_line_len as nat,
            phase: self.phase,
            counted: self.counted as nat,
        }
    }
}

/// Whether the machine's state is consistent: the capacity is a `usize`, the
/// kept line fits it and the count of its line, and the last true length fits the
/// longest.
pub open spec fn machine_wf(m: MachineModel) -> bool {
    &&& m.capacity <= usize::MAX
    &&& m.line.len() <= m.capacity
    &&& m.full_len <= m.max_full_len
    &&& m.phase == Phase::Discarding ==> m.line.len() <= m.counted && 0 < m.capacity
    &&& m.phase != Phase::Discarding ==> m.counted == 0 && m.line.len() <= m.full_len
    &&& m.phase == Phase::Ended ==> m.line.len() == 0
}

/// Replaces `dst` with the first `n` bytes of `src`.
fn copy_prefix(dst: &mut Vec<u8>, src: &[u8], n: usize)
    requires
        n <= src@.len(),
    ensures
        final(dst)@ == src@.take(n as int),
{
    dst.clear();
    let mut i: usize = 0;
    while i < n
        invariant
            i <= n <= src@.len(),
            dst@ == src@.take(i as int),
        decreases n - i,
    {
        dst.push(src[i]);
        proof {
            assert(src@.take(i + 1) == src@.take(i as int).push(src@[i as int]));
        }
        i = i + 1;
    }
}

impl LineMachine {
    /// A machine that keeps up to `capacity` bytes of each line.
    pub fn new(capacity: usize) -> (r: Self)
        ensures
            r@ == fresh(capacity as nat),
            machine_wf(r@),
    {
        LineMachine {
            capacity,
            line: Vec::with_capacity(capacity),
            full_line_len: 0,
            line_number: 0,
            max_full_line_len: 0,
            phase: Phase::LineStart,
            counted: 0,
        }
    }

    /// Starts a call: clears the kept line and asks for a line's first piece,
    /// or reports the end when the machine has ended or keeps no bytes.
    pub fn start(&mut self) -> (r: Step)
        requires
            machine_wf(old(self)@),
        ensures
            machine_wf(final(self)@),
            final(self)@ == started(old(self)@),
            r == start_step(old(self)@),
    {
        self.line.clear();
        self.counted = 0;
        if self.phase == Phase::Ended || self.capacity == 0 {
            self.phase = Phase::Ended;
            Step::End
        } else {
            self.phase = Phase::LineStart;
            Step::Read(self.capacity)
        }
    }

    /// Feeds the piece that the last step asked for, and says what is next.
    pub fn feed(&mut self, chunk: &[u8]) -> (r: Step)
        requires
            machine_wf(old(self)@),
        ensures
            machine_wf(final(self)@),
            final(self)@ == fed(old(self)@, chunk@),
            r == feed_step(old(self)@, chunk@),
    {
        if self.phase == Phase::Ended {
            return Step::End;
        }
        let len = chunk.len();
        let mut lf_inside = false;
        let last: usize = if len > 0 {
            len - 1
        } else {
            0
        };
        let mut i: usize = 0;
        while i < last
            invariant
                len == chunk@.len(),
                last == if len > 0 { len - 1 } else { 0 },
                i <= last,
                lf_inside <==> exists|j: int| 0 <= j < i && chunk@[j] == LF,
            decreases last - i,
        {
            if chunk[i] == LF {
                lf_inside = true;
            }
            i = i + 1;
        }
        let ends_lf = len > 0 && chunk[len - 1] == LF;
        let completes_line = ends_lf || (self.phase == Phase::Discarding && len == 0);
        proof {
            assert(ends_lf == ends_line(chunk@));
            assert(completes_line == completes(old(self)@, chunk@));
            assert(!lf_inside <==> forall|j: int| 0 <= j < chunk@.len() - 1 ==> chunk@[j] != LF);
        }
        if len > self.capacity || lf_inside || len > usize::MAX - self.counted || (completes_line
            && self.line_number == usize::MAX) {
            proof {
                assert(!is_piece(chunk@, self.capacity as nat) || !fits(old(self)@, chunk@));
            }
            self.line.clear();
            self.phase = Phase::Ended;
            self.counted = 0;
            return Step::Rejected;
        }
        if self.phase == Phase::LineStart {
            if len == 0 {
                self.line.clear();
                self.phase = Phase::Ended;
                return Step::End;
            }
            if ends_lf {
                copy_prefix(&mut self.line, chunk, len - 1);
                proof {
                    assert(self.line@ =~= chunk@.drop_last());
                }
                self.complete(len - 1);
                return Step::Line;
            }
            copy_prefix(&mut self.line, chunk, len);
            proof {
                assert(self.line@ =~= chunk@);
            }
            self.counted = len;
            self.phase = Phase::Discarding;
            return Step::Read(self.capacity);
        }
        if len == 0 {
            let full = self.counted;
            self.complete(full);
            return Step::Line;
        }
        if ends_lf {
            let full = self.counted + (len - 1);
            self.complete(full);
            return Step::Line;
        }
        self.counted = self.counted + len;
        Step::Read(self.capacity)
    }

    /// Records a complete line of true length `full`.
    fn complete(&mut self, full: usize)
        requires
            old(self).capacity <= usize::MAX,
            old(self).line_number < usize::MAX,
            old(self).line@.len() <= full,
            old(self).line@.len() <= old(self).capacity,
            old(self).full_line_len <= old(self).max_full_line_len,
        ensures
            final(self)@ == crate::model::completed(old(self)@, full as nat),
            machine_wf(final(self)@),
    {
        self.line_number = self.line_number + 1;
        self.full_line_len = full;
        if full > self.max_full_line_len {
            self.max_full_line_len = full;
        }
        self.phase = Phase::LineStart;
        self.counted = 0;
    }

    /// Ends the machine after a failed read: the kept line is cleared and the
    /// counts of complete lines stay as they were.
    pub fn fail(&mut self)
        requires
            machine_wf(old(self)@),
        ensures
            machine_wf(final(self)@),
            final(self)@ == ended(old(self)@),
    {
        self.line.clear();
        self.phase = Phase::Ended;
        self.counted = 0;
    }

    /// The most bytes of a line that the machine keeps.
    pub fn capacity(&self) -> (r: usize)
        ensures
            r == self@.capacity,
    {
        self.capacity
    }

    /// The kept part of the current or last line.
    pub fn line(&self) -> (r: &[u8])
        ensures
            r@ == self@.line,
    {
        self.line.as_slice()
    }

    /// The true length of the last complete line.
    pub fn full_line_len(&self) -> (r: usize)
        ensures
            r == self@.full_len,
    {
        self.full_line_len
    }

    /// How many lines are complete.
    pub fn line_number(&self) -> (r: usize)
        ensures
            r == self@.line_number,
    {
        self.line_number
    }

    /// The longest true length of all complete lines.
    pub fn max_full_line_len(&self) -> (r: usize)
        ensures
            r == self@.max_full_len,
    {
        self.max_full_line_len
    }

    /// Where the machine stands.
    pub fn phase(&self) -> (r: Phase)
        ensures
            r == self@.phase,
    {
        self.phase
    }
}

} // verus!
