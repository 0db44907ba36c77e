//! The bounded, truncating line reader over a source.
use vstd::prelude::*;

use crate::lines::{consumed_len, lemma_chunk, lemma_line_len, lemma_line_len_at, line_len, min_len, LF};
use crate::machine::{machine_wf, LineMachine};
use crate::model::{after_failure, initial, lemma_next_bounds, next, yields_line, Phase, ReaderModel, Step};
use crate::source::MyTrait;

verus! {

/// A failed read of a reader's source.
pub struct SourceError<E> {
    /// The name that the reader was given for its source.
    pub source_id: String,
    /// What the source reported.
    pub error: E,
}

/// What one call of [`ReadTruncatedLines::read_next_line`] came to.
pub enum LineOutcome<E> {
    /// A line was read; its kept part is [`ReadTruncatedLines::line`].
    Line,
    /// The input has ended; it stays ended.
    EndOfInput,
    /// The source failed; the reader reports the end of the input from then on.
    ReadFailed(SourceError<E>),
}

/// Reads the lines of a source, keeping at most `capacity` bytes of each and
/// counting the rest, so that a line of any length takes bounded memory.
pub struct ReadTruncatedLines<R: MyTrait> {
    source: R,
    source_id: String,
    machine: LineMachine,
    chunk: Vec<u8>,
}

impl<R: MyTrait> View for ReadTruncatedLines<R> {
    type V = ReaderModel;

    closed spec fn view(&self) -> ReaderModel {
        ReaderModel {
            pending: self.source.pending(),
            capacity: self.machine@.capacity,
            line: self.machine@.line,
            full_len: self.machine@.full_len,
            line_number: self.machine@.line_number,
            max_full_len: self.machine@.max_full_len,
            at_end: self.machine@.phase == Phase::Ended,
        }
    }
}

impl<R: MyTrait> ReadTruncatedLines<R> {
    /// The reader is consistent: its machine is, and stands between lines; and
    /// while input may follow, the line count and what is left to read fit
    /// together in a `usize`.
    pub closed spec fn wf(&self) -> bool {
        &&& machine_wf(self.machine@)
        &&& self.machine@.phase != Phase::Discarding
        &&& self.machine@.phase != Phase::Ended ==> self.machine@.line_number
            + self.source.pending().len() <= usize::MAX
    }

    /// Whether the reads of the source never fail.
    pub closed spec fn infallible(&self) -> bool {
        self.source.infallible()
    }

    /// The name given to the source, for diagnostics.
    pub closed spec fn source_id(&self) -> Seq<char> {
        self.source_id@
    }

    /// A reader of `reader` that keeps up to `max_line_length` bytes of each
    /// line; `reader_id_like_file_name` names the source in a failure.
    pub fn new(reader: R, reader_id_like_file_name: &str, max_line_length: u64) -> (r: Self)
        requires
            reader.pending().len() <= usize::MAX,
            max_line_length <= usize::MAX,
        ensures
            r.wf(),
            r@ == initial(reader.pending(), max_line_length as nat),
            r.source_id() == reader_id_like_file_name@,
            r.infallible() == reader.infallible(),
    {
        let capacity = max_line_length as usize;
        ReadTruncatedLines {
            source: reader,
            source_id: reader_id_like_file_name.to_owned(),
            machine: LineMachine::new(capacity),
            chunk: Vec::with_capacity(capacity),
        }
    }

    /// Reads the next line. Its first `capacity` bytes, without the line feed,
    /// become the current line; the rest of it is read, counted and dropped.
    /// At the end of the input, and on every call after it, it reports the end
    /// and leaves the counts as they were. A failure of the source is reported
    /// once, with the counts as they were, and ends the input.
    pub fn read_next_line(&mut self) -> (r: LineOutcome<R::Error>)
        requires
            old(self).wf(),
        ensures
            final(self).wf(),
            final(self)@.line.len() <= final(self)@.capacity,
            final(self)@.capacity == old(self)@.capacity,
            old(self)@.max_full_len <= final(self)@.max_full_len,
            final(self).source_id() == old(self).source_id(),
            old(self).infallible() ==> final(self).infallible() && !(r is ReadFailed),
            match r {
                LineOutcome::Line => yields_line(old(self)@) && final(self)@ == next(old(self)@),
                LineOutcome::EndOfInput => !yields_line(old(self)@) && final(self)@ == next(
                    old(self)@,
                ),
                LineOutcome::ReadFailed(e) => {
                    &&& !old(self)@.at_end
                    &&& 0 < old(self)@.capacity
                    &&& final(self)@ == after_failure(old(self)@, final(self)@.pending)
                    &&& e.source_id@ == old(self).source_id()
                },
            },
    {
        proof {
            lemma_next_bounds(self@);
        }
        let ghost m0 = self.machine@;
        let ghost s = self.source.pending();
        let max = match self.machine.start() {
            Step::Read(n) => n,
            _ => {
                proof {
                    assert(self@ =~= next(old(self)@));
                }
                return LineOutcome::EndOfInput;
            },
        };
        let ghost mut k: nat = 0;
        loop
            invariant
                machine_wf(self.machine@),
                0 < max,
                max == m0.capacity,
                s == old(self).source.pending(),
                s.len() + m0.line_number <= usize::MAX,
                m0 == old(self).machine@,
                machine_wf(m0),
                m0.phase != Phase::Ended,
                self.machine@.capacity == m0.capacity,
                self.machine@.line_number == m0.line_number,
                self.machine@.full_len == m0.full_len,
                self.machine@.max_full_len == m0.max_full_len,
                self.source_id == old(self).source_id,
                old(self).infallible() ==> self.source.infallible(),
                k <= s.len(),
                forall|i: int| 0 <= i < k ==> s[i] != LF,
                self.source.pending() == s.skip(k as int),
                self.machine@.phase == Phase::LineStart ==> k == 0 && self.machine@.counted == 0,
                self.machine@.phase == Phase::Discarding ==> {
                    &&& 0 < k
                    &&& self.machine@.counted == k
                    &&& self.machine@.line == s.take(min_len(line_len(s), max as nat) as int)
                },
                self.machine@.phase != Phase::Ended,
            decreases self.source.pending().len(),
        {
            let ghost cur = self.source.pending();
            let ghost before = self.machine@;
            proof {
                lemma_line_len_at(s, k);
                lemma_line_len(s);
                lemma_line_len(cur);
            }
            self.chunk.clear();
            match self.source.read_until_lf(max, &mut self.chunk) {
                Err(e) => {
                    self.machine.fail();
                    proof {
                        assert(self@ =~= after_failure(old(self)@, self@.pending));
                    }
                    return LineOutcome::ReadFailed(
                        SourceError { source_id: self.source_id.clone(), error: e },
                    );
                },
                Ok(len) => {
                    proof {
                        if cur.len() > 0 {
                            lemma_chunk(cur, max as nat);
                        }
                        assert(self.chunk@ =~= cur.take(len as int));
                    }
                    let step = self.machine.feed(self.chunk.as_slice());
                    match step {
                        Step::Read(_) => {
                            proof {
                                assert forall|i: int| 0 <= i < k + len implies s[i] != LF by {
                                    if i >= k {
                                        assert(s[i] == cur[i - k]);
                                    }
                                }
                                assert(cur.skip(len as int) =~= s.skip(k + len));
                                if before.phase == Phase::LineStart {
                                    lemma_line_len_at(s, len as nat);
                                    assert(self.machine@.line =~= s.take(
                                        min_len(line_len(s), max as nat) as int,
                                    ));
                                }
                                k = (k + len) as nat;
                            }
                        },
                        Step::Line => {
                            proof {
                                if before.phase == Phase::LineStart {
                                    assert(self.machine@.line =~= s.take(line_len(s) as int));
                                } else if len > 0 {
                                    assert(cur.skip(len as int) =~= cur.skip(
                                        consumed_len(cur) as int,
                                    ));
                                } else {
                                    assert(cur.skip(0) =~= cur);
                                }
                                assert(self@ =~= next(old(self)@));
                            }
                            return LineOutcome::Line;
                        },
                        Step::End => {
                            proof {
                                assert(before.phase == Phase::LineStart && cur.len() == 0);
                                assert(!yields_line(old(self)@));
                                assert(cur.skip(0) =~= cur);
                                assert(self@.line =~= next(old(self)@).line);
                                assert(self@.pending =~= next(old(self)@).pending);
                                assert(self@ =~= next(old(self)@));
                            }
                            return LineOutcome::EndOfInput;
                        },
                        Step::Rejected => {
                            proof {
                                assert(false);
                            }
                            return LineOutcome::EndOfInput;
                        },
                    }
                },
            }
        }
    }

    /// Reads the next line and returns its kept part: at most `capacity`
    /// bytes, without the line feed. Returns `None` at the end of the input and
    /// when the source fails.
    pub fn read_truncated_line(&mut self) -> (r: Option<&[u8]>)
        requires
            old(self).wf(),
        ensures
            final(self).wf(),
            old(self).infallible() ==> final(self).infallible(),
            match r {
                Some(t) => {
                    &&& t@.len() <= old(self)@.capacity
                    &&& yields_line(old(self)@)
                    &&& final(self)@ == next(old(self)@)
                    &&& t@ == final(self)@.line
                },
                None => final(self)@ == next(old(self)@) && !yields_line(old(self)@) || (
                !old(self).infallible() && !old(self)@.at_end && final(self)@ == after_failure(
                    old(self)@,
                    final(self)@.pending,
                )),
            },
    {
        match self.read_next_line() {
            LineOutcome::Line => Some(self.machine.line()),
            _ => None,
        }
    }

    /// How many lines have been read.
    pub fn line_number(&self) -> (r: usize)
        ensures
            r == self@.line_number,
    {
        self.machine.line_number()
    }

    /// The longest true length of the lines read so far.
    pub fn max_processed_full_line_len(&self) -> (r: usize)
        ensures
            r == self@.max_full_len,
    {
        self.machine.max_full_line_len()
    }

    /// The most bytes of a line that the reader keeps.
    pub fn capacity(&self) -> (r: usize)
        ensures
            r == self@.capacity,
    {
        self.machine.capacity()
    }

    /// The kept part of the last line read; empty once the input has ended.
    pub fn line(&self) -> (r: &[u8])
        ensures
            r@ == self@.line,
    {
        self.machine.line()
    }

    /// The length of [`Self::line`].
    pub fn line_len(&self) -> (r: usize)
        ensures
            r == self@.line.len(),
    {
        self.machine.line().len()
    }

    /// The true length of the last line read, discarded bytes included and the
    /// line feed not.
    pub fn full_line_len(&self) -> (r: usize)
        ensures
            r == self@.full_len,
    {
        self.machine.full_line_len()
    }
}

} // verus!
