//! What a line is: the bytes of a stream up to, not including, a line feed.
use vstd::prelude::*;

verus! {

/// The line terminator.
pub const LF: u8 = 10;

/// The number of bytes of `s` before its first line feed; all of `s` when it has none.
pub open spec fn line_len(s: Seq<u8>) -> nat
    decreases s.len(),
{
    if s.len() == 0 {
        0
    } else if s[0] == LF {
        0
    } else {
        1 + line_len(s.drop_first())
    }
}

/// The number of bytes that the first line of `s` takes up in the stream:
/// its text and, where there is one, its line feed.
pub open spec fn consumed_len(s: Seq<u8>) -> nat {
    if line_len(s) < s.len() {
        line_len(s) + 1
    } else {
        s.len()
    }
}

/// The number of bytes that one bounded read takes from `s`: through the first
/// line feed, but never more than `max`.
pub open spec fn chunk_len(s: Seq<u8>, max: nat) -> nat {
    if consumed_len(s) <= max {
        consumed_len(s)
    } else {
        max
    }
}

/// The smaller of two lengths.
pub open spec fn min_len(a: nat, b: nat) -> nat {
    if a < b {
        a
    } else {
        b
    }
}

/// The lines of `s`, without their line feeds. A last piece without a line feed
/// is a line when it is not empty; nothing follows a final line feed.
pub open spec fn split_lines(s: Seq<u8>) -> Seq<Seq<u8>>
    decreases s.len() via split_lines_decreases
{
    if s.len() == 0 {
        Seq::empty()
    } else {
        seq![s.take(line_len(s) as int)] + split_lines(s.skip(consumed_len(s) as int))
    }
}

#[via_fn]
proof fn split_lines_decreases(s: Seq<u8>) {
    if s.len() > 0 {
        lemma_line_len(s);
    }
}

/// `line_len` is the position of the first line feed, or the length.
pub proof fn lemma_line_len(s: Seq<u8>)
    ensures
        line_len(s) <= s.len(),
        forall|i: int| 0 <= i < line_len(s) ==> s[i] != LF,
        line_len(s) < s.len() ==> s[line_len(s) as int] == LF,
        0 < s.len() ==> 0 < consumed_len(s) <= s.len(),
    decreases s.len(),
{
    if s.len() > 0 && s[0] != LF {
        let t = s.drop_first();
        lemma_line_len(t);
        assert forall|i: int| 0 <= i < line_len(s) implies s[i] != LF by {
            if i > 0 {
                assert(s[i] == t[i - 1]);
            }
        }
        if line_len(s) < s.len() {
            assert(s[line_len(s) as int] == t[line_len(t) as int]);
        }
    }
}

/// A line feed at `n`, after `n` other bytes, ends the first line at `n`; and
/// `n` bytes without one leave a first line of at least `n`.
pub proof fn lemma_line_len_at(s: Seq<u8>, n: nat)
    requires
        n <= s.len(),
        forall|i: int| 0 <= i < n ==> s[i] != LF,
    ensures
        n <= line_len(s),
        n < s.len() && s[n as int] == LF ==> line_len(s) == n,
        line_len(s) == n + line_len(s.skip(n as int)),
        consumed_len(s) == n + consumed_len(s.skip(n as int)),
        s.skip(consumed_len(s) as int) == s.skip(n as int).skip(
            consumed_len(s.skip(n as int)) as int,
        ),
{
    lemma_line_len(s);
    let t = s.skip(n as int);
    lemma_line_len(t);
    if line_len(t) < t.len() {
        assert(s[(n + line_len(t)) as int] == t[line_len(t) as int]);
    }
    assert forall|i: int| n <= i < n + line_len(t) implies s[i] != LF by {
        assert(s[i] == t[i - n]);
    }
    assert(s.skip(consumed_len(s) as int) =~= t.skip(consumed_len(t) as int));
}

/// What one bounded read of at most `max` bytes takes from a nonempty `s`:
/// when its last byte is a line feed, the whole first line and its line feed;
/// otherwise only bytes of the first line, all of them when it is shorter
/// than `max`.
pub proof fn lemma_chunk(s: Seq<u8>, max: nat)
    requires
        0 < s.len(),
        0 < max,
    ensures
        0 < chunk_len(s, max) <= max,
        chunk_len(s, max) <= s.len(),
        forall|i: int| 0 <= i < chunk_len(s, max) - 1 ==> s[i] != LF,
        s[chunk_len(s, max) - 1] == LF ==> chunk_len(s, max) == line_len(s) + 1
            && chunk_len(s, max) == consumed_len(s),
        s[chunk_len(s, max) - 1] != LF ==> chunk_len(s, max) <= line_len(s)
            && chunk_len(s, max) == min_len(line_len(s), max),
{
    lemma_line_len(s);
}

} // verus!
