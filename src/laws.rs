//! What holds of a reader over many calls, stated over the model.
use vstd::prelude::*;

use crate::lines::{consumed_len, lemma_line_len, line_len, min_len, split_lines};
use crate::model::{initial, lemma_next_bounds, max_nat, next, run, yields_line, ReaderModel};

verus! {

/// The longest length among `lines`; 0 when there are none.
pub open spec fn longest(lines: Seq<Seq<u8>>) -> nat
    decreases lines.len(),
{
    if lines.len() == 0 {
        0
    } else {
        max_nat(longest(lines.drop_last()), lines.last().len())
    }
}

proof fn lemma_split_lines_empty(s: Seq<u8>)
    ensures
        split_lines(s).len() == 0 <==> s.len() == 0,
{
    if s.len() > 0 {
        assert(split_lines(s).len() > 0);
    }
}

/// `k` calls take one call after `j`, each run on from the last.
proof fn lemma_run_split(m: ReaderModel, j: nat, k: nat)
    ensures
        run(m, j + k) == run(run(m, j), k),
    decreases k,
{
    if k > 0 {
        lemma_run_split(m, j, (k - 1) as nat);
        assert(run(m, j + k) == next(run(m, (j + k - 1) as nat)));
    }
}

/// After `k` calls of a fresh reader on `s`, no more than there are lines, the
/// reader has read exactly the first `k` lines of `s`.
proof fn lemma_run_lines(s: Seq<u8>, capacity: nat, k: nat)
    requires
        0 < capacity,
        k <= split_lines(s).len(),
    ensures
        ({
            let m = run(initial(s, capacity), k);
            let ls = split_lines(s);
            &&& !m.at_end
            &&& m.capacity == capacity
            &&& split_lines(m.pending) == ls.skip(k as int)
            &&& m.line_number == k
            &&& m.max_full_len == longest(ls.take(k as int))
            &&& 0 < k ==> m.full_len == ls[k - 1].len()
            &&& 0 < k ==> m.line == ls[k - 1].take(min_len(ls[k - 1].len(), capacity) as int)
        }),
    decreases k,
{
    let ls = split_lines(s);
    if k == 0 {
        assert(ls.skip(0) =~= ls);
        assert(ls.take(0) =~= Seq::<Seq<u8>>::empty());
    } else {
        lemma_run_lines(s, capacity, (k - 1) as nat);
        let m = run(initial(s, capacity), (k - 1) as nat);
        let p = m.pending;
        lemma_split_lines_empty(p);
        lemma_line_len(p);
        assert(yields_line(m));
        let rest = split_lines(p);
        assert(rest[0] == ls[k - 1]);
        assert(rest[0] == p.take(line_len(p) as int));
        assert(split_lines(p.skip(consumed_len(p) as int)) =~= ls.skip(k as int)) by {
            assert(rest.drop_first() =~= ls.skip(k as int));
        }
        assert(ls.take(k as int).drop_last() =~= ls.take(k - 1));
        assert(p.take(min_len(line_len(p), capacity) as int) =~= ls[k - 1].take(
            min_len(ls[k - 1].len(), capacity) as int,
        ));
    }
}

/// Every kept line fits the capacity: on any input, with any capacity, after
/// any number of calls, the kept line is never longer than the capacity, nor
/// than the true length, and the true length never passes the longest length.
pub proof fn law_kept_line_fits(s: Seq<u8>, capacity: nat, k: nat)
    ensures
        run(initial(s, capacity), k).line.len() <= capacity,
        run(initial(s, capacity), k).line.len() <= run(initial(s, capacity), k).full_len,
        run(initial(s, capacity), k).full_len <= run(initial(s, capacity), k).max_full_len,
        run(initial(s, capacity), k).capacity == capacity,
    decreases k,
{
    if k > 0 {
        law_kept_line_fits(s, capacity, (k - 1) as nat);
        lemma_next_bounds(run(initial(s, capacity), (k - 1) as nat));
    }
}

/// The true length is the line's length: with a capacity above 0, the `k`th
/// call on `s` measures the `k`th line of `s` in full, however long it is, and
/// keeps its first `capacity` bytes.
pub proof fn law_full_len_is_line_len(s: Seq<u8>, capacity: nat, k: nat)
    requires
        0 < capacity,
        0 < k <= split_lines(s).len(),
    ensures
        run(initial(s, capacity), k).full_len == split_lines(s)[k - 1].len(),
        run(initial(s, capacity), k).line == split_lines(s)[k - 1].take(
            min_len(split_lines(s)[k - 1].len(), capacity) as int,
        ),
{
    lemma_run_lines(s, capacity, k);
}

/// One call can only raise the longest length, and raises it to the true
/// length of the line it read when that is longer.
pub proof fn law_max_never_decreases(m: ReaderModel)
    ensures
        m.max_full_len <= next(m).max_full_len,
        yields_line(m) ==> next(m).max_full_len == max_nat(m.max_full_len, next(m).full_len),
        !yields_line(m) ==> next(m).max_full_len == m.max_full_len,
{
}

/// The longest length is the longest line so far: with a capacity above 0,
/// after `k` calls on `s` it is the longest of the lines read, which are the
/// first `k` lines of `s`, or all of them once the input has ended.
pub proof fn law_max_is_longest_line(s: Seq<u8>, capacity: nat, k: nat)
    requires
        0 < capacity,
    ensures
        run(initial(s, capacity), k).max_full_len == longest(
            split_lines(s).take(min_len(k, split_lines(s).len()) as int),
        ),
{
    let n = split_lines(s).len();
    if k <= n {
        lemma_run_lines(s, capacity, k);
    } else {
        lemma_run_lines(s, capacity, n);
        let m = run(initial(s, capacity), n);
        lemma_split_lines_empty(m.pending);
        assert(split_lines(m.pending) =~= split_lines(s).skip(n as int));
        law_end_is_final(m, (k - n - 1) as nat);
        lemma_run_split(initial(s, capacity), n, (k - n) as nat);
        lemma_run_split(m, 1, (k - n - 1) as nat);
        assert(run(m, 1) == next(run(m, 0)));
        assert(run(initial(s, capacity), k) == next(m));
    }
}

/// One line per call: with a capacity above 0, the calls on `s` hand out a
/// line each, as many as `s` has lines, and the next call reports the end.
pub proof fn law_one_line_per_call(s: Seq<u8>, capacity: nat)
    requires
        0 < capacity,
    ensures
        forall|k: nat| k < split_lines(s).len() ==> yields_line(run(initial(s, capacity), k)),
        !yields_line(run(initial(s, capacity), split_lines(s).len())),
        run(initial(s, capacity), split_lines(s).len()).line_number == split_lines(s).len(),
{
    let n = split_lines(s).len();
    assert forall|k: nat| k < n implies yields_line(run(initial(s, capacity), k)) by {
        lemma_run_lines(s, capacity, k);
        let p = run(initial(s, capacity), k).pending;
        lemma_split_lines_empty(p);
        assert(split_lines(p).len() == n - k);
    }
    lemma_run_lines(s, capacity, n);
    let p = run(initial(s, capacity), n).pending;
    lemma_split_lines_empty(p);
    assert(split_lines(p) =~= split_lines(s).skip(n as int));
}

/// The end is final: once a call reports the end of the input, every later
/// call reports it too and changes nothing.
pub proof fn law_end_is_final(m: ReaderModel, j: nat)
    requires
        !yields_line(m),
    ensures
        next(m).at_end,
        !yields_line(next(m)),
        run(next(m), j) == next(m),
    decreases j,
{
    if j > 0 {
        law_end_is_final(m, (j - 1) as nat);
        assert(next(next(m)) =~= next(m));
    }
}

} // verus!
