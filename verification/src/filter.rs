//! The smoothing filter: a bounded FIFO window of scores with a running sum.
//!
//! One filter serves one output-class label. Each update pushes the newest
//! score, evicts the oldest once the window is at its size, and answers the
//! running average of the window. The average is returned as an exact
//! rational (`Score`), so no precision is lost to division.

use vstd::prelude::*;
use std::collections::VecDeque;

verus! {

/// An exact score: the rational `num / den`, with `den >= 1`.
///
/// Raw engine scores carry `den == 1`; a smoothed score carries the window
/// sum over the window length. A score is zero exactly when `num == 0`.
#[derive(Clone, Copy, Debug, PartialEq, Eq, Structural)]
pub struct Score {
    pub num: i64,
    pub den: u64,
}

impl Score {
    /// A denominator is always positive.
    pub open spec fn wf(self) -> bool {
        self.den >= 1
    }

    /// Whether the score denotes exactly zero.
    pub open spec fn is_zero(self) -> bool {
        self.num == 0
    }

    /// Whether two scores denote the same rational value.
    pub open spec fn same_value(self, other: Score) -> bool {
        self.num * other.den == other.num * self.den
    }

    /// The score a raw engine value denotes.
    pub fn from_raw(value: i32) -> (r: Score)
        ensures
            r.wf(),
            r.num == value,
            r.den == 1,
    {
        Score { num: value as i64, den: 1 }
    }
}

/// The sum of a sequence of samples.
pub open spec fn seq_sum(s: Seq<i32>) -> int
    decreases s.len(),
{
    if s.len() == 0 {
        0
    } else {
        s[0] + seq_sum(s.drop_first())
    }
}

pub proof fn lemma_seq_sum_push(s: Seq<i32>, v: i32)
    ensures
        seq_sum(s.push(v)) == seq_sum(s) + v,
    decreases s.len(),
{
    if s.len() == 0 {
        assert(s.push(v)[0] == v);
        assert(s.push(v).drop_first() =~= Seq::<i32>::empty());
        assert(seq_sum(Seq::<i32>::empty()) == 0);
        assert(seq_sum(s) == 0);
    } else {
        lemma_seq_sum_push(s.drop_first(), v);
        assert(s.push(v).drop_first() =~= s.drop_first().push(v));
        assert(s.push(v)[0] == s[0]);
        assert(seq_sum(s.push(v)) == s[0] + seq_sum(s.push(v).drop_first()));
    }
}

pub proof fn lemma_seq_sum_bounds(s: Seq<i32>)
    ensures
        -0x8000_0000 * s.len() <= seq_sum(s) <= 0x7fff_ffff * s.len(),
    decreases s.len(),
{
    if s.len() > 0 {
        lemma_seq_sum_bounds(s.drop_first());
    }
}

pub proof fn lemma_seq_sum_constant(s: Seq<i32>, v: i32)
    requires
        forall|i: int| 0 <= i < s.len() ==> s[i] == v,
    ensures
        seq_sum(s) == s.len() * v,
    decreases s.len(),
{
    if s.len() == 0 {
    } else {
        lemma_seq_sum_constant(s.drop_first(), v);
        assert((s.len() - 1) * v + v == s.len() * v) by (nonlinear_arith);
    }
}

/// The filter window after one update: the oldest sample leaves once the
/// window is at its size, then the new sample enters.
pub open spec fn spec_next_window(prev: Seq<i32>, window_size: int, value: i32) -> Seq<i32> {
    if prev.len() >= window_size {
        prev.drop_first().push(value)
    } else {
        prev.push(value)
    }
}

/// The window left after feeding `values`, oldest first, into a fresh
/// filter of size `window_size`.
pub open spec fn spec_window_after(values: Seq<i32>, window_size: int) -> Seq<i32>
    decreases values.len(),
{
    if values.len() == 0 {
        Seq::empty()
    } else {
        spec_next_window(
            spec_window_after(values.drop_last(), window_size),
            window_size,
            values.last(),
        )
    }
}

/// One more update extends the fed history by one value: this is what one
/// `update` call does to the window of a filter that has seen `values`.
pub proof fn lemma_window_after_step(values: Seq<i32>, window_size: int, value: i32)
    ensures
        spec_window_after(values.push(value), window_size) == spec_next_window(
            spec_window_after(values, window_size),
            window_size,
            value,
        ),
{
    assert(values.push(value).drop_last() =~= values);
    assert(values.push(value).last() == value);
}

/// Law: each output of the filter is the mean of all values seen so far
/// until the window saturates, and of the last `window_size` values from
/// then on — the window behind the i-th output is exactly the last
/// `min(i, window_size)` of the values fed in.
pub proof fn lemma_window_history(values: Seq<i32>, window_size: int)
    requires
        1 <= window_size,
    ensures
        spec_window_after(values, window_size) == if values.len() <= window_size {
            values
        } else {
            values.skip(values.len() - window_size)
        },
    decreases values.len(),
{
    if values.len() == 0 {
        assert(spec_window_after(values, window_size) =~= values);
    } else {
        let n = values.len() as int;
        let prev = values.drop_last();
        lemma_window_history(prev, window_size);
        let prev_win = spec_window_after(prev, window_size);
        if n <= window_size {
            assert(prev_win.push(values.last()) =~= values);
        } else if n == window_size + 1 {
            assert(prev_win.drop_first().push(values.last()) =~= values.skip(n - window_size));
        } else {
            assert(prev_win.drop_first().push(values.last()) =~= values.skip(n - window_size));
        }
    }
}

/// Law: a window holding only copies of `value` still averages exactly to
/// `value` after `value` is pushed once more — a constant input stream
/// yields a constant output stream.
pub proof fn lemma_constant_window_mean(prev: Seq<i32>, window_size: int, value: i32)
    requires
        1 <= window_size <= 0x8000_0000,
        prev.len() <= window_size,
        forall|i: int| 0 <= i < prev.len() ==> prev[i] == value,
    ensures
        ({
            let nw = spec_next_window(prev, window_size, value);
            &&& seq_sum(nw) == nw.len() * value
            &&& (Score { num: seq_sum(nw) as i64, den: nw.len() as u64 }).same_value(
                Score { num: value as i64, den: 1 },
            )
        }),
{
    let nw = spec_next_window(prev, window_size, value);
    assert forall|i: int| 0 <= i < nw.len() implies nw[i] == value by {
        if prev.len() >= window_size {
            if i < nw.len() - 1 {
                assert(nw[i] == prev[i + 1]);
            }
        } else {
            if i < nw.len() - 1 {
                assert(nw[i] == prev[i]);
            }
        }
    }
    lemma_seq_sum_constant(nw, value);
    lemma_seq_sum_bounds(nw);
    assert(nw.len() * value == value * nw.len()) by (nonlinear_arith);
    assert(nw.len() <= window_size);
    assert(seq_sum(nw) as i64 == seq_sum(nw));
    assert(nw.len() as u64 == nw.len());
    assert(value as i64 == value);
    assert((seq_sum(nw) as i64) * 1 == (value as i64) * (nw.len() as u64));
}

/// A fixed-window moving-average accumulator for one label's scores.
#[derive(Debug)]
pub struct MovingAverageFilter {
    buffer: VecDeque<i32>,
    window_size: usize,
    sum: i64,
}

impl View for MovingAverageFilter {
    type V = Seq<i32>;

    closed spec fn view(&self) -> Seq<i32> {
        self.buffer@
    }
}

impl MovingAverageFilter {
    /// The configured window size.
    pub closed spec fn spec_window_size(&self) -> int {
        self.window_size as int
    }

    /// Internal consistency: a positive, bounded window size, a buffer no
    /// longer than the window, and a running sum that matches the buffer.
    pub closed spec fn wf(&self) -> bool {
        &&& 1 <= self.window_size <= 0x8000_0000
        &&& self.buffer@.len() <= self.window_size
        &&& self.sum == seq_sum(self.buffer@)
    }

    /// What callers may rely on from well-formedness.
    pub proof fn lemma_wf_bounds(&self)
        requires
            self.wf(),
        ensures
            1 <= self.spec_window_size() <= 0x8000_0000,
            self@.len() <= self.spec_window_size(),
    {
    }

    pub fn new(window_size: usize) -> (r: Self)
        requires
            1 <= window_size <= 0x8000_0000,
        ensures
            r.wf(),
            r@ == Seq::<i32>::empty(),
            r.spec_window_size() == window_size,
    {
        MovingAverageFilter { buffer: VecDeque::new(), window_size, sum: 0 }
    }

    /// Push one score and answer the running average of the window, as the
    /// exact rational `sum / len` of the window just formed.
    pub fn update(&mut self, value: i32) -> (r: Score)
        requires
            old(self).wf(),
        ensures
            final(self).wf(),
            final(self).spec_window_size() == old(self).spec_window_size(),
            final(self)@ == spec_next_window(old(self)@, old(self).spec_window_size(), value),
            r.wf(),
            r.num == seq_sum(final(self)@),
            r.den == final(self)@.len(),
    {
        proof {
            lemma_seq_sum_bounds(self.buffer@);
        }
        if self.buffer.len() >= self.window_size {
            if let Some(old_value) = self.buffer.pop_front() {
                proof {
                    assert(old(self).buffer@.drop_first() =~= self.buffer@);
                    lemma_seq_sum_bounds(self.buffer@);
                }
                self.sum = self.sum - (old_value as i64);
            }
        }
        proof {
            lemma_seq_sum_bounds(self.buffer@);
            lemma_seq_sum_push(self.buffer@, value);
        }
        self.buffer.push_back(value);
        self.sum = self.sum + (value as i64);
        Score { num: self.sum, den: self.buffer.len() as u64 }
    }
}

} // verus!
