//! Sliding-window accumulator for per-sample power values.
//!
//! A circular buffer of `size` slots and a running sum.  Each call to
//! [`SumBuffer::add`] pushes one value and returns the sum of the most recent
//! `min(size, count)` pushed values.  Arithmetic is integer fixed-point, so
//! the running sum is exact over arbitrarily long runs; no compensation term
//! is needed to bound drift.  The push history is kept as a ghost sequence
//! and the contract states the window sum over it.

use vstd::prelude::*;

use crate::delay_buffer::wrap_index;
use crate::fixed::AMP_MAX;

verus! {

/// Largest window length, in samples, a buffer may be built with.
pub const MAX_WINDOW: usize = 4194304;

/// The sum of all entries of `s`.
pub open spec fn seq_sum(s: Seq<i64>) -> int
    decreases s.len(),
{
    if s.len() == 0 {
        0
    } else {
        seq_sum(s.drop_last()) + s.last()
    }
}

/// The sum of the most recent `min(w, len)` entries of `values`.
pub open spec fn window_sum(values: Seq<i64>, w: int) -> int {
    if values.len() <= w {
        seq_sum(values)
    } else {
        seq_sum(values.subrange(values.len() - w, values.len() as int))
    }
}

/// Entry `i` (oldest first) of the window of the last `n` pushes of
/// `values`, padded with zeroes before the stream began.
pub open spec fn hist_value(values: Seq<i64>, n: int, i: int) -> i64 {
    if values.len() + i >= n {
        values[values.len() + i - n]
    } else {
        0i64
    }
}

proof fn lemma_seq_sum_drop_first(s: Seq<i64>)
    requires
        s.len() >= 1,
    ensures
        seq_sum(s) == s[0] + seq_sum(s.subrange(1, s.len() as int)),
    decreases s.len(),
{
    let len = s.len() as int;
    if s.len() == 1 {
        assert(s.subrange(1, 1) =~= Seq::<i64>::empty());
        assert(s.drop_last() =~= Seq::<i64>::empty());
    } else {
        lemma_seq_sum_drop_first(s.drop_last());
        let t = s.subrange(1, len);
        assert(t.drop_last() =~= s.drop_last().subrange(1, len - 1));
        assert(seq_sum(t) == seq_sum(t.drop_last()) + t.last());
        assert(t.last() == s.last());
        assert(s.drop_last()[0] == s[0]);
        assert(seq_sum(s) == seq_sum(s.drop_last()) + s.last());
    }
}

proof fn lemma_seq_sum_bound(s: Seq<i64>, b: int)
    requires
        forall|j: int| 0 <= j < s.len() ==> -b <= #[trigger] s[j] <= b,
        b >= 0,
    ensures
        -(s.len() * b) <= seq_sum(s) <= s.len() * b,
    decreases s.len(),
{
    if s.len() > 0 {
        lemma_seq_sum_bound(s.drop_last(), b);
        assert((s.len() - 1) * b + b == s.len() * b) by (nonlinear_arith);
    }
}

/// The window sum of a history of values no larger than `b` in magnitude is
/// itself no larger than `w * b`.
pub proof fn lemma_window_sum_bound(values: Seq<i64>, w: int, b: int)
    requires
        forall|j: int| 0 <= j < values.len() ==> -b <= #[trigger] values[j] <= b,
        b >= 0,
        w >= 0,
    ensures
        -(w * b) <= window_sum(values, w) <= w * b,
{
    if values.len() <= w {
        lemma_seq_sum_bound(values, b);
        assert(values.len() * b <= w * b) by (nonlinear_arith)
            requires
                0 <= values.len() <= w,
                b >= 0,
        ;
    } else {
        let t = values.subrange(values.len() - w, values.len() as int);
        lemma_seq_sum_bound(t, b);
    }
}

/// A window sum over values within `[lo, hi]` (an interval around zero)
/// stays within `[w * lo, w * hi]`.
pub proof fn lemma_window_sum_range(values: Seq<i64>, w: int, lo: int, hi: int)
    requires
        forall|j: int| 0 <= j < values.len() ==> lo <= #[trigger] values[j] <= hi,
        lo <= 0 <= hi,
        w >= 0,
    ensures
        w * lo <= window_sum(values, w) <= w * hi,
{
    if values.len() <= w {
        lemma_seq_sum_range(values, lo, hi);
        assert(w * lo <= values.len() * lo && values.len() * hi <= w * hi) by (nonlinear_arith)
            requires
                0 <= values.len() <= w,
                lo <= 0 <= hi,
        ;
    } else {
        let t = values.subrange(values.len() - w, values.len() as int);
        lemma_seq_sum_range(t, lo, hi);
    }
}

proof fn lemma_seq_sum_range(s: Seq<i64>, lo: int, hi: int)
    requires
        forall|j: int| 0 <= j < s.len() ==> lo <= #[trigger] s[j] <= hi,
    ensures
        s.len() * lo <= seq_sum(s) <= s.len() * hi,
    decreases s.len(),
{
    if s.len() == 0 {
    } else {
        lemma_seq_sum_range(s.drop_last(), lo, hi);
        assert((s.len() - 1) * lo + lo == s.len() * lo && (s.len() - 1) * hi + hi == s.len() * hi)
            by (nonlinear_arith);
    }
}

/// How the window sum changes under one push: the new value enters and, once
/// the window is full, the value `w` pushes back leaves.
pub proof fn lemma_window_sum_push(values: Seq<i64>, w: int, v: i64)
    requires
        w >= 1,
    ensures
        values.len() < w ==> window_sum(values.push(v), w) == window_sum(values, w) + v,
        values.len() >= w ==> window_sum(values.push(v), w) == window_sum(values, w) - values[
            values.len() - w
        ] + v,
{
    let len = values.len() as int;
    if len < w {
        assert(values.push(v).drop_last() =~= values);
    } else {
        let s1 = values.push(v).subrange(len + 1 - w, len + 1);
        let s0 = values.subrange(len - w, len);
        assert(s1.drop_last() =~= values.subrange(len + 1 - w, len));
        assert(s1.last() == v);
        assert(seq_sum(s1) == seq_sum(s1.drop_last()) + s1.last());
        lemma_seq_sum_drop_first(s0);
        assert(s0.subrange(1, w) =~= values.subrange(len + 1 - w, len));
        assert(s0[0] == values[len - w]);
        assert(window_sum(values.push(v), w) == seq_sum(s1));
        if len == w {
            assert(s0 =~= values);
        }
        assert(window_sum(values, w) == seq_sum(s0));
    }
}

pub struct SumBuffer {
    buffer: Vec<i64>,
    size: usize,
    current: usize,
    sum: i64,
    values: Ghost<Seq<i64>>,
}

impl SumBuffer {
    /// The window length, in samples.
    pub closed spec fn spec_size(self) -> int {
        self.size as int
    }

    /// Every value pushed since construction or the last reset.
    pub closed spec fn spec_values(self) -> Seq<i64> {
        self.values@
    }

    /// Well-formedness: the window length is in range, the pushed values
    /// are bounded amplitudes, and the ring and running sum agree with the
    /// push history.
    pub open spec fn wf(self) -> bool {
        &&& 1 <= self.spec_size() <= MAX_WINDOW
        &&& forall|j: int|
            0 <= j < self.spec_values().len() ==> -AMP_MAX <= #[trigger] self.spec_values()[j]
                <= AMP_MAX
        &&& self.inv()
    }

    /// The ring holds the last `size` pushed values and the running sum
    /// equals the exact window sum of the history.
    pub closed spec fn inv(self) -> bool {
        let n = self.size as int;
        &&& self.buffer@.len() == n
        &&& self.current < n
        &&& forall|i: int|
            0 <= i < n ==> self.buffer@[wrap_index(self.current + 1 + i, n)] == #[trigger] hist_value(
                self.values@,
                n,
                i,
            )
        &&& self.sum == window_sum(self.values@, n)
    }

    /// An empty accumulator over a window of `size` samples.  A zero-length
    /// window is a configuration defect and is rejected here, at
    /// construction, rather than silently substituted.
    pub fn new(size: usize) -> (r: SumBuffer)
        requires
            1 <= size <= MAX_WINDOW,
        ensures
            r.wf(),
            r.spec_size() == size,
            r.spec_values() == Seq::<i64>::empty(),
    {
        let buffer = zero_values(size);
        SumBuffer { buffer, size, current: 0, sum: 0, values: Ghost(Seq::empty()) }
    }

    /// Pushes one value and returns the exact sum of the most recent
    /// `min(size, count)` pushed values.
    pub fn add(&mut self, current_value: i64) -> (current_sum: i64)
        requires
            old(self).wf(),
            -AMP_MAX <= current_value <= AMP_MAX,
        ensures
            final(self).wf(),
            final(self).spec_size() == old(self).spec_size(),
            final(self).spec_values() == old(self).spec_values().push(current_value),
            current_sum == window_sum(final(self).spec_values(), final(self).spec_size()),
    {
        let ghost old_self = *self;
        let n = self.size;
        let next = if self.current + 1 >= n {
            0
        } else {
            self.current + 1
        };
        let leaving = self.buffer[next];
        proof {
            assert(leaving == hist_value(old_self.values@, n as int, 0));
            assert forall|j: int| 0 <= j < old_self.values@.len() implies -AMP_MAX
                <= #[trigger] old_self.values@[j] <= AMP_MAX by {
                assert(old_self.spec_values()[j] == old_self.values@[j]);
            }
            lemma_window_sum_bound(old_self.values@, n as int, AMP_MAX as int);
            assert(n * (AMP_MAX as int) <= MAX_WINDOW * (AMP_MAX as int)) by (nonlinear_arith)
                requires
                    1 <= n <= MAX_WINDOW,
            ;
            lemma_window_sum_push(old_self.values@, n as int, current_value);
        }
        let s = self.sum - leaving + current_value;
        self.buffer[next] = current_value;
        self.current = next;
        self.values = Ghost(self.values@.push(current_value));
        self.sum = s;
        proof {
            let n = n as int;
            let ci = old_self.current as int;
            let hist = old_self.values@;
            assert forall|i: int| 0 <= i < n implies self.buffer@[wrap_index(self.current + 1 + i, n)]
                == #[trigger] hist_value(self.values@, n, i) by {
                if i == n - 1 {
                    assert(wrap_index(self.current + 1 + i, n) == self.current as int);
                } else {
                    assert(wrap_index(self.current + 1 + i, n) == wrap_index(ci + 1 + (i + 1), n));
                    assert(wrap_index(ci + 1 + (i + 1), n) != self.current as int);
                    assert(old_self.buffer@[wrap_index(ci + 1 + (i + 1), n)] == hist_value(hist, n, i + 1));
                }
            }
            assert forall|j: int| 0 <= j < self.spec_values().len() implies -AMP_MAX
                <= #[trigger] self.spec_values()[j] <= AMP_MAX by {
                if j < old_self.values@.len() {
                    assert(self.spec_values()[j] == old_self.spec_values()[j]);
                }
            }
        }
        s
    }

    /// Forgets all history: every slot and the running sum return to zero.
    /// The next `size` additions produce a transient, not-yet-full sum.
    pub fn reset(&mut self) -> (unit: ())
        requires
            old(self).wf(),
        ensures
            final(self).wf(),
            final(self).spec_size() == old(self).spec_size(),
            final(self).spec_values() == Seq::<i64>::empty(),
    {
        zero_out(&mut self.buffer);
        self.current = 0;
        self.sum = 0;
        self.values = Ghost(Seq::empty());
    }
}

/// A vector of `n` zeroes.
fn zero_values(n: usize) -> (r: Vec<i64>)
    ensures
        r@.len() == n,
        forall|i: int| 0 <= i < n ==> r@[i] == 0i64,
{
    let mut v: Vec<i64> = Vec::new();
    let mut k: usize = 0;
    while k < n
        invariant
            k <= n,
            v@.len() == k,
            forall|i: int| 0 <= i < k ==> v@[i] == 0i64,
        decreases n - k,
    {
        v.push(0i64);
        k = k + 1;
    }
    v
}

/// Overwrites every slot with zero, without reallocating.
fn zero_out(v: &mut Vec<i64>) -> (unit: ())
    ensures
        final(v)@.len() == old(v)@.len(),
        forall|i: int| 0 <= i < final(v)@.len() ==> final(v)@[i] == 0i64,
{
    let n = v.len();
    let mut k: usize = 0;
    while k < n
        invariant
            k <= n,
            v@.len() == n,
            forall|i: int| 0 <= i < k ==> v@[i] == 0i64,
        decreases n - k,
    {
        v[k] = 0i64;
        k = k + 1;
    }
}

} // verus!
