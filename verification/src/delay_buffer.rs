//! Fixed-length look-ahead delay line for stereo sample pairs.
//!
//! A circular buffer of `delay + 1` slots.  Each call to [`DelayBuffer::add`]
//! writes the newest pair and returns the pair written exactly `delay` calls
//! earlier; the first `delay` outputs after construction (or after a resize)
//! are silence.  The whole push history is kept as a ghost sequence, so the
//! contract states the delay property over the entire stream.

use vstd::prelude::*;

verus! {

/// The pair a delay line of length `d` returns right after `inputs` has been
/// pushed: the input `d` steps back, or silence while the line is still
/// filling.
pub open spec fn delayed_output(inputs: Seq<(i64, i64)>, d: int) -> (i64, i64) {
    if inputs.len() > d {
        inputs[inputs.len() - 1 - d]
    } else {
        (0i64, 0i64)
    }
}

/// Ring index `j` folded back into `[0, n)`, for `j < 2 n`.
pub open spec fn wrap_index(j: int, n: int) -> int {
    if j < n {
        j
    } else {
        j - n
    }
}

/// Entry `i` (oldest first) of the window of the last `n` pushes of
/// `inputs`, padded with silence before the stream began.
pub open spec fn hist_entry(inputs: Seq<(i64, i64)>, n: int, i: int) -> (i64, i64) {
    if inputs.len() + i >= n {
        inputs[inputs.len() + i - n]
    } else {
        (0i64, 0i64)
    }
}

pub struct DelayBuffer {
    delay: usize,
    buffer: Vec<(i64, i64)>,
    current_index: usize,
    inputs: Ghost<Seq<(i64, i64)>>,
}

impl DelayBuffer {
    /// The configured delay, in samples.
    pub closed spec fn spec_delay(self) -> int {
        self.delay as int
    }

    /// Every pair pushed since construction or the last resize.
    pub closed spec fn spec_inputs(self) -> Seq<(i64, i64)> {
        self.inputs@
    }

    /// Well-formedness: the delay is in range and the ring holds the last
    /// `delay + 1` pushed pairs, oldest at the slot after the write cursor.
    pub open spec fn wf(self) -> bool {
        &&& 0 <= self.spec_delay() < usize::MAX
        &&& self.inv()
    }

    /// The ring invariant over the private representation.
    pub closed spec fn inv(self) -> bool {
        let n = self.buffer@.len() as int;
        &&& n == self.delay + 1
        &&& self.current_index < n
        &&& forall|i: int|
            0 <= i < n ==> self.buffer@[wrap_index(self.current_index + i, n)] == #[trigger] hist_entry(
                self.inputs@,
                n,
                i,
            )
    }

    /// A line of delay `delay`, filled with silence.
    pub fn new(delay: usize) -> (r: DelayBuffer)
        requires
            delay < usize::MAX,
        ensures
            r.wf(),
            r.spec_delay() == delay,
            r.spec_inputs() == Seq::<(i64, i64)>::empty(),
    {
        DelayBuffer { delay, buffer: zero_pairs(delay + 1), current_index: 0, inputs: Ghost(Seq::empty()) }
    }

    /// Pushes one pair and returns the pair pushed `delay` calls earlier
    /// (silence while the line is still filling).
    pub fn add(&mut self, current_left_value: i64, current_right_value: i64) -> (r: (i64, i64))
        requires
            old(self).wf(),
        ensures
            final(self).wf(),
            final(self).spec_delay() == old(self).spec_delay(),
            final(self).spec_inputs() == old(self).spec_inputs().push(
                (current_left_value, current_right_value),
            ),
            r == delayed_output(final(self).spec_inputs(), final(self).spec_delay()),
    {
        let ghost old_self = *self;
        let pair = (current_left_value, current_right_value);
        let n = self.buffer.len();
        self.buffer[self.current_index] = pair;
        self.current_index = self.current_index + 1;
        if self.current_index >= n {
            self.current_index = 0;
        }
        self.inputs = Ghost(self.inputs@.push(pair));
        proof {
            let n = n as int;
            let ci = old_self.current_index as int;
            let ci2 = self.current_index as int;
            let hist = old_self.inputs@;
            assert forall|i: int| 0 <= i < n implies self.buffer@[wrap_index(ci2 + i, n)]
                == #[trigger] hist_entry(self.inputs@, n, i) by {
                if i == n - 1 {
                    assert(wrap_index(ci2 + i, n) == ci);
                } else {
                    assert(wrap_index(ci2 + i, n) == wrap_index(ci + i + 1, n));
                    assert(wrap_index(ci + i + 1, n) != ci);
                    assert(old_self.buffer@[wrap_index(ci + i + 1, n)] == hist_entry(hist, n, i + 1));
                }
            }
        }
        let out = self.buffer[self.current_index];
        proof {
            assert(out == hist_entry(self.inputs@, n as int, 0));
        }
        out
    }

    /// Changes the delay.  A new length reallocates and zero-fills the line:
    /// the next `delay + 1` outputs are silence, a defined transient.
    pub fn set_delay(&mut self, delay: usize) -> (unit: ())
        requires
            old(self).wf(),
            delay < usize::MAX,
        ensures
            final(self).wf(),
            final(self).spec_delay() == delay,
            delay == old(self).spec_delay() ==> *final(self) == *old(self),
            delay != old(self).spec_delay() ==> final(self).spec_inputs() == Seq::<(i64, i64)>::empty(),
    {
        if delay != self.delay {
            self.current_index = 0;
            self.delay = delay;
            self.buffer = zero_pairs(delay + 1);
            self.inputs = Ghost(Seq::empty());
        }
    }
}

/// A vector of `n` silent pairs.
fn zero_pairs(n: usize) -> (r: Vec<(i64, i64)>)
    ensures
        r@.len() == n,
        forall|i: int| 0 <= i < n ==> r@[i] == (0i64, 0i64),
{
    let mut v: Vec<(i64, i64)> = Vec::new();
    let mut k: usize = 0;
    while k < n
        invariant
            k <= n,
            v@.len() == k,
            forall|i: int| 0 <= i < k ==> v@[i] == (0i64, 0i64),
        decreases n - k,
    {
        v.push((0i64, 0i64));
        k = k + 1;
    }
    v
}

} // verus!
