//! The fixed-capacity ring behind the rolling operators.
//!
//! `Container` keeps the last N samples, oldest first, exactly as the
//! rolling sum, mean and standard deviation consume them. `SampleWindow`
//! pairs it with a count of the non-finite samples currently inside, the
//! quantity that decides when a rolling result is meaningful. Samples are
//! double bit patterns (`crate::fp`); the arithmetic on them stays with
//! the caller, the windowing and the counting are proved here.

use vstd::prelude::*;

use crate::fp::{bits_is_finite, is_finite_bits, NAN_BITS};

verus! {

/// Position of the ring slot holding window element `i` when the oldest
/// element sits in slot `h` of `n` slots.
pub open spec fn wrap_idx(h: int, i: int, n: int) -> int {
    if h + i < n {
        h + i
    } else {
        h + i - n
    }
}

/// A ring of `n` double bit patterns. Slot `head_idx` holds the oldest
/// sample, the one the next update evicts.
pub struct Container {
    buf: Vec<u64>,
    head_idx: usize,
    tail_idx: usize,
}

impl Container {
    /// The container's shape: a fixed non-empty buffer, the head inside
    /// it, and the tail one slot behind the head.
    pub closed spec fn wf(&self) -> bool {
        &&& self.buf@.len() >= 1
        &&& self.head_idx < self.buf@.len()
        &&& self.tail_idx == wrap_idx(self.head_idx as int, self.buf@.len() - 1, self.buf@.len() as int)
    }

    /// The window, oldest sample first.
    pub closed spec fn win(&self) -> Seq<u64> {
        Seq::new(
            self.buf@.len(),
            |i: int| self.buf@[wrap_idx(self.head_idx as int, i, self.buf@.len() as int)],
        )
    }

    /// A fresh ring of `n` NaN samples.
    pub fn new(n: usize) -> (c: Container)
        requires
            n >= 1,
        ensures
            c.wf(),
            c.win() =~= Seq::new(n as nat, |i: int| NAN_BITS),
    {
        Container { buf: vec![NAN_BITS; n], head_idx: 0, tail_idx: n - 1 }
    }

    /// Writes `new_val` over the oldest sample and advances the head, so
    /// the window slides one sample forward. Returns the sample that is
    /// now oldest and the one just written.
    pub fn update(&mut self, new_val: u64) -> (r: (u64, u64))
        requires
            old(self).wf(),
        ensures
            final(self).wf(),
            final(self).win() =~= old(self).win().subrange(1, old(self).win().len() as int).push(
                new_val,
            ),
            final(self).win().len() == old(self).win().len(),
            r.0 == final(self).win()[0],
            r.1 == new_val,
    {
        let n = self.buf.len();
        self.tail_idx = self.head_idx;
        self.buf[self.tail_idx] = new_val;
        self.head_idx = if self.head_idx + 1 == n {
            0
        } else {
            self.head_idx + 1
        };
        (self.buf[self.head_idx], self.buf[self.tail_idx])
    }

    /// Advances the head without writing: the window rotates, its oldest
    /// sample becoming its newest. Returns the now-oldest and now-newest
    /// samples.
    pub fn step(&mut self) -> (r: (u64, u64))
        requires
            old(self).wf(),
        ensures
            final(self).wf(),
            final(self).win() =~= old(self).win().subrange(1, old(self).win().len() as int).push(
                old(self).win()[0],
            ),
            final(self).win().len() == old(self).win().len(),
            r.0 == final(self).win()[0],
            r.1 == old(self).win()[0],
    {
        let n = self.buf.len();
        self.tail_idx = self.head_idx;
        self.head_idx = if self.head_idx + 1 == n {
            0
        } else {
            self.head_idx + 1
        };
        (self.buf[self.head_idx], self.buf[self.tail_idx])
    }

    /// The window element `idx` slots after the oldest.
    pub fn get(&self, idx: usize) -> (r: u64)
        requires
            self.wf(),
            idx < self.win().len(),
        ensures
            r == self.win()[idx as int],
    {
        let n = self.buf.len();
        let i = if idx < n - self.head_idx {
            self.head_idx + idx
        } else {
            idx - (n - self.head_idx)
        };
        self.buf[i]
    }

    /// The oldest sample, the one the next update evicts.
    pub fn head(&self) -> (r: u64)
        requires
            self.wf(),
        ensures
            r == self.win()[0],
    {
        self.buf[self.head_idx]
    }

    /// The newest sample.
    pub fn tail(&self) -> (r: u64)
        requires
            self.wf(),
        ensures
            r == self.win()[self.win().len() - 1],
    {
        self.buf[self.tail_idx]
    }

    /// The window capacity.
    pub fn len(&self) -> (r: usize)
        requires
            self.wf(),
        ensures
            r == self.win().len(),
    {
        self.buf.len()
    }

    /// The window as a vector, oldest sample first.
    pub fn values(&self) -> (v: Vec<u64>)
        requires
            self.wf(),
        ensures
            v@ =~= self.win(),
    {
        let n = self.buf.len();
        let mut v: Vec<u64> = Vec::new();
        let mut i: usize = 0;
        while i < n
            invariant
                self.wf(),
                n == self.win().len(),
                i <= n,
                v@.len() == i,
                forall|j: int| 0 <= j < i ==> v@[j] == self.win()[j],
            decreases n - i,
        {
            let x = self.get(i);
            v.push(x);
            i = i + 1;
        }
        v
    }
}

/// How many samples of `s` are not finite.
pub open spec fn count_nonfinite(s: Seq<u64>) -> nat
    decreases s.len(),
{
    if s.len() == 0 {
        0
    } else {
        (if is_finite_bits(s[0]) {
            0nat
        } else {
            1nat
        }) + count_nonfinite(s.subrange(1, s.len() as int))
    }
}

/// Appending a sample adds its own contribution to the count.
pub proof fn lemma_count_nonfinite_push(s: Seq<u64>, x: u64)
    ensures
        count_nonfinite(s.push(x)) == count_nonfinite(s) + (if is_finite_bits(x) {
            0nat
        } else {
            1nat
        }),
    decreases s.len(),
{
    if s.len() == 0 {
        assert(s.push(x).subrange(1, 1) =~= Seq::<u64>::empty());
        assert(s.push(x)[0] == x);
        assert(count_nonfinite(Seq::<u64>::empty()) == 0);
    } else {
        assert(s.push(x)[0] == s[0]);
        assert(s.push(x).subrange(1, s.len() as int + 1) =~= s.subrange(1, s.len() as int).push(
            x,
        ));
        lemma_count_nonfinite_push(s.subrange(1, s.len() as int), x);
    }
}

/// The count never exceeds the window length.
pub proof fn lemma_count_nonfinite_le_len(s: Seq<u64>)
    ensures
        count_nonfinite(s) <= s.len(),
    decreases s.len(),
{
    if s.len() > 0 {
        lemma_count_nonfinite_le_len(s.subrange(1, s.len() as int));
    }
}

/// A ring of samples together with the number of non-finite samples it
/// currently holds, kept exact across every slide of the window.
pub struct SampleWindow {
    ring: Container,
    nonfinite: usize,
}

impl SampleWindow {
    /// The window shape plus the counting invariant.
    pub closed spec fn wf(&self) -> bool {
        &&& self.ring.wf()
        &&& self.nonfinite == count_nonfinite(self.ring.win())
    }

    /// The samples, oldest first.
    pub closed spec fn win(&self) -> Seq<u64> {
        self.ring.win()
    }

    /// A fresh window of `n` NaN samples: all `n` count as non-finite.
    pub fn new(n: usize) -> (w: SampleWindow)
        requires
            n >= 1,
        ensures
            w.wf(),
            w.win() =~= Seq::new(n as nat, |i: int| NAN_BITS),
            count_nonfinite(w.win()) == n,
    {
        let ring = Container::new(n);
        proof {
            lemma_count_all_nan(ring.win());
        }
        SampleWindow { ring, nonfinite: n }
    }

    /// Slides the window over `new_val` and returns the evicted sample,
    /// keeping the non-finite count exact.
    pub fn update(&mut self, new_val: u64) -> (evicted: u64)
        requires
            old(self).wf(),
        ensures
            final(self).wf(),
            evicted == old(self).win()[0],
            final(self).win() =~= old(self).win().subrange(1, old(self).win().len() as int).push(
                new_val,
            ),
            final(self).win().len() == old(self).win().len(),
    {
        let n = self.ring.len();
        proof {
            let w = self.ring.win();
            let rest = w.subrange(1, w.len() as int);
            lemma_count_nonfinite_le_len(w);
            lemma_count_nonfinite_le_len(rest);
            lemma_count_nonfinite_push(rest, new_val);
            assert(count_nonfinite(w) == (if is_finite_bits(w[0]) {
                0nat
            } else {
                1nat
            }) + count_nonfinite(rest));
        }
        let evicted = self.ring.head();
        self.ring.update(new_val);
        if !bits_is_finite(evicted) {
            self.nonfinite = self.nonfinite - 1;
        }
        if !bits_is_finite(new_val) {
            self.nonfinite = self.nonfinite + 1;
        }
        evicted
    }

    /// How many samples in the window are not finite.
    pub fn nonfinite_count(&self) -> (k: usize)
        requires
            self.wf(),
        ensures
            k == count_nonfinite(self.win()),
    {
        self.nonfinite
    }

    /// How many samples in the window are finite: the denominator of the
    /// NaN-tolerant rolling mean.
    pub fn finite_count(&self) -> (k: usize)
        requires
            self.wf(),
        ensures
            k == self.win().len() - count_nonfinite(self.win()),
    {
        proof {
            lemma_count_nonfinite_le_len(self.win());
        }
        self.ring.len() - self.nonfinite
    }

    /// Whether every sample in the window is finite: only then are the
    /// rolling sum and standard deviation defined.
    pub fn all_finite(&self) -> (r: bool)
        requires
            self.wf(),
        ensures
            r == (count_nonfinite(self.win()) == 0),
    {
        self.nonfinite == 0
    }

    /// The oldest sample, the one the next update evicts.
    pub fn head(&self) -> (r: u64)
        requires
            self.wf(),
        ensures
            r == self.win()[0],
    {
        self.ring.head()
    }

    /// The window capacity.
    pub fn len(&self) -> (r: usize)
        requires
            self.wf(),
        ensures
            r == self.win().len(),
    {
        self.ring.len()
    }

    /// The samples as a vector, oldest first.
    pub fn values(&self) -> (v: Vec<u64>)
        requires
            self.wf(),
        ensures
            v@ =~= self.win(),
    {
        self.ring.values()
    }
}

/// Every sample of an all-NaN window counts as non-finite.
proof fn lemma_count_all_nan(s: Seq<u64>)
    requires
        forall|i: int| 0 <= i < s.len() ==> s[i] == NAN_BITS,
    ensures
        count_nonfinite(s) == s.len(),
    decreases s.len(),
{
    if s.len() > 0 {
        lemma_count_all_nan(s.subrange(1, s.len() as int));
    }
}

/// The window an initial content `w0` becomes after the samples `xs` are
/// fed through `SampleWindow::update`, in order.
pub open spec fn window_after(w0: Seq<u64>, xs: Seq<u64>) -> Seq<u64>
    decreases xs.len(),
{
    if xs.len() == 0 {
        w0
    } else {
        window_after(w0, xs.drop_last()).subrange(1, w0.len() as int).push(xs.last())
    }
}

/// Feeding at least N samples makes the window exactly the last N of
/// them, whatever it held before: a rolling operator restarted on the
/// last N samples sees the same window as one that ran from the start.
pub proof fn lemma_window_is_suffix(w0: Seq<u64>, xs: Seq<u64>)
    requires
        w0.len() >= 1,
        xs.len() >= w0.len(),
    ensures
        window_after(w0, xs) =~= xs.subrange(xs.len() - w0.len(), xs.len() as int),
    decreases xs.len(),
{
    let n = w0.len() as int;
    let l = xs.len() as int;
    if xs.len() == w0.len() {
        lemma_window_prefix(w0, xs);
        assert(w0.subrange(n, n) + xs =~= xs.subrange(l - n, l));
    } else {
        lemma_window_is_suffix(w0, xs.drop_last());
        assert(window_after(w0, xs.drop_last()).subrange(1, n) =~= xs.subrange(l - n, l - 1));
        assert(xs.subrange(l - n, l - 1).push(xs.last()) =~= xs.subrange(l - n, l));
    }
}

/// Feeding `k <= N` samples leaves the window's last `k` slots holding
/// exactly those samples.
proof fn lemma_window_prefix(w0: Seq<u64>, xs: Seq<u64>)
    requires
        w0.len() >= 1,
        xs.len() <= w0.len(),
    ensures
        window_after(w0, xs).len() == w0.len(),
        window_after(w0, xs) =~= w0.subrange(xs.len() as int, w0.len() as int) + xs,
    decreases xs.len(),
{
    let n = w0.len() as int;
    let k = xs.len() as int;
    if xs.len() == 0 {
        assert(w0.subrange(0, n) + xs =~= w0);
    } else {
        lemma_window_prefix(w0, xs.drop_last());
        assert(window_after(w0, xs.drop_last()).subrange(1, n) =~= w0.subrange(k, n)
            + xs.drop_last());
        assert((w0.subrange(k, n) + xs.drop_last()).push(xs.last()) =~= w0.subrange(k, n) + xs);
    }
}

} // verus!
