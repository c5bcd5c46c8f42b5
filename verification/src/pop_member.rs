//! Birth orders of population members (a counter in deterministic runs, a
//! clock reading in 100 ns ticks otherwise; older members have smaller birth
//! orders), and the row buffers that evaluating a member writes.
use vstd::prelude::*;

verus! {

pub open spec fn saturate(v: int) -> int {
    if v > u64::MAX {
        u64::MAX as int
    } else {
        v
    }
}

/// One more than the counter, held at `u64::MAX`.
pub open spec fn spec_deterministic_birth(previous: u64) -> int {
    saturate(previous + 1)
}

/// The counter after one more birth; it wraps like an atomic increment.
pub open spec fn spec_next_birth_counter(previous: u64) -> int {
    if previous < u64::MAX {
        previous + 1
    } else {
        0
    }
}

/// The birth order that a deterministic run hands out when the counter
/// stands at `previous`.
pub fn deterministic_birth(previous: u64) -> (r: u64)
    ensures
        r == spec_deterministic_birth(previous),
{
    previous.saturating_add(1)
}

pub fn next_birth_counter(previous: u64) -> (r: u64)
    ensures
        r == spec_next_birth_counter(previous),
{
    previous.wrapping_add(1)
}

/// The birth order read from a clock: the time since the epoch in ticks of
/// 100 ns, rounded to the nearest tick (a half tick rounds up), held at
/// `u64::MAX`.
pub open spec fn spec_clock_birth(secs: u64, subsec_nanos: u32) -> int {
    saturate(saturate(secs * 10_000_000) + (subsec_nanos + 50) / 100)
}

pub fn clock_birth(secs: u64, subsec_nanos: u32) -> (r: u64)
    ensures
        r == spec_clock_birth(secs, subsec_nanos),
{
    let nanos = subsec_nanos as u64;
    let ticks = nanos.saturating_add(50) / 100;
    let whole = if secs > u64::MAX / 10_000_000 {
        u64::MAX
    } else {
        secs * 10_000_000
    };
    proof {
        if secs > u64::MAX / 10_000_000 {
            assert(secs * 10_000_000 > u64::MAX) by (nonlinear_arith)
                requires
                    secs > u64::MAX / 10_000_000,
            ;
        }
    }
    whole.saturating_add(ticks)
}

/// Each birth of a deterministic run is one more than the one before, until
/// the counter nears its largest value: members born later are younger.
pub proof fn lemma_deterministic_births_increase(previous: u64)
    requires
        previous < u64::MAX - 1,
    ensures
        spec_deterministic_birth(spec_next_birth_counter(previous) as u64)
            == spec_deterministic_birth(previous) + 1,
{
}

/// A later clock reading never gives a smaller birth order.
pub proof fn lemma_clock_birth_monotone(s0: u64, n0: u32, s1: u64, n1: u32)
    requires
        n0 < 1_000_000_000,
        n1 < 1_000_000_000,
        s0 < s1 || (s0 == s1 && n0 <= n1),
    ensures
        spec_clock_birth(s0, n0) <= spec_clock_birth(s1, n1),
{
    if s0 < s1 {
        assert(s0 * 10_000_000 + 10_000_000 <= s1 * 10_000_000) by (nonlinear_arith)
            requires
                s0 < s1,
        ;
    }
}

/// The per-row buffers that evaluating a member writes (its predictions and
/// the loss weight of each row), with the evaluation settings: values must
/// be finite, and evaluation stops at the first one that is not.
pub struct Evaluator<T> {
    pub check_finite: bool,
    pub early_exit: bool,
    pub yhat: Vec<T>,
    pub loss_weights: Vec<T>,
}

impl<T: Copy> Evaluator<T> {
    /// Buffers for `n_rows` rows, filled with `zero`.
    pub fn new(n_rows: usize, zero: T) -> (r: Self)
        ensures
            r.check_finite,
            r.early_exit,
            r.yhat@ == Seq::new(n_rows as nat, |i: int| zero),
            r.loss_weights@ == Seq::new(n_rows as nat, |i: int| zero),
    {
        let mut yhat: Vec<T> = Vec::new();
        let mut loss_weights: Vec<T> = Vec::new();
        for i in 0..n_rows
            invariant
                yhat@ == Seq::new(i as nat, |k: int| zero),
                loss_weights@ == Seq::new(i as nat, |k: int| zero),
        {
            yhat.push(zero);
            loss_weights.push(zero);
            assert(yhat@ =~= Seq::new((i + 1) as nat, |k: int| zero));
            assert(loss_weights@ =~= Seq::new((i + 1) as nat, |k: int| zero));
        }
        Evaluator { check_finite: true, early_exit: true, yhat, loss_weights }
    }

    /// Makes both buffers `n_rows` long: a longer one is cut, a shorter one
    /// is extended with `zero`; the rows that stay keep their values.
    pub fn ensure_n_rows(&mut self, n_rows: usize, zero: T)
        ensures
            final(self).check_finite == old(self).check_finite,
            final(self).early_exit == old(self).early_exit,
            final(self).yhat@ == resized(old(self).yhat@, n_rows as nat, zero),
            final(self).loss_weights@ == resized(old(self).loss_weights@, n_rows as nat, zero),
    {
        if self.yhat.len() != n_rows {
            resize_to(&mut self.yhat, n_rows, zero);
        }
        if self.loss_weights.len() != n_rows {
            resize_to(&mut self.loss_weights, n_rows, zero);
        }
    }
}

/// `s` cut or extended with `fill` to length `n`.
pub open spec fn resized<T>(s: Seq<T>, n: nat, fill: T) -> Seq<T> {
    Seq::new(n, |i: int| if i < s.len() { s[i] } else { fill })
}

fn resize_to<T: Copy>(v: &mut Vec<T>, n: usize, fill: T)
    ensures
        final(v)@ == resized(old(v)@, n as nat, fill),
{
    if n <= v.len() {
        v.truncate(n);
    } else {
        let start = v.len();
        for i in start..n
            invariant
                start == old(v)@.len(),
                v@ == resized(old(v)@, i as nat, fill),
        {
            v.push(fill);
            assert(v@ =~= resized(old(v)@, (i + 1) as nat, fill));
        }
    }
    assert(v@ =~= resized(old(v)@, n as nat, fill));
}

} // verus!
