//! Simple Moving Average: the arithmetic mean of the last `period` samples,
//! or of all samples while fewer have been seen.

use vstd::prelude::*;

use crate::errors::TaError;
use crate::rational::{
    add_fits_s, div_u_fits_s, rat_add, rat_add_s, rat_div_u, rat_div_u_s, rat_wf, rat_zero, Rat,
};
use crate::Close;

verus! {

/// The window after one more sample: grows until `p` samples are held, then
/// slides by dropping the oldest.
pub open spec fn sma_push_s(w: Seq<Rat>, p: nat, x: Rat) -> Seq<Rat> {
    if w.len() < p {
        w.push(x)
    } else {
        w.remove(0).push(x)
    }
}

/// Every entry of the window is well-formed.
pub open spec fn win_wf_s(w: Seq<Rat>) -> bool {
    forall|i: int| 0 <= i < w.len() ==> rat_wf(#[trigger] w[i])
}

/// Every entry of the window is non-negative.
pub open spec fn win_nonneg_s(w: Seq<Rat>) -> bool {
    forall|i: int| 0 <= i < w.len() ==> (#[trigger] w[i]).num >= 0
}

/// Every entry of the window denotes zero.
pub open spec fn win_zero_s(w: Seq<Rat>) -> bool {
    forall|i: int| 0 <= i < w.len() ==> (#[trigger] w[i]).num == 0
}

/// The exact running sum of the window, meaningful when `win_sum_fits_s`.
pub open spec fn win_sum_s(w: Seq<Rat>) -> Rat
    decreases w.len(),
{
    if w.len() == 0 {
        rat_zero()
    } else {
        rat_add_s(win_sum_s(w.drop_last()), w.last())
    }
}

/// Every partial sum of the window stays within the bounded range.
pub open spec fn win_sum_fits_s(w: Seq<Rat>) -> bool
    decreases w.len(),
{
    if w.len() == 0 {
        true
    } else {
        win_sum_fits_s(w.drop_last()) && add_fits_s(win_sum_s(w.drop_last()), w.last())
    }
}

/// The emitted value: the mean of the window, or zero on an empty window or
/// when an intermediate result would leave the bounded range.
pub open spec fn sma_out_s(w: Seq<Rat>) -> Rat {
    if w.len() == 0 {
        rat_zero()
    } else if win_sum_fits_s(w) && div_u_fits_s(win_sum_s(w), w.len() as int) {
        rat_div_u_s(win_sum_s(w), w.len() as int)
    } else {
        rat_zero()
    }
}

/// The sum of a well-formed window that fits is itself well-formed, and
/// non-negative when every entry is.
proof fn lemma_win_sum_props(w: Seq<Rat>)
    requires
        win_wf_s(w),
        win_sum_fits_s(w),
    ensures
        rat_wf(win_sum_s(w)),
        win_nonneg_s(w) ==> win_sum_s(w).num >= 0,
    decreases w.len(),
{
    if w.len() == 0 {
    } else {
        assert(win_wf_s(w.drop_last()));
        assert(win_nonneg_s(w) ==> win_nonneg_s(w.drop_last()));
        lemma_win_sum_props(w.drop_last());
        let s = win_sum_s(w.drop_last());
        let x = w.last();
        assert(1 <= s.den * x.den) by (nonlinear_arith)
            requires
                1 <= s.den,
                1 <= x.den,
        ;
        if win_nonneg_s(w) {
            assert(s.num * x.den >= 0 && x.num * s.den >= 0) by (nonlinear_arith)
                requires
                    s.num >= 0,
                    x.num >= 0,
                    s.den >= 1,
                    x.den >= 1,
            ;
        }
    }
}

/// The emitted value of a well-formed window is well-formed, and
/// non-negative when every entry is.
pub proof fn lemma_sma_out_props(w: Seq<Rat>)
    requires
        win_wf_s(w),
    ensures
        rat_wf(sma_out_s(w)),
        win_nonneg_s(w) ==> sma_out_s(w).num >= 0,
{
    if w.len() == 0 {
    } else if win_sum_fits_s(w) && div_u_fits_s(win_sum_s(w), w.len() as int) {
        lemma_win_sum_props(w);
        let s = win_sum_s(w);
        assert(1 <= s.den * (w.len() as int)) by (nonlinear_arith)
            requires
                1 <= s.den,
                1 <= w.len() as int,
        ;
    }
}

/// The sum of a window of zero-valued entries is zero-valued.
proof fn lemma_win_sum_zero(w: Seq<Rat>)
    requires
        win_wf_s(w),
        win_zero_s(w),
        win_sum_fits_s(w),
    ensures
        win_sum_s(w).num == 0,
    decreases w.len(),
{
    if w.len() == 0 {
    } else {
        assert(win_wf_s(w.drop_last()) && win_zero_s(w.drop_last()));
        lemma_win_sum_zero(w.drop_last());
    }
}

/// The emitted value of a window of zero-valued entries is zero-valued.
pub proof fn lemma_sma_out_zero(w: Seq<Rat>)
    requires
        win_wf_s(w),
        win_zero_s(w),
    ensures
        sma_out_s(w).num == 0,
{
    if w.len() == 0 {
    } else if win_sum_fits_s(w) && div_u_fits_s(win_sum_s(w), w.len() as int) {
        lemma_win_sum_zero(w);
    }
}

/// Sliding the window keeps it within the period and preserves
/// well-formedness, non-negativity and zero-valuedness of its entries.
pub proof fn lemma_push_preserves(w: Seq<Rat>, p: nat, x: Rat)
    requires
        1 <= p,
        w.len() <= p,
    ensures
        1 <= sma_push_s(w, p, x).len() <= p,
        win_wf_s(w) && rat_wf(x) ==> win_wf_s(sma_push_s(w, p, x)),
        win_nonneg_s(w) && x.num >= 0 ==> win_nonneg_s(sma_push_s(w, p, x)),
        win_zero_s(w) && x.num == 0 ==> win_zero_s(sma_push_s(w, p, x)),
{
    let r = sma_push_s(w, p, x);
    if w.len() < p {
        assert(forall|i: int|
            0 <= i < r.len() ==> #[trigger] r[i] == (if i < w.len() {
                w[i]
            } else {
                x
            }));
    } else {
        assert(w.remove(0) =~= w.subrange(1, w.len() as int));
        assert(forall|i: int|
            0 <= i < r.len() ==> #[trigger] r[i] == (if i < w.len() - 1 {
                w[i + 1]
            } else {
                x
            }));
    }
}

/// If every partial sum of `w` fits, so does every partial sum of each
/// prefix of `w`.
proof fn lemma_win_sum_fits_prefix(w: Seq<Rat>, i: int)
    requires
        0 <= i <= w.len(),
        win_sum_fits_s(w),
    ensures
        win_sum_fits_s(w.subrange(0, i)),
    decreases w.len() - i,
{
    if i == w.len() {
        assert(w.subrange(0, i) =~= w);
    } else {
        assert(w.drop_last().subrange(0, i) =~= w.subrange(0, i));
        lemma_win_sum_fits_prefix(w.drop_last(), i);
    }
}

/// Simple Moving Average over a sliding window of the most recent samples.
#[derive(Debug, Clone)]
pub struct SimpleMovingAverage {
    pub period: usize,
    pub window: Vec<Rat>,
}

impl SimpleMovingAverage {
    /// Structural validity: positive period, window within the period,
    /// well-formed entries.
    pub open spec fn wf(self) -> bool {
        &&& 1 <= self.period
        &&& self.window@.len() <= self.period
        &&& win_wf_s(self.window@)
    }

    /// Builds a fresh instance; a zero period is rejected.
    pub fn new(period: usize) -> (r: Result<Self, TaError>)
        ensures
            period == 0 ==> r == Err::<Self, TaError>(TaError::InvalidParameter),
            period >= 1 ==> (r matches Ok(s) && s.period == period && s.window@
                == Seq::<Rat>::empty() && s.wf()),
    {
        if period == 0 {
            Err(TaError::InvalidParameter)
        } else {
            Ok(SimpleMovingAverage { period, window: Vec::new() })
        }
    }

    /// Returns the configured period.
    pub fn period(&self) -> (r: usize)
        ensures
            r == self.period,
    {
        self.period
    }

    /// Returns the instance to its freshly-constructed state.
    pub fn reset(&mut self)
        ensures
            final(self).period == old(self).period,
            final(self).window@ == Seq::<Rat>::empty(),
            old(self).wf() ==> final(self).wf(),
    {
        self.window.clear();
    }

    /// Advances one sample: slides the window and returns the mean of the
    /// samples it now holds.
    pub fn next(&mut self, x: Rat) -> (r: Rat)
        requires
            old(self).wf(),
            rat_wf(x),
        ensures
            final(self).wf(),
            final(self).period == old(self).period,
            final(self).window@ == sma_push_s(old(self).window@, old(self).period as nat, x),
            r == sma_out_s(final(self).window@),
            rat_wf(r),
    {
        if self.window.len() == self.period {
            self.window.remove(0);
        }
        self.window.push(x);
        let ghost w = self.window@;
        assert(win_wf_s(w));
        let n = self.window.len();
        let mut acc = Rat { num: 0, den: 1 };
        let mut ok = true;
        let mut i: usize = 0;
        while i < n
            invariant
                n == w.len(),
                i <= n,
                self.window@ == w,
                win_wf_s(w),
                ok ==> win_sum_fits_s(w.subrange(0, i as int)) && acc == win_sum_s(
                    w.subrange(0, i as int),
                ) && rat_wf(acc),
                !ok ==> !win_sum_fits_s(w),
            decreases n - i,
        {
            if ok {
                let x_i = self.window[i];
                proof {
                    assert(w.subrange(0, i + 1).drop_last() =~= w.subrange(0, i as int));
                    assert(w.subrange(0, i + 1).last() == w[i as int]);
                }
                match rat_add(acc, x_i) {
                    Some(v) => {
                        acc = v;
                    },
                    None => {
                        proof {
                            if win_sum_fits_s(w) {
                                lemma_win_sum_fits_prefix(w, i + 1);
                            }
                        }
                        ok = false;
                    },
                }
            }
            i = i + 1;
        }
        assert(w.subrange(0, n as int) =~= w);
        if ok {
            match rat_div_u(acc, n) {
                Some(v) => v,
                None => Rat { num: 0, den: 1 },
            }
        } else {
            Rat { num: 0, den: 1 }
        }
    }

    /// Advances one sample taken from the record's close reading.
    pub fn next_of<T: Close>(&mut self, input: &T) -> (r: Rat)
        requires
            old(self).wf(),
            rat_wf(input.close_spec()),
        ensures
            final(self).wf(),
            final(self).period == old(self).period,
            final(self).window@ == sma_push_s(
                old(self).window@,
                old(self).period as nat,
                input.close_spec(),
            ),
            r == sma_out_s(final(self).window@),
            rat_wf(r),
    {
        let x = input.close();
        self.next(x)
    }
}

} // verus!
