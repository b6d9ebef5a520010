//! Smoothed Simple Moving Average: the arithmetic mean while warming up,
//! then the one-pole recurrence `(previous * (period - 1) + sample) / period`.

use vstd::prelude::*;

use crate::errors::TaError;
use crate::indicators::simple_moving_average::{win_sum_fits_s, win_sum_s, win_wf_s};
use crate::rational::{
    add_den_s, add_fits_s, add_num_s, div_u_fits_s, rat_add, rat_add_s, rat_div_u, rat_div_u_s,
    rat_eq_s, rat_scale, rat_scale_s, rat_wf, rat_zero, scale_fits_s, Rat,
};
use crate::Close;

verus! {

/// Smoothed Simple Moving Average. Keeps a count, a running sum used only
/// during warm-up, and the last emitted value, which carries the recurrence
/// after warm-up.
#[derive(Debug, Clone)]
pub struct SmoothedSimpleMovingAverage {
    pub period: usize,
    pub current_val: Rat,
    pub count: usize,
    pub sum: Rat,
}

/// The count after one more sample; it saturates at the machine limit.
pub open spec fn count_inc_s(c: usize) -> usize {
    if c < usize::MAX {
        (c + 1) as usize
    } else {
        c
    }
}

/// The freshly-constructed state for a given period.
pub open spec fn ssma_init_s(period: usize) -> SmoothedSimpleMovingAverage {
    SmoothedSimpleMovingAverage {
        period,
        current_val: rat_zero(),
        count: 0,
        sum: rat_zero(),
    }
}

/// Whether every intermediate result of one step stays in the bounded
/// range, so that the step computes the exact recurrence.
pub open spec fn ssma_step_fits_s(s: SmoothedSimpleMovingAverage, x: Rat) -> bool {
    let c = count_inc_s(s.count);
    if c <= s.period {
        add_fits_s(s.sum, x) && div_u_fits_s(rat_add_s(s.sum, x), c as int)
    } else {
        scale_fits_s(s.current_val, s.period - 1) && add_fits_s(
            rat_scale_s(s.current_val, s.period - 1),
            x,
        ) && div_u_fits_s(rat_add_s(rat_scale_s(s.current_val, s.period - 1), x), s.period as int)
    }
}

/// The state after one step. While `count <= period` the value is the mean
/// `sum / count`; afterwards it follows the recurrence
/// `(value * (period - 1) + sample) / period`. When an intermediate result
/// would leave the bounded range, only the count advances.
pub open spec fn ssma_next_s(
    s: SmoothedSimpleMovingAverage,
    x: Rat,
) -> SmoothedSimpleMovingAverage {
    let c = count_inc_s(s.count);
    if !ssma_step_fits_s(s, x) {
        SmoothedSimpleMovingAverage { count: c, ..s }
    } else if c <= s.period {
        let ns = rat_add_s(s.sum, x);
        SmoothedSimpleMovingAverage {
            period: s.period,
            current_val: rat_div_u_s(ns, c as int),
            count: c,
            sum: ns,
        }
    } else {
        let b = rat_add_s(rat_scale_s(s.current_val, s.period - 1), x);
        SmoothedSimpleMovingAverage {
            period: s.period,
            current_val: rat_div_u_s(b, s.period as int),
            count: c,
            sum: s.sum,
        }
    }
}

/// The state after feeding every sample of `xs` in order.
pub open spec fn ssma_run_s(
    s: SmoothedSimpleMovingAverage,
    xs: Seq<Rat>,
) -> SmoothedSimpleMovingAverage
    decreases xs.len(),
{
    if xs.len() == 0 {
        s
    } else {
        ssma_next_s(ssma_run_s(s, xs.drop_last()), xs.last())
    }
}

/// Whether every step of feeding `xs` from `s` computes exactly.
pub open spec fn ssma_trace_fits_s(s: SmoothedSimpleMovingAverage, xs: Seq<Rat>) -> bool
    decreases xs.len(),
{
    if xs.len() == 0 {
        true
    } else {
        ssma_trace_fits_s(s, xs.drop_last()) && ssma_step_fits_s(
            ssma_run_s(s, xs.drop_last()),
            xs.last(),
        )
    }
}

impl SmoothedSimpleMovingAverage {
    /// Structural validity: positive period, well-formed value and sum.
    pub open spec fn wf(self) -> bool {
        &&& 1 <= self.period
        &&& rat_wf(self.current_val)
        &&& rat_wf(self.sum)
    }

    /// Builds a fresh instance; a zero period is rejected.
    pub fn new(period: usize) -> (r: Result<Self, TaError>)
        ensures
            period == 0 ==> r == Err::<Self, TaError>(TaError::InvalidParameter),
            period >= 1 ==> r == Ok::<Self, TaError>(ssma_init_s(period)) && ssma_init_s(
                period,
            ).wf(),
    {
        if period == 0 {
            Err(TaError::InvalidParameter)
        } else {
            Ok(SmoothedSimpleMovingAverage {
                period,
                current_val: Rat { num: 0, den: 1 },
                count: 0,
                sum: Rat { num: 0, den: 1 },
            })
        }
    }

    /// Returns the configured period.
    pub fn period(&self) -> (r: usize)
        ensures
            r == self.period,
    {
        self.period
    }

    /// Returns the instance to its freshly-constructed state.
    pub fn reset(&mut self)
        ensures
            *final(self) == ssma_init_s(old(self).period),
            old(self).wf() ==> final(self).wf(),
    {
        self.current_val = Rat { num: 0, den: 1 };
        self.count = 0;
        self.sum = Rat { num: 0, den: 1 };
    }

    /// Advances one sample and returns the new value.
    pub fn next(&mut self, input: Rat) -> (r: Rat)
        requires
            old(self).wf(),
            rat_wf(input),
        ensures
            *final(self) == ssma_next_s(*old(self), input),
            r == final(self).current_val,
            final(self).wf(),
            rat_wf(r),
    {
        let c = if self.count < usize::MAX {
            self.count + 1
        } else {
            self.count
        };
        self.count = c;
        if c <= self.period {
            if let Some(ns) = rat_add(self.sum, input) {
                if let Some(v) = rat_div_u(ns, c) {
                    self.sum = ns;
                    self.current_val = v;
                }
            }
        } else {
            if let Some(a) = rat_scale(self.current_val, self.period - 1) {
                if let Some(b) = rat_add(a, input) {
                    if let Some(v) = rat_div_u(b, self.period) {
                        self.current_val = v;
                    }
                }
            }
        }
        self.current_val
    }

    /// Advances one sample taken from the record's close reading.
    pub fn next_of<T: Close>(&mut self, input: &T) -> (r: Rat)
        requires
            old(self).wf(),
            rat_wf(input.close_spec()),
        ensures
            *final(self) == ssma_next_s(*old(self), input.close_spec()),
            r == final(self).current_val,
            final(self).wf(),
            rat_wf(r),
    {
        let x = input.close();
        self.next(x)
    }
}

impl Default for SmoothedSimpleMovingAverage {
    /// The default instance uses period 9.
    fn default() -> (r: Self)
        ensures
            r == ssma_init_s(9),
            r.wf(),
    {
        match Self::new(9) {
            Ok(s) => s,
            Err(_) => {
                proof {
                    assert(false);
                }
                SmoothedSimpleMovingAverage {
                    period: 9,
                    current_val: Rat { num: 0, den: 1 },
                    count: 0,
                    sum: Rat { num: 0, den: 1 },
                }
            },
        }
    }
}

/// Two instances in equal states emit identical values on every replayed
/// input prefix; with `reset` and `new` both yielding the fresh state, an
/// instance behaves after a reset exactly as a freshly constructed one.
pub proof fn lemma_ssma_replay_deterministic(
    a: SmoothedSimpleMovingAverage,
    b: SmoothedSimpleMovingAverage,
    xs: Seq<Rat>,
)
    requires
        a == b,
    ensures
        ssma_run_s(a, xs) == ssma_run_s(b, xs),
{
}

/// During warm-up the emitted value is the arithmetic mean of the samples
/// seen so far: after `t <= period` exactly-computed samples, the state
/// holds their exact sum and the value `sum / t`.
pub proof fn lemma_ssma_warmup_is_mean(period: usize, xs: Seq<Rat>)
    requires
        1 <= period,
        1 <= xs.len() <= period,
        win_wf_s(xs),
        ssma_trace_fits_s(ssma_init_s(period), xs),
    ensures
        ({
            let s = ssma_run_s(ssma_init_s(period), xs);
            &&& s.period == period
            &&& s.count == xs.len()
            &&& win_sum_fits_s(xs)
            &&& s.sum == win_sum_s(xs)
            &&& s.current_val == rat_div_u_s(win_sum_s(xs), xs.len() as int)
        }),
    decreases xs.len(),
{
    let init = ssma_init_s(period);
    let ys = xs.drop_last();
    if xs.len() == 1 {
        assert(ys =~= Seq::<Rat>::empty());
        assert(ssma_run_s(init, ys) == init);
        assert(win_sum_s(ys) == rat_zero());
        assert(win_sum_fits_s(ys));
        assert(win_sum_s(xs) == rat_add_s(rat_zero(), xs.last()));
        assert(ssma_step_fits_s(init, xs.last()));
        assert(ssma_run_s(init, xs) == ssma_next_s(init, xs.last()));
    } else {
        assert(win_wf_s(ys));
        lemma_ssma_warmup_is_mean(period, ys);
        let ps = ssma_run_s(init, ys);
        assert(ssma_step_fits_s(ps, xs.last()));
        assert(ssma_run_s(init, xs) == ssma_next_s(ps, xs.last()));
        assert(count_inc_s(ps.count) == xs.len());
        assert(add_fits_s(ps.sum, xs.last()));
        assert(ps.sum == win_sum_s(ys));
        assert(win_sum_fits_s(ys));
        assert(win_sum_s(xs) == rat_add_s(win_sum_s(ys), xs.last()));
        assert(win_sum_fits_s(xs));
    }
}

/// With period 1, every step after the first emits exactly the sample fed,
/// provided the step computes exactly.
pub proof fn lemma_ssma_period_one(s: SmoothedSimpleMovingAverage, x: Rat)
    requires
        s.wf(),
        s.period == 1,
        s.count >= 1,
        rat_wf(x),
        ssma_step_fits_s(s, x),
    ensures
        rat_eq_s(ssma_next_s(s, x).current_val, x),
{
    let v = ssma_next_s(s, x).current_val;
    let cd = s.current_val.den as int;
    let xn = x.num as int;
    let xd = x.den as int;
    assert(count_inc_s(s.count) > s.period);
    let a = rat_scale_s(s.current_val, s.period - 1);
    assert(a.num == 0 && a.den == s.current_val.den);
    let b = rat_add_s(a, x);
    assert(add_fits_s(a, x));
    assert(1 <= cd * xd) by (nonlinear_arith)
        requires
            1 <= cd,
            1 <= xd,
    ;
    assert(a.num * x.den + x.num * a.den == xn * cd) by (nonlinear_arith)
        requires
            a.num == 0,
            a.den == cd,
            xn == x.num,
            xd == x.den,
    ;
    assert(add_num_s(a, x) == xn * cd);
    assert(add_den_s(a, x) == cd * xd);
    assert(b.num == xn * cd && b.den == cd * xd);
    assert(v == rat_div_u_s(b, s.period as int));
    assert(v.num == xn * cd && v.den == cd * xd);
    assert((xn * cd) * xd == xn * (cd * xd)) by (nonlinear_arith);
}

} // verus!
