//! Relative Strength Index: a momentum oscillator in `[0, 100]` built from
//! two owned moving averages, one over upward moves and one over downward
//! moves.

use vstd::prelude::*;

use crate::errors::TaError;
use crate::indicators::simple_moving_average::{
    lemma_push_preserves, lemma_sma_out_props, lemma_sma_out_zero, sma_out_s, sma_push_s,
    win_nonneg_s, win_wf_s, win_zero_s, SimpleMovingAverage,
};
use crate::rational::{
    add_fits_s, div_pos_fits_s, rat_add, rat_add_s, rat_div_pos, rat_div_pos_s, rat_eps, rat_eq_s,
    rat_fifty, rat_lt, rat_lt_s, rat_scale, rat_scale_s, rat_sub, rat_sub_s, rat_wf, rat_zero,
    scale_fits_s, sub_fits_s, Rat,
};
use crate::Close;

verus! {

/// The abstract state of an RSI instance: the two windows of moves, the
/// previous sample, and whether no sample has been consumed yet.
pub ghost struct RsiModel {
    pub period: nat,
    pub up: Seq<Rat>,
    pub down: Seq<Rat>,
    pub prev: Rat,
    pub is_new: bool,
}

/// Validity of a model: positive period, bounded well-formed non-negative
/// windows, and empty windows exactly while no sample has been consumed.
pub open spec fn rsi_m_wf(m: RsiModel) -> bool {
    &&& 1 <= m.period
    &&& m.up.len() <= m.period
    &&& m.down.len() <= m.period
    &&& win_wf_s(m.up)
    &&& win_wf_s(m.down)
    &&& win_nonneg_s(m.up)
    &&& win_nonneg_s(m.down)
    &&& rat_wf(m.prev)
    &&& (m.is_new ==> m.up.len() == 0 && m.down.len() == 0)
}

/// The model of a freshly-constructed instance.
pub open spec fn rsi_init_m(period: nat) -> RsiModel {
    RsiModel {
        period,
        up: Seq::<Rat>::empty(),
        down: Seq::<Rat>::empty(),
        prev: rat_zero(),
        is_new: true,
    }
}

/// The upward move fed on one step: `x - prev` on a strict rise, zero
/// otherwise (and zero when the exact difference would leave the bounded
/// range, or on the very first step).
pub open spec fn rsi_up_in_s(m: RsiModel, x: Rat) -> Rat {
    if m.is_new {
        rat_zero()
    } else if rat_lt_s(m.prev, x) {
        if sub_fits_s(x, m.prev) {
            rat_sub_s(x, m.prev)
        } else {
            rat_zero()
        }
    } else {
        rat_zero()
    }
}

/// The downward move fed on one step: `prev - x` on a fall or an equal
/// sample, zero otherwise (and zero when the exact difference would leave
/// the bounded range, or on the very first step).
pub open spec fn rsi_down_in_s(m: RsiModel, x: Rat) -> Rat {
    if m.is_new {
        rat_zero()
    } else if rat_lt_s(m.prev, x) {
        rat_zero()
    } else {
        if sub_fits_s(m.prev, x) {
            rat_sub_s(m.prev, x)
        } else {
            rat_zero()
        }
    }
}

/// The model after one step: both windows slide by their fed move, the
/// previous sample becomes the input, and the instance is no longer new.
pub open spec fn rsi_next_m(m: RsiModel, x: Rat) -> RsiModel {
    RsiModel {
        period: m.period,
        up: sma_push_s(m.up, m.period, rsi_up_in_s(m, x)),
        down: sma_push_s(m.down, m.period, rsi_down_in_s(m, x)),
        prev: x,
        is_new: false,
    }
}

/// The oscillator value `100 * u / (u + d)`, or fifty when `u + d` is below
/// the guard threshold or an intermediate result would leave the bounded
/// range.
pub open spec fn rsi_ratio_s(u: Rat, d: Rat) -> Rat {
    if !add_fits_s(u, d) {
        rat_fifty()
    } else {
        let s = rat_add_s(u, d);
        if rat_lt_s(s, rat_eps()) {
            rat_fifty()
        } else if !scale_fits_s(u, 100) {
            rat_fifty()
        } else {
            let t = rat_scale_s(u, 100);
            if div_pos_fits_s(t, s) {
                rat_div_pos_s(t, s)
            } else {
                rat_fifty()
            }
        }
    }
}

/// The value emitted by one step from model `m` on input `x`.
pub open spec fn rsi_out_s(m: RsiModel, x: Rat) -> Rat {
    let n = rsi_next_m(m, x);
    rsi_ratio_s(sma_out_s(n.up), sma_out_s(n.down))
}

/// The model after feeding every sample of `xs` in order.
pub open spec fn rsi_run_m(m: RsiModel, xs: Seq<Rat>) -> RsiModel
    decreases xs.len(),
{
    if xs.len() == 0 {
        m
    } else {
        rsi_next_m(rsi_run_m(m, xs.drop_last()), xs.last())
    }
}

/// The ratio of two well-formed non-negative averages is well-formed and
/// lies between zero and one hundred.
proof fn lemma_rsi_ratio_range(u: Rat, d: Rat)
    requires
        rat_wf(u),
        rat_wf(d),
        u.num >= 0,
        d.num >= 0,
    ensures
        rat_wf(rsi_ratio_s(u, d)),
        rsi_ratio_s(u, d).num >= 0,
        rsi_ratio_s(u, d).num <= 100 * rsi_ratio_s(u, d).den,
{
    let r = rsi_ratio_s(u, d);
    if add_fits_s(u, d) {
        let s = rat_add_s(u, d);
        assert(1 <= u.den * d.den) by (nonlinear_arith)
            requires
                1 <= u.den,
                1 <= d.den,
        ;
        assert(s.num == u.num * d.den + d.num * u.den && s.den == u.den * d.den);
        if !rat_lt_s(s, rat_eps()) {
            assert(s.num >= 1);
            if scale_fits_s(u, 100) {
                let t = rat_scale_s(u, 100);
                assert(t.num == 100 * u.num && t.den == u.den);
                if div_pos_fits_s(t, s) {
                    assert(1 <= t.den * s.num) by (nonlinear_arith)
                        requires
                            1 <= t.den,
                            1 <= s.num,
                    ;
                    assert(r.num == t.num * s.den && r.den == t.den * s.num);
                    assert(t.num * s.den >= 0) by (nonlinear_arith)
                        requires
                            t.num >= 0,
                            s.den >= 1,
                    ;
                    let un = u.num as int;
                    let ud = u.den as int;
                    let dn = d.num as int;
                    let dd = d.den as int;
                    assert((100 * un) * (ud * dd) <= 100 * (ud * (un * dd + dn * ud)))
                        by (nonlinear_arith)
                        requires
                            un >= 0,
                            dn >= 0,
                            ud >= 1,
                            dd >= 1,
                    ;
                }
            }
        }
    }
}

/// Relative Strength Index over a configured period. Owns one moving
/// average of upward moves and one of downward moves, fed in lockstep.
#[derive(Debug, Clone)]
pub struct RelativeStrengthIndex {
    pub period: usize,
    pub up_ma_indicator: SimpleMovingAverage,
    pub down_ma_indicator: SimpleMovingAverage,
    pub prev_val: Rat,
    pub is_new: bool,
}

impl RelativeStrengthIndex {
    /// The abstract state of this instance.
    pub open spec fn model(self) -> RsiModel {
        RsiModel {
            period: self.period as nat,
            up: self.up_ma_indicator.window@,
            down: self.down_ma_indicator.window@,
            prev: self.prev_val,
            is_new: self.is_new,
        }
    }

    /// Structural validity: a valid model carried by two averages that
    /// share the configured period.
    pub open spec fn wf(self) -> bool {
        &&& self.up_ma_indicator.wf()
        &&& self.down_ma_indicator.wf()
        &&& self.up_ma_indicator.period == self.period
        &&& self.down_ma_indicator.period == self.period
        &&& rsi_m_wf(self.model())
    }

    /// Builds a fresh instance; a zero period is rejected.
    pub fn new(period: usize) -> (r: Result<Self, TaError>)
        ensures
            period == 0 ==> r == Err::<Self, TaError>(TaError::InvalidParameter),
            period >= 1 ==> (r matches Ok(v) && v.model() == rsi_init_m(period as nat) && v.wf()
                && v.period == period),
    {
        let up = SimpleMovingAverage::new(period)?;
        let down = SimpleMovingAverage::new(period)?;
        Ok(RelativeStrengthIndex {
            period,
            up_ma_indicator: up,
            down_ma_indicator: down,
            prev_val: Rat { num: 0, den: 1 },
            is_new: true,
        })
    }

    /// Returns the configured period.
    pub fn period(&self) -> (r: usize)
        ensures
            r == self.period,
    {
        self.period
    }

    /// Returns the instance to its freshly-constructed state.
    pub fn reset(&mut self)
        ensures
            final(self).model() == rsi_init_m(old(self).period as nat),
            final(self).period == old(self).period,
            old(self).wf() ==> final(self).wf(),
    {
        self.is_new = true;
        self.prev_val = Rat { num: 0, den: 1 };
        self.up_ma_indicator.reset();
        self.down_ma_indicator.reset();
    }

    /// Advances one sample and returns the oscillator value, which always
    /// lies in `[0, 100]`.
    pub fn next(&mut self, input: Rat) -> (r: Rat)
        requires
            old(self).wf(),
            rat_wf(input),
        ensures
            final(self).wf(),
            final(self).model() == rsi_next_m(old(self).model(), input),
            final(self).period == old(self).period,
            r == rsi_out_s(old(self).model(), input),
            rat_wf(r),
            r.num >= 0,
            r.num <= 100 * r.den,
    {
        let ghost m = old(self).model();
        let up_in: Rat;
        let down_in: Rat;
        if self.is_new {
            self.is_new = false;
            self.prev_val = input;
            up_in = Rat { num: 0, den: 1 };
            down_in = Rat { num: 0, den: 1 };
        } else {
            if rat_lt(self.prev_val, input) {
                up_in = match rat_sub(input, self.prev_val) {
                    Some(v) => v,
                    None => Rat { num: 0, den: 1 },
                };
                down_in = Rat { num: 0, den: 1 };
            } else {
                up_in = Rat { num: 0, den: 1 };
                down_in = match rat_sub(self.prev_val, input) {
                    Some(v) => v,
                    None => Rat { num: 0, den: 1 },
                };
            }
            self.prev_val = input;
        }
        assert(up_in == rsi_up_in_s(m, input) && down_in == rsi_down_in_s(m, input));
        assert(rat_wf(up_in) && rat_wf(down_in));
        assert(up_in.num >= 0 && down_in.num >= 0);
        let u = self.up_ma_indicator.next(up_in);
        let d = self.down_ma_indicator.next(down_in);
        proof {
            assert(win_nonneg_s(self.up_ma_indicator.window@));
            assert(win_nonneg_s(self.down_ma_indicator.window@));
            lemma_sma_out_props(self.up_ma_indicator.window@);
            lemma_sma_out_props(self.down_ma_indicator.window@);
            lemma_rsi_ratio_range(u, d);
        }
        let r = match rat_add(u, d) {
            Some(s) => {
                if rat_lt(s, Rat { num: 1, den: 1_000_000_000 }) {
                    Rat { num: 50, den: 1 }
                } else {
                    assert(!rat_lt_s(s, rat_eps()) && rat_wf(s));
                    assert(s.num * 1_000_000_000 >= 1 * s.den);
                    assert(s.num >= 1) by (nonlinear_arith)
                        requires
                            s.num * 1_000_000_000 >= 1 * s.den,
                            s.den >= 1,
                    ;
                    match rat_scale(u, 100) {
                        Some(t) => match rat_div_pos(t, s) {
                            Some(v) => v,
                            None => Rat { num: 50, den: 1 },
                        },
                        None => Rat { num: 50, den: 1 },
                    }
                }
            },
            None => Rat { num: 50, den: 1 },
        };
        assert(r == rsi_ratio_s(u, d));
        r
    }

    /// Advances one sample taken from the record's close reading.
    pub fn next_of<T: Close>(&mut self, input: &T) -> (r: Rat)
        requires
            old(self).wf(),
            rat_wf(input.close_spec()),
        ensures
            final(self).wf(),
            final(self).model() == rsi_next_m(old(self).model(), input.close_spec()),
            final(self).period == old(self).period,
            r == rsi_out_s(old(self).model(), input.close_spec()),
            rat_wf(r),
            r.num >= 0,
            r.num <= 100 * r.den,
    {
        let x = input.close();
        self.next(x)
    }
}

impl Default for RelativeStrengthIndex {
    /// The default instance uses period 14.
    fn default() -> (r: Self)
        ensures
            r.model() == rsi_init_m(14),
            r.wf(),
            r.period == 14,
    {
        match Self::new(14) {
            Ok(v) => v,
            Err(_) => {
                proof {
                    assert(false);
                }
                RelativeStrengthIndex {
                    period: 14,
                    up_ma_indicator: SimpleMovingAverage { period: 14, window: Vec::new() },
                    down_ma_indicator: SimpleMovingAverage { period: 14, window: Vec::new() },
                    prev_val: Rat { num: 0, den: 1 },
                    is_new: true,
                }
            },
        }
    }
}

/// Two instances in equal states emit identical values on every replayed
/// input prefix; with `reset` and `new` both yielding the fresh model, an
/// instance behaves after a reset exactly as a freshly constructed one.
pub proof fn lemma_rsi_replay_deterministic(a: RsiModel, b: RsiModel, xs: Seq<Rat>)
    requires
        a == b,
    ensures
        rsi_run_m(a, xs) == rsi_run_m(b, xs),
{
}

/// The moves fed on one step are well-formed and non-negative.
proof fn lemma_rsi_inputs(m: RsiModel, x: Rat)
    requires
        rsi_m_wf(m),
        rat_wf(x),
    ensures
        rat_wf(rsi_up_in_s(m, x)),
        rsi_up_in_s(m, x).num >= 0,
        rat_wf(rsi_down_in_s(m, x)),
        rsi_down_in_s(m, x).num >= 0,
{
    let p = m.prev;
    assert(1 <= x.den * p.den) by (nonlinear_arith)
        requires
            1 <= x.den,
            1 <= p.den,
    ;
    assert(1 <= p.den * x.den) by (nonlinear_arith)
        requires
            1 <= x.den,
            1 <= p.den,
    ;
}

/// One step preserves model validity, clears the first-sample flag, and
/// records the sample as the new previous value.
proof fn lemma_rsi_next_wf(m: RsiModel, x: Rat)
    requires
        rsi_m_wf(m),
        rat_wf(x),
    ensures
        rsi_m_wf(rsi_next_m(m, x)),
        !rsi_next_m(m, x).is_new,
        rsi_next_m(m, x).prev == x,
{
    lemma_rsi_inputs(m, x);
    lemma_push_preserves(m.up, m.period, rsi_up_in_s(m, x));
    lemma_push_preserves(m.down, m.period, rsi_down_in_s(m, x));
}

/// One step on a sample at or above the previous one: the window of
/// downward moves stays all-zero, so the emitted value is fifty when the
/// average upward move is zero, and exactly one hundred when that average
/// clears the guard threshold and the final quotient computes exactly.
pub proof fn lemma_rsi_step_nondecreasing(m: RsiModel, x: Rat)
    requires
        rsi_m_wf(m),
        rat_wf(x),
        win_zero_s(m.down),
        !m.is_new,
        !rat_lt_s(x, m.prev),
    ensures
        rsi_m_wf(rsi_next_m(m, x)),
        !rsi_next_m(m, x).is_new,
        rsi_next_m(m, x).prev == x,
        win_zero_s(rsi_next_m(m, x).down),
        sma_out_s(rsi_next_m(m, x).up).num >= 0,
        sma_out_s(rsi_next_m(m, x).down).num == 0,
        sma_out_s(rsi_next_m(m, x).up).num == 0 ==> rsi_out_s(m, x) == rat_fifty(),
        ({
            let u = sma_out_s(rsi_next_m(m, x).up);
            let d = sma_out_s(rsi_next_m(m, x).down);
            &&& ((add_fits_s(u, d) && !rat_lt_s(rat_add_s(u, d), rat_eps()) && scale_fits_s(u, 100)
                && div_pos_fits_s(rat_scale_s(u, 100), rat_add_s(u, d))) ==> rat_eq_s(
                rsi_out_s(m, x),
                (Rat { num: 100, den: 1 }),
            ))
            &&& ((add_fits_s(u, d) && rat_lt_s(rat_add_s(u, d), rat_eps())) ==> rsi_out_s(m, x)
                == rat_fifty())
        }),
{
    lemma_rsi_inputs(m, x);
    lemma_rsi_next_wf(m, x);
    let di = rsi_down_in_s(m, x);
    assert(di.num == 0);
    lemma_push_preserves(m.down, m.period, di);
    let n = rsi_next_m(m, x);
    lemma_sma_out_zero(n.down);
    lemma_sma_out_props(n.up);
    lemma_sma_out_props(n.down);
    let u = sma_out_s(n.up);
    let d = sma_out_s(n.down);
    if add_fits_s(u, d) {
        let s = rat_add_s(u, d);
        assert(1 <= u.den * d.den) by (nonlinear_arith)
            requires
                1 <= u.den,
                1 <= d.den,
        ;
        assert(s.den == u.den * d.den && s.num == u.num * d.den);
        if u.num == 0 {
            assert(u.num * d.den == 0) by (nonlinear_arith)
                requires
                    u.num == 0,
            ;
            assert(s.num == 0);
            assert(rat_lt_s(s, rat_eps()));
            assert(rsi_ratio_s(u, d) == rat_fifty());
        }
        if !rat_lt_s(s, rat_eps()) && scale_fits_s(u, 100) && div_pos_fits_s(
            rat_scale_s(u, 100),
            s,
        ) {
            let t = rat_scale_s(u, 100);
            assert(t.num == 100 * u.num && t.den == u.den);
            assert(s.num * 1_000_000_000 >= 1 * s.den);
            assert(s.num >= 1) by (nonlinear_arith)
                requires
                    s.num * 1_000_000_000 >= 1 * s.den,
                    s.den >= 1,
            ;
            let out = rsi_ratio_s(u, d);
            assert(out == rat_div_pos_s(t, s));
            assert(1 <= t.den * s.num) by (nonlinear_arith)
                requires
                    1 <= t.den,
                    1 <= s.num,
            ;
            assert(out.num == t.num * s.den && out.den == t.den * s.num);
            assert((100 * u.num) * (u.den * d.den) == 100 * (u.den * (u.num * d.den)))
                by (nonlinear_arith);
            assert(rat_eq_s(out, Rat { num: 100, den: 1 }));
        }
    }
}

/// One step on a sample at or below the previous one: the window of upward
/// moves stays all-zero, so the emitted value is fifty when the average
/// downward move is under the guard threshold, and exactly zero when it
/// clears the threshold and the final quotient computes exactly.
pub proof fn lemma_rsi_step_nonincreasing(m: RsiModel, x: Rat)
    requires
        rsi_m_wf(m),
        rat_wf(x),
        win_zero_s(m.up),
        !m.is_new,
        !rat_lt_s(m.prev, x),
    ensures
        rsi_m_wf(rsi_next_m(m, x)),
        !rsi_next_m(m, x).is_new,
        rsi_next_m(m, x).prev == x,
        win_zero_s(rsi_next_m(m, x).up),
        sma_out_s(rsi_next_m(m, x).up).num == 0,
        sma_out_s(rsi_next_m(m, x).down).num >= 0,
        ({
            let u = sma_out_s(rsi_next_m(m, x).up);
            let d = sma_out_s(rsi_next_m(m, x).down);
            &&& (!add_fits_s(u, d) ==> rsi_out_s(m, x) == rat_fifty())
            &&& ((add_fits_s(u, d) && rat_lt_s(rat_add_s(u, d), rat_eps())) ==> rsi_out_s(m, x)
                == rat_fifty())
            &&& ((add_fits_s(u, d) && !rat_lt_s(rat_add_s(u, d), rat_eps())
                && div_pos_fits_s(rat_scale_s(u, 100), rat_add_s(u, d))) ==> rat_eq_s(
                rsi_out_s(m, x),
                rat_zero(),
            ))
        }),
{
    lemma_rsi_inputs(m, x);
    lemma_rsi_next_wf(m, x);
    let ui = rsi_up_in_s(m, x);
    assert(ui.num == 0);
    lemma_push_preserves(m.up, m.period, ui);
    let n = rsi_next_m(m, x);
    lemma_sma_out_zero(n.up);
    lemma_sma_out_props(n.up);
    lemma_sma_out_props(n.down);
    let u = sma_out_s(n.up);
    let d = sma_out_s(n.down);
    if add_fits_s(u, d) {
        let s = rat_add_s(u, d);
        assert(1 <= u.den * d.den) by (nonlinear_arith)
            requires
                1 <= u.den,
                1 <= d.den,
        ;
        assert(s.den == u.den * d.den && s.num == d.num * u.den);
        if !rat_lt_s(s, rat_eps()) {
            assert(scale_fits_s(u, 100));
            let t = rat_scale_s(u, 100);
            assert(t.num == 0 && t.den == u.den);
            if div_pos_fits_s(t, s) {
                assert(s.num * 1_000_000_000 >= 1 * s.den);
                assert(s.num >= 1) by (nonlinear_arith)
                    requires
                        s.num * 1_000_000_000 >= 1 * s.den,
                        s.den >= 1,
                ;
                assert(1 <= t.den * s.num) by (nonlinear_arith)
                    requires
                        1 <= t.den,
                        1 <= s.num,
                ;
                let out = rsi_ratio_s(u, d);
                assert(out == rat_div_pos_s(t, s));
                assert(t.num * s.den == 0) by (nonlinear_arith)
                    requires
                        t.num == 0,
                ;
                assert(out.num == 0);
                assert(rat_eq_s(out, rat_zero()));
            }
        }
    }
}

/// Feeding a non-decreasing run of samples from a fresh instance keeps the
/// window of downward moves all-zero; with `lemma_rsi_step_nondecreasing`,
/// every step after the first then emits one hundred whenever the average
/// upward move clears the guard threshold and fifty when it is zero.
pub proof fn lemma_rsi_nondecreasing_run(p: nat, xs: Seq<Rat>)
    requires
        1 <= p,
        1 <= xs.len(),
        win_wf_s(xs),
        forall|i: int| 0 <= i < xs.len() - 1 ==> !rat_lt_s(#[trigger] xs[i + 1], xs[i]),
    ensures
        ({
            let m = rsi_run_m(rsi_init_m(p), xs);
            &&& rsi_m_wf(m)
            &&& win_zero_s(m.down)
            &&& !m.is_new
            &&& m.prev == xs.last()
        }),
    decreases xs.len(),
{
    let m0 = rsi_init_m(p);
    let ys = xs.drop_last();
    let x = xs.last();
    assert(rat_wf(x));
    if xs.len() == 1 {
        assert(ys =~= Seq::<Rat>::empty());
        assert(rsi_run_m(m0, ys) == m0);
        lemma_rsi_next_wf(m0, x);
        lemma_push_preserves(m0.down, p, rsi_down_in_s(m0, x));
        assert(rsi_down_in_s(m0, x) == rat_zero());
        assert(rsi_run_m(m0, xs) == rsi_next_m(m0, x));
    } else {
        assert forall|i: int| 0 <= i < ys.len() implies rat_wf(#[trigger] ys[i]) by {
            assert(ys[i] == xs[i]);
        }
        assert forall|i: int| 0 <= i < ys.len() - 1 implies !rat_lt_s(
            #[trigger] ys[i + 1],
            ys[i],
        ) by {
            assert(ys[i + 1] == xs[i + 1] && ys[i] == xs[i]);
        }
        lemma_rsi_nondecreasing_run(p, ys);
        let mp = rsi_run_m(m0, ys);
        assert(mp.prev == xs[xs.len() - 2]);
        assert(!rat_lt_s(xs[xs.len() - 2 + 1], xs[xs.len() - 2]));
        lemma_rsi_step_nondecreasing(mp, x);
        assert(rsi_run_m(m0, xs) == rsi_next_m(mp, x));
    }
}

/// On a non-decreasing run of samples fed from a fresh instance, every step
/// after the first sees a zero average downward move and a non-negative
/// average upward move, and hence emits fifty when the average upward move
/// is zero and exactly one hundred when it clears the guard threshold and
/// the final quotient computes exactly.
pub proof fn lemma_rsi_nondecreasing_output(p: nat, xs: Seq<Rat>)
    requires
        1 <= p,
        2 <= xs.len(),
        win_wf_s(xs),
        forall|i: int| 0 <= i < xs.len() - 1 ==> !rat_lt_s(#[trigger] xs[i + 1], xs[i]),
    ensures
        ({
            let mp = rsi_run_m(rsi_init_m(p), xs.drop_last());
            let x = xs.last();
            let u = sma_out_s(rsi_next_m(mp, x).up);
            let d = sma_out_s(rsi_next_m(mp, x).down);
            &&& u.num >= 0
            &&& d.num == 0
            &&& (u.num == 0 ==> rsi_out_s(mp, x) == rat_fifty())
            &&& ((add_fits_s(u, d) && !rat_lt_s(rat_add_s(u, d), rat_eps()) && scale_fits_s(u, 100)
                && div_pos_fits_s(rat_scale_s(u, 100), rat_add_s(u, d))) ==> rat_eq_s(
                rsi_out_s(mp, x),
                (Rat { num: 100, den: 1 }),
            ))
        }),
{
    let ys = xs.drop_last();
    let x = xs.last();
    assert(rat_wf(x));
    assert forall|i: int| 0 <= i < ys.len() implies rat_wf(#[trigger] ys[i]) by {
        assert(ys[i] == xs[i]);
    }
    assert forall|i: int| 0 <= i < ys.len() - 1 implies !rat_lt_s(#[trigger] ys[i + 1], ys[i]) by {
        assert(ys[i + 1] == xs[i + 1] && ys[i] == xs[i]);
    }
    lemma_rsi_nondecreasing_run(p, ys);
    let mp = rsi_run_m(rsi_init_m(p), ys);
    assert(mp.prev == xs[xs.len() - 2]);
    assert(!rat_lt_s(xs[xs.len() - 2 + 1], xs[xs.len() - 2]));
    lemma_rsi_step_nondecreasing(mp, x);
}

/// On a non-increasing run of samples fed from a fresh instance, every step
/// after the first sees a zero average upward move, and hence emits fifty
/// when the average downward move is under the guard threshold and exactly
/// zero when it clears it and the final quotient computes exactly.
pub proof fn lemma_rsi_nonincreasing_output(p: nat, xs: Seq<Rat>)
    requires
        1 <= p,
        2 <= xs.len(),
        win_wf_s(xs),
        forall|i: int| 0 <= i < xs.len() - 1 ==> !rat_lt_s(#[trigger] xs[i], xs[i + 1]),
    ensures
        ({
            let mp = rsi_run_m(rsi_init_m(p), xs.drop_last());
            let x = xs.last();
            let u = sma_out_s(rsi_next_m(mp, x).up);
            let d = sma_out_s(rsi_next_m(mp, x).down);
            &&& u.num == 0
            &&& d.num >= 0
            &&& (!add_fits_s(u, d) ==> rsi_out_s(mp, x) == rat_fifty())
            &&& ((add_fits_s(u, d) && rat_lt_s(rat_add_s(u, d), rat_eps())) ==> rsi_out_s(mp, x)
                == rat_fifty())
            &&& ((add_fits_s(u, d) && !rat_lt_s(rat_add_s(u, d), rat_eps()) && div_pos_fits_s(
                rat_scale_s(u, 100),
                rat_add_s(u, d),
            )) ==> rat_eq_s(rsi_out_s(mp, x), rat_zero()))
        }),
{
    let ys = xs.drop_last();
    let x = xs.last();
    assert(rat_wf(x));
    assert forall|i: int| 0 <= i < ys.len() implies rat_wf(#[trigger] ys[i]) by {
        assert(ys[i] == xs[i]);
    }
    assert forall|i: int| 0 <= i < ys.len() - 1 implies !rat_lt_s(#[trigger] ys[i], ys[i + 1]) by {
        assert(ys[i + 1] == xs[i + 1] && ys[i] == xs[i]);
    }
    lemma_rsi_nonincreasing_run(p, ys);
    let mp = rsi_run_m(rsi_init_m(p), ys);
    assert(mp.prev == xs[xs.len() - 2]);
    assert(!rat_lt_s(xs[xs.len() - 2], xs[xs.len() - 2 + 1]));
    lemma_rsi_step_nonincreasing(mp, x);
}

/// Feeding a non-increasing run of samples from a fresh instance keeps the
/// window of upward moves all-zero; with `lemma_rsi_step_nonincreasing`,
/// every step after the first then emits zero whenever the average downward
/// move clears the guard threshold and fifty when it is under it.
pub proof fn lemma_rsi_nonincreasing_run(p: nat, xs: Seq<Rat>)
    requires
        1 <= p,
        1 <= xs.len(),
        win_wf_s(xs),
        forall|i: int| 0 <= i < xs.len() - 1 ==> !rat_lt_s(#[trigger] xs[i], xs[i + 1]),
    ensures
        ({
            let m = rsi_run_m(rsi_init_m(p), xs);
            &&& rsi_m_wf(m)
            &&& win_zero_s(m.up)
            &&& !m.is_new
            &&& m.prev == xs.last()
        }),
    decreases xs.len(),
{
    let m0 = rsi_init_m(p);
    let ys = xs.drop_last();
    let x = xs.last();
    assert(rat_wf(x));
    if xs.len() == 1 {
        assert(ys =~= Seq::<Rat>::empty());
        assert(rsi_run_m(m0, ys) == m0);
        lemma_rsi_next_wf(m0, x);
        lemma_push_preserves(m0.up, p, rsi_up_in_s(m0, x));
        assert(rsi_up_in_s(m0, x) == rat_zero());
        assert(rsi_run_m(m0, xs) == rsi_next_m(m0, x));
    } else {
        assert forall|i: int| 0 <= i < ys.len() implies rat_wf(#[trigger] ys[i]) by {
            assert(ys[i] == xs[i]);
        }
        assert forall|i: int| 0 <= i < ys.len() - 1 implies !rat_lt_s(
            #[trigger] ys[i],
            ys[i + 1],
        ) by {
            assert(ys[i + 1] == xs[i + 1] && ys[i] == xs[i]);
        }
        lemma_rsi_nonincreasing_run(p, ys);
        let mp = rsi_run_m(m0, ys);
        assert(mp.prev == xs[xs.len() - 2]);
        assert(!rat_lt_s(xs[xs.len() - 2], xs[xs.len() - 2 + 1]));
        lemma_rsi_step_nonincreasing(mp, x);
        assert(rsi_run_m(m0, xs) == rsi_next_m(mp, x));
    }
}

} // verus!
