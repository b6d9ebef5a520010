//! Exact rational arithmetic with bounded components.
//!
//! A sample is an exact rational `num / den`. Components are kept within
//! `[-BOUND, BOUND]` so that every product of two components, and every sum
//! of two such products, fits in `i128`. Each arithmetic operation returns
//! `Some` of the exact (unreduced) result when that result is itself within
//! the bounded range, and `None` otherwise; the specification states the
//! outcome in both cases.

use vstd::prelude::*;

verus! {

/// Largest accepted magnitude for a numerator and largest accepted
/// denominator: 2^62, so a product of two in-range components is at most
/// 2^124 and a sum of two such products at most 2^125, both within `i128`.
pub const BOUND: i128 = 0x4000_0000_0000_0000;

/// An exact rational number `num / den` with a positive denominator.
#[derive(Clone, Copy, Debug, PartialEq, Eq, Structural)]
pub struct Rat {
    pub num: i128,
    pub den: i128,
}

/// Well-formed: positive bounded denominator, bounded numerator.
pub open spec fn rat_wf(a: Rat) -> bool {
    &&& 1 <= a.den <= BOUND
    &&& -BOUND <= a.num <= BOUND
}

/// The rational zero.
pub open spec fn rat_zero() -> Rat {
    Rat { num: 0, den: 1 }
}

/// The neutral indicator value fifty.
pub open spec fn rat_fifty() -> Rat {
    Rat { num: 50, den: 1 }
}

/// The guard threshold 10^-9: a magnitude under it counts as zero.
pub open spec fn rat_eps() -> Rat {
    Rat { num: 1, den: 1_000_000_000 }
}

/// `a` and `b` denote the same rational value.
pub open spec fn rat_eq_s(a: Rat, b: Rat) -> bool {
    a.num * b.den == b.num * a.den
}

/// `a` denotes a strictly smaller value than `b`.
pub open spec fn rat_lt_s(a: Rat, b: Rat) -> bool {
    a.num * b.den < b.num * a.den
}

/// Numerator of the exact sum `a + b`, before the range gate.
pub open spec fn add_num_s(a: Rat, b: Rat) -> int {
    a.num * b.den + b.num * a.den
}

/// Denominator of the exact sum `a + b`, before the range gate.
pub open spec fn add_den_s(a: Rat, b: Rat) -> int {
    a.den * b.den
}

/// The exact sum stays within the bounded range.
pub open spec fn add_fits_s(a: Rat, b: Rat) -> bool {
    &&& -BOUND <= add_num_s(a, b) <= BOUND
    &&& add_den_s(a, b) <= BOUND
}

/// The exact sum `a + b`, meaningful when `add_fits_s(a, b)`.
pub open spec fn rat_add_s(a: Rat, b: Rat) -> Rat {
    Rat { num: add_num_s(a, b) as i128, den: add_den_s(a, b) as i128 }
}

/// Numerator of the exact difference `a - b`, before the range gate.
pub open spec fn sub_num_s(a: Rat, b: Rat) -> int {
    a.num * b.den - b.num * a.den
}

/// The exact difference stays within the bounded range.
pub open spec fn sub_fits_s(a: Rat, b: Rat) -> bool {
    &&& -BOUND <= sub_num_s(a, b) <= BOUND
    &&& add_den_s(a, b) <= BOUND
}

/// The exact difference `a - b`, meaningful when `sub_fits_s(a, b)`.
pub open spec fn rat_sub_s(a: Rat, b: Rat) -> Rat {
    Rat { num: sub_num_s(a, b) as i128, den: add_den_s(a, b) as i128 }
}

/// The exact product `a * k` stays within the bounded range.
pub open spec fn scale_fits_s(a: Rat, k: int) -> bool {
    -BOUND <= a.num * k <= BOUND
}

/// The exact product `a * k`, meaningful when `scale_fits_s(a, k)`.
pub open spec fn rat_scale_s(a: Rat, k: int) -> Rat {
    Rat { num: (a.num * k) as i128, den: a.den }
}

/// The exact quotient `a / k` stays within the bounded range.
pub open spec fn div_u_fits_s(a: Rat, k: int) -> bool {
    a.den * k <= BOUND
}

/// The exact quotient `a / k`, meaningful when `div_u_fits_s(a, k)` and
/// `k >= 1`.
pub open spec fn rat_div_u_s(a: Rat, k: int) -> Rat {
    Rat { num: a.num, den: (a.den * k) as i128 }
}

/// The exact quotient `a / b` stays within the bounded range.
pub open spec fn div_pos_fits_s(a: Rat, b: Rat) -> bool {
    &&& -BOUND <= a.num * b.den <= BOUND
    &&& a.den * b.num <= BOUND
}

/// The exact quotient `a / b`, meaningful when `b.num >= 1` and
/// `div_pos_fits_s(a, b)`.
pub open spec fn rat_div_pos_s(a: Rat, b: Rat) -> Rat {
    Rat { num: (a.num * b.den) as i128, den: (a.den * b.num) as i128 }
}

proof fn lemma_mul_range(x: int, y: int, bx: int, by: int)
    by (nonlinear_arith)
    requires
        0 <= bx,
        0 <= by,
        -bx <= x <= bx,
        -by <= y <= by,
    ensures
        -(bx * by) <= x * y <= bx * by,
{
}

proof fn lemma_mul_pos(x: int, y: int, bx: int, by: int)
    by (nonlinear_arith)
    requires
        1 <= x <= bx,
        1 <= y <= by,
    ensures
        1 <= x * y <= bx * by,
{
}

impl Rat {
    /// Builds the rational `num / den`; rejects a non-positive or
    /// out-of-range denominator and an out-of-range numerator.
    pub fn new(num: i128, den: i128) -> (r: Option<Rat>)
        ensures
            (1 <= den <= BOUND && -BOUND <= num <= BOUND) ==> r == Some(
                Rat { num: num, den: den },
            ),
            !(1 <= den <= BOUND && -BOUND <= num <= BOUND) ==> r is None,
            r matches Some(v) ==> rat_wf(v),
    {
        if 1 <= den && den <= BOUND && -BOUND <= num && num <= BOUND {
            Some(Rat { num, den })
        } else {
            None
        }
    }

    /// Builds the whole number `n`.
    pub fn of_int(n: i32) -> (r: Rat)
        ensures
            r == (Rat { num: n as i128, den: 1 }),
            rat_wf(r),
    {
        Rat { num: n as i128, den: 1 }
    }
}

/// Exact addition, gated on the result staying in range.
pub fn rat_add(a: Rat, b: Rat) -> (r: Option<Rat>)
    requires
        rat_wf(a),
        rat_wf(b),
    ensures
        add_fits_s(a, b) ==> r == Some(rat_add_s(a, b)) && rat_wf(rat_add_s(a, b)),
        !add_fits_s(a, b) ==> r is None,
{
    proof {
        lemma_mul_range(a.num as int, b.den as int, BOUND as int, BOUND as int);
        lemma_mul_range(b.num as int, a.den as int, BOUND as int, BOUND as int);
        lemma_mul_pos(a.den as int, b.den as int, BOUND as int, BOUND as int);
    }
    let n1 = a.num * b.den;
    let n2 = b.num * a.den;
    let n = n1 + n2;
    let d = a.den * b.den;
    if -BOUND <= n && n <= BOUND && d <= BOUND {
        Some(Rat { num: n, den: d })
    } else {
        None
    }
}

/// Exact subtraction, gated on the result staying in range.
pub fn rat_sub(a: Rat, b: Rat) -> (r: Option<Rat>)
    requires
        rat_wf(a),
        rat_wf(b),
    ensures
        sub_fits_s(a, b) ==> r == Some(rat_sub_s(a, b)) && rat_wf(rat_sub_s(a, b)),
        !sub_fits_s(a, b) ==> r is None,
{
    proof {
        lemma_mul_range(a.num as int, b.den as int, BOUND as int, BOUND as int);
        lemma_mul_range(b.num as int, a.den as int, BOUND as int, BOUND as int);
        lemma_mul_pos(a.den as int, b.den as int, BOUND as int, BOUND as int);
    }
    let n1 = a.num * b.den;
    let n2 = b.num * a.den;
    let n = n1 - n2;
    let d = a.den * b.den;
    if -BOUND <= n && n <= BOUND && d <= BOUND {
        Some(Rat { num: n, den: d })
    } else {
        None
    }
}

/// Exact multiplication by a whole number, gated on the result staying in
/// range.
pub fn rat_scale(a: Rat, k: usize) -> (r: Option<Rat>)
    requires
        rat_wf(a),
    ensures
        scale_fits_s(a, k as int) ==> r == Some(rat_scale_s(a, k as int)) && rat_wf(
            rat_scale_s(a, k as int),
        ),
        !scale_fits_s(a, k as int) ==> r is None,
{
    let ki = k as i128;
    proof {
        lemma_mul_range(a.num as int, ki as int, BOUND as int, 0xFFFF_FFFF_FFFF_FFFF);
    }
    let n = a.num * ki;
    if -BOUND <= n && n <= BOUND {
        Some(Rat { num: n, den: a.den })
    } else {
        None
    }
}

/// Exact division by a positive whole number, gated on the result staying
/// in range.
pub fn rat_div_u(a: Rat, k: usize) -> (r: Option<Rat>)
    requires
        rat_wf(a),
        k >= 1,
    ensures
        div_u_fits_s(a, k as int) ==> r == Some(rat_div_u_s(a, k as int)) && rat_wf(
            rat_div_u_s(a, k as int),
        ),
        !div_u_fits_s(a, k as int) ==> r is None,
{
    let ki = k as i128;
    proof {
        lemma_mul_pos(a.den as int, ki as int, BOUND as int, 0xFFFF_FFFF_FFFF_FFFF);
    }
    let d = a.den * ki;
    if d <= BOUND {
        Some(Rat { num: a.num, den: d })
    } else {
        None
    }
}

/// Exact division by a positive rational, gated on the result staying in
/// range.
pub fn rat_div_pos(a: Rat, b: Rat) -> (r: Option<Rat>)
    requires
        rat_wf(a),
        rat_wf(b),
        b.num >= 1,
    ensures
        div_pos_fits_s(a, b) ==> r == Some(rat_div_pos_s(a, b)) && rat_wf(rat_div_pos_s(a, b)),
        !div_pos_fits_s(a, b) ==> r is None,
{
    proof {
        lemma_mul_range(a.num as int, b.den as int, BOUND as int, BOUND as int);
        lemma_mul_pos(a.den as int, b.num as int, BOUND as int, BOUND as int);
    }
    let n = a.num * b.den;
    let d = a.den * b.num;
    if -BOUND <= n && n <= BOUND && d <= BOUND {
        Some(Rat { num: n, den: d })
    } else {
        None
    }
}

/// Exact order test: `a < b`.
pub fn rat_lt(a: Rat, b: Rat) -> (r: bool)
    requires
        rat_wf(a),
        rat_wf(b),
    ensures
        r == rat_lt_s(a, b),
{
    proof {
        lemma_mul_range(a.num as int, b.den as int, BOUND as int, BOUND as int);
        lemma_mul_range(b.num as int, a.den as int, BOUND as int, BOUND as int);
    }
    a.num * b.den < b.num * a.den
}

} // verus!

