use vstd::prelude::*;

verus! {

/// Exponential backoff parameters, in seconds.
#[derive(Debug, Clone, Copy)]
pub struct Backoff {
    pub base_secs: i64,
    pub growth_factor: i64,
    pub max_secs: i64,
}

/// `b` raised to the natural power `e`.
pub open spec fn power(b: int, e: nat) -> int
    decreases e,
{
    if e == 0 {
        1
    } else {
        b * power(b, (e - 1) as nat)
    }
}

/// Clamp a mathematical integer into the range of `i64` (saturating semantics).
pub open spec fn sat_i64(x: int) -> int {
    if x > i64::MAX {
        i64::MAX as int
    } else if x < i64::MIN {
        i64::MIN as int
    } else {
        x
    }
}

pub open spec fn min_int(a: int, b: int) -> int {
    if a <= b {
        a
    } else {
        b
    }
}

/// The backoff in seconds after `exp` failures:
/// `min(base * growth^exp, max)`, where each operation saturates at the `i64` bounds.
pub open spec fn spec_calc(backoff: Backoff, exp: nat) -> int {
    min_int(
        sat_i64(backoff.base_secs * sat_i64(power(backoff.growth_factor as int, exp))),
        backoff.max_secs as int,
    )
}

proof fn lemma_power_abs_grows(b: int, i: nat, j: nat)
    requires
        b >= 2 || b <= -2,
        i <= j,
    ensures
        abs_int(power(b, j)) >= abs_int(power(b, i)),
        i < j ==> abs_int(power(b, j)) >= 2 * abs_int(power(b, i)),
    decreases j - i,
{
    if i < j {
        lemma_power_abs_grows(b, i, (j - 1) as nat);
        assert(power(b, j) == b * power(b, (j - 1) as nat));
        lemma_abs_mul(b, power(b, (j - 1) as nat));
        assert(abs_int(b) * abs_int(power(b, (j - 1) as nat)) >= 2 * abs_int(
            power(b, (j - 1) as nat),
        )) by (nonlinear_arith)
            requires
                abs_int(b) >= 2,
                abs_int(power(b, (j - 1) as nat)) >= 0,
        ;
    }
}

pub open spec fn abs_int(x: int) -> int {
    if x < 0 {
        -x
    } else {
        x
    }
}

proof fn lemma_abs_mul(a: int, b: int)
    ensures
        abs_int(a * b) == abs_int(a) * abs_int(b),
{
    if a >= 0 && b >= 0 {
        assert(a * b >= 0) by (nonlinear_arith)
            requires
                a >= 0,
                b >= 0,
        ;
    } else if a >= 0 && b < 0 {
        assert(a * b <= 0) by (nonlinear_arith)
            requires
                a >= 0,
                b < 0,
        ;
        assert(a * (-b) == -(a * b)) by (nonlinear_arith);
    } else if a < 0 && b >= 0 {
        assert(a * b <= 0) by (nonlinear_arith)
            requires
                a < 0,
                b >= 0,
        ;
        assert((-a) * b == -(a * b)) by (nonlinear_arith);
    } else {
        assert(a * b > 0) by (nonlinear_arith)
            requires
                a < 0,
                b < 0,
        ;
        assert((-a) * (-b) == a * b) by (nonlinear_arith);
    }
}

/// The sign of `b^e`: negative exactly when `b` is negative and `e` is odd (for `b != 0`).
proof fn lemma_power_sign(b: int, e: nat)
    requires
        b != 0,
    ensures
        power(b, e) != 0,
        power(b, e) < 0 <==> (b < 0 && e % 2 == 1),
    decreases e,
{
    if e > 0 {
        lemma_power_sign(b, (e - 1) as nat);
        let p = power(b, (e - 1) as nat);
        if b > 0 && p > 0 {
            assert(b * p > 0) by (nonlinear_arith)
                requires
                    b > 0,
                    p > 0,
            ;
        } else if b > 0 && p < 0 {
            assert(b * p < 0) by (nonlinear_arith)
                requires
                    b > 0,
                    p < 0,
            ;
        } else if b < 0 && p > 0 {
            assert(b * p < 0) by (nonlinear_arith)
                requires
                    b < 0,
                    p > 0,
            ;
        } else {
            assert(b * p > 0) by (nonlinear_arith)
                requires
                    b < 0,
                    p < 0,
            ;
        }
    }
}

proof fn lemma_power_one(e: nat)
    ensures
        power(1, e) == 1,
    decreases e,
{
    if e > 0 {
        lemma_power_one((e - 1) as nat);
    }
}

proof fn lemma_power_neg_one(e: nat)
    ensures
        power(-1, e) == (if e % 2 == 0 {
            1int
        } else {
            -1int
        }),
    decreases e,
{
    if e > 0 {
        lemma_power_neg_one((e - 1) as nat);
    }
}

proof fn lemma_power_zero(e: nat)
    ensures
        power(0, e) == (if e == 0 {
            1int
        } else {
            0int
        }),
{
}

/// `i64::saturating_mul`, written out: the product clamped to the `i64` range.
pub fn saturating_mul_i64(a: i64, b: i64) -> (r: i64)
    ensures
        r == sat_i64(a * b),
{
    match a.checked_mul(b) {
        Some(p) => p,
        None => {
            if (a < 0) == (b < 0) {
                assert(a * b > 0) by (nonlinear_arith)
                    requires
                        (a < 0) == (b < 0),
                        a != 0,
                        b != 0,
                {
                }
                i64::MAX
            } else {
                assert(a * b < 0) by (nonlinear_arith)
                    requires
                        (a < 0) != (b < 0),
                        a != 0,
                        b != 0,
                ;
                i64::MIN
            }
        },
    }
}

/// `i64::saturating_pow`, written out: `b^exp` clamped to the `i64` range.
pub fn saturating_pow_i64(b: i64, exp: u32) -> (r: i64)
    ensures
        r == sat_i64(power(b as int, exp as nat)),
{
    if b == 0 {
        proof {
            lemma_power_zero(exp as nat);
        }
        return if exp == 0 {
            1
        } else {
            0
        };
    }
    if b == 1 {
        proof {
            lemma_power_one(exp as nat);
        }
        return 1;
    }
    if b == -1 {
        proof {
            lemma_power_neg_one(exp as nat);
        }
        return if exp % 2 == 0 {
            1
        } else {
            -1
        };
    }
    let mut acc: i64 = 1;
    let mut i: u32 = 0;
    while i < exp
        invariant
            i <= exp,
            acc as int == power(b as int, i as nat),
            b >= 2 || b <= -2,
        decreases exp - i,
    {
        match acc.checked_mul(b) {
            Some(p) => {
                acc = p;
                i = i + 1;
            },
            None => {
                proof {
                    let v = acc * b;
                    assert(power(b as int, (i + 1) as nat) == b * power(b as int, i as nat));
                    lemma_power_abs_grows(b as int, (i + 1) as nat, exp as nat);
                    lemma_power_sign(b as int, exp as nat);
                    assert(abs_int(v) > i64::MAX);
                }
                return if b < 0 && exp % 2 == 1 {
                    i64::MIN
                } else {
                    i64::MAX
                };
            },
        }
    }
    acc
}

/// The cooldown, in seconds, after `exp` consecutive failures.
pub fn calc(backoff: &Backoff, exp: u32) -> (r: i64)
    ensures
        r == spec_calc(*backoff, exp as nat),
{
    let calculated = saturating_mul_i64(
        backoff.base_secs,
        saturating_pow_i64(backoff.growth_factor, exp),
    );
    if calculated <= backoff.max_secs {
        calculated
    } else {
        backoff.max_secs
    }
}

proof fn lemma_power_monotone(g: int, e1: nat, e2: nat)
    requires
        g >= 1,
        e1 <= e2,
    ensures
        1 <= power(g, e1) <= power(g, e2),
    decreases e2,
{
    if e2 > 0 {
        if e1 < e2 {
            lemma_power_monotone(g, e1, (e2 - 1) as nat);
        } else {
            lemma_power_monotone(g, (e2 - 1) as nat, (e2 - 1) as nat);
        }
        let p = power(g, (e2 - 1) as nat);
        assert(g * p >= p) by (nonlinear_arith)
            requires
                g >= 1,
                p >= 1,
        ;
    }
}

/// The cooldown never exceeds the backoff's cap.
pub proof fn lemma_calc_capped(backoff: Backoff, exp: nat)
    ensures
        spec_calc(backoff, exp) <= backoff.max_secs,
{
}

/// With a non-negative base and a growth factor of at least one, the cooldown never
/// shrinks as failures accumulate.
pub proof fn lemma_calc_monotone(backoff: Backoff, e1: nat, e2: nat)
    requires
        backoff.base_secs >= 0,
        backoff.growth_factor >= 1,
        e1 <= e2,
    ensures
        spec_calc(backoff, e1) <= spec_calc(backoff, e2),
{
    let g = backoff.growth_factor as int;
    let b = backoff.base_secs as int;
    lemma_power_monotone(g, e1, e2);
    let p1 = sat_i64(power(g, e1));
    let p2 = sat_i64(power(g, e2));
    assert(p1 <= p2);
    assert(b * p1 <= b * p2) by (nonlinear_arith)
        requires
            b >= 0,
            p1 <= p2,
    ;
}


/// Below the cap, the cooldown is the plain exponential `base * growth^exp`, and each
/// further failure multiplies it by the growth factor.
pub proof fn lemma_calc_below_cap_is_exponential(backoff: Backoff, exp: nat)
    requires
        backoff.base_secs >= 0,
        backoff.growth_factor >= 1,
        power(backoff.growth_factor as int, exp + 1) <= i64::MAX,
        backoff.base_secs * power(backoff.growth_factor as int, exp + 1) <= backoff.max_secs,
    ensures
        spec_calc(backoff, exp) == backoff.base_secs * power(backoff.growth_factor as int, exp),
        0 <= spec_calc(backoff, exp) <= spec_calc(backoff, exp + 1),
        spec_calc(backoff, exp + 1) == backoff.base_secs * power(
            backoff.growth_factor as int,
            exp + 1,
        ),
        spec_calc(backoff, exp + 1) == backoff.growth_factor * spec_calc(backoff, exp),
{
    let g = backoff.growth_factor as int;
    let b = backoff.base_secs as int;
    lemma_power_monotone(g, exp, exp + 1);
    let p0 = power(g, exp);
    let p1 = power(g, exp + 1);
    assert(p1 == g * p0);
    assert(0 <= b * p0 <= b * p1) by (nonlinear_arith)
        requires
            b >= 0,
            1 <= p0 <= p1,
    ;
    assert(b * p1 == g * (b * p0)) by (nonlinear_arith)
        requires
            p1 == g * p0,
    ;
}

} // verus!
