use vstd::prelude::*;
use crate::bignum::{big_add, big_div, big_from_i64, big_mul, big_sign, big_sub, div_trunc, BigNum};

verus! {

/// The mathematical value of a `Number`: a fraction `n / d` with `d > 0`, an
/// infinity, or not a number.
pub enum Num {
    Fin(int, int),
    PosInf,
    NegInf,
    NaN,
}

/// The largest cost: 2^256 - 1, that is (2^32)^8 - 1.
pub open spec fn max_cost() -> int {
    4294967296 * 4294967296 * 4294967296 * 4294967296 * 4294967296 * 4294967296 * 4294967296 * 4294967296 - 1
}

pub open spec fn inf(positive: bool) -> Num {
    if positive { Num::PosInf } else { Num::NegInf }
}

pub open spec fn spec_neg(a: Num) -> Num {
    match a {
        Num::Fin(n, d) => Num::Fin(-n, d),
        Num::PosInf => Num::NegInf,
        Num::NegInf => Num::PosInf,
        Num::NaN => Num::NaN,
    }
}

pub open spec fn spec_add(a: Num, b: Num) -> Num {
    match (a, b) {
        (Num::NaN, _) | (_, Num::NaN) => Num::NaN,
        (Num::PosInf, Num::NegInf) | (Num::NegInf, Num::PosInf) => Num::NaN,
        (Num::PosInf, _) | (_, Num::PosInf) => Num::PosInf,
        (Num::NegInf, _) | (_, Num::NegInf) => Num::NegInf,
        (Num::Fin(n1, d1), Num::Fin(n2, d2)) => Num::Fin(n1 * d2 + n2 * d1, d1 * d2),
    }
}

pub open spec fn spec_sub(a: Num, b: Num) -> Num {
    spec_add(a, spec_neg(b))
}

pub open spec fn spec_mul(a: Num, b: Num) -> Num {
    match (a, b) {
        (Num::NaN, _) | (_, Num::NaN) => Num::NaN,
        (Num::Fin(n1, d1), Num::Fin(n2, d2)) => Num::Fin(n1 * n2, d1 * d2),
        (Num::Fin(n, _), x) | (x, Num::Fin(n, _)) => if n == 0 {
            Num::NaN
        } else {
            inf((n > 0) == (x is PosInf))
        },
        (x, y) => inf((x is PosInf) == (y is PosInf)),
    }
}

pub open spec fn spec_div(a: Num, b: Num) -> Num {
    match (a, b) {
        (Num::NaN, _) | (_, Num::NaN) => Num::NaN,
        (Num::Fin(n1, d1), Num::Fin(n2, d2)) => if n2 == 0 {
            if n1 == 0 { Num::NaN } else { inf(n1 > 0) }
        } else if n2 > 0 {
            Num::Fin(n1 * d2, d1 * n2)
        } else {
            Num::Fin(-(n1 * d2), -(d1 * n2))
        },
        (Num::Fin(_, _), _) => Num::Fin(0, 1),
        (x, Num::Fin(n, _)) => if n == 0 {
            x
        } else {
            inf((n > 0) == (x is PosInf))
        },
        (_, _) => Num::NaN,
    }
}

/// The order of `a` and `b`: -1, 0 or 1; 2 when either is not a number.
pub open spec fn spec_cmp(a: Num, b: Num) -> int {
    match (a, b) {
        (Num::NaN, _) | (_, Num::NaN) => 2,
        (Num::Fin(n1, d1), Num::Fin(n2, d2)) => if n1 * d2 < n2 * d1 {
            -1
        } else if n1 * d2 == n2 * d1 {
            0
        } else {
            1
        },
        (Num::PosInf, Num::PosInf) | (Num::NegInf, Num::NegInf) => 0,
        (Num::NegInf, _) | (_, Num::PosInf) => -1,
        (_, _) => 1,
    }
}

/// The cost that a number stands for: its value rounded toward zero, then
/// held within `[0, max_cost()]`; none for an infinity or not a number.
pub open spec fn spec_to_cost(a: Num) -> Option<int> {
    match a {
        Num::Fin(n, d) => {
            let t = div_trunc(n, d);
            Some(if t < 0 { 0 } else if t > max_cost() { max_cost() } else { t })
        },
        _ => None,
    }
}

/// A number of the expression language: an exact fraction, an infinity (from
/// a division by zero), or not a number.
#[derive(Debug)]
pub enum Number {
    Finite(BigNum, BigNum),
    PosInf,
    NegInf,
    NaN,
}

impl Number {
    pub open spec fn num(&self) -> Num {
        match self {
            Number::Finite(n, d) => Num::Fin(n.value(), d.value()),
            Number::PosInf => Num::PosInf,
            Number::NegInf => Num::NegInf,
            Number::NaN => Num::NaN,
        }
    }

    /// A finite number has a positive denominator.
    pub open spec fn wf(&self) -> bool {
        self matches Number::Finite(_, d) ==> d.value() > 0
    }
}

fn infinity(positive: bool) -> (r: Number)
    ensures
        r.num() == inf(positive),
        r.wf(),
{
    if positive { Number::PosInf } else { Number::NegInf }
}

/// The integer `v`.
pub fn number_from_big(v: BigNum) -> (r: Number)
    ensures
        r.num() == Num::Fin(v.value(), 1),
        r.wf(),
{
    Number::Finite(v, big_from_i64(1))
}

pub fn num_neg(a: &Number) -> (r: Number)
    requires
        a.wf(),
    ensures
        r.wf(),
        r.num() == spec_neg(a.num()),
{
    match a {
        Number::Finite(n, d) => Number::Finite(big_sub(&big_from_i64(0), n), big_add(&big_from_i64(0), d)),
        Number::PosInf => Number::NegInf,
        Number::NegInf => Number::PosInf,
        Number::NaN => Number::NaN,
    }
}

pub fn num_add(a: &Number, b: &Number) -> (r: Number)
    requires
        a.wf(),
        b.wf(),
    ensures
        r.wf(),
        r.num() == spec_add(a.num(), b.num()),
{
    match (a, b) {
        (Number::NaN, _) | (_, Number::NaN) => Number::NaN,
        (Number::PosInf, Number::NegInf) | (Number::NegInf, Number::PosInf) => Number::NaN,
        (Number::PosInf, _) | (_, Number::PosInf) => Number::PosInf,
        (Number::NegInf, _) | (_, Number::NegInf) => Number::NegInf,
        (Number::Finite(n1, d1), Number::Finite(n2, d2)) => {
            let d = big_mul(d1, d2);
            proof {
                assert(d1.value() * d2.value() > 0) by (nonlinear_arith)
                    requires
                        d1.value() > 0,
                        d2.value() > 0,
                ;
            }
            Number::Finite(big_add(&big_mul(n1, d2), &big_mul(n2, d1)), d)
        },
    }
}

pub fn num_sub(a: &Number, b: &Number) -> (r: Number)
    requires
        a.wf(),
        b.wf(),
    ensures
        r.wf(),
        r.num() == spec_sub(a.num(), b.num()),
{
    num_add(a, &num_neg(b))
}

pub fn num_mul(a: &Number, b: &Number) -> (r: Number)
    requires
        a.wf(),
        b.wf(),
    ensures
        r.wf(),
        r.num() == spec_mul(a.num(), b.num()),
{
    match (a, b) {
        (Number::NaN, _) | (_, Number::NaN) => Number::NaN,
        (Number::Finite(n1, d1), Number::Finite(n2, d2)) => {
            proof {
                assert(d1.value() * d2.value() > 0) by (nonlinear_arith)
                    requires
                        d1.value() > 0,
                        d2.value() > 0,
                ;
            }
            Number::Finite(big_mul(n1, n2), big_mul(d1, d2))
        },
        (Number::Finite(n, _), x) | (x, Number::Finite(n, _)) => {
            let s = big_sign(n);
            if s == 0 {
                Number::NaN
            } else {
                let xpos = match x {
                    Number::PosInf => true,
                    _ => false,
                };
                infinity((s > 0) == xpos)
            }
        },
        (x, y) => {
            let xpos = match x {
                Number::PosInf => true,
                _ => false,
            };
            let ypos = match y {
                Number::PosInf => true,
                _ => false,
            };
            infinity(xpos == ypos)
        },
    }
}

pub fn num_div(a: &Number, b: &Number) -> (r: Number)
    requires
        a.wf(),
        b.wf(),
    ensures
        r.wf(),
        r.num() == spec_div(a.num(), b.num()),
{
    match (a, b) {
        (Number::NaN, _) | (_, Number::NaN) => Number::NaN,
        (Number::Finite(n1, d1), Number::Finite(n2, d2)) => {
            let s2 = big_sign(n2);
            if s2 == 0 {
                let s1 = big_sign(n1);
                if s1 == 0 {
                    Number::NaN
                } else {
                    infinity(s1 > 0)
                }
            } else if s2 > 0 {
                proof {
                    assert(d1.value() * n2.value() > 0) by (nonlinear_arith)
                        requires
                            d1.value() > 0,
                            n2.value() > 0,
                    ;
                }
                Number::Finite(big_mul(n1, d2), big_mul(d1, n2))
            } else {
                proof {
                    assert(-(d1.value() * n2.value()) > 0) by (nonlinear_arith)
                        requires
                            d1.value() > 0,
                            n2.value() < 0,
                    ;
                }
                let zero = big_from_i64(0);
                Number::Finite(big_sub(&zero, &big_mul(n1, d2)), big_sub(&zero, &big_mul(d1, n2)))
            }
        },
        (Number::Finite(_, _), _) => Number::Finite(big_from_i64(0), big_from_i64(1)),
        (x, Number::Finite(n, _)) => {
            let s = big_sign(n);
            let xpos = match x {
                Number::PosInf => true,
                _ => false,
            };
            if s == 0 {
                infinity(xpos)
            } else {
                infinity((s > 0) == xpos)
            }
        },
        (_, _) => Number::NaN,
    }
}

/// Compares `a` with `b`: -1, 0 or 1; 2 when either is not a number.
pub fn compare(a: &Number, b: &Number) -> (r: i8)
    requires
        a.wf(),
        b.wf(),
    ensures
        r == spec_cmp(a.num(), b.num()),
{
    match (a, b) {
        (Number::NaN, _) | (_, Number::NaN) => 2,
        (Number::Finite(n1, d1), Number::Finite(n2, d2)) => big_sign(&big_sub(&big_mul(n1, d2), &big_mul(n2, d1))),
        (Number::PosInf, Number::PosInf) | (Number::NegInf, Number::NegInf) => 0,
        (Number::NegInf, _) | (_, Number::PosInf) => -1,
        (_, _) => 1,
    }
}

/// The largest cost, 2^256 - 1.
pub fn max_cost_value() -> (r: BigNum)
    ensures
        r.value() == max_cost(),
{
    let m: u32 = 4294967295;
    let digits = vec![m, m, m, m, m, m, m, m];
    proof {
        reveal_with_fuel(crate::bignum::digits_value, 9);
        assert(digits@.drop_first().drop_first().drop_first().drop_first().drop_first().drop_first().drop_first().drop_first()
            =~= Seq::<u32>::empty());
    }
    BigNum { negative: false, digits }
}

/// The cost that `a` stands for: its value rounded toward zero and held
/// within `[0, 2^256 - 1]`; `None` for an infinity or not a number.
pub fn to_cost(a: &Number) -> (r: Option<BigNum>)
    requires
        a.wf(),
    ensures
        match r {
            Some(c) => spec_to_cost(a.num()) == Some(c.value()),
            None => spec_to_cost(a.num()) is None,
        },
{
    match a {
        Number::Finite(n, d) => {
            let t = big_div(n, d);
            if big_sign(&t) < 0 {
                Some(big_from_i64(0))
            } else {
                let m = max_cost_value();
                if big_sign(&big_sub(&t, &m)) > 0 {
                    Some(m)
                } else {
                    Some(t)
                }
            }
        },
        _ => None,
    }
}

} // verus!
