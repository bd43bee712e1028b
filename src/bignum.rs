use vstd::prelude::*;
use num_bigint::{BigInt, Sign};

verus! {

/// The value of base-2^32 digits, least significant first.
pub open spec fn digits_value(s: Seq<u32>) -> nat
    decreases s.len(),
{
    if s.len() == 0 {
        0
    } else {
        s[0] as nat + 4294967296 * digits_value(s.drop_first())
    }
}

/// The value of decimal digits, most significant first.
pub open spec fn decimal_value(s: Seq<char>) -> nat
    decreases s.len(),
{
    if s.len() == 0 {
        0
    } else {
        decimal_value(s.drop_last()) * 10 + (s.last() as nat - '0' as nat) as nat
    }
}

pub open spec fn all_decimal_digits(s: Seq<char>) -> bool {
    forall|i: int| 0 <= i < s.len() ==> '0' <= #[trigger] s[i] && s[i] <= '9'
}

/// `a / b` rounded toward zero.
pub open spec fn div_trunc(a: int, b: int) -> int {
    if (a >= 0) == (b > 0) {
        (if a >= 0 { a } else { -a }) / (if b >= 0 { b } else { -b })
    } else {
        -((if a >= 0 { a } else { -a }) / (if b >= 0 { b } else { -b }))
    }
}

/// An integer of any size: a sign and a magnitude in base-2^32 digits,
/// least significant first.
#[derive(Debug)]
pub struct BigNum {
    pub negative: bool,
    pub digits: Vec<u32>,
}

impl BigNum {
    pub open spec fn value(&self) -> int {
        if self.negative {
            -(digits_value(self.digits@) as int)
        } else {
            digits_value(self.digits@) as int
        }
    }
}

/// Relies on num-bigint's `BigInt::from_slice`, `BigInt + BigInt` and
/// `BigInt::to_u32_digits`: the exact sum, in sign and base-2^32 digits.
#[verifier::external_body]
pub(crate) fn big_add(a: &BigNum, b: &BigNum) -> (r: BigNum)
    ensures
        r.value() == a.value() + b.value(),
{
    let x = BigInt::from_slice(if a.negative { Sign::Minus } else { Sign::Plus }, &a.digits);
    let y = BigInt::from_slice(if b.negative { Sign::Minus } else { Sign::Plus }, &b.digits);
    let (sign, digits) = (x + y).to_u32_digits();
    BigNum { negative: sign == Sign::Minus, digits }
}

/// Relies on num-bigint's `BigInt::from_slice`, `BigInt - BigInt` and
/// `BigInt::to_u32_digits`: the exact difference.
#[verifier::external_body]
pub(crate) fn big_sub(a: &BigNum, b: &BigNum) -> (r: BigNum)
    ensures
        r.value() == a.value() - b.value(),
{
    let x = BigInt::from_slice(if a.negative { Sign::Minus } else { Sign::Plus }, &a.digits);
    let y = BigInt::from_slice(if b.negative { Sign::Minus } else { Sign::Plus }, &b.digits);
    let (sign, digits) = (x - y).to_u32_digits();
    BigNum { negative: sign == Sign::Minus, digits }
}

/// Relies on num-bigint's `BigInt::from_slice`, `BigInt * BigInt` and
/// `BigInt::to_u32_digits`: the exact product.
#[verifier::external_body]
pub(crate) fn big_mul(a: &BigNum, b: &BigNum) -> (r: BigNum)
    ensures
        r.value() == a.value() * b.value(),
{
    let x = BigInt::from_slice(if a.negative { Sign::Minus } else { Sign::Plus }, &a.digits);
    let y = BigInt::from_slice(if b.negative { Sign::Minus } else { Sign::Plus }, &b.digits);
    let (sign, digits) = (x * y).to_u32_digits();
    BigNum { negative: sign == Sign::Minus, digits }
}

/// Relies on num-bigint's `BigInt::from_slice`, `BigInt / BigInt` and
/// `BigInt::to_u32_digits`: the quotient rounded toward zero. It panics on a zero divisor, which `requires` leaves out.
#[verifier::external_body]
pub(crate) fn big_div(a: &BigNum, b: &BigNum) -> (r: BigNum)
    requires
        b.value() != 0,
    ensures
        r.value() == div_trunc(a.value(), b.value()),
{
    let x = BigInt::from_slice(if a.negative { Sign::Minus } else { Sign::Plus }, &a.digits);
    let y = BigInt::from_slice(if b.negative { Sign::Minus } else { Sign::Plus }, &b.digits);
    let (sign, digits) = (x / y).to_u32_digits();
    BigNum { negative: sign == Sign::Minus, digits }
}

/// Relies on num-bigint's `BigInt::parse_bytes` in radix 10: a non-empty run
/// of decimal digits reads as its value.
#[verifier::external_body]
pub(crate) fn big_from_decimal(s: &str) -> (r: Option<BigNum>)
    ensures
        s@.len() > 0 && all_decimal_digits(s@) ==> r is Some && r->Some_0.value() == decimal_value(s@),
{
    BigInt::parse_bytes(s.as_bytes(), 10).map(|b| {
        let (sign, digits) = b.to_u32_digits();
        BigNum { negative: sign == Sign::Minus, digits }
    })
}

/// The integer `v`.
pub fn big_from_i64(v: i64) -> (r: BigNum)
    ensures
        r.value() == v,
{
    let negative = v < 0;
    let m: u64 = if v < 0 {
        (-(v as i128)) as u64
    } else {
        v as u64
    };
    let lo = (m % 4294967296) as u32;
    let hi = (m / 4294967296) as u32;
    let digits = vec![lo, hi];
    proof {
        let t = digits@.drop_first();
        assert(t =~= seq![hi]);
        assert(t.drop_first() =~= Seq::<u32>::empty());
        assert(digits_value(t.drop_first()) == 0);
        assert(digits_value(t) == hi as nat);
        assert(digits_value(digits@) == lo as nat + 4294967296 * hi as nat);
        assert(m as nat == lo as nat + 4294967296 * hi as nat);
    }
    BigNum { negative, digits }
}

/// Whether `a` is zero.
pub fn big_is_zero(a: &BigNum) -> (r: bool)
    ensures
        r == (a.value() == 0),
{
    let mut i: usize = 0;
    while i < a.digits.len()
        invariant
            i <= a.digits@.len(),
            forall|k: int| 0 <= k < i ==> a.digits@[k] == 0,
        decreases a.digits@.len() - i,
    {
        if a.digits[i] != 0 {
            proof {
                lemma_nonzero_digit(a.digits@, i as int);
            }
            return false;
        }
        i = i + 1;
    }
    proof {
        lemma_zero_digits(a.digits@);
    }
    true
}

proof fn lemma_zero_digits(s: Seq<u32>)
    requires
        forall|k: int| 0 <= k < s.len() ==> s[k] == 0,
    ensures
        digits_value(s) == 0,
    decreases s.len(),
{
    if s.len() > 0 {
        lemma_zero_digits(s.drop_first());
    }
}

proof fn lemma_nonzero_digit(s: Seq<u32>, i: int)
    requires
        0 <= i < s.len(),
        s[i] != 0,
    ensures
        digits_value(s) > 0,
    decreases s.len(),
{
    if i > 0 {
        lemma_nonzero_digit(s.drop_first(), i - 1);
    }
}

/// The sign of `a`: -1, 0 or 1.
pub fn big_sign(a: &BigNum) -> (r: i8)
    ensures
        r == (if a.value() < 0 { -1int } else if a.value() == 0 { 0int } else { 1int }),
{
    if big_is_zero(a) {
        0
    } else if a.negative {
        -1
    } else {
        1
    }
}

} // verus!
