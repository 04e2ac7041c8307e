//! Exact decimal amounts, held as a whole number of fixed fractional units.
use std::str::FromStr;
use vstd::prelude::*;
use vstd::utf8::encode_utf8;

verus! {

/// How many decimal places an `Amount` keeps exactly.
pub const DECIMAL_PLACES: i64 = 18;

/// Ten to the power `n`.
pub open spec fn pow10(n: nat) -> int
    decreases n,
{
    if n == 0 {
        1
    } else {
        10 * pow10((n - 1) as nat)
    }
}

/// Whether `x` can be held by an `i128`.
pub open spec fn in_i128(x: int) -> bool {
    i128::MIN <= x <= i128::MAX
}

/// An exact decimal value: `units` counts steps of ten to the power `-DECIMAL_PLACES`.
#[derive(Clone, Copy, Debug, PartialEq, Eq, Structural)]
pub struct Amount {
    pub units: i128,
}

impl View for Amount {
    type V = int;

    open spec fn view(&self) -> int {
        self.units as int
    }
}

/// The number of units in the decimal `mantissa * 10^(-scale)`, where that number is whole.
pub open spec fn scaled_units(mantissa: int, scale: int) -> Option<int> {
    if scale <= DECIMAL_PLACES {
        Some(mantissa * pow10((DECIMAL_PLACES - scale) as nat))
    } else if mantissa % pow10((scale - DECIMAL_PLACES) as nat) == 0 {
        Some(mantissa / pow10((scale - DECIMAL_PLACES) as nat))
    } else {
        None
    }
}

/// The amount equal to `mantissa * 10^(-scale)`, where it is held exactly.
pub open spec fn amount_of_parts(mantissa: int, scale: int) -> Option<Amount> {
    match scaled_units(mantissa, scale) {
        Some(u) => if in_i128(u) {
            Some(Amount { units: u as i128 })
        } else {
            None
        },
        None => None,
    }
}

/// The digits and the scale of the decimal number that `BigDecimal::from_str` reads from the text.
pub uninterp spec fn decimal_parts(s: Seq<char>) -> Option<(int, int)>;

/// The amount that a text denotes, where it is a decimal number whose digits fit an `i128`.
pub open spec fn parsed_amount(parts: Option<(int, int)>) -> Option<Amount> {
    match parts {
        Some((m, e)) => if in_i128(m) {
            amount_of_parts(m, e)
        } else {
            None
        },
        None => None,
    }
}

/// The longest exponent, in bytes after the `e` or `E`, that a decimal text may have.
pub const MAX_EXPONENT_LEN: usize = 18;

/// The longest decimal text, in bytes.
pub const MAX_TEXT_LEN: u64 = 4611686018427387904;

/// Whether some `e` or `E` of the UTF-8 text is followed by more than `MAX_EXPONENT_LEN` bytes.
pub open spec fn has_long_exponent(b: Seq<u8>) -> bool {
    exists|i: int|
        0 <= i < b.len() && (b[i] == 0x65u8 || b[i] == 0x45u8) && b.len() - i - 1
            > MAX_EXPONENT_LEN
}

/// Whether a text is short enough, and its exponent short enough, to be read as a decimal.
/// Such a text keeps the scale that `BigDecimal::from_str` computes within an `i64`;
/// a text with a longer exponent is refused.
pub open spec fn readable_text(s: Seq<char>) -> bool {
    encode_utf8(s).len() <= MAX_TEXT_LEN && !has_long_exponent(encode_utf8(s))
}

/// The amount that a text denotes: `None` where it is not readable, is no decimal number,
/// or is one whose digits do not fit an `i128` or that an `Amount` cannot hold exactly.
pub open spec fn amount_of_text(s: Seq<char>) -> Option<Amount> {
    if readable_text(s) {
        parsed_amount(decimal_parts(s))
    } else {
        None
    }
}

/// Relies on `bigdecimal::BigDecimal::from_str` to read a decimal number, then on
/// `ToPrimitive::to_i128` of num-bigint, which gives the digits exactly or nothing.
/// `from_str` subtracts the exponent from the count of fractional digits in an `i64`;
/// `requires` keeps that difference in range.
#[verifier::external_body]
fn parse_decimal(s: &str) -> (r: Option<(i128, i64)>)
    requires
        readable_text(s@),
    ensures
        match r {
            Some((m, e)) => decimal_parts(s@) == Some((m as int, e as int)),
            None => match decimal_parts(s@) {
                Some((m, _)) => !in_i128(m),
                None => true,
            },
        },
{
    let (digits, scale) = bigdecimal::BigDecimal::from_str(s).ok()?.into_bigint_and_exponent();
    bigdecimal::ToPrimitive::to_i128(&digits).map(|m| (m, scale))
}

proof fn lemma_pow10_positive(n: nat)
    ensures
        pow10(n) >= 1,
    decreases n,
{
    if n > 0 {
        lemma_pow10_positive((n - 1) as nat);
    }
}

proof fn lemma_pow10_add(a: nat, b: nat)
    ensures
        pow10(a + b) == pow10(a) * pow10(b),
    decreases a,
{
    if a > 0 {
        lemma_pow10_add((a - 1) as nat, b);
        assert(pow10(a + b) == 10 * pow10((a - 1 + b) as nat));
        assert(10 * (pow10((a - 1) as nat) * pow10(b)) == (10 * pow10((a - 1) as nat)) * pow10(b))
            by (nonlinear_arith);
    }
}

/// Scaling a number that is already out of range by a further power of ten keeps it out of range.
proof fn lemma_scaled_out_of_range(m: int, i: nat, k: nat)
    requires
        i <= k,
        !in_i128(m * pow10(i)),
    ensures
        !in_i128(m * pow10(k)),
{
    let x = m * pow10(i);
    let q = pow10((k - i) as nat);
    lemma_pow10_add(i, (k - i) as nat);
    lemma_pow10_positive((k - i) as nat);
    assert(m * pow10(k) == x * q) by (nonlinear_arith)
        requires
            pow10(k) == pow10(i) * q,
            x == m * pow10(i),
    ;
    assert(x > i128::MAX ==> x * q >= x) by (nonlinear_arith)
        requires
            q >= 1,
    ;
    assert(x < i128::MIN ==> x * q <= x) by (nonlinear_arith)
        requires
            q >= 1,
    ;
}

/// A multiple of `10^i` whose cofactor is not a multiple of ten is not a multiple of `10^k`, `k > i`.
proof fn lemma_not_multiple(m: int, c: int, i: nat, k: nat)
    requires
        i < k,
        m == c * pow10(i),
        c % 10 != 0,
    ensures
        m % pow10(k) != 0,
{
    let p = pow10(i);
    let r = pow10((k - i - 1) as nat);
    lemma_pow10_positive(i);
    lemma_pow10_positive((k - i - 1) as nat);
    lemma_pow10_add(i, (k - i) as nat);
    assert(pow10((k - i) as nat) == 10 * r);
    let pk = pow10(k);
    lemma_pow10_positive(k);
    assert(pk == p * (10 * r));
    if m % pk == 0 {
        let q = m / pk;
        assert(m == pk * q) by {
            vstd::arithmetic::div_mod::lemma_fundamental_div_mod(m, pk);
        }
        assert(c * p == (10 * (r * q)) * p) by (nonlinear_arith)
            requires
                m == c * p,
                m == pk * q,
                pk == p * (10 * r),
        ;
        assert(c == 10 * (r * q)) by (nonlinear_arith)
            requires
                c * p == (10 * (r * q)) * p,
                p >= 1,
        ;
        assert(c % 10 == 0) by {
            vstd::arithmetic::div_mod::lemma_mod_multiples_basic(r * q, 10);
        }
    }
}

/// The amount holding exactly `x` units.
pub open spec fn amount_of_units(x: int) -> Amount {
    Amount { units: x as i128 }
}

/// The sum or difference `x`, where an `Amount` can hold it.
pub open spec fn checked_result(x: int) -> Option<Amount> {
    if in_i128(x) {
        Some(amount_of_units(x))
    } else {
        None
    }
}

impl Default for Amount {
    fn default() -> (r: Amount)
        ensures
            r@ == 0,
    {
        Amount { units: 0 }
    }
}

impl Amount {
    /// `self + other`, or `None` where the sum lies outside the range of an `Amount`.
    pub fn checked_add(self, other: Amount) -> (r: Option<Amount>)
        ensures
            r == checked_result(self@ + other@),
    {
        match self.units.checked_add(other.units) {
            Some(u) => Some(Amount { units: u }),
            None => None,
        }
    }

    /// `self - other`, or `None` where the difference lies outside the range of an `Amount`.
    pub fn checked_sub(self, other: Amount) -> (r: Option<Amount>)
        ensures
            r == checked_result(self@ - other@),
    {
        match self.units.checked_sub(other.units) {
            Some(u) => Some(Amount { units: u }),
            None => None,
        }
    }

    /// `-self`, or `None` where the negation lies outside the range of an `Amount`.
    pub fn checked_neg(self) -> (r: Option<Amount>)
        ensures
            r == checked_result(-self@),
    {
        Amount::zero().checked_sub(self)
    }

    /// The amount zero.
    pub fn zero() -> (r: Amount)
        ensures
            r@ == 0,
    {
        Amount { units: 0 }
    }

    /// The amount `mantissa * 10^(-scale)`, or `None` where it has more than
    /// `DECIMAL_PLACES` decimal places or lies outside the range of an `Amount`.
    pub fn from_parts(mantissa: i128, scale: i64) -> (r: Option<Amount>)
        ensures
            r == amount_of_parts(mantissa as int, scale as int),
    {
        if mantissa == 0 {
            proof {
                if scale > DECIMAL_PLACES {
                    let p = pow10((scale - DECIMAL_PLACES) as nat);
                    lemma_pow10_positive((scale - DECIMAL_PLACES) as nat);
                    vstd::arithmetic::div_mod::lemma_mod_multiples_basic(0, p);
                    vstd::arithmetic::div_mod::lemma_div_multiples_vanish(0, p);
                }
            }
            return Some(Amount { units: 0 });
        }
        if scale <= DECIMAL_PLACES {
            let k: u128 = (DECIMAL_PLACES as i128 - scale as i128) as u128;
            let mut cur: i128 = mantissa;
            let mut i: u128 = 0;
            while i < k
                invariant
                    i <= k,
                    k == DECIMAL_PLACES - scale,
                    cur == mantissa * pow10(i as nat),
                decreases k - i,
            {
                assert(mantissa * pow10((i + 1) as nat) == cur * 10) by (nonlinear_arith)
                    requires
                        cur == mantissa * pow10(i as nat),
                        pow10((i + 1) as nat) == 10 * pow10(i as nat),
                ;
                match cur.checked_mul(10) {
                    Some(next) => {
                        cur = next;
                    },
                    None => {
                        proof {
                            lemma_scaled_out_of_range(mantissa as int, (i + 1) as nat, k as nat);
                        }
                        return None;
                    },
                }
                i = i + 1;
            }
            Some(Amount { units: cur })
        } else {
            let k: u64 = (scale - DECIMAL_PLACES) as u64;
            let mut cur: i128 = mantissa;
            let mut i: u64 = 0;
            while i < k
                invariant
                    i <= k,
                    k == scale - DECIMAL_PLACES,
                    mantissa == cur * pow10(i as nat),
                decreases k - i,
            {
                if cur % 10 != 0 {
                    proof {
                        lemma_not_multiple(mantissa as int, cur as int, i as nat, k as nat);
                    }
                    return None;
                }
                let next: i128 = cur / 10;
                assert(cur == next * 10);
                assert(mantissa == next * pow10((i + 1) as nat)) by (nonlinear_arith)
                    requires
                        mantissa == cur * pow10(i as nat),
                        cur == next * 10,
                        pow10((i + 1) as nat) == 10 * pow10(i as nat),
                ;
                cur = next;
                i = i + 1;
            }
            proof {
                let p = pow10(k as nat);
                lemma_pow10_positive(k as nat);
                vstd::arithmetic::div_mod::lemma_mod_multiples_basic(cur as int, p);
                vstd::arithmetic::div_mod::lemma_div_multiples_vanish(cur as int, p);
                assert(cur * p == p * cur) by (nonlinear_arith);
            }
            Some(Amount { units: cur })
        }
    }

    /// Whether `s` is short enough, and its exponent short enough, to be read as a decimal.
    pub fn is_readable(s: &str) -> (r: bool)
        ensures
            r == readable_text(s@),
    {
        let bytes = s.as_bytes();
        let n = bytes.len();
        if n as u64 > MAX_TEXT_LEN {
            return false;
        }
        let mut i: usize = 0;
        while i < n
            invariant
                i <= n,
                n == bytes@.len(),
                bytes@ == encode_utf8(s@),
                forall|j: int|
                    0 <= j < i ==> !((bytes@[j] == 0x65u8 || bytes@[j] == 0x45u8) && n - j - 1
                        > MAX_EXPONENT_LEN),
            decreases n - i,
        {
            if (bytes[i] == 0x65u8 || bytes[i] == 0x45u8) && n - i - 1 > MAX_EXPONENT_LEN {
                return false;
            }
            i = i + 1;
        }
        true
    }

    /// The amount that the decimal text `s` denotes; `None` where `s` is not readable,
    /// is no decimal number, or is one that an `Amount` cannot hold exactly.
    pub fn parse(s: &str) -> (r: Option<Amount>)
        ensures
            r == amount_of_text(s@),
    {
        if !Amount::is_readable(s) {
            return None;
        }
        match parse_decimal(s) {
            Some((mantissa, scale)) => Amount::from_parts(mantissa, scale),
            None => None,
        }
    }
}

} // verus!
