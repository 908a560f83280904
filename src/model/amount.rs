use vstd::arithmetic::div_mod::{lemma_div_multiples_vanish, lemma_mod_multiples_basic};
use vstd::prelude::*;
use vstd::string::StringExecFns;

use crate::text::{decimal, digit_char, digit_str, lemma_digit_char, push_decimal};

verus! {

/// Decimal places that every [`Amount`] carries.
pub const SCALE: u32 = 4;

/// Largest magnitude of an amount, in units of `10^-4`: the largest 96-bit
/// decimal mantissa, `2^96 - 1`, at four decimal places.
pub const MAX_UNITS: i128 = 792281625142643375935439503350000;

/// `10^n`.
pub open spec fn pow10(n: nat) -> int
    decreases n,
{
    if n == 0 {
        1
    } else {
        10 * pow10((n - 1) as nat)
    }
}

/// Whether `units` (of `10^-4`) lies within the representable range.
pub open spec fn in_range(units: int) -> bool {
    -MAX_UNITS <= units <= MAX_UNITS
}

/// The magnitude of `x`.
pub open spec fn abs(x: int) -> int {
    if x < 0 {
        -x
    } else {
        x
    }
}

/// The value `mantissa / 10^scale` counted in units of `10^-4`, when that
/// value has at most four decimal places.
pub open spec fn exact_units(mantissa: int, scale: nat) -> Option<int> {
    if scale <= SCALE {
        Some(mantissa * pow10((SCALE - scale) as nat))
    } else if abs(mantissa) % pow10((scale - SCALE) as nat) == 0 {
        let q = abs(mantissa) / pow10((scale - SCALE) as nat);
        Some(if mantissa < 0 { -q } else { q })
    } else {
        None
    }
}

/// The mantissa and scale of the decimal number that `text` spells, as
/// rust_decimal reads it; `None` when it reads no number.
pub uninterp spec fn decimal_parts_of(text: Seq<char>) -> Option<(int, nat)>;

/// Relies on rust_decimal's `Decimal::from_str` (and its `mantissa` and
/// `scale` getters): the number it reads depends on the text alone.
#[verifier::external_body]
fn parse_decimal_parts(text: &str) -> (r: Option<(i128, u32)>)
    ensures
        r is Some <==> decimal_parts_of(text@) is Some,
        r matches Some((m, s)) ==> decimal_parts_of(text@) == Some((m as int, s as nat)),
{
    <rust_decimal::Decimal as std::str::FromStr>::from_str(text).ok().map(|d| (d.mantissa(), d.scale()))
}

/// `s` without trailing zeros, keeping at least one character.
pub open spec fn trim_zeros(s: Seq<char>) -> Seq<char>
    decreases s.len(),
{
    if s.len() > 1 && s.last() == '0' {
        trim_zeros(s.drop_last())
    } else {
        s
    }
}

/// The four fractional digits of `f` (below `10^4`), trailing zeros trimmed
/// down to one digit.
pub open spec fn fraction_text(f: nat) -> Seq<char> {
    trim_zeros(fraction_text_digits(f))
}

/// The four fractional digits of `f`, untrimmed.
pub open spec fn fraction_text_digits(f: nat) -> Seq<char> {
    seq![
        digit_char(f / 1000),
        digit_char((f / 100) % 10),
        digit_char((f / 10) % 10),
        digit_char(f % 10),
    ]
}

/// The decimal text of the amount worth `units` ten-thousandths: a sign when
/// negative, the whole part, a point, and the fraction without trailing
/// zeros (`1.5`, `-0.0001`, `3.0`).
pub open spec fn amount_text(units: int) -> Seq<char> {
    let m = abs(units) as nat;
    (if units < 0 {
        seq!['-']
    } else {
        Seq::empty()
    }) + decimal(m / 10000) + seq!['.'] + fraction_text(m % 10000)
}

/// An exact signed decimal with four fractional digits.
///
/// Its view is the value counted in units of `10^-4`; it never leaves
/// `[-MAX_UNITS, MAX_UNITS]`, and every operation that could leave that range
/// is checked.
#[derive(Clone, Copy, Debug, PartialEq, Eq, Hash)]
pub struct Amount {
    units: i128,
}

impl View for Amount {
    type V = int;

    closed spec fn view(&self) -> int {
        self.units as int
    }
}

pub proof fn lemma_pow10_positive(n: nat)
    ensures
        pow10(n) >= 1,
    decreases n,
{
    if n > 0 {
        lemma_pow10_positive((n - 1) as nat);
    }
}

pub proof fn lemma_pow10_add(a: nat, b: nat)
    ensures
        pow10(a + b) == pow10(a) * pow10(b),
    decreases a,
{
    if a > 0 {
        lemma_pow10_add((a - 1) as nat, b);
        assert(pow10(a + b) == 10 * pow10((a - 1 + b) as nat));
        assert(10 * (pow10((a - 1) as nat) * pow10(b)) == (10 * pow10((a - 1) as nat)) * pow10(b))
            by (nonlinear_arith);
    }
}

/// A number whose last decimal digit is not zero, shifted left by `k` digits,
/// is not a multiple of `10^j` for any `j > k`.
proof fn lemma_not_multiple(mag: int, k: nat, j: nat)
    requires
        mag >= 0,
        mag % 10 != 0,
        k < j,
    ensures
        (mag * pow10(k)) % pow10(j) != 0,
{
    let x = mag * pow10(k);
    let p = pow10(j);
    lemma_pow10_positive(k);
    lemma_pow10_positive((j - k - 1) as nat);
    lemma_pow10_add(k, (j - k) as nat);
    assert(pow10((j - k) as nat) == 10 * pow10((j - k - 1) as nat));
    lemma_pow10_positive(j);
    if x % p == 0 {
        let c = x / p;
        assert(x == p * c) by {
            vstd::arithmetic::div_mod::lemma_fundamental_div_mod(x, p);
        }
        let r = pow10((j - k - 1) as nat);
        let pk = pow10(k);
        assert(mag * pk == pk * (10 * (r * c))) by (nonlinear_arith)
            requires
                x == mag * pk,
                x == p * c,
                p == pk * (10 * r),
        ;
        assert(mag == 10 * (r * c)) by (nonlinear_arith)
            requires
                mag * pk == pk * (10 * (r * c)),
                pk >= 1,
        ;
        lemma_mod_multiples_basic(r * c, 10);
        assert((10 * (r * c)) % 10 == 0) by (nonlinear_arith)
            requires
                ((r * c) * 10) % 10 == 0,
        ;
    }
}

impl Amount {
    /// Zero.
    pub fn zero() -> (r: Amount)
        ensures
            r@ == 0,
    {
        Amount { units: 0 }
    }

    /// The amount worth `units` ten-thousandths, if that is within range.
    pub fn from_units(units: i128) -> (r: Option<Amount>)
        ensures
            r is Some <==> in_range(units as int),
            r matches Some(a) ==> a@ == units,
    {
        if -MAX_UNITS <= units && units <= MAX_UNITS {
            Some(Amount { units })
        } else {
            None
        }
    }

    /// The amount worth `mantissa / 10^scale` (the parts of a decimal number),
    /// if that value has at most four decimal places and is within range.
    pub fn from_scaled(mantissa: i128, scale: u32) -> (r: Option<Amount>)
        ensures
            r is Some <==> (exact_units(mantissa as int, scale as nat) matches Some(u) && in_range(
                u,
            )),
            r matches Some(a) ==> exact_units(mantissa as int, scale as nat) == Some(a@),
    {
        if scale <= SCALE {
            let factor: i128 = if scale == 0 {
                10000
            } else if scale == 1 {
                1000
            } else if scale == 2 {
                100
            } else if scale == 3 {
                10
            } else {
                1
            };
            proof {
                reveal_with_fuel(pow10, 5);
            }
            assert(factor == pow10((SCALE - scale) as nat));
            match mantissa.checked_mul(factor) {
                Some(units) => Self::from_units(units),
                None => None,
            }
        } else if mantissa == 0 {
            proof {
                lemma_pow10_positive((scale - SCALE) as nat);
                vstd::arithmetic::div_mod::lemma_small_mod(0, pow10((scale - SCALE) as nat) as nat);
            }
            Some(Amount { units: 0 })
        } else if mantissa == -170141183460469231731687303715884105728i128 {
            proof {
                lemma_not_multiple(170141183460469231731687303715884105728, 0, (scale - SCALE) as nat);
            }
            None
        } else {
            let shift: u32 = scale - SCALE;
            let mut mag: i128 = if mantissa < 0 {
                -mantissa
            } else {
                mantissa
            };
            let mut k: u32 = 0;
            while k < shift
                invariant
                    shift == scale - SCALE,
                    k <= shift,
                    mag > 0,
                    abs(mantissa as int) == mag * pow10(k as nat),
                decreases shift - k,
            {
                if mag % 10 != 0 {
                    proof {
                        lemma_not_multiple(mag as int, k as nat, shift as nat);
                    }
                    return None;
                }
                proof {
                    assert(mag == 10 * (mag / 10));
                    assert(pow10((k + 1) as nat) == 10 * pow10(k as nat));
                    assert((mag / 10) * pow10((k + 1) as nat) == mag * pow10(k as nat))
                        by (nonlinear_arith)
                        requires
                            mag == 10 * (mag / 10),
                            pow10((k + 1) as nat) == 10 * pow10(k as nat),
                    ;
                }
                mag = mag / 10;
                k = k + 1;
            }
            proof {
                let p = pow10(shift as nat);
                lemma_pow10_positive(shift as nat);
                lemma_mod_multiples_basic(mag as int, p);
                lemma_div_multiples_vanish(mag as int, p);
                assert(p * mag == mag * p) by (nonlinear_arith);
            }
            let units: i128 = if mantissa < 0 {
                -mag
            } else {
                mag
            };
            Self::from_units(units)
        }
    }

    /// The amount that decimal text such as `1.5` or `-0.25` spells, if it has
    /// at most four decimal places and is within range.
    pub fn parse(text: &str) -> (r: Option<Amount>)
        ensures
            r is Some <==> (decimal_parts_of(text@) matches Some((m, s)) && exact_units(m, s) matches Some(
                u,
            ) && in_range(u)),
            r matches Some(a) ==> (decimal_parts_of(text@) matches Some((m, s)) && exact_units(m, s)
                == Some(a@)),
    {
        match parse_decimal_parts(text) {
            Some((mantissa, scale)) => Self::from_scaled(mantissa, scale),
            None => None,
        }
    }

    /// The value in units of `10^-4`.
    pub fn units(&self) -> (r: i128)
        ensures
            r == self@,
    {
        self.units
    }

    /// `self + other`, or `None` when the sum leaves the range.
    pub fn checked_add(&self, other: &Amount) -> (r: Option<Amount>)
        ensures
            r is Some <==> in_range(self@ + other@),
            r matches Some(s) ==> s@ == self@ + other@,
    {
        proof {
            use_type_invariant(self);
            use_type_invariant(other);
        }
        Self::from_units(self.units + other.units)
    }

    /// `self - other`, or `None` when the difference leaves the range.
    pub fn checked_sub(&self, other: &Amount) -> (r: Option<Amount>)
        ensures
            r is Some <==> in_range(self@ - other@),
            r matches Some(s) ==> s@ == self@ - other@,
    {
        proof {
            use_type_invariant(self);
            use_type_invariant(other);
        }
        Self::from_units(self.units - other.units)
    }

    /// `self - other`, clamped to zero when `other` exceeds `self` and to the
    /// largest amount when the difference is above the range.
    pub fn saturating_sub(&self, other: &Amount) -> (r: Amount)
        ensures
            other@ > self@ ==> r@ == 0,
            other@ <= self@ && self@ - other@ <= MAX_UNITS ==> r@ == self@ - other@,
            other@ <= self@ && self@ - other@ > MAX_UNITS ==> r@ == MAX_UNITS,
    {
        proof {
            use_type_invariant(self);
            use_type_invariant(other);
        }
        if other.units > self.units {
            Amount { units: 0 }
        } else if self.units - other.units > MAX_UNITS {
            Amount { units: MAX_UNITS }
        } else {
            Amount { units: self.units - other.units }
        }
    }

    /// The amount as decimal text, with a decimal point and no exponent.
    pub fn to_decimal_string(&self) -> (r: String)
        ensures
            r@ == amount_text(self@),
    {
        proof {
            use_type_invariant(self);
            reveal_strlit("");
            reveal_strlit("-");
            reveal_strlit(".");
        }
        let negative = self.units < 0;
        let magnitude: u128 = if negative {
            (0 - self.units) as u128
        } else {
            self.units as u128
        };
        let whole = magnitude / 10000;
        let fraction = magnitude % 10000;
        let mut text = String::from_str("");
        if negative {
            text.append("-");
        }
        push_decimal(&mut text, whole);
        text.append(".");
        let ghost head = text@;
        let digits: Vec<u128> = vec![fraction / 1000, (fraction / 100) % 10, (fraction / 10) % 10, fraction % 10];
        let ghost four = seq![
            digit_char((fraction / 1000) as nat),
            digit_char(((fraction / 100) % 10) as nat),
            digit_char(((fraction / 10) % 10) as nat),
            digit_char((fraction % 10) as nat),
        ];
        assert(four == fraction_text_digits(fraction as nat));
        let mut keep: usize = 4;
        proof {
            assert(four.take(4) =~= four);
            assert(digits@.len() == 4);
            assert forall|i: int| 0 <= i < 4 implies digits@[i] < 10 && four[i] == digit_char(
                digits@[i] as nat,
            ) by {
                assert(digits@[0] == fraction / 1000);
                assert(digits@[1] == (fraction / 100) % 10);
                assert(digits@[2] == (fraction / 10) % 10);
                assert(digits@[3] == fraction % 10);
            }
        }
        while keep > 1 && digits[keep - 1] == 0
            invariant
                1 <= keep <= 4,
                digits@.len() == 4,
                four.len() == 4,
                forall|i: int| 0 <= i < 4 ==> #[trigger] digits@[i] < 10 && four[i] == digit_char(digits@[i] as nat),
                trim_zeros(four) == trim_zeros(four.take(keep as int)),
            decreases keep,
        {
            proof {
                assert(four.take(keep as int).drop_last() =~= four.take(keep - 1));
            }
            keep = keep - 1;
        }
        proof {
            let k = keep as int;
            if k > 1 {
                lemma_digit_char(digits@[k - 1] as nat);
                if four.take(k).last() == '0' {
                    assert(digits@[k - 1] == 0);
                }
            }
        }
        let mut i: usize = 0;
        while i < keep
            invariant
                0 <= i <= keep <= 4,
                digits@.len() == 4,
                four.len() == 4,
                forall|j: int| 0 <= j < 4 ==> #[trigger] digits@[j] < 10 && four[j] == digit_char(digits@[j] as nat),
                text@ == head + four.take(i as int),
            decreases keep - i,
        {
            assert(digits@[i as int] < 10 && four[i as int] == digit_char(digits@[i as int] as nat));
            text.append(digit_str(digits[i] as u32));
            proof {
                assert(four.take(i + 1) =~= four.take(i as int).push(four[i as int]));
            }
            i = i + 1;
        }
        text
    }

    /// Whether the amount is strictly below zero.
    pub fn is_sign_negative(&self) -> (r: bool)
        ensures
            r == (self@ < 0),
    {
        self.units < 0
    }

    /// Whether `self` is strictly greater than `other`.
    pub fn greater_than(&self, other: &Amount) -> (r: bool)
        ensures
            r == (self@ > other@),
    {
        self.units > other.units
    }

    #[verifier::type_invariant]
    pub open spec fn inv(self) -> bool {
        in_range(self@)
    }
}

/// The zero amount.
pub closed spec fn spec_zero() -> Amount {
    Amount { units: 0 }
}

pub proof fn lemma_spec_zero()
    ensures
        spec_zero()@ == 0,
{
}

/// Two amounts with the same value are the same amount.
pub proof fn lemma_amount_ext(a: Amount, b: Amount)
    requires
        a@ == b@,
    ensures
        a == b,
{
}

} // verus!
