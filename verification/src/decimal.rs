//! Fixed-point decimal amounts. The arithmetic is `rust_decimal`'s; the
//! library holds each number as the plain parts that `rust_decimal::Decimal`
//! is made of.
use crate::text::{all_digits, digit_char, digits_value, find_char};
use vstd::prelude::*;

verus! {

/// A decimal number as `rust_decimal::Decimal` holds it: a magnitude below
/// 2^96, a scale (the number of digits after the point) of at most 28, and a
/// sign, which a zero may carry too.
#[derive(Clone, Copy, Debug, PartialEq, Eq, Structural)]
pub struct Dec {
    pub negative: bool,
    pub magnitude: u128,
    pub scale: u32,
}

/// 2^96, the bound on a magnitude.
pub open spec fn magnitude_bound() -> int {
    0x1_0000_0000_0000_0000_0000_0000
}

/// 10^n.
pub open spec fn pow10(n: nat) -> nat
    decreases n,
{
    if n == 0 {
        1
    } else {
        10 * pow10((n - 1) as nat)
    }
}

/// Whether an integer fits in a magnitude, either sign.
pub open spec fn fits_magnitude(x: int) -> bool {
    -magnitude_bound() < x < magnitude_bound()
}

impl Dec {
    /// The parts are those of a `rust_decimal::Decimal`.
    pub open spec fn wf(self) -> bool {
        self.magnitude < magnitude_bound() && self.scale <= 28
    }

    /// The magnitude with the sign applied.
    pub open spec fn signed(self) -> int {
        if self.negative {
            -(self.magnitude as int)
        } else {
            self.magnitude as int
        }
    }

    /// The signed magnitude written at scale `s >= self.scale`.
    pub open spec fn aligned(self, s: nat) -> int {
        self.signed() * pow10((s - self.scale) as nat)
    }

    /// The value times 10^28: an integer for every well-formed number, so
    /// that values compare and add as integers.
    pub open spec fn v28(self) -> int {
        self.aligned(28)
    }

    /// The integer `n` at scale 0.
    pub open spec fn whole_spec(n: nat) -> Dec {
        Dec { negative: false, magnitude: n as u128, scale: 0 }
    }
}

/// The larger of two scales.
pub open spec fn common_scale(a: Dec, b: Dec) -> nat {
    if a.scale >= b.scale {
        a.scale as nat
    } else {
        b.scale as nat
    }
}

/// Both numbers and the exact sum `a + sign * b` fit in a magnitude at the
/// larger of their scales: `rust_decimal` then adds without rounding.
pub open spec fn sum_fits(a: Dec, b: Dec, subtract: bool) -> bool {
    let s = common_scale(a, b);
    let bb = if subtract {
        -b.aligned(s)
    } else {
        b.aligned(s)
    };
    fits_magnitude(a.aligned(s)) && fits_magnitude(bb) && fits_magnitude(a.aligned(s) + bb)
}

/// A plain numeral read exactly: an optional `-`, digits, and optionally a
/// point and more digits, with at most 28 digits after the point and all the
/// digits, read as one whole number, below 2^96. That number is the
/// magnitude and the count of digits after the point the scale; a zero has
/// no sign. `None` for any other text.
pub open spec fn plain_decimal(s: Seq<char>) -> Option<Dec> {
    let negative = s.len() > 0 && s[0] == '-';
    let body = if negative {
        s.drop_first()
    } else {
        s
    };
    let point = find_char(body, '.');
    let whole = match point {
        Some(i) => body.take(i),
        None => body,
    };
    let frac = match point {
        Some(i) => body.skip(i + 1),
        None => Seq::<char>::empty(),
    };
    let value = digits_value(whole + frac);
    if whole.len() > 0 && all_digits(whole) && (point is None || (frac.len() > 0 && all_digits(frac)))
        && frac.len() <= 28 && value < magnitude_bound() {
        Some(Dec { negative: negative && value != 0, magnitude: value as u128, scale: frac.len() as u32 })
    } else {
        None
    }
}

/// What `Decimal::from_str` gives for a text that is not a plain numeral
/// (see `plain_decimal`), `None` where it refuses it.
pub uninterp spec fn decimal_from_str_other(s: Seq<char>) -> Option<Dec>;

/// What `Decimal::from_str` gives for a text, `None` where it refuses it: a
/// plain numeral is read exactly.
pub open spec fn decimal_from_str(s: Seq<char>) -> Option<Dec> {
    match plain_decimal(s) {
        Some(d) => Some(d),
        None => decimal_from_str_other(s),
    }
}

/// What `Decimal::checked_add` gives, `None` where the sum overflows.
pub uninterp spec fn decimal_checked_add(a: Dec, b: Dec) -> Option<Dec>;

/// What `Decimal::checked_sub` gives, `None` where the difference overflows.
pub uninterp spec fn decimal_checked_sub(a: Dec, b: Dec) -> Option<Dec>;

/// What `Decimal::checked_mul` gives, `None` where the product overflows.
pub uninterp spec fn decimal_checked_mul(a: Dec, b: Dec) -> Option<Dec>;

/// What `Decimal::checked_div` gives, `None` for a zero divisor or where the
/// quotient overflows.
pub uninterp spec fn decimal_checked_div(a: Dec, b: Dec) -> Option<Dec>;

/// `rust_decimal` gives the exact difference `a - b`.
pub open spec fn sub_exact(a: Dec, b: Dec) -> bool {
    decimal_checked_sub(a, b) matches Some(d) && d.v28() == a.v28() - b.v28()
}

/// `rust_decimal` gives the exact sum `a + b`.
pub open spec fn add_exact(a: Dec, b: Dec) -> bool {
    decimal_checked_add(a, b) matches Some(d) && d.v28() == a.v28() + b.v28()
}

/// The magnitude of a number, as a value times 10^28, is its value with the
/// sign dropped.
pub proof fn lemma_abs_v28(d: Dec)
    ensures
        (Dec { negative: false, ..d }).v28() == if d.negative {
            -d.v28()
        } else {
            d.v28()
        },
{
    let p = pow10((28 - d.scale) as nat) as int;
    let m = d.magnitude as int;
    assert((-m) * p == -(m * p)) by (nonlinear_arith);
}

/// A result of `rust_decimal` is well formed, if there is one.
pub open spec fn wf_option(r: Option<Dec>) -> bool {
    r matches Some(d) ==> d.wf()
}

/// `Decimal::round_dp(dp)`: to `dp` digits after the point, a midpoint going
/// to the even neighbour; a number with fewer digits stays as it is. A
/// non-zero number that rounds to zero loses its sign; a zero keeps it.
pub open spec fn round_dp_spec(d: Dec, dp: nat) -> Dec {
    if d.scale <= dp {
        d
    } else {
        let p = pow10((d.scale - dp) as nat);
        let q = d.magnitude as nat / p;
        let r = d.magnitude as nat % p;
        let half = p / 2;
        let q2 = if r > half || (r == half && q % 2 == 1) {
            q + 1
        } else {
            q
        };
        Dec { negative: d.negative && (d.magnitude == 0 || q2 != 0), magnitude: q2 as u128, scale: dp as u32 }
    }
}

/// The decimal digits of a magnitude, most significant first; none for zero.
pub open spec fn magnitude_digits(n: nat) -> Seq<char>
    decreases n,
{
    if n == 0 {
        seq![]
    } else {
        magnitude_digits(n / 10).push(digit_char(n % 10))
    }
}

/// How `Decimal`'s `Display` writes a number with `prec` digits after the
/// point: a `-` for a negative sign (a negative zero too), the whole part
/// (`0` where it is empty), and, where `prec > 0`, a point and the first
/// `prec` digits of the fraction, cut off (not rounded) or padded with `0`.
pub open spec fn display_spec(d: Dec, prec: nat) -> Seq<char> {
    let raw = magnitude_digits(d.magnitude as nat);
    let digits = if raw.len() < d.scale {
        Seq::new((d.scale - raw.len()) as nat, |i: int| '0') + raw
    } else {
        raw
    };
    let whole_len = digits.len() - d.scale;
    let whole = digits.take(whole_len);
    let frac = digits.skip(whole_len);
    let sign = if d.negative {
        seq!['-']
    } else {
        seq![]
    };
    let int_part = if whole.len() == 0 {
        seq!['0']
    } else {
        whole
    };
    let frac_part = Seq::new(prec, |i: int| if i < frac.len() { frac[i] } else { '0' });
    sign + int_part + if prec == 0 {
        seq![]
    } else {
        seq!['.'] + frac_part
    }
}

/// `Decimal::from_str`, with the parts of the number it reads.
#[verifier::external_body]
pub(crate) fn parse_decimal(s: &str) -> (r: Option<Dec>)
    ensures
        r == decimal_from_str(s@),
        plain_decimal(s@) is None ==> r == decimal_from_str_other(s@),
        wf_option(r),
{
    match s.parse::<rust_decimal::Decimal>() {
        Ok(z) => Some(Dec { negative: z.is_sign_negative(), magnitude: z.mantissa().unsigned_abs(), scale: z.scale() }),
        Err(_) => None,
    }
}

/// The message of the error `Decimal::from_str` gives for a text it refuses,
/// as the error's `Display` writes it.
pub uninterp spec fn decimal_parse_error_text(s: Seq<char>) -> Seq<char>;

/// `Decimal::from_str`, keeping the message of the error where the text is
/// refused.
#[verifier::external_body]
pub(crate) fn parse_decimal_reporting(s: &str) -> (r: Result<Dec, String>)
    ensures
        match r {
            Ok(d) => decimal_from_str(s@) == Some(d) && d.wf(),
            Err(m) => decimal_from_str(s@) is None && m@ == decimal_parse_error_text(s@),
        },
{
    match s.parse::<rust_decimal::Decimal>() {
        Ok(z) => Ok(Dec { negative: z.is_sign_negative(), magnitude: z.mantissa().unsigned_abs(), scale: z.scale() }),
        Err(e) => Err(e.to_string()),
    }
}

/// `Decimal::checked_add`. Where both numbers and the exact sum fit at the
/// larger scale, the sum is exact; how the parts and the sign of a zero come
/// out, and what an inexact sum rounds to, is left to the name.
#[verifier::external_body]
pub(crate) fn checked_add(a: Dec, b: Dec) -> (r: Option<Dec>)
    requires
        a.wf(),
        b.wf(),
    ensures
        r == decimal_checked_add(a, b),
        wf_option(r),
        sum_fits(a, b, false) ==> (r is Some && r.unwrap().v28() == a.v28() + b.v28()),
{
    let mut x = rust_decimal::Decimal::from_i128_with_scale(a.magnitude as i128, a.scale);
    x.set_sign_negative(a.negative);
    let mut y = rust_decimal::Decimal::from_i128_with_scale(b.magnitude as i128, b.scale);
    y.set_sign_negative(b.negative);
    match x.checked_add(y) {
        Some(z) => Some(Dec { negative: z.is_sign_negative(), magnitude: z.mantissa().unsigned_abs(), scale: z.scale() }),
        None => None,
    }
}

/// `Decimal::checked_sub`, with the same facts as `checked_add`.
#[verifier::external_body]
pub(crate) fn checked_sub(a: Dec, b: Dec) -> (r: Option<Dec>)
    requires
        a.wf(),
        b.wf(),
    ensures
        r == decimal_checked_sub(a, b),
        wf_option(r),
        sum_fits(a, b, true) ==> (r is Some && r.unwrap().v28() == a.v28() - b.v28()),
{
    let mut x = rust_decimal::Decimal::from_i128_with_scale(a.magnitude as i128, a.scale);
    x.set_sign_negative(a.negative);
    let mut y = rust_decimal::Decimal::from_i128_with_scale(b.magnitude as i128, b.scale);
    y.set_sign_negative(b.negative);
    match x.checked_sub(y) {
        Some(z) => Some(Dec { negative: z.is_sign_negative(), magnitude: z.mantissa().unsigned_abs(), scale: z.scale() }),
        None => None,
    }
}

/// `Decimal::checked_mul`. A zero factor gives a positive zero at scale 0;
/// where the scales add up to at most 28 and the magnitudes multiply to less
/// than 2^96, the product is exact at the summed scale.
#[verifier::external_body]
pub(crate) fn checked_mul(a: Dec, b: Dec) -> (r: Option<Dec>)
    requires
        a.wf(),
        b.wf(),
    ensures
        r == decimal_checked_mul(a, b),
        wf_option(r),
        (a.magnitude == 0 || b.magnitude == 0) ==> r == Some(Dec::whole_spec(0)),
        (a.magnitude != 0 && b.magnitude != 0 && a.scale + b.scale <= 28 && a.magnitude
            * b.magnitude < magnitude_bound()) ==> r == Some(
            Dec {
                negative: a.negative != b.negative,
                magnitude: (a.magnitude * b.magnitude) as u128,
                scale: (a.scale + b.scale) as u32,
            },
        ),
{
    let mut x = rust_decimal::Decimal::from_i128_with_scale(a.magnitude as i128, a.scale);
    x.set_sign_negative(a.negative);
    let mut y = rust_decimal::Decimal::from_i128_with_scale(b.magnitude as i128, b.scale);
    y.set_sign_negative(b.negative);
    match x.checked_mul(y) {
        Some(z) => Some(Dec { negative: z.is_sign_negative(), magnitude: z.mantissa().unsigned_abs(), scale: z.scale() }),
        None => None,
    }
}

/// `Decimal::checked_div`. A zero divisor gives `None`; a zero dividend over
/// another divisor gives a positive zero at scale 0; a divisor that is a
/// whole number below 2^32 never overflows. The digits of a quotient are left
/// to the name.
#[verifier::external_body]
pub(crate) fn checked_div(a: Dec, b: Dec) -> (r: Option<Dec>)
    requires
        a.wf(),
        b.wf(),
    ensures
        r == decimal_checked_div(a, b),
        wf_option(r),
        b.magnitude == 0 ==> r is None,
        (a.magnitude == 0 && b.magnitude != 0) ==> r == Some(Dec::whole_spec(0)),
        (b.scale == 0 && 0 < b.magnitude < 0x1_0000_0000) ==> r is Some,
{
    let mut x = rust_decimal::Decimal::from_i128_with_scale(a.magnitude as i128, a.scale);
    x.set_sign_negative(a.negative);
    let mut y = rust_decimal::Decimal::from_i128_with_scale(b.magnitude as i128, b.scale);
    y.set_sign_negative(b.negative);
    match x.checked_div(y) {
        Some(z) => Some(Dec { negative: z.is_sign_negative(), magnitude: z.mantissa().unsigned_abs(), scale: z.scale() }),
        None => None,
    }
}

/// `Decimal::round_dp`.
#[verifier::external_body]
pub(crate) fn round_dp(d: Dec, dp: u32) -> (r: Dec)
    requires
        d.wf(),
    ensures
        r == round_dp_spec(d, dp as nat),
        r.wf(),
{
    let mut x = rust_decimal::Decimal::from_i128_with_scale(d.magnitude as i128, d.scale);
    x.set_sign_negative(d.negative);
    let z = x.round_dp(dp);
    Dec { negative: z.is_sign_negative(), magnitude: z.mantissa().unsigned_abs(), scale: z.scale() }
}

/// `<` between two `Decimal`s, which compares values: `0.50 < 0.6`, and the
/// two zeros are equal.
#[verifier::external_body]
pub(crate) fn less_than(a: Dec, b: Dec) -> (r: bool)
    requires
        a.wf(),
        b.wf(),
    ensures
        r == (a.v28() < b.v28()),
{
    let mut x = rust_decimal::Decimal::from_i128_with_scale(a.magnitude as i128, a.scale);
    x.set_sign_negative(a.negative);
    let mut y = rust_decimal::Decimal::from_i128_with_scale(b.magnitude as i128, b.scale);
    y.set_sign_negative(b.negative);
    x < y
}

/// `Decimal::min`: `b` where `a > b`, else `a`.
#[verifier::external_body]
pub(crate) fn min(a: Dec, b: Dec) -> (r: Dec)
    requires
        a.wf(),
        b.wf(),
    ensures
        r == if a.v28() > b.v28() {
            b
        } else {
            a
        },
{
    let mut x = rust_decimal::Decimal::from_i128_with_scale(a.magnitude as i128, a.scale);
    x.set_sign_negative(a.negative);
    let mut y = rust_decimal::Decimal::from_i128_with_scale(b.magnitude as i128, b.scale);
    y.set_sign_negative(b.negative);
    let z = x.min(y);
    Dec { negative: z.is_sign_negative(), magnitude: z.mantissa().unsigned_abs(), scale: z.scale() }
}

/// `Decimal::to_string`: every digit of the scale after the point.
#[verifier::external_body]
pub(crate) fn to_text(d: Dec) -> (r: String)
    requires
        d.wf(),
    ensures
        r@ == display_spec(d, d.scale as nat),
{
    let mut x = rust_decimal::Decimal::from_i128_with_scale(d.magnitude as i128, d.scale);
    x.set_sign_negative(d.negative);
    x.to_string()
}

/// `format!("{:.2}", d)`: two digits after the point, cut off.
#[verifier::external_body]
pub(crate) fn to_text_2dp(d: Dec) -> (r: String)
    requires
        d.wf(),
    ensures
        r@ == display_spec(d, 2),
{
    let mut x = rust_decimal::Decimal::from_i128_with_scale(d.magnitude as i128, d.scale);
    x.set_sign_negative(d.negative);
    format!("{:.2}", x)
}

impl Dec {
    /// The integer `n` at scale 0, as `Decimal::new(n, 0)` makes it.
    pub fn whole(n: u64) -> (r: Dec)
        ensures
            r == Dec::whole_spec(n as nat),
            r.wf(),
    {
        Dec { negative: false, magnitude: n as u128, scale: 0 }
    }

    /// `Decimal::is_zero`.
    pub fn is_zero(&self) -> (r: bool)
        ensures
            r == (self.magnitude == 0),
    {
        self.magnitude == 0
    }

    /// `Decimal::is_sign_negative`.
    pub fn is_sign_negative(&self) -> (r: bool)
        ensures
            r == self.negative,
    {
        self.negative
    }

    /// `Decimal::abs`: the sign made positive.
    pub fn abs(&self) -> (r: Dec)
        ensures
            r == (Dec { negative: false, ..*self }),
    {
        Dec { negative: false, magnitude: self.magnitude, scale: self.scale }
    }
}

/// A well-formed number's value times 10^28 is zero exactly where its
/// magnitude is, and has its sign otherwise.
pub proof fn lemma_v28_sign(d: Dec)
    requires
        d.wf(),
    ensures
        d.magnitude == 0 <==> d.v28() == 0,
        (d.magnitude != 0 && !d.negative) ==> d.v28() > 0,
        (d.magnitude != 0 && d.negative) ==> d.v28() < 0,
        (Dec { negative: false, ..d }).v28() >= 0,
{
    lemma_pow10_positive((28 - d.scale) as nat);
    let p = pow10((28 - d.scale) as nat) as int;
    let m = d.magnitude as int;
    assert(m == 0 ==> m * p == 0) by (nonlinear_arith);
    assert(m > 0 && p > 0 ==> m * p > 0) by (nonlinear_arith);
    assert(m > 0 && p > 0 ==> (-m) * p < 0) by (nonlinear_arith);
    assert(m >= 0 && p > 0 ==> m * p >= 0) by (nonlinear_arith);
}

/// Every power of ten is positive.
pub proof fn lemma_pow10_positive(n: nat)
    ensures
        pow10(n) > 0,
    decreases n,
{
    if n > 0 {
        lemma_pow10_positive((n - 1) as nat);
    }
}

} // verus!
