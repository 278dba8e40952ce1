use vstd::prelude::*;
use rustc_apfloat::Float;

verus! {

// A float value of the language is carried as the bit pattern of an IEEE
// 754 binary64 number.  Arithmetic, parsing and rendering are delegated
// to rustc_apfloat's software implementation of the same format; the
// comparison predicates below are computed here, in verified code, from
// the bits alone.

/// The bits of the binary64 sum of the two values encoded by `a` and `b`,
/// rounded to nearest, ties to even.
pub uninterp spec fn float_add_of(a: u64, b: u64) -> u64;

/// The bits of the binary64 difference.
pub uninterp spec fn float_sub_of(a: u64, b: u64) -> u64;

/// The bits of the binary64 product.
pub uninterp spec fn float_mul_of(a: u64, b: u64) -> u64;

/// The bits of the binary64 quotient.
pub uninterp spec fn float_div_of(a: u64, b: u64) -> u64;

/// The bits a decimal literal text parses to, if it parses.
pub uninterp spec fn float_of_text(s: Seq<u8>) -> Option<u64>;

/// The decimal rendering of the value encoded by `b`.
pub uninterp spec fn float_text_of(b: u64) -> Seq<u8>;

/// The bits of the binary64 value nearest to the integer `n`.
pub uninterp spec fn float_of_int(n: i64) -> u64;

/// Relies on rustc_apfloat `Double::add` (IEEE binary64 addition, round
/// to nearest even); the result depends on the operand bits alone.
#[verifier::external_body]
pub fn float_add(a: u64, b: u64) -> (r: u64)
    ensures
        r == float_add_of(a, b),
{
    let x = rustc_apfloat::ieee::Double::from_bits(a as u128);
    let y = rustc_apfloat::ieee::Double::from_bits(b as u128);
    (x + y).value.to_bits() as u64
}

/// Relies on rustc_apfloat `Double::sub` (IEEE binary64 subtraction,
/// round to nearest even); the result depends on the operand bits alone.
#[verifier::external_body]
pub fn float_sub(a: u64, b: u64) -> (r: u64)
    ensures
        r == float_sub_of(a, b),
{
    let x = rustc_apfloat::ieee::Double::from_bits(a as u128);
    let y = rustc_apfloat::ieee::Double::from_bits(b as u128);
    (x - y).value.to_bits() as u64
}

/// Relies on rustc_apfloat `Double::mul` (IEEE binary64 multiplication,
/// round to nearest even); the result depends on the operand bits alone.
#[verifier::external_body]
pub fn float_mul(a: u64, b: u64) -> (r: u64)
    ensures
        r == float_mul_of(a, b),
{
    let x = rustc_apfloat::ieee::Double::from_bits(a as u128);
    let y = rustc_apfloat::ieee::Double::from_bits(b as u128);
    (x * y).value.to_bits() as u64
}

/// Relies on rustc_apfloat `Double::div` (IEEE binary64 division, round
/// to nearest even); the result depends on the operand bits alone.  The
/// evaluator rejects a zero divisor before calling this.
#[verifier::external_body]
pub fn float_div(a: u64, b: u64) -> (r: u64)
    ensures
        r == float_div_of(a, b),
{
    let x = rustc_apfloat::ieee::Double::from_bits(a as u128);
    let y = rustc_apfloat::ieee::Double::from_bits(b as u128);
    (x / y).value.to_bits() as u64
}

/// A decimal float literal shape: an optional minus sign, one or more
/// digits, a dot, one or more digits.
pub open spec fn float_text_shape(s: Seq<u8>) -> bool {
    let p1: int = if s.len() > 0 && s[0] == 45 {
        1
    } else {
        0
    };
    let d1 = crate::lexer::digit_end(s, p1);
    p1 < d1 && d1 < s.len() && s[d1] == 46 && d1 + 1 < s.len() && crate::lexer::digit_end(
        s,
        d1 + 1,
    ) == s.len()
}

/// Relies on rustc_apfloat `Double::from_str`: correctly rounded decimal
/// to binary64 conversion; the result depends on the text alone, and a
/// text of the float literal shape always converts (a huge one rounds
/// to the infinity encoding rather than failing).
#[verifier::external_body]
pub fn float_parse(s: &[u8]) -> (r: Option<u64>)
    ensures
        r == float_of_text(s@),
        float_text_shape(s@) ==> r is Some,
{
    match core::str::from_utf8(s) {
        Err(_) => None,
        Ok(t) => match t.parse::<rustc_apfloat::ieee::Double>() {
            Ok(d) => Some(d.to_bits() as u64),
            Err(_) => None,
        },
    }
}

/// Relies on rustc_apfloat's `Display` for `Double`: a decimal rendering
/// of the value; the text depends on the bits alone.
#[verifier::external_body]
pub fn float_render(b: u64) -> (r: Vec<u8>)
    ensures
        r@ == float_text_of(b),
{
    format!("{}", rustc_apfloat::ieee::Double::from_bits(b as u128)).into_bytes()
}

/// Relies on rustc_apfloat `Double::from_i128`: integer to binary64,
/// round to nearest even; the result depends on the integer alone.
#[verifier::external_body]
pub fn float_from_int(n: i64) -> (r: u64)
    ensures
        r == float_of_int(n),
{
    rustc_apfloat::ieee::Double::from_i128(n as i128).value.to_bits() as u64
}

// ---------------------------------------------------------------------------
// Verified bit-level predicates on binary64 encodings.
//
// A binary64 encoding is a sign bit (the topmost bit), eleven exponent
// bits and fifty-two significand bits.  The magnitude below is the
// encoding with the sign bit cleared.  For values that are not NaN, the
// IEEE ordering of two encoded values is the ordering of their signed
// magnitudes, with the two zero encodings (magnitude zero) equal; NaN
// (magnitude above that of infinity) compares unordered to everything.
// ---------------------------------------------------------------------------

/// The sign bit, as the top-half test of the encoding.
pub open spec fn f64_sign(b: u64) -> bool {
    b >= 0x8000000000000000
}

/// The encoding with the sign bit cleared.
pub open spec fn f64_mag(b: u64) -> u64 {
    if b >= 0x8000000000000000 {
        (b - 0x8000000000000000) as u64
    } else {
        b
    }
}

/// The encoding of positive infinity; magnitudes above it are NaN.
pub open spec fn f64_is_nan(b: u64) -> bool {
    f64_mag(b) > 0x7FF0000000000000
}

/// The two encodings of zero: `0.0` and `-0.0`.
pub open spec fn f64_is_zero(b: u64) -> bool {
    f64_mag(b) == 0
}

/// The signed-magnitude key whose integer order is the IEEE order of the
/// encoded values (for values that are not NaN).
pub open spec fn f64_key(b: u64) -> int {
    if f64_sign(b) {
        -(f64_mag(b) as int)
    } else {
        f64_mag(b) as int
    }
}

/// IEEE equality of two encoded values: both are numbers and their keys
/// agree (so `0.0 == -0.0`, and NaN equals nothing).
pub open spec fn f64_eq(a: u64, b: u64) -> bool {
    !f64_is_nan(a) && !f64_is_nan(b) && f64_key(a) == f64_key(b)
}

/// IEEE `<` of two encoded values.
pub open spec fn f64_lt(a: u64, b: u64) -> bool {
    !f64_is_nan(a) && !f64_is_nan(b) && f64_key(a) < f64_key(b)
}

/// Whether the encoding is of one of the two IEEE zeros; float division
/// by exactly zero is the fatal division error of the language.
pub fn float_is_zero(b: u64) -> (r: bool)
    ensures
        r == f64_is_zero(b),
{
    b == 0 || b == 0x8000000000000000
}

/// IEEE equality on encodings, computed from the bits.
pub fn float_eq(a: u64, b: u64) -> (r: bool)
    ensures
        r == f64_eq(a, b),
{
    let ma = if a >= 0x8000000000000000 {
        a - 0x8000000000000000
    } else {
        a
    };
    let mb = if b >= 0x8000000000000000 {
        b - 0x8000000000000000
    } else {
        b
    };
    if ma > 0x7FF0000000000000 || mb > 0x7FF0000000000000 {
        return false;
    }
    if ma == 0 && mb == 0 {
        return true;
    }
    a == b
}

/// IEEE `<` on encodings, computed from the bits.
pub fn float_lt(a: u64, b: u64) -> (r: bool)
    ensures
        r == f64_lt(a, b),
{
    let ma = if a >= 0x8000000000000000 {
        a - 0x8000000000000000
    } else {
        a
    };
    let mb = if b >= 0x8000000000000000 {
        b - 0x8000000000000000
    } else {
        b
    };
    if ma > 0x7FF0000000000000 || mb > 0x7FF0000000000000 {
        return false;
    }
    let sa = a >= 0x8000000000000000;
    let sb = b >= 0x8000000000000000;
    if sa {
        if sb {
            mb < ma
        } else {
            // a <= -0.0, b >= 0.0: strictly less unless both are zero.
            !(ma == 0 && mb == 0)
        }
    } else {
        if sb {
            false
        } else {
            ma < mb
        }
    }
}

/// IEEE `<=` on encodings.
pub fn float_le(a: u64, b: u64) -> (r: bool)
    ensures
        r == (f64_lt(a, b) || f64_eq(a, b)),
{
    float_lt(a, b) || float_eq(a, b)
}

/// The absolute value on encodings: the sign bit cleared.  This is the
/// absolute value of binary64, computed exactly from the bits.
pub fn float_abs(b: u64) -> (r: u64)
    ensures
        r == f64_mag(b),
{
    if b >= 0x8000000000000000 {
        b - 0x8000000000000000
    } else {
        b
    }
}

} // verus!
