//! Scalars of the expression engine.
//!
//! A `Scalar` carries the 64 bits of an IEEE 754 binary64 value.  The
//! verified code never does arithmetic on the encoded value itself: the
//! operations the engine needs (addition, multiplication, quotient, real
//! power, sine, cosine, natural logarithm, decimal rendering) are
//! performed by trusted wrappers at the bottom of this file, and every
//! contract above them speaks of their results only through
//! uninterpreted names such as `sum_bits`.
//!
//! The one thing the engine decides for itself is the simplifier's
//! tolerance test, "is this constant within one hundred-thousandth of
//! zero (or of one)?".  That test has an exact integer characterisation
//! on the bit patterns, justified by the ordering of binary64 encodings,
//! so it is ordinary verified code rather than a trusted call.

use vstd::prelude::*;

verus! {

use rustc_apfloat::Float;

/// The bits of an IEEE 754 binary64 value.
#[derive(Clone, Copy, PartialEq, Eq, Structural, Debug)]
pub struct Scalar {
    pub bits: u64,
}

/// Encoding of zero.
pub const BITS_ZERO: u64 = 0x0000_0000_0000_0000;

/// Encoding of one.
pub const BITS_ONE: u64 = 0x3FF0_0000_0000_0000;

/// Encoding of minus one.
pub const BITS_NEG_ONE: u64 = 0xBFF0_0000_0000_0000;

/// Encoding of minus two.
pub const BITS_NEG_TWO: u64 = 0xC000_0000_0000_0000;

/// Encoding of Euler's number, the base of the natural logarithm.
pub const BITS_EULER: u64 = 0x4005_BF0A_8B14_5769;

/// Encoding of the simplifier's tolerance, the binary64 value closest
/// to one hundred-thousandth.
pub const BITS_TOLERANCE: u64 = 0x3EE4_F8B5_88E3_68F1;

/// The place value of the sign bit in a binary64 encoding: taking the
/// encoding modulo this constant clears the sign and leaves the
/// encoding of the absolute value.
pub const SIGN_PLACE: u64 = 0x8000_0000_0000_0000;

/// Smallest encoding whose value exceeds one minus the tolerance.
pub const BITS_NEAR_ONE_LO: u64 = 0x3FEF_FFEB_074A_771D;

/// Largest encoding whose value stays below one plus the tolerance.
pub const BITS_NEAR_ONE_HI: u64 = 0x3FF0_000A_7C5A_C471;

impl Scalar {
    /// Wrap a bit pattern.
    pub fn from_bits(bits: u64) -> (r: Scalar)
        ensures
            r.bits == bits,
    {
        Scalar { bits }
    }

    /// The wrapped bit pattern.
    pub fn to_bits(self) -> (r: u64)
        ensures
            r == self.bits,
    {
        self.bits
    }
}

/// The encoded value lies strictly within the tolerance of zero.
///
/// For binary64 encodings, clearing the sign bit (the encoding modulo
/// the sign bit's place value) yields the encoding of the absolute
/// value, and on non-negative values (the possible results of that
/// clearing) the IEEE ordering agrees with the unsigned integer
/// ordering of the encodings, with every NaN encoding sorting above
/// every finite one.  So the test "the magnitude is below the
/// tolerance" is exactly this integer comparison, and it is false on
/// NaN input just as the IEEE comparison is.
pub open spec fn near_zero(bits: u64) -> bool {
    bits % SIGN_PLACE < BITS_TOLERANCE
}

/// The encoded value lies strictly within the tolerance of one.
///
/// Every binary64 value strictly between "one minus the tolerance" and
/// "one plus the tolerance" is positive and normal, and on that range
/// the IEEE ordering again agrees with the unsigned integer ordering of
/// the encodings, so membership is an integer interval check.  The two
/// bounds are the encodings of the smallest and largest binary64 values
/// inside the open interval.  (Subtracting one from a value this close
/// to one is exact in binary64 arithmetic, so the usual comparison "the
/// magnitude of the difference from one is below the tolerance" selects
/// exactly this interval.)  NaN and infinite encodings fall outside the
/// interval, as they must.
pub open spec fn near_one(bits: u64) -> bool {
    BITS_NEAR_ONE_LO <= bits <= BITS_NEAR_ONE_HI
}

/// Executable form of `near_zero`.
pub fn is_near_zero(s: Scalar) -> (b: bool)
    ensures
        b == near_zero(s.bits),
{
    s.bits % SIGN_PLACE < BITS_TOLERANCE
}

/// Executable form of `near_one`.
pub fn is_near_one(s: Scalar) -> (b: bool)
    ensures
        b == near_one(s.bits),
{
    BITS_NEAR_ONE_LO <= s.bits && s.bits <= BITS_NEAR_ONE_HI
}

/// The bits of the binary64 sum of the two encoded values.
pub uninterp spec fn sum_bits(a: u64, b: u64) -> u64;

/// The bits of the binary64 product of the two encoded values.
pub uninterp spec fn prod_bits(a: u64, b: u64) -> u64;

/// The bits of the binary64 quotient of the two encoded values.
pub uninterp spec fn quot_bits(a: u64, b: u64) -> u64;

/// The bits of the first encoded value raised to the second (real power).
pub uninterp spec fn pow_bits(a: u64, b: u64) -> u64;

/// The bits of the sine of the encoded value.
pub uninterp spec fn sin_bits(a: u64) -> u64;

/// The bits of the cosine of the encoded value.
pub uninterp spec fn cos_bits(a: u64) -> u64;

/// The bits of the natural logarithm of the encoded value.
pub uninterp spec fn ln_bits(a: u64) -> u64;

/// The decimal rendering of the encoded value.
pub uninterp spec fn decimal_of(a: u64) -> Seq<char>;

/// Relies on `rustc_apfloat::ieee::Double` addition: a software
/// implementation of the IEEE 754 correctly rounded binary64 sum, a
/// function of the two encodings alone.
#[verifier::external_body]
pub fn scalar_add(a: Scalar, b: Scalar) -> (r: Scalar)
    ensures
        r.bits == sum_bits(a.bits, b.bits),
{
    let x = rustc_apfloat::ieee::Double::from_bits(a.bits as u128);
    let y = rustc_apfloat::ieee::Double::from_bits(b.bits as u128);
    Scalar { bits: (x + y).value.to_bits() as u64 }
}

/// Relies on `rustc_apfloat::ieee::Double` multiplication: a software
/// implementation of the IEEE 754 correctly rounded binary64 product, a
/// function of the two encodings alone.
#[verifier::external_body]
pub fn scalar_mul(a: Scalar, b: Scalar) -> (r: Scalar)
    ensures
        r.bits == prod_bits(a.bits, b.bits),
{
    let x = rustc_apfloat::ieee::Double::from_bits(a.bits as u128);
    let y = rustc_apfloat::ieee::Double::from_bits(b.bits as u128);
    Scalar { bits: (x * y).value.to_bits() as u64 }
}

/// Relies on `rustc_apfloat::ieee::Double` division: a software
/// implementation of the IEEE 754 correctly rounded binary64 quotient, a
/// function of the two encodings alone.
#[verifier::external_body]
pub fn scalar_div(a: Scalar, b: Scalar) -> (r: Scalar)
    ensures
        r.bits == quot_bits(a.bits, b.bits),
{
    let x = rustc_apfloat::ieee::Double::from_bits(a.bits as u128);
    let y = rustc_apfloat::ieee::Double::from_bits(b.bits as u128);
    Scalar { bits: (x / y).value.to_bits() as u64 }
}

/// Relies on `libm::pow`, a ported software implementation of the real
/// power whose result depends on the two encodings alone.
#[verifier::external_body]
pub fn scalar_pow(a: Scalar, b: Scalar) -> (r: Scalar)
    ensures
        r.bits == pow_bits(a.bits, b.bits),
{
    Scalar { bits: libm::pow(bytemuck::cast(a.bits), bytemuck::cast(b.bits)).to_bits() }
}

/// Relies on `libm::sin`, a ported software implementation of the sine
/// whose result depends on the encoding alone.
#[verifier::external_body]
pub fn scalar_sin(a: Scalar) -> (r: Scalar)
    ensures
        r.bits == sin_bits(a.bits),
{
    Scalar { bits: libm::sin(bytemuck::cast(a.bits)).to_bits() }
}

/// Relies on `libm::cos`, a ported software implementation of the
/// cosine whose result depends on the encoding alone.
#[verifier::external_body]
pub fn scalar_cos(a: Scalar) -> (r: Scalar)
    ensures
        r.bits == cos_bits(a.bits),
{
    Scalar { bits: libm::cos(bytemuck::cast(a.bits)).to_bits() }
}

/// Relies on `libm::log`, a ported software implementation of the
/// natural logarithm whose result depends on the encoding alone.
#[verifier::external_body]
pub fn scalar_ln(a: Scalar) -> (r: Scalar)
    ensures
        r.bits == ln_bits(a.bits),
{
    Scalar { bits: libm::log(bytemuck::cast(a.bits)).to_bits() }
}

/// Relies on the standard `Display` rendering of a binary64 value (the
/// shortest decimal form that reads back to the same value), computed by
/// a deterministic algorithm from the encoding alone.  `libm::copysign`
/// of a value with itself returns it unchanged; the call only gives the
/// bits their binary64 type.
#[verifier::external_body]
pub fn scalar_decimal(a: Scalar) -> (r: String)
    ensures
        r@ == decimal_of(a.bits),
{
    format!("{}", libm::copysign(bytemuck::cast(a.bits), bytemuck::cast(a.bits)))
}

} // verus!
