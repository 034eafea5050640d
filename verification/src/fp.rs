use vstd::prelude::*;

use rustc_apfloat::ieee::Double;
use rustc_apfloat::ieee::Single;
use rustc_apfloat::Float;
use rustc_apfloat::Round;

verus! {

// IEEE-754 arithmetic on bit patterns.  A double is carried as the u64 it is
// stored as, a single as the u32; the operations below are the named results
// of software floating point on those patterns.  The few extra clauses state
// zero and sign facts that the IEEE-754 rules give directly.

pub uninterp spec fn spec_dbl_mul(a: u64, b: u64) -> u64;

pub uninterp spec fn spec_dbl_add(a: u64, b: u64) -> u64;

pub uninterp spec fn spec_dbl_sub(a: u64, b: u64) -> u64;

pub uninterp spec fn spec_dbl_div(a: u64, b: u64) -> u64;

pub uninterp spec fn spec_dbl_lt(a: u64, b: u64) -> bool;

pub uninterp spec fn spec_dbl_of_u32(n: u32) -> u64;

/// Relies on rustc_apfloat's Double multiplication: the IEEE-754 product,
/// rounded to nearest-even.  A product with one factor +0 and the other
/// positive finite (or +0) is exactly +0.
#[verifier::external_body]
pub(crate) fn dbl_mul(a: u64, b: u64) -> (r: u64)
    ensures
        r == spec_dbl_mul(a, b),
        a == 0 && b == 0 ==> r == 0,
        1 <= a <= 0x7FEF_FFFF_FFFF_FFFF && b == 0 ==> r == 0,
        a == 0 && 1 <= b <= 0x7FEF_FFFF_FFFF_FFFF ==> r == 0,
{
    (Double::from_bits(a as u128) * Double::from_bits(b as u128)).value.to_bits() as u64
}

/// Relies on rustc_apfloat's Double addition: the IEEE-754 sum, rounded to
/// nearest-even.  +0 plus +0 is exactly +0, and +0 plus a finite value
/// other than -0 is exactly that value.
#[verifier::external_body]
pub(crate) fn dbl_add(a: u64, b: u64) -> (r: u64)
    ensures
        r == spec_dbl_add(a, b),
        a == 0 && b == 0 ==> r == 0,
        a == 0 && (b & 0x7FF0_0000_0000_0000) != 0x7FF0_0000_0000_0000 && b
            != 0x8000_0000_0000_0000 ==> r == b,
{
    (Double::from_bits(a as u128) + Double::from_bits(b as u128)).value.to_bits() as u64
}

/// Relies on rustc_apfloat's Double subtraction: the IEEE-754 difference,
/// rounded to nearest-even.  +0 minus +0 is exactly +0.
#[verifier::external_body]
pub(crate) fn dbl_sub(a: u64, b: u64) -> (r: u64)
    ensures
        r == spec_dbl_sub(a, b),
        a == 0 && b == 0 ==> r == 0,
{
    (Double::from_bits(a as u128) - Double::from_bits(b as u128)).value.to_bits() as u64
}

/// Relies on rustc_apfloat's Double division: the IEEE-754 quotient, rounded
/// to nearest-even.  +0 divided by a positive finite value is exactly +0.
#[verifier::external_body]
pub(crate) fn dbl_div(a: u64, b: u64) -> (r: u64)
    ensures
        r == spec_dbl_div(a, b),
        a == 0 && 1 <= b <= 0x7FEF_FFFF_FFFF_FFFF ==> r == 0,
{
    (Double::from_bits(a as u128) / Double::from_bits(b as u128)).value.to_bits() as u64
}

/// Relies on rustc_apfloat's Double ordering: the IEEE-754 comparison, false
/// whenever either side is a NaN.
#[verifier::external_body]
pub(crate) fn dbl_lt(a: u64, b: u64) -> (r: bool)
    ensures
        r == spec_dbl_lt(a, b),
{
    Double::from_bits(a as u128) < Double::from_bits(b as u128)
}

/// Relies on rustc_apfloat's conversion from an unsigned integer: exact for
/// every u32, +0 for 0, and a positive finite value above +0 for n >= 1.
#[verifier::external_body]
pub(crate) fn dbl_of_u32(n: u32) -> (r: u64)
    ensures
        r == spec_dbl_of_u32(n),
        n == 0 ==> r == 0,
        n >= 1 ==> 1 <= r <= 0x7FEF_FFFF_FFFF_FFFF,
        n >= 1 ==> spec_dbl_lt(0, r),
        !spec_dbl_lt(r, 0),
{
    Double::from_u128(n as u128).value.to_bits() as u64
}

pub uninterp spec fn spec_sgl_mul(a: u32, b: u32) -> u32;

pub uninterp spec fn spec_sgl_add(a: u32, b: u32) -> u32;

pub uninterp spec fn spec_sgl_sub(a: u32, b: u32) -> u32;

pub uninterp spec fn spec_sgl_div(a: u32, b: u32) -> u32;

pub uninterp spec fn spec_sgl_rem(a: u32, b: u32) -> u32;

pub uninterp spec fn spec_sgl_lt(a: u32, b: u32) -> bool;

pub uninterp spec fn spec_sgl_le(a: u32, b: u32) -> bool;

pub uninterp spec fn spec_sgl_eq(a: u32, b: u32) -> bool;

pub uninterp spec fn spec_sgl_of_u32(n: u32) -> u32;

pub uninterp spec fn spec_sgl_to_u8(a: u32) -> u8;

/// Relies on rustc_apfloat's Single multiplication: the IEEE-754 product,
/// rounded to nearest-even.
#[verifier::external_body]
pub(crate) fn sgl_mul(a: u32, b: u32) -> (r: u32)
    ensures
        r == spec_sgl_mul(a, b),
{
    (Single::from_bits(a as u128) * Single::from_bits(b as u128)).value.to_bits() as u32
}

/// Relies on rustc_apfloat's Single addition: the IEEE-754 sum, rounded to
/// nearest-even.
#[verifier::external_body]
pub(crate) fn sgl_add(a: u32, b: u32) -> (r: u32)
    ensures
        r == spec_sgl_add(a, b),
{
    (Single::from_bits(a as u128) + Single::from_bits(b as u128)).value.to_bits() as u32
}

/// Relies on rustc_apfloat's Single subtraction: the IEEE-754 difference,
/// rounded to nearest-even.
#[verifier::external_body]
pub(crate) fn sgl_sub(a: u32, b: u32) -> (r: u32)
    ensures
        r == spec_sgl_sub(a, b),
{
    (Single::from_bits(a as u128) - Single::from_bits(b as u128)).value.to_bits() as u32
}

/// Relies on rustc_apfloat's Single division: the IEEE-754 quotient, rounded
/// to nearest-even.  +0 divided by a positive finite value is exactly +0.
#[verifier::external_body]
pub(crate) fn sgl_div(a: u32, b: u32) -> (r: u32)
    ensures
        r == spec_sgl_div(a, b),
        a == 0 && 1 <= b <= 0x7F7F_FFFF ==> r == 0,
{
    (Single::from_bits(a as u128) / Single::from_bits(b as u128)).value.to_bits() as u32
}

/// Relies on rustc_apfloat's Single remainder (c_fmod): the truncated
/// remainder, as the % operator computes it.
#[verifier::external_body]
pub(crate) fn sgl_rem(a: u32, b: u32) -> (r: u32)
    ensures
        r == spec_sgl_rem(a, b),
{
    (Single::from_bits(a as u128) % Single::from_bits(b as u128)).value.to_bits() as u32
}

/// Relies on rustc_apfloat's Single ordering: the IEEE-754 comparison, false
/// whenever either side is a NaN.
#[verifier::external_body]
pub(crate) fn sgl_lt(a: u32, b: u32) -> (r: bool)
    ensures
        r == spec_sgl_lt(a, b),
{
    Single::from_bits(a as u128) < Single::from_bits(b as u128)
}

/// Relies on rustc_apfloat's Single ordering: at most, per IEEE-754, false
/// whenever either side is a NaN.
#[verifier::external_body]
pub(crate) fn sgl_le(a: u32, b: u32) -> (r: bool)
    ensures
        r == spec_sgl_le(a, b),
{
    Single::from_bits(a as u128) <= Single::from_bits(b as u128)
}

/// Relies on rustc_apfloat's Single equality: IEEE-754 equality, under which
/// +0 equals -0 and a NaN equals nothing.  +0 compared with +0 is true.
#[verifier::external_body]
pub(crate) fn sgl_eq(a: u32, b: u32) -> (r: bool)
    ensures
        r == spec_sgl_eq(a, b),
        a == 0 && b == 0 ==> r == true,
{
    Single::from_bits(a as u128) == Single::from_bits(b as u128)
}

/// Relies on rustc_apfloat's conversion from an unsigned integer: exact for
/// every value a single can hold, +0 for 0, positive finite for n >= 1.
#[verifier::external_body]
pub(crate) fn sgl_of_u32(n: u32) -> (r: u32)
    ensures
        r == spec_sgl_of_u32(n),
        n == 0 ==> r == 0,
        n >= 1 ==> 1 <= r <= 0x7F7F_FFFF,
{
    Single::from_u128(n as u128).value.to_bits() as u32
}

/// Relies on rustc_apfloat's conversion to an unsigned integer, rounding
/// toward zero into 8 bits, as a float-to-u8 cast truncates.
#[verifier::external_body]
pub(crate) fn sgl_to_u8(a: u32) -> (r: u8)
    ensures
        r == spec_sgl_to_u8(a),
{
    let mut exact = false;
    let t = Single::from_bits(a as u128).to_u128_r(8, Round::TowardZero, &mut exact).value;
    t as u8
}

} // verus!
