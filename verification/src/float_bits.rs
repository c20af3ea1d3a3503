//! Scalar values as IEEE 754 single-precision bit patterns.
//!
//! The geometry pipeline computes with `f32` values, which the verifier does
//! not reason about. Every scalar therefore travels as the `u32` bit pattern
//! of the corresponding `f32`. Classification of a value (zero, finite) is
//! plain bit arithmetic, defined and verified here. The arithmetic itself is
//! done by thin trusted wrappers around the `f32` operations; each result is
//! named by an uninterpreted spec function, so that two calls on the same bit
//! patterns are known to return the same bits, which is all the surrounding
//! logic relies on.

use vstd::prelude::*;

verus! {

/// Bit pattern of `0.0f32`.
pub const F32_ZERO_BITS: u32 = 0x0000_0000;

/// Bit pattern of `1.0f32`.
pub const F32_ONE_BITS: u32 = 0x3F80_0000;

/// Bit pattern of `24.0f32`, the default width and height of a document.
pub const F32_24_BITS: u32 = 0x41C0_0000;

/// The one quiet-NaN bit pattern this crate's arithmetic hands back: the
/// payload of a NaN produced by hardware arithmetic is not specified, so
/// the trusted wrappers canonicalize it to keep their results functions of
/// their operands.
pub const F32_CANONICAL_NAN_BITS: u32 = 0x7FC0_0000;

/// True when `b` is the bit pattern of `0.0f32` or `-0.0f32`.
pub open spec fn is_zero_bits(b: u32) -> bool {
    b & 0x7FFF_FFFF == 0
}

/// True when `b` is the bit pattern of a finite `f32` value
/// (neither an infinity nor a NaN: the exponent field is not all ones).
pub open spec fn is_finite_bits(b: u32) -> bool {
    b & 0x7F80_0000 != 0x7F80_0000
}

/// True when `b` is the bit pattern of a NaN (all-ones exponent and a
/// nonzero mantissa).
pub open spec fn is_nan_bits(b: u32) -> bool {
    b & 0x7FFF_FFFF > 0x7F80_0000
}

/// True when the magnitude of the value `b` stands for is below 2^-20
/// (zeros included): the scale at which squares and products of arc
/// parameters start to vanish into subnormals.
pub open spec fn is_tiny_bits(b: u32) -> bool {
    b & 0x7FFF_FFFF < 0x3580_0000
}

/// Runtime test for [`is_tiny_bits`].
pub fn f32_bits_is_tiny(b: u32) -> (r: bool)
    ensures
        r == is_tiny_bits(b),
{
    b & 0x7FFF_FFFF < 0x3580_0000
}

/// Runtime test for [`is_nan_bits`].
pub fn f32_bits_is_nan(b: u32) -> (r: bool)
    ensures
        r == is_nan_bits(b),
{
    b & 0x7FFF_FFFF > 0x7F80_0000
}

/// Runtime test for [`is_zero_bits`].
pub fn f32_bits_is_zero(b: u32) -> (r: bool)
    ensures
        r == is_zero_bits(b),
{
    b & 0x7FFF_FFFF == 0
}

/// Runtime test for [`is_finite_bits`].
pub fn f32_bits_is_finite(b: u32) -> (r: bool)
    ensures
        r == is_finite_bits(b),
{
    b & 0x7F80_0000 != 0x7F80_0000
}

pub uninterp spec fn spec_add_f32(a: u32, b: u32) -> u32;

pub uninterp spec fn spec_sub_f32(a: u32, b: u32) -> u32;

pub uninterp spec fn spec_mul_f32(a: u32, b: u32) -> u32;

pub uninterp spec fn spec_div_f32(a: u32, b: u32) -> u32;

pub uninterp spec fn spec_min_f32(a: u32, b: u32) -> u32;

pub uninterp spec fn spec_max_f32(a: u32, b: u32) -> u32;

pub uninterp spec fn spec_le_f32(a: u32, b: u32) -> bool;

pub uninterp spec fn spec_parse_f32(s: Seq<char>) -> Option<u32>;

pub uninterp spec fn spec_fmt_f32(b: u32) -> Seq<char>;

/// Relies on `f32` addition, exact per IEEE 754 for given bit patterns,
/// except that a NaN result is canonicalized (its payload is not
/// specified); the result is then a function of the operands, named by
/// `spec_add_f32`.
#[verifier::external_body]
pub(crate) fn add_f32(a: u32, b: u32) -> (r: u32)
    ensures
        r == spec_add_f32(a, b),
        is_nan_bits(r) ==> r == F32_CANONICAL_NAN_BITS,
{
    let p = lyon::math::Point::new(bytemuck::cast(a), bytemuck::cast(b));
    let v = p.x + p.y;
    if v.is_nan() { 0x7FC0_0000 } else { bytemuck::cast(v) }
}

/// Relies on `f32` subtraction, exact per IEEE 754 for given bit patterns,
/// except that a NaN result is canonicalized (its payload is not
/// specified); the result is then a function of the operands, named by
/// `spec_sub_f32`.
#[verifier::external_body]
pub(crate) fn sub_f32(a: u32, b: u32) -> (r: u32)
    ensures
        r == spec_sub_f32(a, b),
        is_nan_bits(r) ==> r == F32_CANONICAL_NAN_BITS,
{
    let p = lyon::math::Point::new(bytemuck::cast(a), bytemuck::cast(b));
    let v = p.x - p.y;
    if v.is_nan() { 0x7FC0_0000 } else { bytemuck::cast(v) }
}

/// Relies on `f32` multiplication, exact per IEEE 754 for given bit patterns,
/// except that a NaN result is canonicalized (its payload is not
/// specified); the result is then a function of the operands, named by
/// `spec_mul_f32`.
#[verifier::external_body]
pub(crate) fn mul_f32(a: u32, b: u32) -> (r: u32)
    ensures
        r == spec_mul_f32(a, b),
        is_nan_bits(r) ==> r == F32_CANONICAL_NAN_BITS,
{
    let p = lyon::math::Point::new(bytemuck::cast(a), bytemuck::cast(b));
    let v = p.x * p.y;
    if v.is_nan() { 0x7FC0_0000 } else { bytemuck::cast(v) }
}

/// Relies on `f32` division, exact per IEEE 754 for given bit patterns,
/// except that a NaN result is canonicalized (its payload is not
/// specified); the result is then a function of the operands, named by
/// `spec_div_f32`.
#[verifier::external_body]
pub(crate) fn div_f32(a: u32, b: u32) -> (r: u32)
    ensures
        r == spec_div_f32(a, b),
        is_nan_bits(r) ==> r == F32_CANONICAL_NAN_BITS,
{
    let p = lyon::math::Point::new(bytemuck::cast(a), bytemuck::cast(b));
    let v = p.x / p.y;
    if v.is_nan() { 0x7FC0_0000 } else { bytemuck::cast(v) }
}

/// Relies on `f32::min`: the smaller of the two values, the other one
/// when exactly one is NaN, a canonical NaN when both are (the payload of
/// that NaN is not specified). When both operands are zeros the hardware
/// may hand back either, so the body settles on the negative one; the
/// result is then a function of the operands, named by `spec_min_f32`,
/// is one of the operands whenever one of them is not NaN, and lies at
/// or below both when neither is. And since `<=` on values that are not
/// NaN is the order of the reals, anything at or above either operand is
/// at or above the result.
#[verifier::external_body]
pub(crate) fn min_f32(a: u32, b: u32) -> (r: u32)
    ensures
        r == spec_min_f32(a, b),
        !is_nan_bits(a) || !is_nan_bits(b) ==> r == a || r == b,
        is_nan_bits(a) && !is_nan_bits(b) ==> r == b,
        is_nan_bits(b) && !is_nan_bits(a) ==> r == a,
        !is_nan_bits(a) && !is_nan_bits(b) ==> spec_le_f32(r, a) && spec_le_f32(r, b),
        !is_nan_bits(a) && !is_nan_bits(b) ==> (forall|c: u32|
            (#[trigger] spec_le_f32(a, c)) || (#[trigger] spec_le_f32(b, c))
                ==> spec_le_f32(r, c)),
{
    let p = lyon::math::Point::new(bytemuck::cast(a), bytemuck::cast(b));
    let v = p.x.min(p.y);
    if v.is_nan() {
        0x7FC0_0000
    } else if a & 0x7FFF_FFFF == 0 && b & 0x7FFF_FFFF == 0 {
        a | b
    } else {
        bytemuck::cast(v)
    }
}

/// Relies on `f32::max`: the larger of the two values, the other one
/// when exactly one is NaN, a canonical NaN when both are, the positive
/// zero when both operands are zeros; the dual of [`min_f32`] in every
/// clause, named by `spec_max_f32`.
#[verifier::external_body]
pub(crate) fn max_f32(a: u32, b: u32) -> (r: u32)
    ensures
        r == spec_max_f32(a, b),
        !is_nan_bits(a) || !is_nan_bits(b) ==> r == a || r == b,
        is_nan_bits(a) && !is_nan_bits(b) ==> r == b,
        is_nan_bits(b) && !is_nan_bits(a) ==> r == a,
        !is_nan_bits(a) && !is_nan_bits(b) ==> spec_le_f32(a, r) && spec_le_f32(b, r),
        !is_nan_bits(a) && !is_nan_bits(b) ==> (forall|c: u32|
            (#[trigger] spec_le_f32(c, a)) || (#[trigger] spec_le_f32(c, b))
                ==> spec_le_f32(c, r)),
{
    let p = lyon::math::Point::new(bytemuck::cast(a), bytemuck::cast(b));
    let v = p.x.max(p.y);
    if v.is_nan() {
        0x7FC0_0000
    } else if a & 0x7FFF_FFFF == 0 && b & 0x7FFF_FFFF == 0 {
        a & b
    } else {
        bytemuck::cast(v)
    }
}

/// Relies on the `<=` comparison of `f32`, exact per IEEE 754;
/// the result is named by `spec_le_f32`.
#[verifier::external_body]
pub(crate) fn le_f32(a: u32, b: u32) -> (r: bool)
    ensures
        r == spec_le_f32(a, b),
{
    let p = lyon::math::Point::new(bytemuck::cast(a), bytemuck::cast(b));
    p.x <= p.y
}

/// Relies on `str::parse::<f32>`, a deterministic function of the input
/// text; the result is named by `spec_parse_f32`. `None` is returned exactly
/// when the text is not a valid `f32` literal.
#[verifier::external_body]
pub(crate) fn parse_f32(s: &str) -> (r: Option<u32>)
    ensures
        r == spec_parse_f32(s@),
{
    match s.parse() {
        Ok(v) => {
            let p = lyon::math::Point::new(v, v);
            Some(bytemuck::cast(p.x))
        }
        Err(_) => None,
    }
}

/// True when every character of `s` could come from formatting a finite
/// `f32`: a possible leading `-`, then decimal digits with at most one `.`.
pub open spec fn decimal_shape(s: Seq<char>) -> bool {
    &&& s.len() > 0
    &&& forall|i: int|
        0 <= i < s.len() ==> (('0' <= s[i] && s[i] <= '9') || s[i] == '.' || s[i] == '-')
    &&& forall|i: int| 1 <= i < s.len() ==> s[i] != '-'
    &&& forall|i: int, j: int| 0 <= i < j < s.len() && s[i] == '.' ==> s[j] != '.'
}

/// Relies on the `Display` impl of `f32` (via `ToString`), a deterministic
/// function of the bit pattern; the result is named by `spec_fmt_f32`.
/// For finite values std documents a plain decimal numeral, with the fewest
/// digits that read back as the same value: the shape and the read-back are
/// stated for finite inputs.
#[verifier::external_body]
pub(crate) fn fmt_f32(b: u32) -> (r: String)
    ensures
        r@ == spec_fmt_f32(b),
        is_finite_bits(b) ==> decimal_shape(r@),
        is_finite_bits(b) ==> spec_parse_f32(r@) == Some(b),
{
    let p = lyon::math::Point::new(bytemuck::cast(b), bytemuck::cast(b));
    p.x.to_string()
}

} // verus!
