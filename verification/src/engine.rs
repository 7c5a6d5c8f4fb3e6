//! Trusted boundary to the table engine's numeric kernels.
//!
//! Every double-precision value crosses this boundary as its IEEE 754 bit
//! pattern (`u64`); nothing here is interpreted by the verifier beyond the
//! names given to the results. A NaN result is pinned only up to its payload:
//! the language does not promise which NaN bit pattern an operation produces,
//! so each contract here fixes the exact bits of a non-NaN result and only
//! the NaN class of a NaN one.
use vstd::prelude::*;

use polars::prelude::ChunkAgg;
use polars::prelude::DataType;
use polars::prelude::Float64Chunked;
use polars::prelude::Float64Type;
use polars::prelude::Int64Chunked;
use polars::prelude::IntoSeries;
use polars::prelude::PolarsNumericType;
use polars::prelude::RoundMode;
use polars::prelude::RoundSeries;
use polars::prelude::UInt64Chunked;

verus! {

/// The bit pattern of a double's negative zero.
pub const NEG_ZERO_BITS: u64 = 0x8000000000000000;

/// Whether a bit pattern encodes a NaN: exponent all ones, mantissa non-zero.
pub open spec fn is_nan_bits(b: u64) -> bool {
    (b >> 52) & 0x7ff == 0x7ff && b & 0xfffffffffffff != 0
}

/// Equality up to NaN payload: a non-NaN result is pinned exactly; a NaN
/// result is pinned only to the NaN class.
pub open spec fn bits_match(r: u64, ideal: u64) -> bool {
    if is_nan_bits(ideal) {
        is_nan_bits(r)
    } else {
        r == ideal
    }
}

/// The bit pattern that polars' float sum kernel returns for a sequence of
/// nullable double cells (given as bit patterns).
pub uninterp spec fn sum_bits(cells: Seq<Option<u64>>) -> u64;

/// The bit pattern of the quotient of two doubles, given as bit patterns.
pub uninterp spec fn div_bits(a: u64, b: u64) -> u64;

/// The bit pattern of a double rounded to `decimals` fractional digits under
/// the half-to-even rule, given as a bit pattern.
pub uninterp spec fn round_bits(b: u64, decimals: u32) -> u64;

/// The bit pattern of the larger of a double and positive zero: negative
/// values clamp to zero.
pub uninterp spec fn clip_zero_bits(b: u64) -> u64;

/// The bit pattern of the product of two doubles, given as bit patterns.
pub uninterp spec fn mul_bits(a: u64, b: u64) -> u64;

/// The bit pattern of the nearest double to a signed 64-bit integer.
pub uninterp spec fn i64_to_f64_bits(x: i64) -> u64;

/// The bit pattern of the nearest double to an unsigned 64-bit integer.
pub uninterp spec fn u64_to_f64_bits(x: u64) -> u64;

/// Relies on polars `ChunkAgg::sum` over a single-chunk Float64 array: the
/// sum ignores null cells, always yields a value, and depends on the cell
/// bits alone, up to the payload of a NaN result.
#[verifier::external_body]
pub(crate) fn sum_float_cells(cells: &Vec<Option<u64>>) -> (r: u64)
    ensures
        bits_match(r, sum_bits(cells@)),
{
    let ca: Float64Chunked = cells
        .iter()
        .map(|o| o.map(<<Float64Type as PolarsNumericType>::Native>::from_bits))
        .collect();
    ca.sum().unwrap().to_bits()
}

/// Relies on the IEEE 754 division that `/` performs on doubles: the
/// quotient depends on the operand bits alone, up to the payload of a NaN
/// result.
#[verifier::external_body]
pub(crate) fn div_float_bits(a: u64, b: u64) -> (r: u64)
    ensures
        bits_match(r, div_bits(a, b)),
{
    let x = <<Float64Type as PolarsNumericType>::Native>::from_bits(a);
    let y = <<Float64Type as PolarsNumericType>::Native>::from_bits(b);
    (x / y).to_bits()
}

/// Relies on `f64::max` against positive zero (the all-zero bit pattern): a
/// negative input clamps to zero, any other input comes back unchanged, and
/// a NaN input returns the zero operand. On a negative-zero input `max` may
/// return either zero, so that input stays out.
#[verifier::external_body]
pub(crate) fn clip_zero_float_bits(b: u64) -> (r: u64)
    requires
        b != NEG_ZERO_BITS,
    ensures
        r == clip_zero_bits(b),
{
    let x = <<Float64Type as PolarsNumericType>::Native>::from_bits(b);
    let zero = <<Float64Type as PolarsNumericType>::Native>::from_bits(0);
    x.max(zero).to_bits()
}

/// Relies on the IEEE 754 multiplication that `*` performs on doubles: the
/// product depends on the operand bits alone, up to the payload of a NaN
/// result.
#[verifier::external_body]
pub(crate) fn mul_float_bits(a: u64, b: u64) -> (r: u64)
    ensures
        bits_match(r, mul_bits(a, b)),
{
    let x = <<Float64Type as PolarsNumericType>::Native>::from_bits(a);
    let y = <<Float64Type as PolarsNumericType>::Native>::from_bits(b);
    (x * y).to_bits()
}

/// Relies on polars `RoundSeries::round` with `RoundMode::HalfToEven` on a
/// Float64 array: it never fails there, it maps each non-null cell through a
/// fixed function of its bits and the digit count (up to the payload of a
/// NaN result), and it keeps nulls.
#[verifier::external_body]
pub(crate) fn round_float_cells(cells: &Vec<Option<u64>>, decimals: u32) -> (r: Vec<Option<u64>>)
    ensures
        r@.len() == cells@.len(),
        forall|i: int|
            #![trigger r@[i]]
            0 <= i < cells@.len() ==> (match cells@[i] {
                None => r@[i] is None,
                Some(b) => r@[i] matches Some(rb) && bits_match(rb, round_bits(b, decimals)),
            }),
{
    let ca: Float64Chunked = cells
        .iter()
        .map(|o| o.map(<<Float64Type as PolarsNumericType>::Native>::from_bits))
        .collect();
    let rounded = ca.into_series().round(decimals, RoundMode::HalfToEven).unwrap();
    let out = rounded.unpack::<Float64Type>().unwrap();
    out.iter().map(|o| o.map(|v| v.to_bits())).collect()
}

/// Relies on polars' cast from Int64 to Float64: it never fails, keeps
/// nulls, and converts each value to the nearest double, a function of the
/// value alone.
#[verifier::external_body]
pub(crate) fn cast_int_cells(cells: &Vec<Option<i64>>) -> (r: Vec<Option<u64>>)
    ensures
        r@.len() == cells@.len(),
        forall|i: int| 0 <= i < cells@.len() ==> r@[i] == (match cells@[i] {
            None => None,
            Some(x) => Some(i64_to_f64_bits(x)),
        }),
{
    let ca: Int64Chunked = cells.iter().map(|o| *o).collect();
    let s = ca.into_series().cast(&DataType::Float64).unwrap();
    let out = s.unpack::<Float64Type>().unwrap();
    out.iter().map(|o| o.map(|v| v.to_bits())).collect()
}

/// Relies on polars' cast from UInt64 to Float64: it never fails, keeps
/// nulls, and converts each value to the nearest double, a function of the
/// value alone.
#[verifier::external_body]
pub(crate) fn cast_uint_cells(cells: &Vec<Option<u64>>) -> (r: Vec<Option<u64>>)
    ensures
        r@.len() == cells@.len(),
        forall|i: int| 0 <= i < cells@.len() ==> r@[i] == (match cells@[i] {
            None => None,
            Some(x) => Some(u64_to_f64_bits(x)),
        }),
{
    let ca: UInt64Chunked = cells.iter().map(|o| *o).collect();
    let s = ca.into_series().cast(&DataType::Float64).unwrap();
    let out = s.unpack::<Float64Type>().unwrap();
    out.iter().map(|o| o.map(|v| v.to_bits())).collect()
}

} // verus!
