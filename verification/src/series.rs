//! Single arrays (series) and the value transforms over them.
use vstd::prelude::*;

use crate::engine::bits_match;
use crate::engine::cast_int_cells;
use crate::engine::cast_uint_cells;
use crate::engine::div_bits;
use crate::engine::div_float_bits;
use crate::engine::i64_to_f64_bits;
use crate::engine::round_bits;
use crate::engine::round_float_cells;
use crate::engine::sum_bits;
use crate::engine::sum_float_cells;
use crate::engine::u64_to_f64_bits;
use crate::error::Error;
use crate::value::cell_has_dtype;
use crate::value::clone_cell;
use crate::value::DType;
use crate::value::Value;
use std::collections::hash_map::DefaultHasher;
use std::hash::Hasher;
use vstd::std_specs::hash::DefaultHasherAdditionalSpecFns;
use vstd::string::StrSliceExecFns;

verus! {

/// A homogeneous, nullable, positionally indexed sequence of typed values.
#[derive(PartialEq, Eq, Debug)]
pub struct Array {
    pub name: String,
    pub dtype: DType,
    pub cells: Vec<Option<Value>>,
}

/// The mathematical content of an array: its name, type and cells.
pub struct ArrView {
    pub name: Seq<char>,
    pub dtype: DType,
    pub cells: Seq<Option<Value>>,
}

impl ArrView {
    /// Every non-null cell carries the array's declared type.
    pub open spec fn wf(self) -> bool {
        forall|i: int| 0 <= i < self.cells.len() ==> cell_has_dtype(#[trigger] self.cells[i], self.dtype)
    }
}

impl View for Array {
    type V = ArrView;

    open spec fn view(&self) -> ArrView {
        ArrView { name: self.name@, dtype: self.dtype, cells: self.cells@ }
    }
}

impl Array {
    /// Clones an array; the clone has the same content.
    pub fn duplicate(&self) -> (res: Array)
        ensures
            res@ == self@,
    {
        let res = Array { name: self.name.clone(), dtype: self.dtype, cells: clone_cells(&self.cells) };
        proof {
            assert(res@.cells =~= self@.cells);
        }
        res
    }
}

/// Clones a cell vector, exactly.
pub fn clone_cells(cells: &Vec<Option<Value>>) -> (res: Vec<Option<Value>>)
    ensures
        res@ == cells@,
{
    let mut res: Vec<Option<Value>> = Vec::new();
    let mut i: usize = 0;
    while i < cells.len()
        invariant
            i <= cells@.len(),
            res@ =~= cells@.take(i as int),
        decreases cells@.len() - i,
    {
        res.push(clone_cell(&cells[i]));
        i += 1;
    }
    proof {
        assert(res@ =~= cells@);
    }
    res
}

// ----------------------------------------------------------------------------
// nullify
// ----------------------------------------------------------------------------

/// The cells of `nullify`: a cell survives exactly where the mask is true.
pub open spec fn nullified_cells(cells: Seq<Option<Value>>, mask: Seq<Option<Value>>) -> Seq<Option<Value>> {
    Seq::new(cells.len(), |i: int| if mask[i] == Some(Value::Bool(true)) { cells[i] } else { None })
}

/// Nullifies the values of `series[0]` under the boolean mask `series[1]`:
/// row `i` keeps its value exactly where the mask is true there; a false or
/// null mask row yields null. Fails only on a non-boolean mask or a length
/// mismatch, never on data content.
pub fn nullify(series: &[Array]) -> (r: Result<Array, Error>)
    requires
        series@.len() >= 2,
        series@[0]@.wf(),
        series@[1]@.wf(),
    ensures
        r is Ok <==> (series@[1]@.dtype is Boolean && series@[1]@.cells.len() == series@[0]@.cells.len()),
        r matches Ok(out) ==> {
            &&& out@.wf()
            &&& out@.name == series@[0]@.name
            &&& out@.dtype == series@[0]@.dtype
            &&& out@.cells == nullified_cells(series@[0]@.cells, series@[1]@.cells)
        },
        r matches Err(e) ==> e == Error::TypeMismatch,
{
    let arr = &series[0];
    let mask = &series[1];
    match mask.dtype {
        DType::Boolean => (),
        _ => {
            return Err(Error::TypeMismatch);
        },
    }
    if mask.cells.len() != arr.cells.len() {
        return Err(Error::TypeMismatch);
    }
    let mut out: Vec<Option<Value>> = Vec::new();
    let mut i: usize = 0;
    while i < arr.cells.len()
        invariant
            i <= arr.cells@.len(),
            arr.cells@.len() == mask.cells@.len(),
            arr@.wf(),
            out@ =~= nullified_cells(arr.cells@, mask.cells@).take(i as int),
        decreases arr.cells@.len() - i,
    {
        match &mask.cells[i] {
            Some(Value::Bool(true)) => out.push(clone_cell(&arr.cells[i])),
            _ => out.push(None),
        }
        i += 1;
    }
    let res = Array { name: arr.name.clone(), dtype: arr.dtype, cells: out };
    proof {
        assert(res@.cells =~= nullified_cells(arr.cells@, mask.cells@));
        assert forall|k: int| 0 <= k < res@.cells.len() implies cell_has_dtype(#[trigger] res@.cells[k], res@.dtype) by {
            assert(cell_has_dtype(arr@.cells[k], arr@.dtype));
        }
    }
    Ok(res)
}

// ----------------------------------------------------------------------------
// normalize
// ----------------------------------------------------------------------------

/// The bit pattern each numeric cell casts to: a double keeps its bits, an
/// integer converts to the nearest double; nulls (and, vacuously, cells of
/// other types) map to null.
pub open spec fn numeric_bits_view(cells: Seq<Option<Value>>) -> Seq<Option<u64>> {
    cells.map_values(
        |c: Option<Value>|
            match c {
                Some(Value::Float(b)) => Some(b),
                Some(Value::Int(x)) => Some(i64_to_f64_bits(x)),
                Some(Value::UInt(x)) => Some(u64_to_f64_bits(x)),
                _ => None,
            },
    )
}

/// The bit pattern a cell contributes to a division: a null counts as zero.
pub open spec fn cell_numer_bits(c: Option<Value>) -> u64 {
    match c {
        Some(Value::Float(b)) => b,
        Some(Value::Int(x)) => i64_to_f64_bits(x),
        Some(Value::UInt(x)) => u64_to_f64_bits(x),
        _ => 0u64,
    }
}

/// The cells of `normalize` when some cell is non-null: every output cell
/// holds, up to NaN payload, its input cell (cast to a double, a null
/// counting as zero) divided by the engine's sum of the whole array.
pub open spec fn normalized_cells_match(out: Seq<Option<Value>>, cells: Seq<Option<Value>>) -> bool {
    &&& out.len() == cells.len()
    &&& exists|s: u64|
        #[trigger] bits_match(s, sum_bits(numeric_bits_view(cells))) && forall|i: int|
            0 <= i < out.len() ==> ((#[trigger] out[i]) matches Some(Value::Float(rb)) && bits_match(
                rb,
                div_bits(cell_numer_bits(cells[i]), s),
            ))
}

/// Whether a type is numeric: a double, or an integer that casts to one.
pub open spec fn round_applies(dt: DType) -> bool {
    dt is Float64 || dt is Int64 || dt is UInt64
}

/// Extracts the double bit patterns of a numeric array's cells (integers are
/// cast), and whether any cell is non-null.
fn numeric_bits_of(series: &Array) -> (r: (Vec<Option<u64>>, bool))
    requires
        series@.wf(),
        round_applies(series@.dtype),
    ensures
        r.0@ == numeric_bits_view(series@.cells),
        r.1 <==> exists|i: int| 0 <= i < series@.cells.len() && series@.cells[i] is Some,
{
    let mut any: bool = false;
    let mut i: usize = 0;
    match series.dtype {
        DType::Float64 => {
            let mut bits: Vec<Option<u64>> = Vec::new();
            while i < series.cells.len()
                invariant
                    i <= series.cells@.len(),
                    series@.wf(),
                    series@.dtype is Float64,
                    bits@ =~= numeric_bits_view(series.cells@).take(i as int),
                    any <==> exists|j: int| 0 <= j < i && series.cells@[j] is Some,
                decreases series.cells@.len() - i,
            {
                match &series.cells[i] {
                    Some(Value::Float(b)) => {
                        bits.push(Some(*b));
                        any = true;
                    },
                    _ => {
                        proof {
                            assert(cell_has_dtype(series@.cells[i as int], series@.dtype));
                            assert(series.cells@[i as int] is None);
                        }
                        bits.push(None);
                    },
                }
                i += 1;
            }
            proof {
                assert(bits@ =~= numeric_bits_view(series@.cells));
            }
            (bits, any)
        },
        DType::Int64 => {
            let mut ints: Vec<Option<i64>> = Vec::new();
            while i < series.cells.len()
                invariant
                    i <= series.cells@.len(),
                    series@.wf(),
                    series@.dtype is Int64,
                    ints@.len() == i,
                    forall|j: int| 0 <= j < i ==> #[trigger] ints@[j] == (match series.cells@[j] {
                        Some(Value::Int(x)) => Some(x),
                        _ => None::<i64>,
                    }),
                    any <==> exists|j: int| 0 <= j < i && series.cells@[j] is Some,
                decreases series.cells@.len() - i,
            {
                match &series.cells[i] {
                    Some(Value::Int(x)) => {
                        ints.push(Some(*x));
                        any = true;
                    },
                    _ => {
                        proof {
                            assert(cell_has_dtype(series@.cells[i as int], series@.dtype));
                            assert(series.cells@[i as int] is None);
                        }
                        ints.push(None);
                    },
                }
                i += 1;
            }
            let bits = cast_int_cells(&ints);
            proof {
                assert forall|j: int| 0 <= j < series.cells@.len() implies bits@[j] == numeric_bits_view(
                    series@.cells,
                )[j] by {
                    assert(cell_has_dtype(series@.cells[j], series@.dtype));
                }
                assert(bits@ =~= numeric_bits_view(series@.cells));
            }
            (bits, any)
        },
        DType::UInt64 => {
            let mut uints: Vec<Option<u64>> = Vec::new();
            while i < series.cells.len()
                invariant
                    i <= series.cells@.len(),
                    series@.wf(),
                    series@.dtype is UInt64,
                    uints@.len() == i,
                    forall|j: int| 0 <= j < i ==> #[trigger] uints@[j] == (match series.cells@[j] {
                        Some(Value::UInt(x)) => Some(x),
                        _ => None::<u64>,
                    }),
                    any <==> exists|j: int| 0 <= j < i && series.cells@[j] is Some,
                decreases series.cells@.len() - i,
            {
                match &series.cells[i] {
                    Some(Value::UInt(x)) => {
                        uints.push(Some(*x));
                        any = true;
                    },
                    _ => {
                        proof {
                            assert(cell_has_dtype(series@.cells[i as int], series@.dtype));
                            assert(series.cells@[i as int] is None);
                        }
                        uints.push(None);
                    },
                }
                i += 1;
            }
            let bits = cast_uint_cells(&uints);
            proof {
                assert forall|j: int| 0 <= j < series.cells@.len() implies bits@[j] == numeric_bits_view(
                    series@.cells,
                )[j] by {
                    assert(cell_has_dtype(series@.cells[j], series@.dtype));
                }
                assert(bits@ =~= numeric_bits_view(series@.cells));
            }
            (bits, any)
        },
        _ => {
            proof {
                assert(false);
            }
            (Vec::new(), false)
        },
    }
}

/// Normalizes a numeric array: each cell is cast to a double and divided by
/// the engine's sum over all non-null cells (a null cell counts as zero for
/// the division); when every cell is null, every output cell is null. Any
/// non-numeric input type is a type mismatch.
pub fn normalize(series: &Array) -> (r: Result<Array, Error>)
    requires
        series@.wf(),
    ensures
        r is Ok <==> round_applies(series@.dtype),
        r matches Ok(out) ==> {
            &&& out@.wf()
            &&& out@.name == series@.name
            &&& out@.dtype is Float64
            &&& out@.cells.len() == series@.cells.len()
            &&& ((forall|i: int| 0 <= i < series@.cells.len() ==> series@.cells[i] is None) ==> (forall|i: int|
                0 <= i < out@.cells.len() ==> out@.cells[i] is None))
            &&& ((exists|i: int| 0 <= i < series@.cells.len() && series@.cells[i] is Some) ==> normalized_cells_match(
                out@.cells,
                series@.cells,
            ))
        },
        r matches Err(e) ==> e == Error::TypeMismatch && !round_applies(series@.dtype),
{
    match series.dtype {
        DType::Float64 | DType::Int64 | DType::UInt64 => (),
        _ => {
            return Err(Error::TypeMismatch);
        },
    }
    let (bits, any) = numeric_bits_of(series);
    let mut out: Vec<Option<Value>> = Vec::new();
    let mut i: usize = 0;
    if !any {
        while i < series.cells.len()
            invariant
                i <= series.cells@.len(),
                out@.len() == i,
                forall|j: int| 0 <= j < i ==> (#[trigger] out@[j]) is None,
            decreases series.cells@.len() - i,
        {
            out.push(None);
            i += 1;
        }
    } else {
        let s = sum_float_cells(&bits);
        while i < series.cells.len()
            invariant
                i <= series.cells@.len(),
                out@.len() == i,
                bits@ == numeric_bits_view(series.cells@),
                bits_match(s, sum_bits(numeric_bits_view(series.cells@))),
                forall|j: int| 0 <= j < i ==> ((#[trigger] out@[j]) matches Some(Value::Float(rb)) && bits_match(
                    rb,
                    div_bits(cell_numer_bits(series.cells@[j]), s),
                )),
            decreases series.cells@.len() - i,
        {
            let b = match bits[i] {
                Some(x) => x,
                None => 0u64,
            };
            proof {
                assert(numeric_bits_view(series.cells@)[i as int] == (match series.cells@[i as int] {
                    Some(Value::Float(x)) => Some(x),
                    Some(Value::Int(x)) => Some(i64_to_f64_bits(x)),
                    Some(Value::UInt(x)) => Some(u64_to_f64_bits(x)),
                    _ => None::<u64>,
                }));
            }
            out.push(Some(Value::Float(div_float_bits(b, s))));
            i += 1;
        }
        proof {
            assert(bits_match(s, sum_bits(numeric_bits_view(series@.cells))));
            assert(normalized_cells_match(out@, series@.cells));
        }
    }
    proof {
        assert forall|k: int| 0 <= k < out@.len() implies cell_has_dtype(#[trigger] out@[k], DType::Float64) by {}
    }
    let res = Array { name: series.name.clone(), dtype: DType::Float64, cells: out };
    Ok(res)
}

// ----------------------------------------------------------------------------
// round
// ----------------------------------------------------------------------------

/// The rounding relation on cells: each non-null double is rounded
/// half-to-even to the given digit count, up to NaN payload; nulls and
/// integer cells pass through unchanged.
pub open spec fn rounded_cells_match(out: Seq<Option<Value>>, cells: Seq<Option<Value>>, decimals: u32) -> bool {
    &&& out.len() == cells.len()
    &&& forall|i: int|
        #![trigger out[i]]
        0 <= i < cells.len() ==> (match cells[i] {
            Some(Value::Float(b)) => (out[i] matches Some(Value::Float(rb)) && bits_match(
                rb,
                round_bits(b, decimals),
            )),
            other => out[i] == other,
        })
}

/// Rounds each non-null cell of a numeric array to `decimals` fractional
/// digits, half-to-even; nulls pass through, and integer arrays come back
/// unchanged. Any other input type is a type mismatch.
pub fn round(decimals: u32, series: &Array) -> (r: Result<Array, Error>)
    requires
        series@.wf(),
    ensures
        r is Ok <==> round_applies(series@.dtype),
        r matches Ok(out) ==> {
            &&& out@.wf()
            &&& out@.name == series@.name
            &&& out@.dtype == series@.dtype
            &&& rounded_cells_match(out@.cells, series@.cells, decimals)
        },
        r matches Err(e) ==> e == Error::TypeMismatch && !round_applies(series@.dtype),
{
    match series.dtype {
        DType::Float64 => {
            let (bits, _any) = numeric_bits_of(series);
            let rb = round_float_cells(&bits, decimals);
            let mut out: Vec<Option<Value>> = Vec::new();
            let mut i: usize = 0;
            while i < rb.len()
                invariant
                    i <= rb@.len(),
                    rb@.len() == series.cells@.len(),
                    out@.len() == i,
                    series@.wf(),
                    series@.dtype is Float64,
                    bits@ == numeric_bits_view(series.cells@),
                    forall|j: int| 0 <= j < rb@.len() ==> (match bits@[j] {
                        None => (#[trigger] rb@[j]) is None,
                        Some(b) => (rb@[j] matches Some(x) && bits_match(x, round_bits(b, decimals))),
                    }),
                    forall|j: int|
                        #![trigger out@[j]]
                        0 <= j < i ==> (match series.cells@[j] {
                            Some(Value::Float(b)) => (out@[j] matches Some(Value::Float(x)) && bits_match(
                                x,
                                round_bits(b, decimals),
                            )),
                            other => out@[j] == other,
                        }),
                decreases rb@.len() - i,
            {
                proof {
                    assert(cell_has_dtype(series@.cells[i as int], series@.dtype));
                    assert(numeric_bits_view(series.cells@)[i as int] == (match series.cells@[i as int] {
                        Some(Value::Float(x)) => Some(x),
                        Some(Value::Int(x)) => Some(i64_to_f64_bits(x)),
                        Some(Value::UInt(x)) => Some(u64_to_f64_bits(x)),
                        _ => None::<u64>,
                    }));
                }
                match rb[i] {
                    Some(b) => out.push(Some(Value::Float(b))),
                    None => out.push(None),
                }
                i += 1;
            }
            proof {
                assert forall|k: int| 0 <= k < out@.len() implies cell_has_dtype(
                    #[trigger] out@[k],
                    DType::Float64,
                ) by {
                    assert(cell_has_dtype(series@.cells[k], series@.dtype));
                }
            }
            let res = Array { name: series.name.clone(), dtype: DType::Float64, cells: out };
            Ok(res)
        },
        DType::Int64 | DType::UInt64 => {
            let res = Array { name: series.name.clone(), dtype: series.dtype, cells: clone_cells(&series.cells) };
            proof {
                assert forall|i: int|
                    0 <= i < series.cells@.len() implies !((#[trigger] series.cells@[i]) matches Some(
                    Value::Float(_),
                )) by {
                    assert(cell_has_dtype(series@.cells[i], series@.dtype));
                }
            }
            Ok(res)
        },
        _ => Err(Error::TypeMismatch),
    }
}

// ----------------------------------------------------------------------------
// hash
// ----------------------------------------------------------------------------

/// The little-endian bytes of a 64-bit word.
pub open spec fn le8(x: u64) -> Seq<u8> {
    seq![
        (x & 0xff) as u8,
        ((x >> 8) & 0xff) as u8,
        ((x >> 16) & 0xff) as u8,
        ((x >> 24) & 0xff) as u8,
        ((x >> 32) & 0xff) as u8,
        ((x >> 40) & 0xff) as u8,
        ((x >> 48) & 0xff) as u8,
        ((x >> 56) & 0xff) as u8,
    ]
}

/// An injective byte encoding of a nullable cell: a tag byte for the variant
/// (null gets its own tag, so "no value" is distinct from every value),
/// then the payload.
pub open spec fn encode_cell(c: Option<Value>) -> Seq<u8> {
    match c {
        None => seq![0u8],
        Some(Value::Int(x)) => seq![1u8] + le8(x as u64),
        Some(Value::UInt(x)) => seq![2u8] + le8(x),
        Some(Value::Float(b)) => seq![3u8] + le8(b),
        Some(Value::Bool(b)) => seq![4u8, if b { 1u8 } else { 0u8 }],
        Some(Value::Str(s)) => seq![5u8] + vstd::utf8::encode_utf8(s@),
    }
}

/// The hash of one cell: the standard library's deterministic default hasher
/// applied to the cell's byte encoding. A null's hash is thus one constant,
/// the same at every position.
pub open spec fn cell_hash(c: Option<Value>) -> u64 {
    DefaultHasher::spec_finish(seq![encode_cell(c)])
}

/// The cells of `hash`: one 64-bit hash per cell; a null hashes to the
/// constant hash of "no value".
pub open spec fn hashed_cells(cells: Seq<Option<Value>>) -> Seq<Option<Value>> {
    Seq::new(cells.len(), |i: int| Some(Value::UInt(cell_hash(cells[i]))))
}

/// Appends the eight little-endian bytes of `x`.
fn le8_push(out: &mut Vec<u8>, x: u64)
    ensures
        final(out)@ == old(out)@ + le8(x),
{
    out.push((x & 0xff) as u8);
    out.push(((x >> 8) & 0xff) as u8);
    out.push(((x >> 16) & 0xff) as u8);
    out.push(((x >> 24) & 0xff) as u8);
    out.push(((x >> 32) & 0xff) as u8);
    out.push(((x >> 40) & 0xff) as u8);
    out.push(((x >> 48) & 0xff) as u8);
    out.push(((x >> 56) & 0xff) as u8);
    proof {
        assert(out@ =~= old(out)@ + le8(x));
    }
}

/// Builds the byte encoding of one cell.
fn encode_cell_exec(c: &Option<Value>) -> (r: Vec<u8>)
    ensures
        r@ == encode_cell(*c),
{
    let mut out: Vec<u8> = Vec::new();
    match c {
        None => out.push(0u8),
        Some(Value::Int(x)) => {
            out.push(1u8);
            le8_push(&mut out, *x as u64);
        },
        Some(Value::UInt(x)) => {
            out.push(2u8);
            le8_push(&mut out, *x);
        },
        Some(Value::Float(b)) => {
            out.push(3u8);
            le8_push(&mut out, *b);
        },
        Some(Value::Bool(b)) => {
            out.push(4u8);
            out.push(if *b { 1u8 } else { 0u8 });
        },
        Some(Value::Str(s)) => {
            out.push(5u8);
            let mut bytes = s.as_str().as_bytes_vec();
            out.append(&mut bytes);
        },
    }
    proof {
        assert(out@ =~= encode_cell(*c));
    }
    out
}

/// Hashes one cell with the default hasher, deterministically.
fn hash_cell(c: &Option<Value>) -> (r: u64)
    ensures
        r == cell_hash(*c),
{
    let bytes = encode_cell_exec(c);
    let mut h = DefaultHasher::new();
    h.write(bytes.as_slice());
    proof {
        assert(h@ =~= seq![encode_cell(*c)]);
    }
    h.finish()
}

/// Hashes every cell of an array into an unsigned 64-bit array named "Hash".
/// The hash is deterministic: it depends on the cell contents alone, and a
/// null cell hashes to one constant, the same at every position.
pub fn hash(series: &Array) -> (r: Array)
    requires
        series@.wf(),
    ensures
        r@.wf(),
        r@.dtype is UInt64,
        r@.name == "Hash"@,
        r@.cells == hashed_cells(series@.cells),
{
    let mut out: Vec<Option<Value>> = Vec::new();
    let mut i: usize = 0;
    while i < series.cells.len()
        invariant
            i <= series.cells@.len(),
            out@ =~= hashed_cells(series.cells@).take(i as int),
        decreases series.cells@.len() - i,
    {
        out.push(Some(Value::UInt(hash_cell(&series.cells[i]))));
        i += 1;
    }
    let res = Array { name: "Hash".to_owned(), dtype: DType::UInt64, cells: out };
    proof {
        assert(res@.cells =~= hashed_cells(series@.cells));
    }
    res
}

/// Two null cells hash alike, wherever they stand: the hash of "no value" is
/// one constant.
pub proof fn lemma_null_hash_constant(cells: Seq<Option<Value>>, i: int, j: int)
    requires
        0 <= i < cells.len(),
        0 <= j < cells.len(),
        cells[i] is None,
        cells[j] is None,
    ensures
        hashed_cells(cells)[i] == hashed_cells(cells)[j],
        hashed_cells(cells)[i] == Some(Value::UInt(cell_hash(None))),
{
}

/// Hashing is deterministic: arrays with the same cells hash to the same
/// cells, whatever their names.
pub proof fn lemma_hash_deterministic(a: ArrView, b: ArrView)
    requires
        a.cells == b.cells,
    ensures
        hashed_cells(a.cells) == hashed_cells(b.cells),
{
}

// ----------------------------------------------------------------------------
// the transforms as values, and the column adapter
// ----------------------------------------------------------------------------

/// A value transform, as a value: the configuration a combinator captures.
#[derive(Clone, Copy, PartialEq, Eq, Structural, Debug)]
pub enum Transform {
    Hash,
    Normalize,
    Round(u32),
}

/// Whether a transform applies to an array of the given type.
pub open spec fn transform_ok(t: Transform, dt: DType) -> bool {
    match t {
        Transform::Hash => true,
        Transform::Normalize => round_applies(dt),
        Transform::Round(_) => round_applies(dt),
    }
}

/// Whether `out` is what the transform makes of `input`.
pub open spec fn is_transform_of(t: Transform, out: ArrView, input: ArrView) -> bool {
    match t {
        Transform::Hash => out.dtype is UInt64 && out.name == "Hash"@ && out.cells == hashed_cells(input.cells),
        Transform::Normalize => {
            &&& out.dtype is Float64
            &&& out.name == input.name
            &&& out.cells.len() == input.cells.len()
            &&& ((forall|i: int| 0 <= i < input.cells.len() ==> input.cells[i] is None) ==> (forall|i: int|
                0 <= i < out.cells.len() ==> out.cells[i] is None))
            &&& ((exists|i: int| 0 <= i < input.cells.len() && input.cells[i] is Some) ==> normalized_cells_match(
                out.cells,
                input.cells,
            ))
        },
        Transform::Round(d) => out.dtype == input.dtype && out.name == input.name && rounded_cells_match(
            out.cells,
            input.cells,
            d,
        ),
    }
}

/// Lifts the single-array transform over a possibly composite column: a
/// grouped column does not reduce to one array, so the transform is not
/// applicable and the caller gets `None` — the signal to leave the column
/// unmodified, distinct from a failure inside the transform itself.
pub fn column(transform: Transform, col: crate::column::Column) -> (r: Result<
    Option<crate::column::Column>,
    Error,
>)
    requires
        col@.wf(),
    ensures
        col@ matches crate::column::ColView::Grouped(..) ==> r matches Ok(o) && o is None,
        col@ matches crate::column::ColView::Single(a) ==> match r {
            Ok(o) => {
                &&& transform_ok(transform, a.dtype)
                &&& o matches Some(c2)
                &&& c2@ matches crate::column::ColView::Single(out)
                &&& out.wf()
                &&& is_transform_of(transform, out, a)
            },
            Err(e) => e == Error::TypeMismatch && !transform_ok(transform, a.dtype),
        },
{
    match col {
        crate::column::Column::Grouped(_, _) => Ok(None),
        crate::column::Column::Single(a) => match transform.apply(&a) {
            Ok(out) => Ok(Some(crate::column::Column::Single(out))),
            Err(e) => Err(e),
        },
    }
}

impl Transform {
    /// Applies the transform to one array.
    pub fn apply(&self, series: &Array) -> (r: Result<Array, Error>)
        requires
            series@.wf(),
        ensures
            r is Ok <==> transform_ok(*self, series@.dtype),
            r matches Ok(out) ==> out@.wf() && is_transform_of(*self, out@, series@),
            r matches Err(e) ==> e == Error::TypeMismatch,
    {
        match self {
            Transform::Hash => Ok(hash(series)),
            Transform::Normalize => normalize(series),
            Transform::Round(d) => round(*d, series),
        }
    }
}

} // verus!
