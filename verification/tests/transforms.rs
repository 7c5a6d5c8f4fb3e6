use polars_ext::column::nullify as nullify_column;
use polars_ext::column::Column;
use polars_ext::error::Error;
use polars_ext::series::hash;
use polars_ext::series::normalize;
use polars_ext::series::nullify;
use polars_ext::series::round;
use polars_ext::series::Array;
use polars_ext::series::Transform;
use polars_ext::value::DType;
use polars_ext::value::Value;

fn float_array(name: &str, vals: &[Option<f64>]) -> Array {
    Array {
        name: name.to_string(),
        dtype: DType::Float64,
        cells: vals.iter().map(|o| o.map(|x| Value::Float(x.to_bits()))).collect(),
    }
}

fn int_array(name: &str, vals: &[Option<i64>]) -> Array {
    Array {
        name: name.to_string(),
        dtype: DType::Int64,
        cells: vals.iter().map(|o| o.map(Value::Int)).collect(),
    }
}

fn bool_array(name: &str, vals: &[Option<bool>]) -> Array {
    Array {
        name: name.to_string(),
        dtype: DType::Boolean,
        cells: vals.iter().map(|o| o.map(Value::Bool)).collect(),
    }
}

fn floats_of(a: &Array) -> Vec<Option<f64>> {
    a.cells
        .iter()
        .map(|c| match c {
            Some(Value::Float(b)) => Some(f64::from_bits(*b)),
            None => None,
            other => panic!("not a float cell: {:?}", other),
        })
        .collect()
}

#[test]
fn normalize_sums_to_one() {
    let a = float_array("score", &[Some(1.0), Some(3.0), Some(4.0)]);
    let out = normalize(&a).unwrap();
    let vals = floats_of(&out);
    let total: f64 = vals.iter().map(|o| o.unwrap()).sum();
    assert!((total - 1.0).abs() < 1e-12);
    assert_eq!(vals[0], Some(0.125));
    assert_eq!(out.name, "score");
    assert_eq!(out.dtype, DType::Float64);
}

#[test]
fn normalize_null_counts_as_zero() {
    let a = float_array("s", &[Some(2.0), None, Some(2.0)]);
    let vals = floats_of(&normalize(&a).unwrap());
    assert_eq!(vals, vec![Some(0.5), Some(0.0), Some(0.5)]);
}

#[test]
fn normalize_all_null_gives_all_null() {
    let a = float_array("s", &[None, None, None]);
    let out = normalize(&a).unwrap();
    assert_eq!(out.cells, vec![None, None, None]);
}

#[test]
fn normalize_casts_integers() {
    let a = int_array("n", &[Some(1), Some(3)]);
    let vals = floats_of(&normalize(&a).unwrap());
    assert_eq!(vals, vec![Some(0.25), Some(0.75)]);
}

#[test]
fn normalize_all_null_integers_gives_all_null() {
    let a = int_array("n", &[None, None]);
    let out = normalize(&a).unwrap();
    assert_eq!(out.dtype, DType::Float64);
    assert_eq!(out.cells, vec![None, None]);
}

#[test]
fn normalize_rejects_non_numeric() {
    let a = bool_array("b", &[Some(true)]);
    assert_eq!(normalize(&a).unwrap_err(), Error::TypeMismatch);
}

#[test]
fn nullify_keeps_exactly_true_rows() {
    let a = int_array("a", &[Some(10), Some(20), Some(30)]);
    let m = bool_array("m", &[Some(true), Some(false), None]);
    let out = nullify(&[a, m]).unwrap();
    assert_eq!(out.cells, vec![Some(Value::Int(10)), None, None]);
    assert_eq!(out.name, "a");
    assert_eq!(out.dtype, DType::Int64);
}

#[test]
fn nullify_rejects_non_boolean_mask() {
    let a = int_array("a", &[Some(1)]);
    let m = int_array("m", &[Some(1)]);
    assert_eq!(nullify(&[a, m]).unwrap_err(), Error::TypeMismatch);
}

#[test]
fn nullify_rejects_length_mismatch() {
    let a = int_array("a", &[Some(1), Some(2)]);
    let m = bool_array("m", &[Some(true)]);
    assert_eq!(nullify(&[a, m]).unwrap_err(), Error::TypeMismatch);
}

#[test]
fn hash_is_deterministic() {
    let a = float_array("x", &[Some(1.5), None, Some(-2.0)]);
    let h1 = hash(&a);
    let h2 = hash(&a);
    assert_eq!(h1.cells, h2.cells);
    assert_eq!(h1.name, "Hash");
    assert_eq!(h1.dtype, DType::UInt64);
    assert_eq!(h1.cells.len(), 3);
}

#[test]
fn hash_null_is_one_constant_distinct_from_values() {
    let a = int_array("x", &[None, Some(7), None, Some(0)]);
    let h = hash(&a);
    let get = |i: usize| match &h.cells[i] {
        Some(Value::UInt(u)) => *u,
        other => panic!("not a hash cell: {:?}", other),
    };
    assert_eq!(get(0), get(2));
    assert_ne!(get(0), get(1));
    assert_ne!(get(0), get(3));
}

#[test]
fn hash_distinguishes_types_of_same_bits() {
    let a = int_array("x", &[Some(1)]);
    let b = Array { name: "x".to_string(), dtype: DType::UInt64, cells: vec![Some(Value::UInt(1))] };
    assert_ne!(hash(&a).cells, hash(&b).cells);
}

#[test]
fn round_half_to_even_two_decimals() {
    let a = float_array("v", &[Some(0.125), Some(0.135), Some(2.5), None]);
    let out = round(2, &a).unwrap();
    let vals = floats_of(&out);
    assert_eq!(vals[0], Some(0.12));
    assert_eq!(vals[1], Some(0.14));
    assert_eq!(vals[2], Some(2.5));
    assert_eq!(vals[3], None);
}

#[test]
fn round_half_to_even_ties_to_even_integer() {
    let a = float_array("v", &[Some(2.5), Some(3.5), Some(-2.5)]);
    let vals = floats_of(&round(0, &a).unwrap());
    assert_eq!(vals, vec![Some(2.0), Some(4.0), Some(-2.0)]);
}

#[test]
fn round_leaves_integers_unchanged() {
    let a = int_array("n", &[Some(7), None]);
    let out = round(2, &a).unwrap();
    assert_eq!(out.cells, vec![Some(Value::Int(7)), None]);
}

#[test]
fn round_rejects_strings() {
    let a = Array { name: "s".to_string(), dtype: DType::Str, cells: vec![Some(Value::Str("x".to_string()))] };
    assert_eq!(round(2, &a).unwrap_err(), Error::TypeMismatch);
}

#[test]
fn column_adapter_skips_grouped_columns() {
    let g = Column::Grouped(
        "g".to_string(),
        vec![Column::Single(int_array("a", &[Some(1)]))],
    );
    assert_eq!(polars_ext::series::column(Transform::Hash, g).unwrap(), None);
}

#[test]
fn column_adapter_applies_to_single_columns() {
    let c = Column::Single(float_array("v", &[Some(2.0), Some(2.0)]));
    let out = polars_ext::series::column(Transform::Normalize, c).unwrap().unwrap();
    match out {
        Column::Single(arr) => assert_eq!(floats_of(&arr), vec![Some(0.5), Some(0.5)]),
        Column::Grouped(..) => panic!("expected a single column"),
    }
}

#[test]
fn column_adapter_propagates_transform_errors() {
    let c = Column::Single(bool_array("v", &[Some(true)]));
    assert_eq!(polars_ext::series::column(Transform::Normalize, c).unwrap_err(), Error::TypeMismatch);
}

#[test]
fn column_nullify_pairs_target_and_mask() {
    let g = Column::Grouped(
        "pair".to_string(),
        vec![
            Column::Single(int_array("a", &[Some(10), Some(20), Some(30)])),
            Column::Single(bool_array("m", &[Some(true), Some(false), None])),
        ],
    );
    let out = nullify_column(g).unwrap().unwrap();
    match out {
        Column::Single(arr) => assert_eq!(arr.cells, vec![Some(Value::Int(10)), None, None]),
        Column::Grouped(..) => panic!("expected a single column"),
    }
}

#[test]
fn column_nullify_rejects_plain_arrays() {
    let c = Column::Single(int_array("a", &[Some(1)]));
    assert_eq!(nullify_column(c).unwrap_err(), Error::TypeMismatch);
}
