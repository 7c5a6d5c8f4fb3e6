use polars_ext::column::Column;
use polars_ext::data_frame::DataFrame;
use polars_ext::error::Error;
use polars_ext::expr::eval;
use polars_ext::expr::Expr;
use polars_ext::series::Array;
use polars_ext::value::DType;
use polars_ext::value::Value;

fn float_array(name: &str, vals: &[Option<f64>]) -> Array {
    Array {
        name: name.to_string(),
        dtype: DType::Float64,
        cells: vals.iter().map(|o| o.map(|x| Value::Float(x.to_bits()))).collect(),
    }
}

fn int_array(name: &str, vals: &[Option<i64>]) -> Array {
    Array {
        name: name.to_string(),
        dtype: DType::Int64,
        cells: vals.iter().map(|o| o.map(Value::Int)).collect(),
    }
}

fn bool_array(name: &str, vals: &[Option<bool>]) -> Array {
    Array {
        name: name.to_string(),
        dtype: DType::Boolean,
        cells: vals.iter().map(|o| o.map(Value::Bool)).collect(),
    }
}

/// A table with columns `[id: int, score: float]` and three rows.
fn sample_frame() -> DataFrame {
    DataFrame {
        height: 3,
        columns: vec![
            Column::Single(int_array("id", &[Some(1), Some(2), Some(3)])),
            Column::Single(float_array("score", &[Some(0.5), None, Some(1.5)])),
        ],
    }
}

fn frame_cells(df: &DataFrame) -> Vec<Vec<Option<Value>>> {
    df.columns
        .iter()
        .map(|c| match c {
            Column::Single(a) => a.cells.clone(),
            Column::Grouped(..) => panic!("expected single columns"),
        })
        .collect()
}

#[test]
fn add_row_appends_one_null_row() {
    let mut df = sample_frame();
    df.add_row().unwrap();
    assert_eq!(df.height, 4);
    let cells = frame_cells(&df);
    assert_eq!(cells[0].len(), 4);
    assert_eq!(cells[0][3], None);
    assert_eq!(cells[1][3], None);
    assert_eq!(cells[0][0], Some(Value::Int(1)));
}

#[test]
fn add_row_then_delete_row_restores_the_table() {
    let mut df = sample_frame();
    let before = frame_cells(&df);
    df.add_row().unwrap();
    df.delete_row(3).unwrap();
    assert_eq!(df.height, 3);
    assert_eq!(frame_cells(&df), before);
}

#[test]
fn delete_row_removes_exactly_that_row() {
    let mut df = sample_frame();
    df.delete_row(1).unwrap();
    assert_eq!(df.height, 2);
    let cells = frame_cells(&df);
    assert_eq!(cells[0], vec![Some(Value::Int(1)), Some(Value::Int(3))]);
    assert_eq!(cells[1].len(), 2);
}

#[test]
fn delete_row_out_of_range_leaves_the_table() {
    let mut df = sample_frame();
    let before = frame_cells(&df);
    assert_eq!(df.delete_row(3).unwrap_err(), Error::IndexOutOfRange);
    assert_eq!(df.height, 3);
    assert_eq!(frame_cells(&df), before);
}

#[test]
fn add_row_then_firts_rows_to_keeps_the_original_rows() {
    let mut df = sample_frame();
    let before = frame_cells(&df);
    df.add_row().unwrap();
    df.firts_rows_to(2).unwrap();
    assert_eq!(df.height, 3);
    assert_eq!(frame_cells(&df), before);
}

#[test]
fn firts_rows_to_out_of_range_is_an_error() {
    let mut df = sample_frame();
    assert_eq!(df.firts_rows_to(3).unwrap_err(), Error::IndexOutOfRange);
}

#[test]
fn last_rows_from_keeps_the_tail() {
    let mut df = sample_frame();
    df.last_rows_from(1).unwrap();
    assert_eq!(df.height, 2);
    let cells = frame_cells(&df);
    assert_eq!(cells[0], vec![Some(Value::Int(2)), Some(Value::Int(3))]);
}

#[test]
fn last_rows_from_the_end_leaves_an_empty_table() {
    let mut df = sample_frame();
    df.last_rows_from(3).unwrap();
    assert_eq!(df.height, 0);
    assert_eq!(frame_cells(&df), vec![vec![], vec![]]);
    assert_eq!(df.last_rows_from(1).unwrap_err(), Error::IndexOutOfRange);
}

#[test]
fn destruct_projects_nested_fields() {
    let df = DataFrame {
        height: 1,
        columns: vec![Column::Grouped(
            "c".to_string(),
            vec![Column::Grouped(
                "a".to_string(),
                vec![Column::Single(int_array("b", &[Some(5)]))],
            )],
        )],
    };
    let e = Expr::Col("c".to_string()).destruct(vec!["a".to_string(), "b".to_string()]);
    match eval(&e, &df).unwrap() {
        Column::Single(arr) => {
            assert_eq!(arr.cells, vec![Some(Value::Int(5))]);
            assert_eq!(arr.name, "b");
        },
        Column::Grouped(..) => panic!("expected a single column"),
    }
}

#[test]
fn destruct_unknown_field_is_a_type_mismatch() {
    let df = DataFrame {
        height: 1,
        columns: vec![Column::Grouped(
            "c".to_string(),
            vec![Column::Single(int_array("b", &[Some(5)]))],
        )],
    };
    let e = Expr::Col("c".to_string()).destruct(vec!["missing".to_string()]);
    assert_eq!(eval(&e, &df).unwrap_err(), Error::TypeMismatch);
}

#[test]
fn expr_hash_names_the_output_hash() {
    let df = sample_frame();
    let e = Expr::Col("id".to_string()).hash();
    match eval(&e, &df).unwrap() {
        Column::Single(arr) => {
            assert_eq!(arr.name, "Hash");
            assert_eq!(arr.dtype, DType::UInt64);
            assert_eq!(arr.cells.len(), 3);
        },
        Column::Grouped(..) => panic!("expected a single column"),
    }
}

#[test]
fn expr_normalize_divides_by_the_sum() {
    let df = DataFrame {
        height: 2,
        columns: vec![Column::Single(float_array("score", &[Some(1.0), Some(3.0)]))],
    };
    let e = Expr::Col("score".to_string()).normalize();
    match eval(&e, &df).unwrap() {
        Column::Single(arr) => {
            let v: Vec<Option<f64>> = arr
                .cells
                .iter()
                .map(|c| match c {
                    Some(Value::Float(b)) => Some(f64::from_bits(*b)),
                    _ => None,
                })
                .collect();
            assert_eq!(v, vec![Some(0.25), Some(0.75)]);
        },
        Column::Grouped(..) => panic!("expected a single column"),
    }
}

#[test]
fn expr_nullify_is_the_ternary_with_null() {
    let df = DataFrame {
        height: 3,
        columns: vec![
            Column::Single(int_array("a", &[Some(10), Some(20), Some(30)])),
            Column::Single(bool_array("m", &[Some(true), Some(false), None])),
        ],
    };
    let e = Expr::Col("a".to_string()).nullify(Expr::Col("m".to_string()));
    match eval(&e, &df).unwrap() {
        Column::Single(arr) => assert_eq!(arr.cells, vec![Some(Value::Int(10)), None, None]),
        Column::Grouped(..) => panic!("expected a single column"),
    }
}

#[test]
fn precision_rounds_half_to_even() {
    let df = DataFrame {
        height: 3,
        columns: vec![Column::Single(float_array("v", &[Some(0.125), Some(0.135), None]))],
    };
    let e = Expr::Col("v".to_string()).precision(2);
    match eval(&e, &df).unwrap() {
        Column::Single(arr) => {
            assert_eq!(
                arr.cells,
                vec![Some(Value::Float(0.12f64.to_bits())), Some(Value::Float(0.14f64.to_bits())), None]
            );
        },
        Column::Grouped(..) => panic!("expected a single column"),
    }
}

#[test]
fn expr_normalize_casts_an_integer_column() {
    let df = DataFrame {
        height: 2,
        columns: vec![Column::Single(int_array("n", &[Some(1), Some(1)]))],
    };
    let e = Expr::Col("n".to_string()).normalize();
    match eval(&e, &df).unwrap() {
        Column::Single(arr) => {
            assert_eq!(arr.dtype, DType::Float64);
            assert_eq!(
                arr.cells,
                vec![Some(Value::Float(0.5f64.to_bits())), Some(Value::Float(0.5f64.to_bits()))]
            );
        },
        Column::Grouped(..) => panic!("expected a single column"),
    }
}

#[test]
fn expr_nullify_rejects_a_non_boolean_mask() {
    let df = sample_frame();
    let e = Expr::Col("id".to_string()).nullify(Expr::Col("score".to_string()));
    assert_eq!(eval(&e, &df).unwrap_err(), Error::TypeMismatch);
}

#[test]
fn clip_min_if_clamps_negative_values() {
    let df = DataFrame {
        height: 2,
        columns: vec![
            Column::Single(float_array("f", &[Some(-1.5), Some(2.0)])),
            Column::Single(int_array("n", &[Some(-5), Some(4)])),
        ],
    };
    let ef = Expr::Col("f".to_string()).clip_min_if(true);
    match eval(&ef, &df).unwrap() {
        Column::Single(arr) => assert_eq!(
            arr.cells,
            vec![Some(Value::Float(0.0f64.to_bits())), Some(Value::Float(2.0f64.to_bits()))]
        ),
        Column::Grouped(..) => panic!("expected a single column"),
    }
    let en = Expr::Col("n".to_string()).clip_min_if(true);
    match eval(&en, &df).unwrap() {
        Column::Single(arr) => assert_eq!(arr.cells, vec![Some(Value::Int(0)), Some(Value::Int(4))]),
        Column::Grouped(..) => panic!("expected a single column"),
    }
}

#[test]
fn percent_if_multiplies_by_one_hundred() {
    let df = DataFrame {
        height: 2,
        columns: vec![
            Column::Single(float_array("f", &[Some(0.25), None])),
            Column::Single(int_array("n", &[Some(2), Some(-1)])),
        ],
    };
    let ef = Expr::Col("f".to_string()).percent_if(true);
    match eval(&ef, &df).unwrap() {
        Column::Single(arr) => assert_eq!(arr.cells, vec![Some(Value::Float(25.0f64.to_bits())), None]),
        Column::Grouped(..) => panic!("expected a single column"),
    }
    let en = Expr::Col("n".to_string()).percent_if(true);
    match eval(&en, &df).unwrap() {
        Column::Single(arr) => assert_eq!(arr.cells, vec![Some(Value::Int(200)), Some(Value::Int(-100))]),
        Column::Grouped(..) => panic!("expected a single column"),
    }
}

#[test]
fn if_variants_pass_through_when_unset() {
    let df = sample_frame();
    let e = Expr::Col("id".to_string())
        .clip_min_if(false)
        .normalize_if(false)
        .percent_if(false);
    match eval(&e, &df).unwrap() {
        Column::Single(arr) => assert_eq!(arr.cells, vec![Some(Value::Int(1)), Some(Value::Int(2)), Some(Value::Int(3))]),
        Column::Grouped(..) => panic!("expected a single column"),
    }
}

#[test]
fn unknown_column_is_a_type_mismatch() {
    let df = sample_frame();
    let e = Expr::Col("missing".to_string());
    assert_eq!(eval(&e, &df).unwrap_err(), Error::TypeMismatch);
}

#[test]
fn apply_passes_grouped_columns_through() {
    let df = DataFrame {
        height: 1,
        columns: vec![Column::Grouped(
            "g".to_string(),
            vec![Column::Single(int_array("b", &[Some(5)]))],
        )],
    };
    let e = Expr::Col("g".to_string()).hash();
    match eval(&e, &df).unwrap() {
        Column::Grouped(name, _) => assert_eq!(name, "g"),
        Column::Single(_) => panic!("expected the grouped column unchanged"),
    }
}
