//! Composable, lazily evaluated expressions over a data frame.
use vstd::prelude::*;

use crate::column::col_view;
use crate::column::cols_view;
use crate::column::lemma_cols_view;
use crate::column::ColView;
use crate::column::Column;
use crate::data_frame::DataFrame;
use crate::engine::bits_match;
use crate::engine::clip_zero_bits;
use crate::engine::clip_zero_float_bits;
use crate::engine::mul_bits;
use crate::engine::mul_float_bits;
use crate::engine::NEG_ZERO_BITS;
use crate::error::Error;
use crate::series::is_transform_of;
use crate::series::round_applies;
use crate::series::transform_ok;
use crate::series::Array;
use crate::series::ArrView;
use crate::series::Transform;
use crate::value::cell_has_dtype;
use crate::value::clone_cell;
use crate::value::DType;
use crate::value::Value;

verus! {

/// The bit pattern of one hundred as a double.
pub const HUNDRED_BITS: u64 = 0x4059000000000000;

/// A lazy computation node: evaluated against a data frame, it produces one
/// column.
pub enum Expr {
    /// The named column of the frame.
    Col(String),
    /// The null literal; it serves as the falsy branch of a ternary.
    NullLit,
    /// Projection into the named sub-column of a composite column.
    Field(Box<Expr>, String),
    /// `condition ? truthy : falsy`, per row; a null condition yields null.
    Ternary(Box<Expr>, Box<Expr>, Box<Expr>),
    /// A value transform applied through the column adapter: a composite
    /// column passes through unchanged.
    Apply(Box<Expr>, Transform),
    /// Clamps negative numeric values to zero.
    ClipMin0(Box<Expr>),
    /// Multiplies numeric values by one hundred.
    Percent(Box<Expr>),
}

/// The first column of the sequence that carries this name.
pub open spec fn find_col(cols: Seq<ColView>, name: Seq<char>) -> Option<ColView>
    decreases cols.len(),
{
    if cols.len() == 0 {
        None
    } else if cols[0].name() == name {
        Some(cols[0])
    } else {
        find_col(cols.drop_first(), name)
    }
}

/// When position `i` holds the first name match, `find_col` returns it.
pub proof fn lemma_find_col_found(cols: Seq<ColView>, name: Seq<char>, i: int)
    requires
        0 <= i < cols.len(),
        cols[i].name() == name,
        forall|j: int| 0 <= j < i ==> (#[trigger] cols[j]).name() != name,
    ensures
        find_col(cols, name) == Some(cols[i]),
    decreases i,
{
    if i > 0 {
        lemma_find_col_found(cols.drop_first(), name, i - 1);
    }
}

/// When no name matches, `find_col` finds nothing.
pub proof fn lemma_find_col_none(cols: Seq<ColView>, name: Seq<char>)
    requires
        forall|j: int| 0 <= j < cols.len() ==> (#[trigger] cols[j]).name() != name,
    ensures
        find_col(cols, name) is None,
    decreases cols.len(),
{
    if cols.len() > 0 {
        lemma_find_col_none(cols.drop_first(), name);
    }
}

/// One cell clamped to zero from below; a negative zero (already zero)
/// passes through, as do non-numeric cells.
pub open spec fn clipped_cell(c: Option<Value>) -> Option<Value> {
    match c {
        Some(Value::Int(x)) => Some(Value::Int(if x < 0 { 0i64 } else { x })),
        Some(Value::Float(b)) => if b == NEG_ZERO_BITS {
            Some(Value::Float(b))
        } else {
            Some(Value::Float(clip_zero_bits(b)))
        },
        other => other,
    }
}

/// One cell multiplied by one hundred: integers wrap, a double's product is
/// pinned up to NaN payload, and non-numeric cells pass through.
pub open spec fn percent_cell_match(o: Option<Value>, c: Option<Value>) -> bool {
    match c {
        Some(Value::Float(b)) => (o matches Some(Value::Float(rb)) && bits_match(rb, mul_bits(b, HUNDRED_BITS))),
        Some(Value::Int(x)) => o == Some(Value::Int(x.wrapping_mul(100))),
        Some(Value::UInt(x)) => o == Some(Value::UInt(x.wrapping_mul(100))),
        other => o == other,
    }
}

/// The rows of a ternary: where the mask is true the truthy cell, where it
/// is false the falsy cell, and where it is null (or not boolean), null.
pub open spec fn ternary_cells(
    mask: Seq<Option<Value>>,
    t: Seq<Option<Value>>,
    f: Seq<Option<Value>>,
) -> Seq<Option<Value>> {
    Seq::new(
        t.len(),
        |i: int|
            match mask[i] {
                Some(Value::Bool(true)) => t[i],
                Some(Value::Bool(false)) => f[i],
                _ => None,
            },
    )
}

/// With a null falsy branch, the ternary is exactly nullification: the
/// truthy cell survives where the mask is true, and every other row is null.
pub proof fn lemma_ternary_nullifies(mask: Seq<Option<Value>>, t: Seq<Option<Value>>)
    requires
        mask.len() == t.len(),
    ensures
        ternary_cells(mask, t, Seq::new(t.len(), |i: int| None)) == crate::series::nullified_cells(t, mask),
{
    assert(ternary_cells(mask, t, Seq::new(t.len(), |i: int| None)) =~= crate::series::nullified_cells(t, mask));
}

/// What evaluating an expression against columns may yield: the column it
/// names, a projected sub-column, a transformed array, or a per-row ternary;
/// every shape mismatch (an unknown name, a projection into a plain array, a
/// transform or arithmetic on the wrong type, a non-boolean or ill-sized
/// mask) is a type mismatch. Where a transform produces doubles the result
/// is pinned up to NaN payloads, so the relation quantifies over the
/// sub-expression's result.
/// A failed sub-expression fails the whole expression with the same error.
pub open spec fn err_propagates(sub: Result<ColView, Error>, r: Result<ColView, Error>) -> bool {
    sub matches Err(e2) ==> r == Err::<ColView, Error>(e2)
}

pub open spec fn eval_rel(e: Expr, cols: Seq<ColView>, r: Result<ColView, Error>) -> bool
    decreases e,
{
    match e {
        Expr::Col(name) => r == (match find_col(cols, name@) {
            Some(v) => Ok::<ColView, Error>(v),
            None => Err::<ColView, Error>(Error::TypeMismatch),
        }),
        Expr::NullLit => r == Err::<ColView, Error>(Error::TypeMismatch),
        Expr::Field(inner, name) => exists|sub: Result<ColView, Error>|
            #[trigger] err_propagates(sub, r) && eval_rel(*inner, cols, sub) && (sub matches Ok(v) ==> match v {
                ColView::Single(_) => r == Err::<ColView, Error>(Error::TypeMismatch),
                ColView::Grouped(_, children) => r == (match find_col(children, name@) {
                    Some(child) => Ok::<ColView, Error>(child),
                    None => Err::<ColView, Error>(Error::TypeMismatch),
                }),
            }),
        Expr::Apply(inner, t) => exists|sub: Result<ColView, Error>|
            #[trigger] err_propagates(sub, r) && eval_rel(*inner, cols, sub) && (sub matches Ok(v) ==> match v {
                ColView::Grouped(_, _) => r == Ok::<ColView, Error>(v),
                ColView::Single(a) => if transform_ok(t, a.dtype) {
                    (r matches Ok(rv) && rv matches ColView::Single(out) && is_transform_of(t, out, a))
                } else {
                    r == Err::<ColView, Error>(Error::TypeMismatch)
                },
            }),
        Expr::ClipMin0(inner) => exists|sub: Result<ColView, Error>|
            #[trigger] err_propagates(sub, r) && eval_rel(*inner, cols, sub) && (sub matches Ok(v) ==> match v {
                    ColView::Grouped(_, _) => r == Err::<ColView, Error>(Error::TypeMismatch),
                    ColView::Single(a) => if round_applies(a.dtype) {
                        r == Ok::<ColView, Error>(
                            ColView::Single(
                                ArrView { cells: a.cells.map_values(|c: Option<Value>| clipped_cell(c)), ..a },
                            ),
                        )
                    } else {
                        r == Err::<ColView, Error>(Error::TypeMismatch)
                    },
            }),
        Expr::Percent(inner) => exists|sub: Result<ColView, Error>|
            #[trigger] err_propagates(sub, r) && eval_rel(*inner, cols, sub) && (sub matches Ok(v) ==> match v {
                    ColView::Grouped(_, _) => r == Err::<ColView, Error>(Error::TypeMismatch),
                    ColView::Single(a) => if round_applies(a.dtype) {
                        (r matches Ok(rv) && rv matches ColView::Single(out) && out.name == a.name && out.dtype
                            == a.dtype && out.cells.len() == a.cells.len() && (forall|i: int|
                            0 <= i < a.cells.len() ==> percent_cell_match(#[trigger] out.cells[i], a.cells[i])))
                    } else {
                        r == Err::<ColView, Error>(Error::TypeMismatch)
                    },
            }),
        Expr::Ternary(c, t, f) => exists|sc: Result<ColView, Error>|
            #[trigger] err_propagates(sc, r) && eval_rel(*c, cols, sc) && (sc matches Ok(cv)
                ==> exists|st: Result<ColView, Error>|
                    #[trigger] err_propagates(st, r) && eval_rel(*t, cols, st) && (st matches Ok(tv)
                        ==> match (cv, tv) {
                            (ColView::Single(ca), ColView::Single(ta)) => if ca.dtype is Boolean && ca.cells.len()
                                == ta.cells.len() {
                                if *f is NullLit {
                                    r == Ok::<ColView, Error>(
                                        ColView::Single(
                                            ArrView {
                                                cells: ternary_cells(
                                                    ca.cells,
                                                    ta.cells,
                                                    Seq::new(ta.cells.len(), |i: int| None),
                                                ),
                                                ..ta
                                            },
                                        ),
                                    )
                                } else {
                                    exists|sf: Result<ColView, Error>|
                                        #[trigger] err_propagates(sf, r) && eval_rel(*f, cols, sf) && (sf matches Ok(
                                            fv,
                                        ) ==> match fv {
                                                ColView::Single(fa) => if fa.dtype == ta.dtype && fa.cells.len()
                                                    == ta.cells.len() {
                                                    r == Ok::<ColView, Error>(
                                                        ColView::Single(
                                                            ArrView {
                                                                cells: ternary_cells(ca.cells, ta.cells, fa.cells),
                                                                ..ta
                                                            },
                                                        ),
                                                    )
                                                } else {
                                                    r == Err::<ColView, Error>(Error::TypeMismatch)
                                                },
                                                ColView::Grouped(_, _) => r == Err::<ColView, Error>(
                                                    Error::TypeMismatch,
                                                ),
                                            })
                                }
                            } else {
                                r == Err::<ColView, Error>(Error::TypeMismatch)
                            },
                            _ => r == Err::<ColView, Error>(Error::TypeMismatch),
                        })),
    }
}

/// Finds the first column of the vector carrying this name.
fn find_by_name(cols: &Vec<Column>, name: &String) -> (r: Option<usize>)
    ensures
        r matches Some(i) ==> i < cols@.len() && cols_view(cols@)[i as int].name() == name@ && find_col(
            cols_view(cols@),
            name@,
        ) == Some(cols_view(cols@)[i as int]),
        r is None ==> find_col(cols_view(cols@), name@) is None,
{
    proof {
        lemma_cols_view(cols@);
    }
    let mut i: usize = 0;
    while i < cols.len()
        invariant
            i <= cols@.len(),
            cols_view(cols@).len() == cols@.len(),
            forall|j: int| 0 <= j < cols@.len() ==> cols_view(cols@)[j] == col_view(cols@[j]),
            forall|j: int| 0 <= j < i ==> (#[trigger] cols_view(cols@)[j]).name() != name@,
        decreases cols@.len() - i,
    {
        let matches_here = match &cols[i] {
            Column::Single(a) => a.name.eq(name),
            Column::Grouped(n, _) => n.eq(name),
        };
        if matches_here {
            proof {
                lemma_find_col_found(cols_view(cols@), name@, i as int);
            }
            return Some(i);
        }
        i += 1;
    }
    proof {
        lemma_find_col_none(cols_view(cols@), name@);
    }
    None
}

/// A vector of `n` null cells.
fn null_cells(n: usize) -> (r: Vec<Option<Value>>)
    ensures
        r@ == Seq::new(n as nat, |i: int| None::<Value>),
{
    let mut out: Vec<Option<Value>> = Vec::new();
    let mut i: usize = 0;
    while i < n
        invariant
            i <= n,
            out@ =~= Seq::new(n as nat, |k: int| None::<Value>).take(i as int),
        decreases n - i,
    {
        out.push(None);
        i += 1;
    }
    proof {
        assert(out@ =~= Seq::new(n as nat, |k: int| None::<Value>));
    }
    out
}

/// Merges truthy and falsy cells under a mask, row by row.
fn ternary_merge(mask: &Vec<Option<Value>>, t: &Vec<Option<Value>>, f: &Vec<Option<Value>>) -> (r: Vec<
    Option<Value>,
>)
    requires
        mask@.len() == t@.len(),
        f@.len() == t@.len(),
    ensures
        r@ == ternary_cells(mask@, t@, f@),
{
    let mut out: Vec<Option<Value>> = Vec::new();
    let mut i: usize = 0;
    while i < t.len()
        invariant
            i <= t@.len(),
            mask@.len() == t@.len(),
            f@.len() == t@.len(),
            out@ =~= ternary_cells(mask@, t@, f@).take(i as int),
        decreases t@.len() - i,
    {
        match &mask[i] {
            Some(Value::Bool(true)) => out.push(clone_cell(&t[i])),
            Some(Value::Bool(false)) => out.push(clone_cell(&f[i])),
            _ => out.push(None),
        }
        i += 1;
    }
    proof {
        assert(out@ =~= ternary_cells(mask@, t@, f@));
    }
    out
}

/// Clamps every numeric cell to zero from below.
fn clip_cells(cells: &Vec<Option<Value>>) -> (r: Vec<Option<Value>>)
    ensures
        r@ == cells@.map_values(|c: Option<Value>| clipped_cell(c)),
{
    let mut out: Vec<Option<Value>> = Vec::new();
    let mut i: usize = 0;
    while i < cells.len()
        invariant
            i <= cells@.len(),
            out@ =~= cells@.map_values(|c: Option<Value>| clipped_cell(c)).take(i as int),
        decreases cells@.len() - i,
    {
        match &cells[i] {
            Some(Value::Int(x)) => {
                let v: i64 = if *x < 0 {
                    0
                } else {
                    *x
                };
                out.push(Some(Value::Int(v)));
            },
            Some(Value::Float(b)) => {
                if *b == NEG_ZERO_BITS {
                    out.push(Some(Value::Float(*b)));
                } else {
                    out.push(Some(Value::Float(clip_zero_float_bits(*b))));
                }
            },
            other => out.push(clone_cell(other)),
        }
        i += 1;
    }
    proof {
        assert(out@ =~= cells@.map_values(|c: Option<Value>| clipped_cell(c)));
    }
    out
}

/// Multiplies every numeric cell by one hundred (integers wrap).
fn percent_cells_exec(cells: &Vec<Option<Value>>) -> (r: Vec<Option<Value>>)
    ensures
        r@.len() == cells@.len(),
        forall|i: int| 0 <= i < cells@.len() ==> percent_cell_match(#[trigger] r@[i], cells@[i]),
{
    let mut out: Vec<Option<Value>> = Vec::new();
    let mut i: usize = 0;
    while i < cells.len()
        invariant
            i <= cells@.len(),
            out@.len() == i,
            forall|j: int| 0 <= j < i ==> percent_cell_match(#[trigger] out@[j], cells@[j]),
        decreases cells@.len() - i,
    {
        match &cells[i] {
            Some(Value::Int(x)) => out.push(Some(Value::Int(x.wrapping_mul(100)))),
            Some(Value::UInt(x)) => out.push(Some(Value::UInt(x.wrapping_mul(100)))),
            Some(Value::Float(b)) => out.push(Some(Value::Float(mul_float_bits(*b, HUNDRED_BITS)))),
            other => out.push(clone_cell(other)),
        }
        i += 1;
    }
    out
}

/// A clamped numeric array stays well formed: the map keeps each cell's
/// variant.
proof fn lemma_clipped_wf(a: ArrView, cells: Seq<Option<Value>>)
    requires
        a.wf(),
        cells.len() == a.cells.len(),
        forall|i: int| 0 <= i < cells.len() ==> (#[trigger] cells[i]) == clipped_cell(a.cells[i]),
    ensures
        (ArrView { cells, ..a }).wf(),
{
    assert forall|i: int| 0 <= i < cells.len() implies cell_has_dtype(
        #[trigger] (ArrView { cells, ..a }).cells[i],
        a.dtype,
    ) by {
        assert(cell_has_dtype(a.cells[i], a.dtype));
    }
}

/// A percent-scaled numeric array stays well formed: the relation keeps each
/// cell's variant.
proof fn lemma_percent_wf(a: ArrView, cells: Seq<Option<Value>>)
    requires
        a.wf(),
        cells.len() == a.cells.len(),
        forall|i: int| 0 <= i < cells.len() ==> percent_cell_match(#[trigger] cells[i], a.cells[i]),
    ensures
        (ArrView { cells, ..a }).wf(),
{
    assert forall|i: int| 0 <= i < cells.len() implies cell_has_dtype(
        #[trigger] (ArrView { cells, ..a }).cells[i],
        a.dtype,
    ) by {
        assert(cell_has_dtype(a.cells[i], a.dtype));
        assert(percent_cell_match(cells[i], a.cells[i]));
    }
}

/// Evaluates an expression against a data frame, producing one column; see
/// `eval_rel` for what comes out, and when a type mismatch does instead.
#[verifier::rlimit(100)]
#[verifier::spinoff_prover]
pub fn eval(e: &Expr, df: &DataFrame) -> (r: Result<Column, Error>)
    requires
        df.wf(),
    ensures
        r matches Ok(c) ==> eval_rel(*e, df.col_views(), Ok::<ColView, Error>(c@)) && c@.wf(),
        r matches Err(er) ==> eval_rel(*e, df.col_views(), Err::<ColView, Error>(er)),
    decreases *e, 1int,
{
    match e {
        Expr::Col(name) => match find_by_name(&df.columns, name) {
            Some(i) => {
                let c = df.columns[i].duplicate();
                proof {
                    lemma_cols_view(df.columns@);
                    assert(cols_view(df.columns@) =~= df.col_views());
                    assert((#[trigger] col_view(df.columns@[i as int])).wf());
                }
                Ok(c)
            },
            None => {
                proof {
                    lemma_cols_view(df.columns@);
                    assert(cols_view(df.columns@) =~= df.col_views());
                }
                Err(Error::TypeMismatch)
            },
        },
        Expr::NullLit => Err(Error::TypeMismatch),
        Expr::Field(_, _) => eval_field(e, df),
        Expr::Apply(_, _) => eval_apply(e, df),
        Expr::ClipMin0(_) => eval_clip(e, df),
        Expr::Percent(_) => eval_percent(e, df),
        Expr::Ternary(_, _, _) => eval_ternary(e, df),
    }
}


/// The field arm of `eval`.
#[verifier::rlimit(100)]
fn eval_field(e: &Expr, df: &DataFrame) -> (r: Result<Column, Error>)
    requires
        df.wf(),
        *e is Field,
    ensures
        r matches Ok(c) ==> eval_rel(*e, df.col_views(), Ok::<ColView, Error>(c@)) && c@.wf(),
        r matches Err(er) ==> eval_rel(*e, df.col_views(), Err::<ColView, Error>(er)),
    decreases *e, 0int,
{
    match e {
        Expr::Field(inner, name) => match eval(&*inner, df) {
            Err(e2) => {
                proof {
                    reveal_with_fuel(eval_rel, 2);
                    assert(*e == Expr::Field(*inner, *name));
                    assert(eval_rel(**inner, df.col_views(), Err::<ColView, Error>(e2)));
                    assert(err_propagates(Err::<ColView, Error>(e2), Err::<ColView, Error>(e2)));
                    assert(eval_rel(*e, df.col_views(), Err::<ColView, Error>(e2)));
                }
                Err(e2)
            },
            Ok(col) => {
                let ghost sub = Ok::<ColView, Error>(col@);
                match col {
                    Column::Single(_) => {
                        proof {
                            assert(*e == Expr::Field(*inner, *name));
                            assert(eval_rel(**inner, df.col_views(), sub));
                            assert(err_propagates(sub, Err::<ColView, Error>(Error::TypeMismatch)));
                            assert(eval_rel(*e, df.col_views(), Err::<ColView, Error>(Error::TypeMismatch)));
                        }
                        Err(Error::TypeMismatch)
                    },
                    Column::Grouped(gname, mut children) => match find_by_name(&children, name) {
                        Some(i) => {
                            proof {
                                lemma_cols_view(children@);
                                assert((#[trigger] cols_view(children@)[i as int]).wf());
                            }
                            let child = children.remove(i);
                            proof {
                                assert(*e == Expr::Field(*inner, *name));
                                assert(eval_rel(**inner, df.col_views(), sub));
                                assert(err_propagates(sub, Ok::<ColView, Error>(child@)));
                                assert(eval_rel(*e, df.col_views(), Ok::<ColView, Error>(child@)));
                            }
                            Ok(child)
                        },
                        None => {
                            proof {
                                assert(*e == Expr::Field(*inner, *name));
                                assert(eval_rel(**inner, df.col_views(), sub));
                                assert(err_propagates(sub, Err::<ColView, Error>(Error::TypeMismatch)));
                                assert(eval_rel(*e, df.col_views(), Err::<ColView, Error>(Error::TypeMismatch)));
                            }
                            Err(Error::TypeMismatch)
                        },
                    },
                }
            },
        },
        _ => Err(Error::TypeMismatch),
    }
}

/// The apply arm of `eval`.
#[verifier::rlimit(100)]
fn eval_apply(e: &Expr, df: &DataFrame) -> (r: Result<Column, Error>)
    requires
        df.wf(),
        *e is Apply,
    ensures
        r matches Ok(c) ==> eval_rel(*e, df.col_views(), Ok::<ColView, Error>(c@)) && c@.wf(),
        r matches Err(er) ==> eval_rel(*e, df.col_views(), Err::<ColView, Error>(er)),
    decreases *e, 0int,
{
    match e {
        Expr::Apply(inner, t) => match eval(&*inner, df) {
            Err(e2) => {
                proof {
                    assert(*e == Expr::Apply(*inner, *t));
                    assert(eval_rel(**inner, df.col_views(), Err::<ColView, Error>(e2)));
                    assert(err_propagates(Err::<ColView, Error>(e2), Err::<ColView, Error>(e2)));
                    assert(eval_rel(*e, df.col_views(), Err::<ColView, Error>(e2)));
                }
                Err(e2)
            },
            Ok(col) => {
                let ghost sub = Ok::<ColView, Error>(col@);
                match col {
                    Column::Single(a) => match t.apply(&a) {
                        Ok(out) => {
                            proof {
                                assert(*e == Expr::Apply(*inner, *t));
                                assert(eval_rel(**inner, df.col_views(), sub));
                                assert(err_propagates(sub, Ok::<ColView, Error>(ColView::Single(out@))));
                                assert(eval_rel(*e, df.col_views(), Ok::<ColView, Error>(ColView::Single(out@))));
                            }
                            Ok(Column::Single(out))
                        },
                        Err(e2) => {
                            proof {
                                assert(*e == Expr::Apply(*inner, *t));
                                assert(eval_rel(**inner, df.col_views(), sub));
                                assert(err_propagates(sub, Err::<ColView, Error>(e2)));
                                assert(eval_rel(*e, df.col_views(), Err::<ColView, Error>(e2)));
                            }
                            Err(e2)
                        },
                    },
                    other => {
                        proof {
                            assert(*e == Expr::Apply(*inner, *t));
                            assert(eval_rel(**inner, df.col_views(), sub));
                            assert(err_propagates(sub, sub));
                            assert(eval_rel(*e, df.col_views(), sub));
                        }
                        Ok(other)
                    },
                }
            },
        },
        _ => Err(Error::TypeMismatch),
    }
}

/// The clip arm of `eval`.
#[verifier::rlimit(100)]
fn eval_clip(e: &Expr, df: &DataFrame) -> (r: Result<Column, Error>)
    requires
        df.wf(),
        *e is ClipMin0,
    ensures
        r matches Ok(c) ==> eval_rel(*e, df.col_views(), Ok::<ColView, Error>(c@)) && c@.wf(),
        r matches Err(er) ==> eval_rel(*e, df.col_views(), Err::<ColView, Error>(er)),
    decreases *e, 0int,
{
    match e {
        Expr::ClipMin0(inner) => match eval(&*inner, df) {
            Err(e2) => {
                proof {
                    assert(*e == Expr::ClipMin0(*inner));
                    assert(eval_rel(**inner, df.col_views(), Err::<ColView, Error>(e2)));
                    assert(err_propagates(Err::<ColView, Error>(e2), Err::<ColView, Error>(e2)));
                    assert(eval_rel(*e, df.col_views(), Err::<ColView, Error>(e2)));
                }
                Err(e2)
            },
            Ok(col) => {
                let ghost sub = Ok::<ColView, Error>(col@);
                match col {
                    Column::Grouped(_, _) => {
                        proof {
                            assert(*e == Expr::ClipMin0(*inner));
                            assert(eval_rel(**inner, df.col_views(), sub));
                            assert(err_propagates(sub, Err::<ColView, Error>(Error::TypeMismatch)));
                            assert(eval_rel(*e, df.col_views(), Err::<ColView, Error>(Error::TypeMismatch)));
                        }
                        Err(Error::TypeMismatch)
                    },
                    Column::Single(a) => match a.dtype {
                        DType::Int64 | DType::UInt64 | DType::Float64 => {
                            let ghost av = a@;
                            let cells = clip_cells(&a.cells);
                            proof {
                                lemma_clipped_wf(a@, cells@);
                            }
                            let res = Column::Single(Array { name: a.name, dtype: a.dtype, cells });
                            proof {
                                assert(*e == Expr::ClipMin0(*inner));
                                assert(eval_rel(**inner, df.col_views(), sub));
                                assert(res@->Single_0.cells =~= av.cells.map_values(
                                    |c: Option<Value>| clipped_cell(c),
                                ));
                                assert(err_propagates(sub, Ok::<ColView, Error>(res@)));
                                assert(eval_rel(*e, df.col_views(), Ok::<ColView, Error>(res@)));
                            }
                            Ok(res)
                        },
                        _ => {
                            proof {
                                assert(*e == Expr::ClipMin0(*inner));
                                assert(eval_rel(**inner, df.col_views(), sub));
                                assert(err_propagates(sub, Err::<ColView, Error>(Error::TypeMismatch)));
                                assert(eval_rel(*e, df.col_views(), Err::<ColView, Error>(Error::TypeMismatch)));
                            }
                            Err(Error::TypeMismatch)
                        },
                    },
                }
            },
        },
        _ => Err(Error::TypeMismatch),
    }
}

/// The percent arm of `eval`.
#[verifier::rlimit(100)]
fn eval_percent(e: &Expr, df: &DataFrame) -> (r: Result<Column, Error>)
    requires
        df.wf(),
        *e is Percent,
    ensures
        r matches Ok(c) ==> eval_rel(*e, df.col_views(), Ok::<ColView, Error>(c@)) && c@.wf(),
        r matches Err(er) ==> eval_rel(*e, df.col_views(), Err::<ColView, Error>(er)),
    decreases *e, 0int,
{
    match e {
        Expr::Percent(inner) => match eval(&*inner, df) {
            Err(e2) => {
                proof {
                    assert(*e == Expr::Percent(*inner));
                    assert(eval_rel(**inner, df.col_views(), Err::<ColView, Error>(e2)));
                    assert(err_propagates(Err::<ColView, Error>(e2), Err::<ColView, Error>(e2)));
                    assert(eval_rel(*e, df.col_views(), Err::<ColView, Error>(e2)));
                }
                Err(e2)
            },
            Ok(col) => {
                let ghost sub = Ok::<ColView, Error>(col@);
                match col {
                    Column::Grouped(_, _) => {
                        proof {
                            assert(*e == Expr::Percent(*inner));
                            assert(eval_rel(**inner, df.col_views(), sub));
                            assert(err_propagates(sub, Err::<ColView, Error>(Error::TypeMismatch)));
                            assert(eval_rel(*e, df.col_views(), Err::<ColView, Error>(Error::TypeMismatch)));
                        }
                        Err(Error::TypeMismatch)
                    },
                    Column::Single(a) => match a.dtype {
                        DType::Int64 | DType::UInt64 | DType::Float64 => {
                            let ghost av = a@;
                            let cells = percent_cells_exec(&a.cells);
                            proof {
                                lemma_percent_wf(a@, cells@);
                            }
                            let res = Column::Single(Array { name: a.name, dtype: a.dtype, cells });
                            proof {
                                assert(*e == Expr::Percent(*inner));
                                assert(eval_rel(**inner, df.col_views(), sub));
                                assert(err_propagates(sub, Ok::<ColView, Error>(res@)));
                                assert(eval_rel(*e, df.col_views(), Ok::<ColView, Error>(res@)));
                            }
                            Ok(res)
                        },
                        _ => {
                            proof {
                                assert(*e == Expr::Percent(*inner));
                                assert(eval_rel(**inner, df.col_views(), sub));
                                assert(err_propagates(sub, Err::<ColView, Error>(Error::TypeMismatch)));
                                assert(eval_rel(*e, df.col_views(), Err::<ColView, Error>(Error::TypeMismatch)));
                            }
                            Err(Error::TypeMismatch)
                        },
                    },
                }
            },
        },
        _ => Err(Error::TypeMismatch),
    }
}

/// The ternary arm of `eval`.
#[verifier::rlimit(50)]
fn eval_ternary(e: &Expr, df: &DataFrame) -> (r: Result<Column, Error>)
    requires
        df.wf(),
        *e is Ternary,
    ensures
        r matches Ok(c) ==> eval_rel(*e, df.col_views(), Ok::<ColView, Error>(c@)) && c@.wf(),
        r matches Err(er) ==> eval_rel(*e, df.col_views(), Err::<ColView, Error>(er)),
    decreases *e, 0int,
{
    match e {
        Expr::Ternary(c, t, f) => {
            proof {
                assert(*e == Expr::Ternary(*c, *t, *f));
            }
            let cv = match eval(&*c, df) {
                Ok(x) => x,
                Err(e2) => {
                    proof {
                        assert(eval_rel(**c, df.col_views(), Err::<ColView, Error>(e2)));
                        assert(err_propagates(Err::<ColView, Error>(e2), Err::<ColView, Error>(e2)));
                        assert(eval_rel(*e, df.col_views(), Err::<ColView, Error>(e2)));
                    }
                    return Err(e2);
                },
            };
            let ghost sc = Ok::<ColView, Error>(cv@);
            let tv = match eval(&*t, df) {
                Ok(x) => x,
                Err(e2) => {
                    proof {
                        assert(eval_rel(**c, df.col_views(), sc));
                        assert(eval_rel(**t, df.col_views(), Err::<ColView, Error>(e2)));
                        assert(err_propagates(sc, Err::<ColView, Error>(e2)));
                        assert(err_propagates(Err::<ColView, Error>(e2), Err::<ColView, Error>(e2)));
                        assert(eval_rel(*e, df.col_views(), Err::<ColView, Error>(e2)));
                    }
                    return Err(e2);
                },
            };
            let ghost st = Ok::<ColView, Error>(tv@);
            let ca = match cv {
                Column::Single(a) => a,
                Column::Grouped(_, _) => {
                    proof {
                        assert(eval_rel(**c, df.col_views(), sc));
                        assert(eval_rel(**t, df.col_views(), st));
                        assert(err_propagates(sc, Err::<ColView, Error>(Error::TypeMismatch)));
                        assert(err_propagates(st, Err::<ColView, Error>(Error::TypeMismatch)));
                        assert(eval_rel(*e, df.col_views(), Err::<ColView, Error>(Error::TypeMismatch)));
                    }
                    return Err(Error::TypeMismatch);
                },
            };
            let ta = match tv {
                Column::Single(a) => a,
                Column::Grouped(_, _) => {
                    proof {
                        assert(eval_rel(**c, df.col_views(), sc));
                        assert(eval_rel(**t, df.col_views(), st));
                        assert(err_propagates(sc, Err::<ColView, Error>(Error::TypeMismatch)));
                        assert(err_propagates(st, Err::<ColView, Error>(Error::TypeMismatch)));
                        assert(eval_rel(*e, df.col_views(), Err::<ColView, Error>(Error::TypeMismatch)));
                    }
                    return Err(Error::TypeMismatch);
                },
            };
            match ca.dtype {
                DType::Boolean => (),
                _ => {
                    proof {
                        assert(eval_rel(**c, df.col_views(), sc));
                        assert(eval_rel(**t, df.col_views(), st));
                        assert(err_propagates(sc, Err::<ColView, Error>(Error::TypeMismatch)));
                        assert(err_propagates(st, Err::<ColView, Error>(Error::TypeMismatch)));
                        assert(eval_rel(*e, df.col_views(), Err::<ColView, Error>(Error::TypeMismatch)));
                    }
                    return Err(Error::TypeMismatch);
                },
            }
            if ca.cells.len() != ta.cells.len() {
                proof {
                    assert(eval_rel(**c, df.col_views(), sc));
                    assert(eval_rel(**t, df.col_views(), st));
                    assert(err_propagates(sc, Err::<ColView, Error>(Error::TypeMismatch)));
                    assert(err_propagates(st, Err::<ColView, Error>(Error::TypeMismatch)));
                    assert(eval_rel(*e, df.col_views(), Err::<ColView, Error>(Error::TypeMismatch)));
                }
                return Err(Error::TypeMismatch);
            }
            let ghost mut sfw: Result<ColView, Error> = Err(Error::TypeMismatch);
            let fcells = match &**f {
                Expr::NullLit => {
                    let v = null_cells(ta.cells.len());
                    proof {
                        assert(forall|k: int| 0 <= k < v@.len() ==> cell_has_dtype(#[trigger] v@[k], ta@.dtype));
                    }
                    v
                },
                _ => {
                    let fv = match eval(&*f, df) {
                        Ok(x) => x,
                        Err(e2) => {
                            proof {
                                assert(eval_rel(**c, df.col_views(), sc));
                                assert(eval_rel(**t, df.col_views(), st));
                                assert(eval_rel(**f, df.col_views(), Err::<ColView, Error>(e2)));
                                assert(err_propagates(sc, Err::<ColView, Error>(e2)));
                                assert(err_propagates(st, Err::<ColView, Error>(e2)));
                                assert(err_propagates(Err::<ColView, Error>(e2), Err::<ColView, Error>(e2)));
                                assert(eval_rel(*e, df.col_views(), Err::<ColView, Error>(e2)));
                            }
                            return Err(e2);
                        },
                    };
                    let ghost sf = Ok::<ColView, Error>(fv@);
                    let fa = match fv {
                        Column::Single(a) => a,
                        Column::Grouped(_, _) => {
                            proof {
                                assert(eval_rel(**c, df.col_views(), sc));
                                assert(eval_rel(**t, df.col_views(), st));
                                assert(eval_rel(**f, df.col_views(), sf));
                                assert(err_propagates(sc, Err::<ColView, Error>(Error::TypeMismatch)));
                                assert(err_propagates(st, Err::<ColView, Error>(Error::TypeMismatch)));
                                assert(err_propagates(sf, Err::<ColView, Error>(Error::TypeMismatch)));
                                assert(eval_rel(*e, df.col_views(), Err::<ColView, Error>(Error::TypeMismatch)));
                            }
                            return Err(Error::TypeMismatch);
                        },
                    };
                    if !(fa.dtype == ta.dtype) {
                        proof {
                            assert(eval_rel(**c, df.col_views(), sc));
                            assert(eval_rel(**t, df.col_views(), st));
                            assert(eval_rel(**f, df.col_views(), sf));
                            assert(err_propagates(sc, Err::<ColView, Error>(Error::TypeMismatch)));
                            assert(err_propagates(st, Err::<ColView, Error>(Error::TypeMismatch)));
                            assert(err_propagates(sf, Err::<ColView, Error>(Error::TypeMismatch)));
                            assert(eval_rel(*e, df.col_views(), Err::<ColView, Error>(Error::TypeMismatch)));
                        }
                        return Err(Error::TypeMismatch);
                    }
                    if fa.cells.len() != ta.cells.len() {
                        proof {
                            assert(eval_rel(**c, df.col_views(), sc));
                            assert(eval_rel(**t, df.col_views(), st));
                            assert(eval_rel(**f, df.col_views(), sf));
                            assert(err_propagates(sc, Err::<ColView, Error>(Error::TypeMismatch)));
                            assert(err_propagates(st, Err::<ColView, Error>(Error::TypeMismatch)));
                            assert(err_propagates(sf, Err::<ColView, Error>(Error::TypeMismatch)));
                            assert(eval_rel(*e, df.col_views(), Err::<ColView, Error>(Error::TypeMismatch)));
                        }
                        return Err(Error::TypeMismatch);
                    }
                    proof {
                        sfw = sf;
                        assert forall|k: int| 0 <= k < fa.cells@.len() implies cell_has_dtype(
                            #[trigger] fa.cells@[k],
                            ta@.dtype,
                        ) by {
                            assert(cell_has_dtype(fa@.cells[k], fa@.dtype));
                        }
                    }
                    fa.cells
                },
            };
            let ghost fcv = fcells@;
            let ghost tav = ta@;
            let ghost cav = ca@;
            let merged = ternary_merge(&ca.cells, &ta.cells, &fcells);
            let out = Array { name: ta.name, dtype: ta.dtype, cells: merged };
            proof {
                assert forall|i: int| 0 <= i < out@.cells.len() implies cell_has_dtype(
                    #[trigger] out@.cells[i],
                    out@.dtype,
                ) by {
                    assert(cell_has_dtype(tav.cells[i], tav.dtype));
                    assert(cell_has_dtype(fcv[i], tav.dtype));
                }
                assert(eval_rel(**c, df.col_views(), sc));
                assert(eval_rel(**t, df.col_views(), st));
                if *(&**f) is NullLit {
                    assert(fcv =~= Seq::new(tav.cells.len(), |i: int| None::<Value>));
                } else {
                    assert(eval_rel(**f, df.col_views(), sfw));
                    assert(err_propagates(sfw, Ok::<ColView, Error>(ColView::Single(out@))));
                }
                assert(err_propagates(sc, Ok::<ColView, Error>(ColView::Single(out@))));
                assert(err_propagates(st, Ok::<ColView, Error>(ColView::Single(out@))));
                assert(eval_rel(*e, df.col_views(), Ok::<ColView, Error>(ColView::Single(out@))));
            }
            Ok(Column::Single(out))
        },
        _ => Err(Error::TypeMismatch),
    }
}

/// How `destruct` is built: field projections wrapped around the base, one
/// per name, in order.
pub open spec fn destruct_matches(r: Expr, base: Expr, names: Seq<String>) -> bool
    decreases names.len(),
{
    if names.len() == 0 {
        r == base
    } else {
        &&& r matches Expr::Field(inner, last)
        &&& last@ == names.last()@
        &&& destruct_matches(*inner, base, names.drop_last())
    }
}

impl Expr {
    /// Projects into named sub-fields, in the order given: each name steps
    /// one level into the current composite column.
    pub fn destruct(self, names: Vec<String>) -> (r: Expr)
        ensures
            destruct_matches(r, self, names@),
    {
        let ghost base = self;
        let mut e = self;
        let mut i: usize = 0;
        while i < names.len()
            invariant
                i <= names@.len(),
                destruct_matches(e, base, names@.take(i as int)),
            decreases names@.len() - i,
        {
            e = Expr::Field(Box::new(e), names[i].clone());
            proof {
                assert(names@.take(i as int + 1).last() == names@[i as int]);
                assert(names@.take(i as int + 1).drop_last() =~= names@.take(i as int));
            }
            i += 1;
        }
        proof {
            assert(names@.take(names@.len() as int) =~= names@);
        }
        e
    }

    /// Wraps the expression so that its array is hashed: the output column
    /// is named "Hash" and holds one 64-bit hash per row.
    pub fn hash(self) -> (r: Expr)
        ensures
            r matches Expr::Apply(inner, t) && *inner == self && t == Transform::Hash,
    {
        Expr::Apply(Box::new(self), Transform::Hash)
    }

    /// Wraps the expression so that its array is normalized by its sum.
    pub fn normalize(self) -> (r: Expr)
        ensures
            r matches Expr::Apply(inner, t) && *inner == self && t == Transform::Normalize,
    {
        Expr::Apply(Box::new(self), Transform::Normalize)
    }

    /// Per-row conditional: the expression's value where the mask is true,
    /// null otherwise — the ternary `mask ? self : null`.
    pub fn nullify(self, mask: Expr) -> (r: Expr)
        ensures
            r matches Expr::Ternary(c, t, f) && *c == mask && *t == self && *f == Expr::NullLit,
    {
        Expr::Ternary(Box::new(mask), Box::new(self), Box::new(Expr::NullLit))
    }

    /// The precision cast: rounds the expression's array to `precision`
    /// fractional digits under the half-to-even rule.
    pub fn precision(self, precision: usize) -> (r: Expr)
        requires
            precision <= u32::MAX as usize,
        ensures
            (r matches Expr::Apply(inner, t) && *inner == self && t == Transform::Round(precision as u32)),
    {
        Expr::Apply(Box::new(self), Transform::Round(precision as u32))
    }

    /// Clamps negative values to zero when the flag is set; otherwise the
    /// expression passes through unchanged.
    pub fn clip_min_if(self, clip: bool) -> (r: Expr)
        ensures
            clip ==> (r matches Expr::ClipMin0(inner) && *inner == self),
            !clip ==> r == self,
    {
        if clip {
            Expr::ClipMin0(Box::new(self))
        } else {
            self
        }
    }

    /// Normalizes when the flag is set; otherwise the expression passes
    /// through unchanged.
    pub fn normalize_if(self, normalize: bool) -> (r: Expr)
        ensures
            normalize ==> (r matches Expr::Apply(inner, t) && *inner == self && t == Transform::Normalize),
            !normalize ==> r == self,
    {
        if normalize {
            self.normalize()
        } else {
            self
        }
    }

    /// Multiplies by one hundred when the flag is set; otherwise the
    /// expression passes through unchanged.
    pub fn percent_if(self, percent: bool) -> (r: Expr)
        ensures
            percent ==> (r matches Expr::Percent(inner) && *inner == self),
            !percent ==> r == self,
    {
        if percent {
            Expr::Percent(Box::new(self))
        } else {
            self
        }
    }
}

} // verus!
