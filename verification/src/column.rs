//! Columns: a single array, or a composite grouping of named sub-columns.
use vstd::prelude::*;

use crate::error::Error;
use crate::series::nullified_cells;
use crate::series::Array;
use crate::series::ArrView;
use crate::value::DType;

verus! {

/// A named unit of a table: either a single typed nullable array, or a
/// composite grouping of named sub-columns (a struct column).
#[derive(PartialEq, Eq, Debug)]
pub enum Column {
    Single(Array),
    Grouped(String, Vec<Column>),
}

/// The mathematical content of a column.
pub enum ColView {
    Single(ArrView),
    Grouped(Seq<char>, Seq<ColView>),
}

/// The content of a column.
pub open spec fn col_view(c: Column) -> ColView
    decreases c,
{
    match c {
        Column::Single(a) => ColView::Single(a@),
        Column::Grouped(n, cols) => ColView::Grouped(n@, cols_view(cols@)),
    }
}

/// The contents of a sequence of columns, in order.
pub open spec fn cols_view(cols: Seq<Column>) -> Seq<ColView>
    decreases cols,
{
    if cols.len() == 0 {
        Seq::empty()
    } else {
        cols_view(cols.drop_last()).push(col_view(cols.last()))
    }
}

/// `cols_view` is the elementwise image of `col_view`.
pub proof fn lemma_cols_view(cols: Seq<Column>)
    ensures
        cols_view(cols).len() == cols.len(),
        forall|i: int| 0 <= i < cols.len() ==> cols_view(cols)[i] == col_view(cols[i]),
    decreases cols,
{
    if cols.len() > 0 {
        lemma_cols_view(cols.drop_last());
    }
}

impl View for Column {
    type V = ColView;

    open spec fn view(&self) -> ColView {
        col_view(*self)
    }
}

impl ColView {
    /// The column's name.
    pub open spec fn name(self) -> Seq<char> {
        match self {
            ColView::Single(a) => a.name,
            ColView::Grouped(n, _) => n,
        }
    }

    /// The column's row count.
    pub open spec fn len(self) -> nat
        decreases self,
    {
        match self {
            ColView::Single(a) => a.cells.len(),
            ColView::Grouped(_, cs) => if cs.len() > 0 {
                cs[0].len()
            } else {
                0
            },
        }
    }

    /// A grouped column has at least one sub-column; every sub-column is
    /// well formed and shares the parent's row count; every cell carries its
    /// array's type.
    pub open spec fn wf(self) -> bool
        decreases self,
    {
        match self {
            ColView::Single(a) => a.wf(),
            ColView::Grouped(_, cs) => cs.len() > 0 && forall|i: int|
                0 <= i < cs.len() ==> (#[trigger] cs[i]).wf() && cs[i].len() == self.len(),
        }
    }
}

impl Column {
    /// Clones a column; the clone has the same content.
    pub fn duplicate(&self) -> (res: Column)
        ensures
            res@ == self@,
        decreases *self,
    {
        match self {
            Column::Single(a) => Column::Single(a.duplicate()),
            Column::Grouped(n, cols) => {
                let mut out: Vec<Column> = Vec::new();
                let mut i: usize = 0;
                while i < cols.len()
                    invariant
                        i <= cols@.len(),
                        out@.len() == i,
                        *self == Column::Grouped(*n, *cols),
                        forall|j: int| 0 <= j < i ==> col_view(#[trigger] out@[j]) == col_view(cols@[j]),
                    decreases cols@.len() - i,
                {
                    proof {
                        broadcast use vstd::std_specs::vec::axiom_vec_decreases_to_view;

                        assert(*self is Grouped);
                        assert(self->Grouped_1 == *cols);
                        assert(decreases_to!(*self => self->Grouped_1));
                        assert(decreases_to!(*cols => cols@));
                        assert(decreases_to!(cols@ => cols@[i as int]));
                    }
                    out.push(cols[i].duplicate());
                    i += 1;
                }
                let res = Column::Grouped(n.clone(), out);
                proof {
                    lemma_cols_view(out@);
                    lemma_cols_view(cols@);
                    assert(cols_view(out@) =~= cols_view(cols@));
                }
                res
            },
        }
    }
}

/// A column's content is a single array exactly when the column is.
pub proof fn lemma_col_view_shape(c: Column)
    ensures
        col_view(c) is Single <==> c is Single,
        c matches Column::Single(a) ==> col_view(c) == ColView::Single(a@),
{
    match c {
        Column::Single(_) => (),
        Column::Grouped(_, _) => (),
    }
}

/// Whether a column is the shape `nullify` works on: a grouping whose first
/// sub-column is a single target array and whose second is a single boolean
/// mask of the same length.
pub open spec fn nullify_applies(v: ColView) -> bool {
    &&& v matches ColView::Grouped(_, cs)
    &&& cs.len() >= 2
    &&& cs[0] matches ColView::Single(a)
    &&& cs[1] matches ColView::Single(m)
    &&& m.dtype is Boolean
    &&& m.cells.len() == a.cells.len()
}

/// Nullifies a composite column: its first sub-column is the target and its
/// second the boolean mask; row `i` of the result keeps the target's value
/// exactly where the mask is true there, and is null otherwise. Any other
/// column shape is a type mismatch.
pub fn nullify(column: Column) -> (r: Result<Option<Column>, Error>)
    requires
        column@.wf(),
    ensures
        r is Ok <==> nullify_applies(column@),
        r matches Ok(o) ==> {
            &&& o matches Some(c2)
            &&& c2@ matches ColView::Single(out)
            &&& out.wf()
            &&& column@ matches ColView::Grouped(_, cs)
            &&& out.name == column@->Grouped_1[0]->Single_0.name
            &&& out.dtype == column@->Grouped_1[0]->Single_0.dtype
            &&& out.cells == nullified_cells(
                column@->Grouped_1[0]->Single_0.cells,
                column@->Grouped_1[1]->Single_0.cells,
            )
        },
        r matches Err(e) ==> e == Error::TypeMismatch && !nullify_applies(column@),
{
    proof {
        lemma_col_view_shape(column);
    }
    match &column {
        Column::Grouped(_, cols) => {
            proof {
                lemma_cols_view(cols@);
                if cols@.len() >= 2 {
                    lemma_col_view_shape(cols@[0]);
                    lemma_col_view_shape(cols@[1]);
                }
            }
            if cols.len() < 2 {
                return Err(Error::TypeMismatch);
            }
            match (&cols[0], &cols[1]) {
                (Column::Single(target), Column::Single(mask)) => {
                    match mask.dtype {
                        DType::Boolean => (),
                        _ => {
                            return Err(Error::TypeMismatch);
                        },
                    }
                    proof {
                        lemma_cols_view(cols@);
                        assert(col_view(column)->Grouped_1[0] == col_view(cols@[0]));
                        assert(col_view(column)->Grouped_1[1] == col_view(cols@[1]));
                        assert((#[trigger] column@->Grouped_1[0]).wf());
                        assert(column@->Grouped_1[1].wf());
                        assert(column@->Grouped_1[0].len() == column@.len());
                        assert(column@->Grouped_1[1].len() == column@.len());
                    }
                    if mask.cells.len() != target.cells.len() {
                        return Err(Error::TypeMismatch);
                    }
                    let mut args: Vec<Array> = Vec::new();
                    args.push(target.duplicate());
                    args.push(mask.duplicate());
                    match crate::series::nullify(args.as_slice()) {
                        Ok(out) => Ok(Some(Column::Single(out))),
                        Err(e) => Err(e),
                    }
                },
                _ => Err(Error::TypeMismatch),
            }
        },
        Column::Single(_) => Err(Error::TypeMismatch),
    }
}

} // verus!
