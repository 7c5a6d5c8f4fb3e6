//! Data frames and the row mutations over them.
use vstd::prelude::*;

use crate::column::col_view;
use crate::column::ColView;
use crate::column::Column;
use crate::error::Error;
use crate::series::ArrView;
use crate::value::cell_has_dtype;
use crate::value::Value;

verus! {

/// An ordered set of equal-length named columns, with its row count.
pub struct DataFrame {
    pub height: usize,
    pub columns: Vec<Column>,
}

impl DataFrame {
    /// The contents of the columns, in order.
    pub open spec fn col_views(&self) -> Seq<ColView> {
        Seq::new(self.columns@.len(), |i: int| col_view(self.columns@[i]))
    }

    /// Every column is well formed and has exactly `height` rows.
    pub open spec fn wf(&self) -> bool {
        forall|i: int| 0 <= i < self.columns@.len() ==> (#[trigger] col_view(self.columns@[i])).wf()
            && col_view(self.columns@[i]).len() == self.height
    }
}

/// One structural row mutation, applied to every column alike.
#[derive(Clone, Copy, PartialEq, Eq, Structural, Debug)]
pub enum RowOp {
    /// Append one null row at the end.
    PushNull,
    /// Remove the row at this position.
    Remove(usize),
    /// Keep only the first rows, this many.
    Take(usize),
    /// Drop this many rows from the front.
    Drop(usize),
}

/// What a row mutation does to one cell sequence: `Remove` keeps the prefix
/// before the row and the suffix after it, in order.
pub open spec fn cells_row_op(cells: Seq<Option<Value>>, op: RowOp) -> Seq<Option<Value>> {
    match op {
        RowOp::PushNull => cells.push(None),
        RowOp::Remove(r) => cells.subrange(0, r as int) + cells.subrange(r as int + 1, cells.len() as int),
        RowOp::Take(n) => cells.subrange(0, n as int),
        RowOp::Drop(n) => cells.subrange(n as int, cells.len() as int),
    }
}

/// Whether a row mutation is in range for a column of `len` rows.
pub open spec fn row_op_valid(op: RowOp, len: nat) -> bool {
    match op {
        RowOp::PushNull => true,
        RowOp::Remove(r) => r < len,
        RowOp::Take(n) => n <= len,
        RowOp::Drop(n) => n <= len,
    }
}

/// The row count after a row mutation.
pub open spec fn row_op_len(op: RowOp, len: nat) -> nat {
    match op {
        RowOp::PushNull => len + 1,
        RowOp::Remove(_) => (len - 1) as nat,
        RowOp::Take(n) => n as nat,
        RowOp::Drop(n) => (len - n) as nat,
    }
}

/// A row mutation applied to a whole column: to the cells of a single array,
/// and to every sub-column of a grouping alike.
pub open spec fn col_row_op(v: ColView, op: RowOp) -> ColView
    decreases v,
{
    match v {
        ColView::Single(a) => ColView::Single(ArrView { cells: cells_row_op(a.cells, op), ..a }),
        ColView::Grouped(n, cs) => ColView::Grouped(n, col_row_op_all(cs, op)),
    }
}

/// A row mutation applied to each column of a sequence, in order.
pub open spec fn col_row_op_all(cs: Seq<ColView>, op: RowOp) -> Seq<ColView>
    decreases cs,
{
    if cs.len() == 0 {
        Seq::empty()
    } else {
        col_row_op_all(cs.drop_last(), op).push(col_row_op(cs.last(), op))
    }
}

/// `col_row_op_all` is the elementwise image of `col_row_op`.
pub proof fn lemma_col_row_op_all(cs: Seq<ColView>, op: RowOp)
    ensures
        col_row_op_all(cs, op).len() == cs.len(),
        forall|i: int| 0 <= i < cs.len() ==> col_row_op_all(cs, op)[i] == col_row_op(cs[i], op),
    decreases cs,
{
    if cs.len() > 0 {
        lemma_col_row_op_all(cs.drop_last(), op);
    }
}

/// A row mutation keeps a column well formed, keeps its name and types, and
/// gives it the expected row count.
pub proof fn lemma_col_row_op_wf(v: ColView, op: RowOp)
    requires
        v.wf(),
        row_op_valid(op, v.len()),
    ensures
        col_row_op(v, op).wf(),
        col_row_op(v, op).len() == row_op_len(op, v.len()),
        col_row_op(v, op).name() == v.name(),
    decreases v,
{
    match v {
        ColView::Single(a) => {
            let c2 = cells_row_op(a.cells, op);
            assert forall|i: int| 0 <= i < c2.len() implies cell_has_dtype(#[trigger] c2[i], a.dtype) by {
                if !(c2[i] is None) {
                    assert(exists|j: int| 0 <= j < a.cells.len() && c2[i] == a.cells[j]) by {
                        match op {
                            RowOp::PushNull => {
                                assert(c2[i] == a.cells[i]);
                            },
                            RowOp::Remove(r) => {
                                if i < r as int {
                                    assert(c2[i] == a.cells[i]);
                                } else {
                                    assert(c2[i] == a.cells[i + 1]);
                                }
                            },
                            RowOp::Take(n) => {
                                assert(c2[i] == a.cells[i]);
                            },
                            RowOp::Drop(n) => {
                                assert(c2[i] == a.cells[i + n as int]);
                            },
                        }
                    }
                    let j = choose|j: int| 0 <= j < a.cells.len() && c2[i] == a.cells[j];
                    assert(cell_has_dtype(a.cells[j], a.dtype));
                }
            }
        },
        ColView::Grouped(n, cs) => {
            assert forall|i: int| 0 <= i < cs.len() implies (#[trigger] col_row_op(cs[i], op)).wf()
                && col_row_op(cs[i], op).len() == row_op_len(op, v.len()) by {
                assert(cs[i].wf() && cs[i].len() == v.len());
                lemma_col_row_op_wf(cs[i], op);
            }
            lemma_col_row_op_all(cs, op);
            let cs2 = col_row_op_all(cs, op);
            assert(cs2[0] == col_row_op(cs[0], op));
            assert forall|i: int| 0 <= i < cs2.len() implies (#[trigger] cs2[i]).wf() && cs2[i].len()
                == col_row_op(v, op).len() by {
                assert(cs2[i] == col_row_op(cs[i], op));
            }
        },
    }
}

/// Applies one row mutation to a column, leaving the input untouched.
fn apply_row_op(col: &Column, op: RowOp) -> (res: Column)
    requires
        col@.wf(),
        row_op_valid(op, col@.len()),
    ensures
        res@ == col_row_op(col@, op),
    decreases *col,
{
    match col {
        Column::Single(a) => {
            let mut a2 = a.duplicate();
            match op {
                RowOp::PushNull => a2.cells.push(None),
                RowOp::Remove(r) => {
                    let _removed = a2.cells.remove(r);
                },
                RowOp::Take(n) => a2.cells.truncate(n),
                RowOp::Drop(n) => {
                    let tail = a2.cells.split_off(n);
                    a2.cells = tail;
                },
            }
            let res = Column::Single(a2);
            proof {
                assert(res@->Single_0.cells =~= cells_row_op(a@.cells, op));
            }
            res
        },
        Column::Grouped(name, cols) => {
            let mut out: Vec<Column> = Vec::new();
            let mut i: usize = 0;
            while i < cols.len()
                invariant
                    i <= cols@.len(),
                    out@.len() == i,
                    col@.wf(),
                    row_op_valid(op, col@.len()),
                    *col == Column::Grouped(*name, *cols),
                    forall|j: int| 0 <= j < i ==> col_view(#[trigger] out@[j]) == col_row_op(col_view(cols@[j]), op),
                decreases cols@.len() - i,
            {
                proof {
                    broadcast use vstd::std_specs::vec::axiom_vec_decreases_to_view;

                    assert(decreases_to!(*col => *cols));
                    assert(decreases_to!(*cols => cols@));
                    assert(decreases_to!(cols@ => cols@[i as int]));
                    crate::column::lemma_cols_view(cols@);
                    assert(col@->Grouped_1[i as int] == col_view(cols@[i as int]));
                    assert((#[trigger] col@->Grouped_1[i as int]).wf());
                    assert(col@->Grouped_1[i as int].len() == col@.len());
                }
                out.push(apply_row_op(&cols[i], op));
                i += 1;
            }
            let res = Column::Grouped(name.clone(), out);
            proof {
                crate::column::lemma_cols_view(out@);
                crate::column::lemma_cols_view(cols@);
                lemma_col_row_op_all(crate::column::cols_view(cols@), op);
                assert(crate::column::cols_view(out@) =~= col_row_op_all(crate::column::cols_view(cols@), op));
            }
            res
        },
    }
}

impl DataFrame {
    /// Applies one row mutation to every column and sets the new height.
    fn apply_all(&mut self, op: RowOp, new_height: usize)
        requires
            old(self).wf(),
            row_op_valid(op, old(self).height as nat),
            new_height as nat == row_op_len(op, old(self).height as nat),
        ensures
            final(self).wf(),
            final(self).height == new_height,
            final(self).columns@.len() == old(self).columns@.len(),
            forall|i: int| 0 <= i < old(self).columns@.len() ==> final(self).col_views()[i] == col_row_op(
                #[trigger] old(self).col_views()[i],
                op,
            ),
    {
        let mut out: Vec<Column> = Vec::new();
        let mut i: usize = 0;
        while i < self.columns.len()
            invariant
                i <= self.columns@.len(),
                out@.len() == i,
                *self == *old(self),
                old(self).wf(),
                row_op_valid(op, old(self).height as nat),
                forall|j: int| 0 <= j < i ==> col_view(#[trigger] out@[j]) == col_row_op(
                    col_view(self.columns@[j]),
                    op,
                ),
            decreases self.columns@.len() - i,
        {
            proof {
                assert((#[trigger] col_view(self.columns@[i as int])).wf());
            }
            out.push(apply_row_op(&self.columns[i], op));
            i += 1;
        }
        self.columns = out;
        self.height = new_height;
        proof {
            assert forall|k: int| 0 <= k < self.columns@.len() implies (#[trigger] col_view(
                self.columns@[k],
            )).wf() && col_view(self.columns@[k]).len() == self.height by {
                assert(col_view(old(self).columns@[k]).wf());
                assert(col_view(old(self).columns@[k]).len() == old(self).height);
                lemma_col_row_op_wf(col_view(old(self).columns@[k]), op);
            }
        }
    }

    /// Appends exactly one row to the end: every column receives a null cell
    /// of its own type at the new position. The schema (column order, names
    /// and types) is preserved and the row count grows by one.
    pub fn add_row(&mut self) -> (r: Result<(), Error>)
        requires
            old(self).wf(),
            old(self).height < usize::MAX,
        ensures
            r is Ok,
            final(self).wf(),
            final(self).height == old(self).height + 1,
            final(self).columns@.len() == old(self).columns@.len(),
            forall|i: int| 0 <= i < old(self).columns@.len() ==> final(self).col_views()[i] == col_row_op(
                #[trigger] old(self).col_views()[i],
                RowOp::PushNull,
            ),
    {
        let h = self.height;
        self.apply_all(RowOp::PushNull, h + 1);
        Ok(())
    }

    /// Deletes the row at position `row`: every column keeps the rows before
    /// it and the rows after it, in their original order, and the row count
    /// shrinks by one. A position at or past the row count is out of range;
    /// the frame is then left unchanged.
    pub fn delete_row(&mut self, row: usize) -> (r: Result<(), Error>)
        requires
            old(self).wf(),
        ensures
            r is Ok <==> row < old(self).height,
            r is Ok ==> final(self).wf() && final(self).height == old(self).height - 1 && final(self).columns@.len() == old(self).columns@.len() && forall|i: int|
                0 <= i < old(self).columns@.len() ==> final(self).col_views()[i] == col_row_op(
                    #[trigger] old(self).col_views()[i],
                    RowOp::Remove(row),
                ),
            r matches Err(e) ==> e == Error::IndexOutOfRange && row >= old(self).height && *final(self) == *old(self),
    {
        if row >= self.height {
            return Err(Error::IndexOutOfRange);
        }
        let h = self.height;
        self.apply_all(RowOp::Remove(row), h - 1);
        Ok(())
    }

    /// Restricts the frame to the rows up to and including `row`: the row
    /// count becomes `row + 1`. A position at or past the row count is out of
    /// range; the frame is then left unchanged.
    pub fn firts_rows_to(&mut self, row: usize) -> (r: Result<(), Error>)
        requires
            old(self).wf(),
        ensures
            r is Ok <==> row < old(self).height,
            r is Ok ==> final(self).wf() && final(self).height == row + 1 && final(self).columns@.len() == old(self).columns@.len() && forall|i: int|
                0 <= i < old(self).columns@.len() ==> final(self).col_views()[i] == col_row_op(
                    #[trigger] old(self).col_views()[i],
                    RowOp::Take((row + 1) as usize),
                ),
            r matches Err(e) ==> e == Error::IndexOutOfRange && row >= old(self).height && *final(self) == *old(self),
    {
        if row >= self.height {
            return Err(Error::IndexOutOfRange);
        }
        self.apply_all(RowOp::Take(row + 1), row + 1);
        Ok(())
    }

    /// Restricts the frame to the rows from `row` to the end: the row count
    /// becomes `row_count - row`. A position past the row count is out of
    /// range; the frame is then left unchanged. `row == row_count` is valid
    /// and leaves an empty frame.
    pub fn last_rows_from(&mut self, row: usize) -> (r: Result<(), Error>)
        requires
            old(self).wf(),
        ensures
            r is Ok <==> row <= old(self).height,
            r is Ok ==> final(self).wf() && final(self).height == old(self).height - row && final(self).columns@.len() == old(self).columns@.len() && forall|i: int|
                0 <= i < old(self).columns@.len() ==> final(self).col_views()[i] == col_row_op(
                    #[trigger] old(self).col_views()[i],
                    RowOp::Drop(row),
                ),
            r matches Err(e) ==> e == Error::IndexOutOfRange && row > old(self).height && *final(self) == *old(self),
    {
        if row > self.height {
            return Err(Error::IndexOutOfRange);
        }
        let h = self.height;
        self.apply_all(RowOp::Drop(row), h - row);
        Ok(())
    }
}

/// Appending a null row and then deleting it (at the old row count's
/// position) restores a column's content exactly.
pub proof fn lemma_add_then_delete_restores(v: ColView, n: usize)
    requires
        v.wf(),
        v.len() == n,
    ensures
        col_row_op(col_row_op(v, RowOp::PushNull), RowOp::Remove(n)) == v,
    decreases v,
{
    match v {
        ColView::Single(a) => {
            let pushed = cells_row_op(a.cells, RowOp::PushNull);
            assert(cells_row_op(pushed, RowOp::Remove(n)) =~= a.cells);
        },
        ColView::Grouped(name, cs) => {
            assert forall|i: int| 0 <= i < cs.len() implies col_row_op(
                col_row_op(#[trigger] cs[i], RowOp::PushNull),
                RowOp::Remove(n),
            ) == cs[i] by {
                assert(cs[i].wf() && cs[i].len() == v.len());
                lemma_add_then_delete_restores(cs[i], n);
            }
            let pushed = col_row_op_all(cs, RowOp::PushNull);
            lemma_col_row_op_all(cs, RowOp::PushNull);
            lemma_col_row_op_all(pushed, RowOp::Remove(n));
            assert(col_row_op_all(pushed, RowOp::Remove(n)) =~= cs);
        },
    }
}

/// Appending a null row and then keeping the first `n` rows, where `n` was
/// the row count, restores a column's content exactly.
pub proof fn lemma_add_then_take_restores(v: ColView, n: usize)
    requires
        v.wf(),
        v.len() == n,
    ensures
        col_row_op(col_row_op(v, RowOp::PushNull), RowOp::Take(n)) == v,
    decreases v,
{
    match v {
        ColView::Single(a) => {
            let pushed = cells_row_op(a.cells, RowOp::PushNull);
            assert(cells_row_op(pushed, RowOp::Take(n)) =~= a.cells);
        },
        ColView::Grouped(name, cs) => {
            assert forall|i: int| 0 <= i < cs.len() implies col_row_op(
                col_row_op(#[trigger] cs[i], RowOp::PushNull),
                RowOp::Take(n),
            ) == cs[i] by {
                assert(cs[i].wf() && cs[i].len() == v.len());
                lemma_add_then_take_restores(cs[i], n);
            }
            let pushed = col_row_op_all(cs, RowOp::PushNull);
            lemma_col_row_op_all(cs, RowOp::PushNull);
            lemma_col_row_op_all(pushed, RowOp::Take(n));
            assert(col_row_op_all(pushed, RowOp::Take(n)) =~= cs);
        },
    }
}

/// Adding a row to a frame of `n` rows and then deleting the row at position
/// `n` restores every column of the frame exactly (the round trip).
pub proof fn lemma_add_row_delete_row_round_trip(cols: Seq<ColView>, n: usize)
    requires
        forall|i: int| 0 <= i < cols.len() ==> (#[trigger] cols[i]).wf() && cols[i].len() == n,
    ensures
        forall|i: int| 0 <= i < cols.len() ==> col_row_op(
            col_row_op(#[trigger] cols[i], RowOp::PushNull),
            RowOp::Remove(n),
        ) == cols[i],
{
    assert forall|i: int| 0 <= i < cols.len() implies col_row_op(
        col_row_op(#[trigger] cols[i], RowOp::PushNull),
        RowOp::Remove(n),
    ) == cols[i] by {
        lemma_add_then_delete_restores(cols[i], n);
    }
}

/// Adding a row to a frame of `n` rows (`n > 0`) and then keeping the first
/// rows up to position `n - 1` restores every column of the frame exactly:
/// nothing references the appended null row.
pub proof fn lemma_add_row_firts_rows_round_trip(cols: Seq<ColView>, n: usize)
    requires
        n > 0,
        forall|i: int| 0 <= i < cols.len() ==> (#[trigger] cols[i]).wf() && cols[i].len() == n,
    ensures
        forall|i: int| 0 <= i < cols.len() ==> col_row_op(
            col_row_op(#[trigger] cols[i], RowOp::PushNull),
            RowOp::Take(n),
        ) == cols[i],
{
    assert forall|i: int| 0 <= i < cols.len() implies col_row_op(
        col_row_op(#[trigger] cols[i], RowOp::PushNull),
        RowOp::Take(n),
    ) == cols[i] by {
        lemma_add_then_take_restores(cols[i], n);
    }
}

} // verus!
