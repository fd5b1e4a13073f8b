//! Rows of observable cells and the bounds-checked table over them.
use crate::cell::Cell;
use crate::column::{accepts, check, Column};
use crate::datum::{Datum, DatumView};
use vstd::prelude::*;

verus! {

/// The address that a table access rejected.
#[derive(Clone, Copy, Debug, PartialEq, Eq, Structural)]
pub struct IndexOutOfRange {
    pub row: usize,
    pub col: usize,
}

/// Row-major order on `(row, col)` addresses.
pub open spec fn row_major_lt(a: (usize, usize), b: (usize, usize)) -> bool {
    a.0 < b.0 || (a.0 == b.0 && a.1 < b.1)
}

/// One row: a cell per column, in column order.
pub struct Row(pub Vec<Cell>);

impl Row {
    /// Every cell is well formed.
    pub open spec fn wf(&self) -> bool {
        forall|c: int| 0 <= c < self.0.len() ==> #[trigger] self.0[c].wf()
    }

    /// A row holding `values`, in order, in fresh cells with no observers.
    pub fn new(values: Vec<Datum>) -> (r: Row)
        ensures
            r.wf(),
            r.0.len() == values.len(),
            forall|c: int|
                #![trigger r.0[c]]
                0 <= c < values.len() ==> r.0[c]@.value == values[c]@ && r.0[c].current()
                    == values[c] && r.0[c]@.observers == Set::<u64>::empty(),
    {
        let mut cells: Vec<Cell> = Vec::new();
        let mut rest = values;
        let ghost all = rest@;
        // take the values from the back, then restore their order
        while rest.len() > 0
            invariant
                rest.len() + cells.len() == all.len(),
                rest@ == all.subrange(0, rest.len() as int),
                forall|k: int|
                    0 <= k < cells.len() ==> cells[k].wf() && cells[k]@.value == all[all.len() - 1
                        - k]@ && cells[k].current() == all[all.len() - 1 - k]
                        && cells[k]@.observers == Set::<u64>::empty(),
            decreases rest.len(),
        {
            let v = rest.pop().unwrap();
            cells.push(Cell::new(v));
        }
        let mut ordered: Vec<Cell> = Vec::new();
        while cells.len() > 0
            invariant
                cells.len() + ordered.len() == all.len(),
                forall|k: int|
                    0 <= k < cells.len() ==> cells[k].wf() && cells[k]@.value == all[all.len() - 1
                        - k]@ && cells[k].current() == all[all.len() - 1 - k]
                        && cells[k]@.observers == Set::<u64>::empty(),
                forall|k: int|
                    0 <= k < ordered.len() ==> ordered[k].wf() && ordered[k]@.value == all[k]@
                        && ordered[k].current() == all[k] && ordered[k]@.observers == Set::<u64>::empty(),
            decreases cells.len(),
        {
            let c = cells.pop().unwrap();
            ordered.push(c);
        }
        assert forall|c: int| 0 <= c < ordered.len() implies #[trigger] ordered[c].wf() by {
            assert(ordered[c].wf() && ordered[c]@.value == all[c]@);
        }
        Row(ordered)
    }

    /// The cells of this row, in column order.
    pub fn unwrap(&self) -> (r: &Vec<Cell>)
        ensures
            *r == self.0,
    {
        &self.0
    }
}

/// A table: rows of cells addressed by zero-based `(row, col)`.
pub struct Data(pub Vec<Row>);

impl Data {
    /// Every cell of every row is well formed.
    pub open spec fn wf(&self) -> bool {
        forall|r: int| 0 <= r < self.0.len() ==> #[trigger] self.0[r].wf()
    }

    /// Whether `(row, col)` addresses a cell.
    pub open spec fn in_bounds(&self, row: int, col: int) -> bool {
        0 <= row < self.0.len() && 0 <= col < self.0[row].0.len()
    }

    /// The cell at `(row, col)`.
    pub open spec fn cell(&self, row: int, col: int) -> Cell {
        self.0[row].0[col]
    }

    /// The value held at `(row, col)`.
    pub open spec fn value_at(&self, row: int, col: int) -> DatumView {
        self.cell(row, col)@.value
    }

    /// `self` and `other` have the same shape and the same cells, but perhaps
    /// at `(row, col)`.
    pub open spec fn same_except(&self, other: &Data, row: int, col: int) -> bool {
        &&& self.0.len() == other.0.len()
        &&& forall|r: int| 0 <= r < self.0.len() ==> #[trigger] self.0[r].0.len() == other.0[r].0.len()
        &&& forall|r: int, c: int|
            #![trigger self.cell(r, c)]
            self.in_bounds(r, c) && (r != row || c != col) ==> self.cell(r, c) == other.cell(r, c)
    }

    /// Whether the cell at `(r, c)` exists, has a column, and does not fit it.
    pub open spec fn is_mismatch(&self, columns: Seq<Column>, r: int, c: int) -> bool {
        &&& self.in_bounds(r, c)
        &&& c < columns.len()
        &&& !accepts(columns[c].data_type, self.value_at(r, c))
    }

    /// The rows of this table, in order.
    pub fn unwrap(&self) -> (r: &Vec<Row>)
        ensures
            *r == self.0,
    {
        &self.0
    }

    /// The cell at `(row, col)`, or `IndexOutOfRange` when there is none.
    pub fn get(&self, row: usize, col: usize) -> (r: Result<&Cell, IndexOutOfRange>)
        ensures
            self.in_bounds(row as int, col as int) <==> r is Ok,
            r matches Ok(c) ==> *c == self.cell(row as int, col as int),
            r matches Err(e) ==> e == (IndexOutOfRange { row, col }),
    {
        if row < self.0.len() && col < self.0[row].0.len() {
            Ok(&self.0[row].0[col])
        } else {
            Err(IndexOutOfRange { row, col })
        }
    }

    /// The value at `(row, col)`, registering `observer` as depending on
    /// that cell alone.
    pub fn get_tracked(&mut self, row: usize, col: usize, observer: u64) -> (r: Result<
        Datum,
        IndexOutOfRange,
    >)
        requires
            old(self).wf(),
        ensures
            final(self).wf(),
            old(self).in_bounds(row as int, col as int) <==> r is Ok,
            r matches Ok(d) ==> {
                &&& d@ == old(self).value_at(row as int, col as int)
                &&& final(self).same_except(old(self), row as int, col as int)
                &&& final(self).value_at(row as int, col as int) == old(self).value_at(
                    row as int,
                    col as int,
                )
                &&& final(self).cell(row as int, col as int).current() == old(self).cell(
                    row as int,
                    col as int,
                ).current()
                &&& final(self).cell(row as int, col as int)@.observers == old(self).cell(
                    row as int,
                    col as int,
                )@.observers.insert(observer)
            },
            r matches Err(e) ==> e == (IndexOutOfRange { row, col }) && *final(self) == *old(self),
    {
        if row < self.0.len() && col < self.0[row].0.len() {
            assert(self.0[row as int].wf());
            let d = self.0[row].0[col].get_tracked(observer);
            proof {
                assert forall|r: int| 0 <= r < self.0.len() implies #[trigger] self.0[r].wf() by {
                    if r == row {
                        assert forall|c: int| 0 <= c < self.0[r].0.len() implies #[trigger] self.0[r].0[c].wf() by {
                            if c != col {
                                assert(old(self).0[r].wf());
                            }
                        }
                    } else {
                        assert(old(self).0[r].wf());
                    }
                }
            }
            Ok(d)
        } else {
            Err(IndexOutOfRange { row, col })
        }
    }

    /// Writes `value` at `(row, col)` and returns the observers of that cell
    /// to notify; no other cell changes. Out of range, fails with
    /// `IndexOutOfRange` and changes nothing.
    pub fn set(&mut self, row: usize, col: usize, value: Datum) -> (r: Result<
        Vec<u64>,
        IndexOutOfRange,
    >)
        requires
            old(self).wf(),
        ensures
            final(self).wf(),
            old(self).in_bounds(row as int, col as int) <==> r is Ok,
            r matches Ok(notified) ==> {
                &&& final(self).same_except(old(self), row as int, col as int)
                &&& final(self).value_at(row as int, col as int) == value@
                &&& final(self).cell(row as int, col as int).current() == value
                &&& final(self).cell(row as int, col as int)@.observers == old(self).cell(
                    row as int,
                    col as int,
                )@.observers
                &&& notified@.to_set() == old(self).cell(row as int, col as int)@.observers
                &&& notified@.no_duplicates()
            },
            r matches Err(e) ==> e == (IndexOutOfRange { row, col }) && *final(self) == *old(self),
    {
        if row < self.0.len() && col < self.0[row].0.len() {
            assert(self.0[row as int].wf());
            let notified = self.0[row].0[col].set(value);
            proof {
                assert forall|r: int| 0 <= r < self.0.len() implies #[trigger] self.0[r].wf() by {
                    if r == row {
                        assert forall|c: int| 0 <= c < self.0[r].0.len() implies #[trigger] self.0[r].0[c].wf() by {
                            if c != col {
                                assert(old(self).0[r].wf());
                            }
                        }
                    } else {
                        assert(old(self).0[r].wf());
                    }
                }
            }
            Ok(notified)
        } else {
            Err(IndexOutOfRange { row, col })
        }
    }

    /// Replaces the value at `(row, col)` by `transform` applied to it and
    /// returns the observers of that cell to notify; no other cell changes.
    /// Out of range, fails with `IndexOutOfRange` and changes nothing.
    pub fn update<F: FnOnce(Datum) -> Datum>(&mut self, row: usize, col: usize, transform: F) -> (r:
        Result<Vec<u64>, IndexOutOfRange>)
        requires
            old(self).wf(),
            old(self).in_bounds(row as int, col as int) ==> transform.requires(
                (old(self).cell(row as int, col as int).current(),),
            ),
        ensures
            final(self).wf(),
            old(self).in_bounds(row as int, col as int) <==> r is Ok,
            r matches Ok(notified) ==> {
                &&& final(self).same_except(old(self), row as int, col as int)
                &&& transform.ensures(
                    (old(self).cell(row as int, col as int).current(),),
                    final(self).cell(row as int, col as int).current(),
                )
                &&& old(self).value_at(row as int, col as int) == old(self).cell(
                    row as int,
                    col as int,
                ).current()@
                &&& final(self).value_at(row as int, col as int) == final(self).cell(
                    row as int,
                    col as int,
                ).current()@
                &&& final(self).cell(row as int, col as int)@.observers == old(self).cell(
                    row as int,
                    col as int,
                )@.observers
                &&& notified@.to_set() == old(self).cell(row as int, col as int)@.observers
                &&& notified@.no_duplicates()
            },
            r matches Err(e) ==> e == (IndexOutOfRange { row, col }) && *final(self) == *old(self),
    {
        if row < self.0.len() && col < self.0[row].0.len() {
            assert(self.0[row as int].wf());
            let notified = self.0[row].0[col].update(transform);
            proof {
                assert forall|r: int| 0 <= r < self.0.len() implies #[trigger] self.0[r].wf() by {
                    if r == row {
                        assert forall|c: int| 0 <= c < self.0[r].0.len() implies #[trigger] self.0[r].0[c].wf() by {
                            if c != col {
                                assert(old(self).0[r].wf());
                            }
                        }
                    } else {
                        assert(old(self).0[r].wf());
                    }
                }
            }
            Ok(notified)
        } else {
            Err(IndexOutOfRange { row, col })
        }
    }

    /// Whether every row has exactly one cell per column.
    pub fn fits(&self, columns: &Vec<Column>) -> (r: bool)
        ensures
            r == forall|row: int| 0 <= row < self.0.len() ==> #[trigger] self.0[row].0.len() == columns.len(),
    {
        let mut i: usize = 0;
        while i < self.0.len()
            invariant
                i <= self.0.len(),
                forall|row: int| 0 <= row < i ==> #[trigger] self.0[row].0.len() == columns.len(),
            decreases self.0.len() - i,
        {
            if self.0[i].0.len() != columns.len() {
                return false;
            }
            i = i + 1;
        }
        true
    }

    /// The addresses of every cell whose value does not fit its column, in
    /// row-major order. Cells without a column, and columns without a cell,
    /// are not addressed.
    pub fn mismatches(&self, columns: &Vec<Column>) -> (r: Vec<(usize, usize)>)
        ensures
            forall|i: int|
                0 <= i < r.len() ==> self.is_mismatch(columns@, r[i].0 as int, r[i].1 as int),
            forall|row: int, col: int|
                self.is_mismatch(columns@, row, col) ==> exists|i: int|
                    0 <= i < r.len() && r[i] == (row as usize, col as usize),
            forall|i: int, j: int| 0 <= i < j < r.len() ==> row_major_lt(r[i], r[j]),
    {
        let mut found: Vec<(usize, usize)> = Vec::new();
        let mut ri: usize = 0;
        while ri < self.0.len()
            invariant
                ri <= self.0.len(),
                forall|i: int|
                    0 <= i < found.len() ==> self.is_mismatch(columns@, found[i].0 as int, found[i].1 as int)
                        && found[i].0 < ri,
                forall|row: int, col: int|
                    row < ri && self.is_mismatch(columns@, row, col) ==> exists|i: int|
                        0 <= i < found.len() && found[i] == (row as usize, col as usize),
                forall|i: int, j: int| 0 <= i < j < found.len() ==> row_major_lt(found[i], found[j]),
            decreases self.0.len() - ri,
        {
            let cells = &self.0[ri].0;
            let mut ci: usize = 0;
            while ci < cells.len() && ci < columns.len()
                invariant
                    ri < self.0.len(),
                    *cells == self.0[ri as int].0,
                    ci <= cells.len(),
                    forall|i: int|
                        0 <= i < found.len() ==> self.is_mismatch(columns@, found[i].0 as int, found[i].1 as int)
                            && row_major_lt(found[i], (ri, ci)),
                    forall|row: int, col: int|
                        (row < ri || (row == ri && col < ci)) && self.is_mismatch(columns@, row, col)
                            ==> exists|i: int|
                            0 <= i < found.len() && found[i] == (row as usize, col as usize),
                    forall|i: int, j: int|
                        0 <= i < j < found.len() ==> row_major_lt(found[i], found[j]),
                decreases cells.len() - ci,
            {
                let d = cells[ci].get();
                if !check(&d, columns[ci].data_type) {
                    let ghost before = found@;
                    found.push((ri, ci));
                    proof {
                        assert forall|row: int, col: int|
                            (row < ri || (row == ri && col < ci + 1)) && self.is_mismatch(
                                columns@,
                                row,
                                col,
                            ) implies exists|i: int|
                            0 <= i < found.len() && found[i] == (row as usize, col as usize) by {
                            if row == ri && col == ci {
                                assert(found[found.len() - 1] == (row as usize, col as usize));
                            } else {
                                let i = choose|i: int|
                                    0 <= i < before.len() && before[i] == (row as usize, col as usize);
                                assert(found[i] == before[i]);
                            }
                        }
                    }
                }
                ci = ci + 1;
            }
            proof {
                assert forall|row: int, col: int|
                    row < ri + 1 && self.is_mismatch(columns@, row, col) implies exists|i: int|
                    0 <= i < found.len() && found[i] == (row as usize, col as usize) by {
                    if row == ri {
                        assert(col < ci);
                    }
                }
            }
            ri = ri + 1;
        }
        found
    }
}

} // verus!
