//! Matrices on the host.

use vstd::prelude::*;

use crate::util::log::{refusal, Error, ErrorView};
use crate::util::precision::PrecisionType;

verus! {

/// A list of `len` zeros.
pub(crate) fn zero_list<T: PrecisionType>(len: usize) -> (r: Vec<T>)
    ensures
        r@ == Seq::new(len as nat, |i: int| T::of_pattern(0)),
{
    let mut v: Vec<T> = Vec::with_capacity(len);
    for i in 0..len
        invariant
            v@ == Seq::new(i as nat, |i: int| T::of_pattern(0)),
    {
        let zero = T::zero();
        proof {
            T::pattern_is_faithful(zero);
        }
        v.push(zero);
    }
    v
}

/// The place of the element `(row, col)` in a matrix of `cols` columns.
pub open spec fn cell_index(cols: int, row: int, col: int) -> int {
    row * cols + col
}

/// The cells of a matrix lie inside it, and no two of them at the same place.
pub proof fn law_cells_are_distinct(rows: int, cols: int, r1: int, c1: int, r2: int, c2: int)
    requires
        0 <= r1 < rows,
        0 <= r2 < rows,
        0 <= c1 < cols,
        0 <= c2 < cols,
    ensures
        0 <= r1 * cols <= cell_index(cols, r1, c1) < rows * cols,
        cell_index(cols, r1, c1) == cell_index(cols, r2, c2) <==> r1 == r2 && c1 == c2,
{
    assert(0 <= r1 * cols && r1 * cols + c1 < rows * cols) by (nonlinear_arith)
        requires
            0 <= r1 < rows,
            0 <= c1 < cols,
    ;
    assert(r1 * cols + c1 == r2 * cols + c2 ==> r1 == r2) by (nonlinear_arith)
        requires
            0 <= c1 < cols,
            0 <= c2 < cols,
    ;
}

/// A typical matrix of size `(rows, cols)`.
#[derive(Debug)]
pub struct Matrix<T: PrecisionType> {
    /// The number of rows.
    pub rows: usize,
    /// The number of columns.
    pub cols: usize,
    /// The values, row by row.
    pub v: Vec<T>,
}

impl<T: PrecisionType> Matrix<T> {
    /// There is one value for each cell.
    pub open spec fn wf(&self) -> bool {
        &&& self.v@.len() == self.rows * self.cols
        &&& self.v@.len() <= usize::MAX
    }

    /// The coordinates name a cell of the matrix.
    pub open spec fn holds(&self, row: int, col: int) -> bool {
        0 <= row < self.rows && 0 <= col < self.cols
    }

    /// The value of a cell.
    pub open spec fn cell(&self, row: int, col: int) -> T {
        self.v@[cell_index(self.cols as int, row, col)]
    }

    /// Creates a new empty [`Matrix`] with dimensions set to `(0, 0)`.
    #[must_use]
    pub fn empty() -> (r: Self)
        ensures
            r.wf(),
            r.rows == 0,
            r.cols == 0,
    {
        Self::new(0, 0)
    }

    /// Creates a new zero-initialised [`Matrix`] with the given dimensions.
    ///
    /// # Arguments
    /// * `rows` - Number of rows.
    /// * `cols` - Number of columns.
    #[must_use]
    pub fn new(rows: usize, cols: usize) -> (r: Self)
        requires
            rows * cols <= usize::MAX,
        ensures
            r.wf(),
            r.rows == rows,
            r.cols == cols,
            r.v@ == Seq::new((rows * cols) as nat, |i: int| T::of_pattern(0)),
    {
        Self { rows, cols, v: zero_list(rows * cols) }
    }

    /// Creates a new [`Matrix`] where each element is initialised via a closure.
    ///
    /// The closure receives coordinates in the exact execution order: `(row, column)`.
    ///
    /// # Arguments
    /// * `init` - A closure mapping `(row, column)` to an initial value `T`.
    pub fn new_init<F: FnMut(usize, usize) -> T>(rows: usize, cols: usize, mut init: F) -> (r: Self)
        requires
            rows * cols <= usize::MAX,
            forall|row: usize, col: usize|
                row < rows && col < cols ==> call_requires(init, (row, col)),
        ensures
            r.wf(),
            r.rows == rows,
            r.cols == cols,
            forall|row: usize, col: usize|
                row < rows && col < cols ==> call_ensures(
                    init,
                    (row, col),
                    #[trigger] r.cell(row as int, col as int),
                ),
    {
        let ghost given = init;
        let mut v: Vec<T> = Vec::with_capacity(rows * cols);
        let mut r: usize = 0;
        while r < rows
            invariant
                r <= rows,
                init == given,
                rows * cols <= usize::MAX,
                v@.len() == cell_index(cols as int, r as int, 0),
                forall|row: usize, col: usize|
                    row < rows && col < cols ==> call_requires(given, (row, col)),
                forall|row: usize, col: usize|
                    row < rows && col < cols && #[trigger] cell_index(
                        cols as int,
                        row as int,
                        col as int,
                    ) < v@.len() ==> call_ensures(
                        given,
                        (row, col),
                        v@[cell_index(cols as int, row as int, col as int)],
                    ),
            decreases rows - r,
        {
            let mut c: usize = 0;
            while c < cols
                invariant
                    r < rows,
                    init == given,
                    c <= cols,
                    rows * cols <= usize::MAX,
                    v@.len() == cell_index(cols as int, r as int, c as int),
                    forall|row: usize, col: usize|
                        row < rows && col < cols ==> call_requires(given, (row, col)),
                    forall|row: usize, col: usize|
                        row < rows && col < cols && #[trigger] cell_index(
                            cols as int,
                            row as int,
                            col as int,
                        ) < v@.len() ==> call_ensures(
                            given,
                            (row, col),
                            v@[cell_index(cols as int, row as int, col as int)],
                        ),
                decreases cols - c,
            {
                let ghost before = v@;
                v.push(init(r, c));
                assert forall|row: usize, col: usize|
                    row < rows && col < cols && #[trigger] cell_index(
                        cols as int,
                        row as int,
                        col as int,
                    ) < v@.len() implies call_ensures(
                    given,
                    (row, col),
                    v@[cell_index(cols as int, row as int, col as int)],
                ) by {
                    law_cells_are_distinct(
                        rows as int,
                        cols as int,
                        row as int,
                        col as int,
                        r as int,
                        c as int,
                    );
                    let place = cell_index(cols as int, row as int, col as int);
                    if place < before.len() {
                        assert(v@[place] == before[place]);
                    }
                }
                c += 1;
            }
            assert(cell_index(cols as int, r as int, cols as int) == cell_index(
                cols as int,
                r + 1,
                0,
            )) by (nonlinear_arith);
            r += 1;
        }
        let m = Self { rows, cols, v };
        assert forall|row: usize, col: usize| row < rows && col < cols implies call_ensures(
            given,
            (row, col),
            #[trigger] m.cell(row as int, col as int),
        ) by {
            law_cells_are_distinct(
                rows as int,
                cols as int,
                row as int,
                col as int,
                row as int,
                col as int,
            );
        }
        m
    }

    /// Safely fetches an immutable reference to the element at `(row, col)`.
    ///
    /// Returns `None` if any coordinates are out of bounds.
    #[must_use]
    pub fn get(&self, row: usize, col: usize) -> (r: Option<&T>)
        requires
            self.wf(),
        ensures
            r == if self.holds(row as int, col as int) {
                Some(&self.cell(row as int, col as int))
            } else {
                None
            },
    {
        if row < self.rows && col < self.cols {
            proof {
                law_cells_are_distinct(
                    self.rows as int,
                    self.cols as int,
                    row as int,
                    col as int,
                    row as int,
                    col as int,
                );
            }
            Some(&self.v[row * self.cols + col])
        } else {
            None
        }
    }

    /// Safely fetches a mutable reference to the element at `(row, col)`.
    ///
    /// Returns `None` if any coordinates are out of bounds.
    pub fn get_mut(&mut self, row: usize, col: usize) -> (r: Option<&mut T>)
        requires
            old(self).wf(),
        ensures
            final(self).wf(),
            final(self).rows == old(self).rows,
            final(self).cols == old(self).cols,
            r is Some <==> old(self).holds(row as int, col as int),
            r matches Some(place) ==> {
                &&& *place == old(self).cell(row as int, col as int)
                &&& final(self).v@ == old(self).v@.update(
                    cell_index(old(self).cols as int, row as int, col as int),
                    *final(place),
                )
            },
            r is None ==> final(self).v@ == old(self).v@,
    {
        if row < self.rows && col < self.cols {
            proof {
                law_cells_are_distinct(
                    self.rows as int,
                    self.cols as int,
                    row as int,
                    col as int,
                    row as int,
                    col as int,
                );
            }
            let idx: usize = row * self.cols + col;
            Some(&mut self.v[idx])
        } else {
            None
        }
    }

    /// Setting a new element at position `(row, col)`.
    ///
    /// # Errors
    /// This function will return an error if:
    /// * [`Error::IndexOutOfBounds`] - The coordinates are out of bounds.
    pub fn set(&mut self, row: usize, col: usize, val: T) -> (r: Result<(), Error>)
        requires
            old(self).wf(),
            cell_index(old(self).cols as int, row as int, col as int) <= usize::MAX,
        ensures
            final(self).wf(),
            final(self).rows == old(self).rows,
            final(self).cols == old(self).cols,
            refusal(r) == if old(self).holds(row as int, col as int) {
                None
            } else {
                Some(
                    ErrorView::IndexOutOfBounds {
                        idx: cell_index(
                            old(self).cols as int,
                            row as int,
                            col as int,
                        ) as usize,
                        max_idx: (old(self).rows * old(self).cols) as usize,
                        reason: "setting element in matrix"@,
                    },
                )
            },
            r is Ok ==> final(self).v@ == old(self).v@.update(
                cell_index(old(self).cols as int, row as int, col as int),
                val,
            ),
            r is Err ==> final(self).v@ == old(self).v@,
    {
        assert(row * self.cols >= 0) by (nonlinear_arith);
        let idx: usize = row * self.cols + col;
        let max_idx: usize = self.rows * self.cols;
        if row >= self.rows || col >= self.cols {
            return Err(
                Error::IndexOutOfBounds { idx, max_idx, reason: "setting element in matrix" },
            );
        }
        proof {
            law_cells_are_distinct(
                self.rows as int,
                self.cols as int,
                row as int,
                col as int,
                row as int,
                col as int,
            );
        }
        self.v.set(idx, val);
        Ok(())
    }

    /// Sets the value directly at the flat vector index `idx`.
    ///
    /// # Errors
    /// This function will return an error if:
    /// * [`Error::IndexOutOfBounds`] - The index is out of bounds.
    pub fn set_v(&mut self, idx: usize, val: T) -> (r: Result<(), Error>)
        requires
            old(self).wf(),
        ensures
            final(self).wf(),
            final(self).rows == old(self).rows,
            final(self).cols == old(self).cols,
            refusal(r) == if idx < old(self).v@.len() {
                None
            } else {
                Some(
                    ErrorView::IndexOutOfBounds {
                        idx,
                        max_idx: (old(self).rows * old(self).cols) as usize,
                        reason: "setting element in matrix"@,
                    },
                )
            },
            final(self).v@ == if idx < old(self).v@.len() {
                old(self).v@.update(idx as int, val)
            } else {
                old(self).v@
            },
    {
        let max_idx: usize = self.rows * self.cols;
        if idx >= max_idx {
            return Err(
                Error::IndexOutOfBounds { idx, max_idx, reason: "setting element in matrix" },
            );
        }
        self.v.set(idx, val);
        Ok(())
    }

    /// The number of rows.
    pub fn rows(&self) -> (r: usize)
        ensures
            r == self.rows,
    {
        self.rows
    }

    /// The number of columns.
    pub fn cols(&self) -> (r: usize)
        ensures
            r == self.cols,
    {
        self.cols
    }

    /// The values, row by row.
    pub fn get_v(&self) -> (r: &Vec<T>)
        ensures
            *r == self.v,
    {
        &self.v
    }

    /// Returns `true` if the container holds zero elements.
    #[must_use]
    pub fn is_empty(&self) -> (r: bool)
        ensures
            r == (self.v@.len() == 0),
    {
        self.v.len() == 0
    }

    /// Returns `true` if the container holds one or more elements.
    #[must_use]
    pub fn is_not_empty(&self) -> (r: bool)
        ensures
            r == (self.v@.len() > 0),
    {
        !self.is_empty()
    }
}

/// A write to one cell of a matrix is what a read of that cell gives back, and no other cell
/// changes.
pub proof fn law_matrix_write_then_read<T: PrecisionType>(
    before: Matrix<T>,
    after: Matrix<T>,
    row: int,
    col: int,
    val: T,
    r: int,
    c: int,
)
    requires
        before.wf(),
        before.holds(row, col),
        before.holds(r, c),
        after.rows == before.rows,
        after.cols == before.cols,
        after.v@ == before.v@.update(cell_index(before.cols as int, row, col), val),
    ensures
        after.wf(),
        after.cell(r, c) == if r == row && c == col {
            val
        } else {
            before.cell(r, c)
        },
{
    law_cells_are_distinct(
        before.rows as int,
        before.cols as int,
        row,
        col,
        r,
        c,
    );
    law_cells_are_distinct(before.rows as int, before.cols as int, r, c, r, c);
}

/// Cells lie in order: those of a row next to each other, and the rows one behind the other.
pub proof fn law_cells_lie_in_order(cols: int, row: int, col: int)
    ensures
        cell_index(cols, 0, 0) == 0,
        cell_index(cols, row, col + 1) == cell_index(cols, row, col) + 1,
        cell_index(cols, row + 1, col) == cell_index(cols, row, col) + cols,
{
    assert((row + 1) * cols == row * cols + cols) by (nonlinear_arith);
    assert(0 * cols == 0) by (nonlinear_arith);
}

} // verus!
