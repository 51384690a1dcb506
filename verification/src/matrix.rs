//! Dense two-dimensional output buffers: pre-sized at batch start, filled one
//! row at a time by the result collector, and handed whole to the caller.
use vstd::prelude::*;

verus! {

/// A row of `k` cells holding the first values of `vals` and `fill` in every
/// cell past them; `vals` is truncated when it is longer than the row.
pub open spec fn padded_row<T>(vals: Seq<T>, k: nat, fill: T) -> Seq<T> {
    Seq::new(k, |j: int| if j < vals.len() { vals[j] } else { fill })
}

/// A row of `k` cells all holding `fill`.
pub open spec fn blank_row<T>(k: nat, fill: T) -> Seq<T> {
    Seq::new(k, |j: int| fill)
}

/// A rectangular matrix in row-major order; every row has the same length.
pub struct Matrix<T> {
    rows: Vec<Vec<T>>,
    cols: usize,
}

impl<T> View for Matrix<T> {
    type V = Seq<Seq<T>>;

    closed spec fn view(&self) -> Seq<Seq<T>> {
        Seq::new(self.rows@.len(), |i: int| self.rows@[i]@)
    }
}

impl<T> Matrix<T> {
    /// The common length of the rows.
    pub closed spec fn spec_cols(&self) -> int {
        self.cols as int
    }

    /// Well-formed: the matrix is rectangular with `spec_cols` columns.
    pub open spec fn wf(&self) -> bool {
        forall|i: int| 0 <= i < self@.len() ==> (#[trigger] self@[i]).len() == self.spec_cols()
    }

    /// Number of rows.
    pub fn num_rows(&self) -> (r: usize)
        ensures
            r == self@.len(),
    {
        self.rows.len()
    }

    /// Number of columns.
    pub fn num_cols(&self) -> (r: usize)
        ensures
            r == self.spec_cols(),
    {
        self.cols
    }
}

impl<T: Copy> Matrix<T> {
    /// A `rows` by `cols` matrix with every cell holding `fill`.
    pub fn new(rows: usize, cols: usize, fill: T) -> (r: Matrix<T>)
        ensures
            r.wf(),
            r@.len() == rows,
            r.spec_cols() == cols,
            forall|i: int| 0 <= i < rows ==> #[trigger] r@[i] == blank_row(cols as nat, fill),
    {
        let mut data: Vec<Vec<T>> = Vec::new();
        let mut i: usize = 0;
        while i < rows
            invariant
                i <= rows,
                data@.len() == i,
                forall|p: int|
                    0 <= p < i ==> (#[trigger] data@[p])@ == blank_row(cols as nat, fill),
            decreases rows - i,
        {
            let mut row: Vec<T> = Vec::new();
            let mut j: usize = 0;
            while j < cols
                invariant
                    j <= cols,
                    row@.len() == j,
                    forall|q: int| 0 <= q < j ==> #[trigger] row@[q] == fill,
                decreases cols - j,
            {
                row.push(fill);
                j = j + 1;
            }
            proof {
                assert(row@ =~= blank_row(cols as nat, fill));
            }
            data.push(row);
            i = i + 1;
        }
        let r = Matrix { rows: data, cols };
        proof {
            assert(forall|p: int| 0 <= p < rows ==> #[trigger] r@[p] == r.rows@[p]@);
        }
        r
    }

    /// The cell at row `i`, column `j`.
    pub fn get(&self, i: usize, j: usize) -> (r: T)
        requires
            i < self@.len(),
            j < self@[i as int].len(),
        ensures
            r == self@[i as int][j as int],
    {
        proof {
            assert(self@[i as int] == self.rows@[i as int]@);
        }
        self.rows[i][j]
    }

    /// Overwrite the first `min(vals.len(), cols)` cells of row `i` with
    /// `vals`, leaving the cells past them as they were: results shorter
    /// than the row keep its padding, longer ones are truncated.
    pub fn store_row(&mut self, i: usize, vals: &Vec<T>)
        requires
            old(self).wf(),
            i < old(self)@.len(),
        ensures
            final(self).wf(),
            final(self)@.len() == old(self)@.len(),
            final(self).spec_cols() == old(self).spec_cols(),
            forall|p: int|
                0 <= p < old(self)@.len() && p != i ==> final(self)@[p] == old(self)@[p],
            forall|q: int|
                0 <= q < old(self).spec_cols() ==> #[trigger] final(self)@[i as int][q] == (
                if q < vals@.len() {
                    vals@[q]
                } else {
                    old(self)@[i as int][q]
                }),
    {
        let limit = if vals.len() < self.cols {
            vals.len()
        } else {
            self.cols
        };
        proof {
            assert(old(self)@[i as int] == old(self).rows@[i as int]@);
        }
        let mut row: Vec<T> = Vec::new();
        let mut j: usize = 0;
        while j < limit
            invariant
                limit <= vals@.len(),
                j <= limit,
                row@.len() == j,
                forall|q: int| 0 <= q < j ==> #[trigger] row@[q] == vals@[q],
            decreases limit - j,
        {
            row.push(vals[j]);
            j = j + 1;
        }
        while j < self.cols
            invariant
                self == old(self),
                i < self@.len(),
                self.wf(),
                limit <= self.spec_cols(),
                limit <= j,
                j <= self.spec_cols(),
                row@.len() == j,
                forall|q: int| 0 <= q < limit ==> #[trigger] row@[q] == vals@[q],
                forall|q: int| limit <= q < j ==> #[trigger] row@[q] == self@[i as int][q],
            decreases self.cols - j,
        {
            proof {
                assert(self@[i as int] == self.rows@[i as int]@);
            }
            let cell = self.rows[i][j];
            row.push(cell);
            j = j + 1;
        }
        self.rows[i] = row;
        proof {
            assert forall|p: int| 0 <= p < self@.len() && p != i implies self@[p] == old(
                self,
            )@[p] by {
                assert(self@[p] == self.rows@[p]@);
                assert(old(self)@[p] == old(self).rows@[p]@);
                assert(self.rows@[p] == old(self).rows@[p]);
            }
            assert(self@[i as int] == row@);
            assert forall|p: int| 0 <= p < self@.len() implies (#[trigger] self@[p]).len()
                == self.spec_cols() by {
                if p != i {
                    assert(old(self)@[p].len() == old(self).spec_cols());
                }
            }
        }
    }
}

} // verus!
