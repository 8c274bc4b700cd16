use vstd::assert_by_contradiction;
use vstd::prelude::*;

verus! {

/// One matrix row: an ordered sequence of entries, the position of an entry
/// being its column.
pub type Row = Vec<i64>;

/// Every way a construction or an arithmetic operation can be refused.
/// Each variant carries the information the corresponding diagnostic needs:
/// for ragged input, the first offending row and both lengths.
#[derive(Debug, Clone, Copy, PartialEq, Eq, Structural)]
pub enum MatrixError {
    /// No rows were supplied, so no column count can be derived.
    Empty,
    /// Row `row_index` has `found` entries where `expected` (the length of
    /// row 0) were required.
    Ragged { row_index: usize, found: usize, expected: usize },
    /// The two operands of an addition do not share a shape.
    CannotAdd,
    /// The two operands of a subtraction do not share a shape.
    CannotSubtract,
    /// The left operand's column count differs from the right operand's
    /// row count.
    CannotMultiply,
}

/// Shape metadata kept beside the grid, derived once at construction.
#[derive(Debug)]
struct MatrixMeta {
    /// Number of rows.
    row_count: usize,
    /// Number of columns, the length of row 0.
    column_count: usize,
}

/// A rectangular grid of integers together with its cached shape.
/// Values are immutable after construction: every arithmetic operation
/// consumes its operands and returns a fresh matrix.
#[derive(Debug)]
pub struct Matrix {
    meta: MatrixMeta,
    data: Vec<Row>,
}

/// The mathematical value of a grid of machine integers: a sequence of rows,
/// each a sequence of unbounded integers.
pub open spec fn grid_view(data: Seq<Row>) -> Seq<Seq<int>> {
    Seq::new(data.len(), |i: int| Seq::new(data[i]@.len(), |j: int| data[i]@[j] as int))
}

/// A grid is rectangular when it has at least one row and every row is as
/// long as row 0.
pub open spec fn rect(m: Seq<Seq<int>>) -> bool {
    m.len() > 0 && forall|i: int| 0 <= i < m.len() ==> (#[trigger] m[i].len()) == m[0].len()
}

/// Two rectangular grids share a shape: same row count and same column count.
pub open spec fn same_shape(a: Seq<Seq<int>>, b: Seq<Seq<int>>) -> bool {
    a.len() == b.len() && a[0].len() == b[0].len()
}

/// The range of the machine integer an entry is stored in.
pub open spec fn in_i64(x: int) -> bool {
    i64::MIN <= x <= i64::MAX
}

/// Pointwise sum of two grids, shaped like `a`.
pub open spec fn mat_add(a: Seq<Seq<int>>, b: Seq<Seq<int>>) -> Seq<Seq<int>> {
    Seq::new(a.len(), |i: int| Seq::new(a[i].len(), |j: int| a[i][j] + b[i][j]))
}

/// Pointwise difference of two grids, shaped like `a`.
pub open spec fn mat_sub(a: Seq<Seq<int>>, b: Seq<Seq<int>>) -> Seq<Seq<int>> {
    Seq::new(a.len(), |i: int| Seq::new(a[i].len(), |j: int| a[i][j] - b[i][j]))
}

/// Every pointwise sum stays within the entry range.
pub open spec fn add_fits(a: Seq<Seq<int>>, b: Seq<Seq<int>>) -> bool {
    forall|i: int, j: int|
        0 <= i < a.len() && 0 <= j < a[i].len() ==> in_i64((#[trigger] a[i][j]) + b[i][j])
}

/// Every pointwise difference stays within the entry range.
pub open spec fn sub_fits(a: Seq<Seq<int>>, b: Seq<Seq<int>>) -> bool {
    forall|i: int, j: int|
        0 <= i < a.len() && 0 <= j < a[i].len() ==> in_i64((#[trigger] a[i][j]) - b[i][j])
}

/// The first `k` terms of the dot product of row `i` of `a` with column `j`
/// of `b`, accumulated in increasing index order from a zero accumulator.
pub open spec fn dot_prefix(a: Seq<Seq<int>>, b: Seq<Seq<int>>, i: int, j: int, k: int) -> int
    decreases k,
{
    if k <= 0 {
        0
    } else {
        dot_prefix(a, b, i, j, k - 1) + a[i][k - 1] * b[k - 1][j]
    }
}

/// Product of two grids: the row count of `a`, the column count of `b`, and
/// entry (i, j) the full dot product of row i of `a` with column j of `b`.
pub open spec fn mat_mul(a: Seq<Seq<int>>, b: Seq<Seq<int>>) -> Seq<Seq<int>> {
    Seq::new(a.len(), |i: int| Seq::new(b[0].len(), |j: int| dot_prefix(a, b, i, j, a[0].len() as int)))
}

/// Every elementary product and every running dot-product prefix stays
/// within the entry range.
pub open spec fn mul_fits(a: Seq<Seq<int>>, b: Seq<Seq<int>>) -> bool {
    forall|i: int, j: int, k: int|
        0 <= i < a.len() && 0 <= j < b[0].len() && 0 <= k < a[0].len()
            ==> in_i64((#[trigger] a[i][k]) * (#[trigger] b[k][j]))
                && in_i64(dot_prefix(a, b, i, j, k + 1))
}

/// Scalar multiple of a grid: entry (i, j) is `scalar` times the entry.
pub open spec fn mat_scale(scalar: int, m: Seq<Seq<int>>) -> Seq<Seq<int>> {
    Seq::new(m.len(), |i: int| Seq::new(m[i].len(), |j: int| scalar * m[i][j]))
}

/// Every scaled entry stays within the entry range.
pub open spec fn scale_fits(scalar: int, m: Seq<Seq<int>>) -> bool {
    forall|i: int, j: int|
        0 <= i < m.len() && 0 <= j < m[i].len() ==> in_i64(scalar * (#[trigger] m[i][j]))
}

impl View for Matrix {
    type V = Seq<Seq<int>>;

    closed spec fn view(&self) -> Seq<Seq<int>> {
        grid_view(self.data@)
    }
}

impl Matrix {
    /// Shape consistency: the cached metadata agrees with the grid, the grid
    /// is non-empty, and every row has the cached column count.
    #[verifier::type_invariant]
    spec fn wf(&self) -> bool {
        &&& self.data@.len() > 0
        &&& self.data@.len() == self.meta.row_count
        &&& forall|i: int|
            0 <= i < self.data@.len() ==> (#[trigger] self.data@[i]@.len())
                == self.meta.column_count
    }

    /// Builds a matrix from an ordered sequence of rows.
    ///
    /// Succeeds exactly on rectangular input: at least one row, every row as
    /// long as row 0. Empty input and ragged input are refused, the latter
    /// with the first offending row index and both lengths.
    pub fn new(data: Vec<Row>) -> (r: Result<Matrix, MatrixError>)
        ensures
            r is Ok <==> rect(grid_view(data@)),
            (r matches Ok(m) ==> {
                &&& m@ == grid_view(data@)
                &&& m@.len() == data@.len()
                &&& forall|i: int| 0 <= i < data@.len() ==> (#[trigger] m@[i].len()) == data@[i]@.len()
            }),
            data@.len() == 0 <==> r == Err::<Matrix, MatrixError>(MatrixError::Empty),
            (r matches Err(MatrixError::Ragged { row_index, found, expected }) ==> {
                &&& 0 < row_index < data@.len()
                &&& expected == data@[0]@.len()
                &&& found == data@[row_index as int]@.len()
                &&& found != expected
                &&& forall|i: int| 0 <= i < row_index ==> (#[trigger] data@[i]@.len()) == expected
            }),
            (r is Err ==> r == Err::<Matrix, MatrixError>(MatrixError::Empty)
                || r matches Err(MatrixError::Ragged { .. })),
    {
        let mut lengths: Vec<usize> = Vec::new();
        let mut i: usize = 0;
        while i < data.len()
            invariant
                i <= data@.len(),
                lengths@.len() == i,
                forall|k: int| 0 <= k < i ==> lengths@[k] == (#[trigger] data@[k]@.len()),
            decreases data@.len() - i,
        {
            let row_length = data[i].len();
            lengths.push(row_length);
            i += 1;
        }
        match validate_row_lengths(&lengths) {
            Ok((row_count, column_count)) => {
                proof {
                    assert forall|k: int| 0 <= k < grid_view(data@).len() implies
                        (#[trigger] grid_view(data@)[k].len()) == grid_view(data@)[0].len() by {
                        assert(lengths@[k] == lengths@[0]);
                    }
                    assert(rect(grid_view(data@)));
                }
                let m = Matrix { meta: MatrixMeta { row_count, column_count }, data };
                Ok(m)
            },
            Err(e) => {
                proof {
                    if lengths@.len() > 0 {
                        match e {
                            MatrixError::Ragged { row_index, found, expected } => {
                                assert(grid_view(data@)[row_index as int].len()
                                    != grid_view(data@)[0].len());
                                assert(!rect(grid_view(data@)));
                            },
                            _ => {},
                        }
                    }
                }
                Err(e)
            },
        }
    }

    /// Structural equality: true exactly when the shapes agree and every
    /// entry agrees. Read-only: neither operand is consumed. Reflexivity
    /// and shape sensitivity are spelled out in the contract.
    #[verifier::loop_isolation(false)]
    pub fn equals(&self, other: &Matrix) -> (r: bool)
        ensures
            rect(self@) && rect(other@),
            r <==> self@ == other@,
            self@ == other@ ==> r,
            self@.len() != other@.len() ==> !r,
            self@[0].len() != other@[0].len() ==> !r,
    {
        proof {
            use_type_invariant(self);
            use_type_invariant(other);
        }
        if self.meta.row_count != other.meta.row_count
            || self.meta.column_count != other.meta.column_count {
            proof {
                if self@ == other@ {
                    assert(self@[0].len() == other@[0].len());
                }
            }
            return false;
        }
        let row_count = self.meta.row_count;
        let column_count = self.meta.column_count;
        let mut row_index: usize = 0;
        while row_index < row_count
            invariant
                row_index <= row_count,
                forall|i: int, j: int|
                    0 <= i < row_index && 0 <= j < column_count
                        ==> (#[trigger] self@[i][j]) == other@[i][j],
            decreases row_count - row_index,
        {
            let mut column_index: usize = 0;
            while column_index < column_count
                invariant
                    row_index < row_count,
                    column_index <= column_count,
                    forall|j: int|
                        0 <= j < column_index
                            ==> (#[trigger] self@[row_index as int][j])
                                == other@[row_index as int][j],
            decreases column_count - column_index,
            {
                if self.data[row_index][column_index] != other.data[row_index][column_index] {
                    proof {
                        assert(self@[row_index as int][column_index as int]
                            != other@[row_index as int][column_index as int]);
                        assert(self@ != other@);
                    }
                    return false;
                }
                column_index += 1;
            }
            row_index += 1;
        }
        proof {
            assert(self@ =~~= other@);
        }
        true
    }

    /// Matrix addition: consumes both operands; defined exactly when
    /// the shapes agree; entry (i, j) of the result is the sum of the
    /// operands' (i, j) entries, so the result keeps the operands' shape.
    #[verifier::loop_isolation(false)]
    pub fn add(self, rhs: Matrix) -> (r: Result<Matrix, MatrixError>)
        requires
            same_shape(self@, rhs@) ==> add_fits(self@, rhs@),
        ensures
            rect(self@) && rect(rhs@),
            r is Ok <==> same_shape(self@, rhs@),
            !same_shape(self@, rhs@) ==> r == Err::<Matrix, MatrixError>(MatrixError::CannotAdd),
            (r matches Ok(m) ==> {
                &&& m@ == mat_add(self@, rhs@)
                &&& m@.len() == self@.len()
                &&& forall|i: int| 0 <= i < m@.len() ==> (#[trigger] m@[i].len()) == self@[i].len()
                &&& forall|i: int, j: int|
                    0 <= i < m@.len() && 0 <= j < m@[i].len()
                        ==> (#[trigger] m@[i][j]) == self@[i][j] + rhs@[i][j]
            }),
    {
        proof {
            use_type_invariant(&self);
            use_type_invariant(&rhs);
        }
        if self.meta.row_count != rhs.meta.row_count
            || self.meta.column_count != rhs.meta.column_count {
            return Err(MatrixError::CannotAdd);
        }
        let row_count = self.meta.row_count;
        let column_count = self.meta.column_count;
        let mut matrix_vec: Vec<Row> = Vec::new();
        let mut row_index: usize = 0;
        while row_index < row_count
            invariant
                row_index <= row_count,
                matrix_vec@.len() == row_index,
                forall|i: int|
                    0 <= i < row_index ==> (#[trigger] matrix_vec@[i]@.len()) == column_count,
                forall|i: int, j: int|
                    0 <= i < row_index && 0 <= j < column_count
                        ==> (#[trigger] matrix_vec@[i]@[j]) as int == self@[i][j] + rhs@[i][j],
            decreases row_count - row_index,
        {
            let mut matrix_column_vec: Row = Vec::new();
            let mut column_index: usize = 0;
            while column_index < column_count
                invariant
                    row_index < row_count,
                    column_index <= column_count,
                    matrix_column_vec@.len() == column_index,
                    forall|j: int|
                        0 <= j < column_index
                            ==> (#[trigger] matrix_column_vec@[j]) as int
                                == self@[row_index as int][j] + rhs@[row_index as int][j],
                decreases column_count - column_index,
            {
                let a: i64 = self.data[row_index][column_index];
                let b: i64 = rhs.data[row_index][column_index];
                proof {
                    assert(in_i64(self@[row_index as int][column_index as int]
                        + rhs@[row_index as int][column_index as int]));
                }
                let entry: i64 = a + b;
                matrix_column_vec.push(entry);
                column_index += 1;
            }
            matrix_vec.push(matrix_column_vec);
            row_index += 1;
        }
        let m = Matrix { meta: MatrixMeta { row_count, column_count }, data: matrix_vec };
        proof {
            assert(m@ =~~= mat_add(self@, rhs@));
        }
        Ok(m)
    }

    /// Matrix subtraction: consumes both operands; defined exactly
    /// when the shapes agree; entry (i, j) of the result is the left
    /// operand's entry minus the right operand's. Order matters.
    #[verifier::loop_isolation(false)]
    pub fn subtract(self, rhs: Matrix) -> (r: Result<Matrix, MatrixError>)
        requires
            same_shape(self@, rhs@) ==> sub_fits(self@, rhs@),
        ensures
            rect(self@) && rect(rhs@),
            r is Ok <==> same_shape(self@, rhs@),
            !same_shape(self@, rhs@)
                ==> r == Err::<Matrix, MatrixError>(MatrixError::CannotSubtract),
            (r matches Ok(m) ==> {
                &&& m@ == mat_sub(self@, rhs@)
                &&& m@.len() == self@.len()
                &&& forall|i: int| 0 <= i < m@.len() ==> (#[trigger] m@[i].len()) == self@[i].len()
                &&& forall|i: int, j: int|
                    0 <= i < m@.len() && 0 <= j < m@[i].len()
                        ==> (#[trigger] m@[i][j]) == self@[i][j] - rhs@[i][j]
            }),
    {
        proof {
            use_type_invariant(&self);
            use_type_invariant(&rhs);
        }
        if self.meta.row_count != rhs.meta.row_count
            || self.meta.column_count != rhs.meta.column_count {
            return Err(MatrixError::CannotSubtract);
        }
        let row_count = self.meta.row_count;
        let column_count = self.meta.column_count;
        let mut matrix_vec: Vec<Row> = Vec::new();
        let mut row_index: usize = 0;
        while row_index < row_count
            invariant
                row_index <= row_count,
                matrix_vec@.len() == row_index,
                forall|i: int|
                    0 <= i < row_index ==> (#[trigger] matrix_vec@[i]@.len()) == column_count,
                forall|i: int, j: int|
                    0 <= i < row_index && 0 <= j < column_count
                        ==> (#[trigger] matrix_vec@[i]@[j]) as int == self@[i][j] - rhs@[i][j],
            decreases row_count - row_index,
        {
            let mut matrix_column_vec: Row = Vec::new();
            let mut column_index: usize = 0;
            while column_index < column_count
                invariant
                    row_index < row_count,
                    column_index <= column_count,
                    matrix_column_vec@.len() == column_index,
                    forall|j: int|
                        0 <= j < column_index
                            ==> (#[trigger] matrix_column_vec@[j]) as int
                                == self@[row_index as int][j] - rhs@[row_index as int][j],
                decreases column_count - column_index,
            {
                let a: i64 = self.data[row_index][column_index];
                let b: i64 = rhs.data[row_index][column_index];
                proof {
                    assert(in_i64(self@[row_index as int][column_index as int]
                        - rhs@[row_index as int][column_index as int]));
                }
                let entry: i64 = a - b;
                matrix_column_vec.push(entry);
                column_index += 1;
            }
            matrix_vec.push(matrix_column_vec);
            row_index += 1;
        }
        let m = Matrix { meta: MatrixMeta { row_count, column_count }, data: matrix_vec };
        proof {
            assert(m@ =~~= mat_sub(self@, rhs@));
        }
        Ok(m)
    }

    /// Matrix multiplication: consumes both operands; defined exactly
    /// when the left column count equals the right row count; the result has
    /// the left row count, the right column count, and entry (i, j) the dot
    /// product of left row i with right column j, accumulated in increasing
    /// index order from a zero accumulator.
    #[verifier::loop_isolation(false)]
    pub fn multiply(self, rhs: Matrix) -> (r: Result<Matrix, MatrixError>)
        requires
            self@[0].len() == rhs@.len() ==> mul_fits(self@, rhs@),
        ensures
            rect(self@) && rect(rhs@),
            r is Ok <==> self@[0].len() == rhs@.len(),
            self@[0].len() != rhs@.len()
                ==> r == Err::<Matrix, MatrixError>(MatrixError::CannotMultiply),
            (r matches Ok(m) ==> {
                &&& m@ == mat_mul(self@, rhs@)
                &&& m@.len() == self@.len()
                &&& forall|i: int| 0 <= i < m@.len() ==> (#[trigger] m@[i].len()) == rhs@[0].len()
                &&& forall|i: int, j: int|
                    0 <= i < m@.len() && 0 <= j < m@[i].len()
                        ==> (#[trigger] m@[i][j])
                            == dot_prefix(self@, rhs@, i, j, self@[0].len() as int)
            }),
    {
        proof {
            use_type_invariant(&self);
            use_type_invariant(&rhs);
        }
        if self.meta.column_count != rhs.meta.row_count {
            return Err(MatrixError::CannotMultiply);
        }
        let row_count = self.meta.row_count;
        let column_count = rhs.meta.column_count;
        let inner_count = self.meta.column_count;
        let mut matrix_vec: Vec<Row> = Vec::new();
        let mut row_index: usize = 0;
        while row_index < row_count
            invariant
                row_index <= row_count,
                matrix_vec@.len() == row_index,
                forall|i: int|
                    0 <= i < row_index ==> (#[trigger] matrix_vec@[i]@.len()) == column_count,
                forall|i: int, j: int|
                    0 <= i < row_index && 0 <= j < column_count
                        ==> (#[trigger] matrix_vec@[i]@[j]) as int
                            == dot_prefix(self@, rhs@, i, j, inner_count as int),
            decreases row_count - row_index,
        {
            let mut matrix_column_vec: Row = Vec::new();
            let mut column_index: usize = 0;
            while column_index < column_count
                invariant
                    row_index < row_count,
                    column_index <= column_count,
                    matrix_column_vec@.len() == column_index,
                    forall|j: int|
                        0 <= j < column_index
                            ==> (#[trigger] matrix_column_vec@[j]) as int
                                == dot_prefix(self@, rhs@, row_index as int, j, inner_count as int),
                decreases column_count - column_index,
            {
                let mut result: i64 = 0;
                let mut k: usize = 0;
                while k < inner_count
                    invariant
                        row_index < row_count,
                        column_index < column_count,
                        k <= inner_count,
                        result as int
                            == dot_prefix(self@, rhs@, row_index as int, column_index as int, k as int),
                    decreases inner_count - k,
                {
                    let a: i64 = self.data[row_index][k];
                    let b: i64 = rhs.data[k][column_index];
                    proof {
                        assert(in_i64(self@[row_index as int][k as int]
                            * rhs@[k as int][column_index as int]));
                        assert(in_i64(dot_prefix(self@, rhs@, row_index as int,
                            column_index as int, k as int + 1)));
                    }
                    result = result + a * b;
                    k += 1;
                }
                matrix_column_vec.push(result);
                column_index += 1;
            }
            matrix_vec.push(matrix_column_vec);
            row_index += 1;
        }
        let m = Matrix { meta: MatrixMeta { row_count, column_count }, data: matrix_vec };
        proof {
            assert(m@ =~~= mat_mul(self@, rhs@));
        }
        Ok(m)
    }

    /// Scalar multiplication, in (scalar, matrix) order: consumes the
    /// matrix; always defined; entry (i, j) of the result is `scalar` times
    /// entry (i, j) of `matrix`, so the shape is kept.
    #[verifier::loop_isolation(false)]
    pub fn scale(scalar: i64, matrix: Matrix) -> (r: Matrix)
        requires
            scale_fits(scalar as int, matrix@),
        ensures
            rect(matrix@),
            r@ == mat_scale(scalar as int, matrix@),
            r@.len() == matrix@.len(),
            forall|i: int| 0 <= i < r@.len() ==> (#[trigger] r@[i].len()) == matrix@[i].len(),
            forall|i: int, j: int|
                0 <= i < r@.len() && 0 <= j < r@[i].len()
                    ==> (#[trigger] r@[i][j]) == scalar * matrix@[i][j],
    {
        proof {
            use_type_invariant(&matrix);
        }
        let row_count = matrix.meta.row_count;
        let column_count = matrix.meta.column_count;
        let mut matrix_vec: Vec<Row> = Vec::new();
        let mut row_index: usize = 0;
        while row_index < row_count
            invariant
                row_index <= row_count,
                matrix_vec@.len() == row_index,
                forall|i: int|
                    0 <= i < row_index ==> (#[trigger] matrix_vec@[i]@.len()) == column_count,
                forall|i: int, j: int|
                    0 <= i < row_index && 0 <= j < column_count
                        ==> (#[trigger] matrix_vec@[i]@[j]) as int == scalar * matrix@[i][j],
            decreases row_count - row_index,
        {
            let mut matrix_column_vec: Row = Vec::new();
            let mut column_index: usize = 0;
            while column_index < column_count
                invariant
                    row_index < row_count,
                    column_index <= column_count,
                    matrix_column_vec@.len() == column_index,
                    forall|j: int|
                        0 <= j < column_index
                            ==> (#[trigger] matrix_column_vec@[j]) as int
                                == scalar * matrix@[row_index as int][j],
                decreases column_count - column_index,
            {
                let value: i64 = matrix.data[row_index][column_index];
                proof {
                    assert(in_i64(scalar * matrix@[row_index as int][column_index as int]));
                }
                let entry: i64 = scalar * value;
                matrix_column_vec.push(entry);
                column_index += 1;
            }
            matrix_vec.push(matrix_column_vec);
            row_index += 1;
        }
        let r = Matrix { meta: MatrixMeta { row_count, column_count }, data: matrix_vec };
        proof {
            assert(r@ =~~= mat_scale(scalar as int, matrix@));
        }
        r
    }

    /// Number of rows: the length of the grid.
    pub fn row_count(&self) -> (r: usize)
        ensures
            rect(self@),
            r == self@.len(),
    {
        proof {
            use_type_invariant(self);
        }
        self.meta.row_count
    }

    /// Number of columns: the length of row 0.
    pub fn column_count(&self) -> (r: usize)
        ensures
            rect(self@),
            r == self@[0].len(),
    {
        proof {
            use_type_invariant(self);
        }
        self.meta.column_count
    }
}

/// Subtraction is not commutative: whenever two rectangular grids share a
/// shape and differ anywhere, subtracting them in the two orders gives
/// different grids.
pub proof fn lemma_subtract_not_commutative(a: Seq<Seq<int>>, b: Seq<Seq<int>>)
    requires
        rect(a),
        rect(b),
        same_shape(a, b),
        a != b,
    ensures
        mat_sub(a, b) != mat_sub(b, a),
{
    assert_by_contradiction!(mat_sub(a, b) != mat_sub(b, a), {
        assert forall|i: int| 0 <= i < a.len() implies a[i] =~= b[i] by {
            assert(a[i].len() == a[0].len());
            assert(b[i].len() == b[0].len());
            assert forall|j: int| 0 <= j < a[i].len() implies a[i][j] == b[i][j] by {
                assert(mat_sub(a, b)[i][j] == mat_sub(b, a)[i][j]);
            }
        }
        assert(a =~~= b);
    });
}

/// Scalar multiplication distributes over addition: scaling the sum of two
/// same-shape rectangular grids equals summing the two scaled grids. Over
/// integer entries the two sides agree exactly.
pub proof fn lemma_scale_distributes_over_add(scalar: int, a: Seq<Seq<int>>, b: Seq<Seq<int>>)
    requires
        rect(a),
        rect(b),
        same_shape(a, b),
    ensures
        mat_scale(scalar, mat_add(a, b)) == mat_add(mat_scale(scalar, a), mat_scale(scalar, b)),
{
    let scaled_sum = mat_scale(scalar, mat_add(a, b));
    let sum_of_scaled = mat_add(mat_scale(scalar, a), mat_scale(scalar, b));
    assert forall|i: int| 0 <= i < scaled_sum.len() implies scaled_sum[i] =~= sum_of_scaled[i] by {
        assert forall|j: int| 0 <= j < scaled_sum[i].len() implies
            scaled_sum[i][j] == sum_of_scaled[i][j] by {
            assert(scalar * (a[i][j] + b[i][j]) == scalar * a[i][j] + scalar * b[i][j])
                by (nonlinear_arith);
        }
    }
    assert(scaled_sum =~~= sum_of_scaled);
}

impl PartialEq for Matrix {
    /// Structural comparison, exactly as `equals`.
    fn eq(&self, other: &Matrix) -> (r: bool) {
        self.equals(other)
    }
}

impl vstd::std_specs::cmp::PartialEqSpecImpl for Matrix {
    open spec fn obeys_eq_spec() -> bool {
        true
    }

    open spec fn eq_spec(&self, other: &Matrix) -> bool {
        self@ == other@
    }
}

/// Checks a proposed grid shape, given the length of each row in order.
/// Succeeds exactly when at least one row was supplied and every row length
/// equals the first; returns the derived (row count, column count) pair.
pub fn validate_row_lengths(lengths: &Vec<usize>) -> (r: Result<(usize, usize), MatrixError>)
    ensures
        r is Ok <==> (lengths@.len() > 0
            && forall|i: int| 0 <= i < lengths@.len() ==> (#[trigger] lengths@[i]) == lengths@[0]),
        (r matches Ok(shape) ==> shape.0 == lengths@.len() && shape.1 == lengths@[0]),
        lengths@.len() == 0 <==> r == Err::<(usize, usize), MatrixError>(MatrixError::Empty),
        (r matches Err(MatrixError::Ragged { row_index, found, expected }) ==> {
            &&& 0 < row_index < lengths@.len()
            &&& expected == lengths@[0]
            &&& found == lengths@[row_index as int]
            &&& found != expected
            &&& forall|i: int| 0 <= i < row_index ==> (#[trigger] lengths@[i]) == expected
        }),
        (r is Err ==> r == Err::<(usize, usize), MatrixError>(MatrixError::Empty)
            || r matches Err(MatrixError::Ragged { .. })),
{
    if lengths.len() == 0 {
        return Err(MatrixError::Empty);
    }
    let expected = lengths[0];
    let mut row_index: usize = 0;
    while row_index < lengths.len()
        invariant
            lengths@.len() > 0,
            expected == lengths@[0],
            row_index <= lengths@.len(),
            forall|i: int| 0 <= i < row_index ==> (#[trigger] lengths@[i]) == expected,
        decreases lengths@.len() - row_index,
    {
        let found = lengths[row_index];
        if found != expected {
            return Err(MatrixError::Ragged { row_index, found, expected });
        }
        row_index += 1;
    }
    Ok((lengths.len(), expected))
}

} // verus!
