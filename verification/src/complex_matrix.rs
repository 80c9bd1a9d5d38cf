use vstd::prelude::*;
use core::fmt::Display;
use vstd::arithmetic::div_mod::lemma_fundamental_div_mod_converse;
use crate::complex_number::{totals_to, totals_to_push, Complex};
use crate::complex_vector::{
    add_each,
    list_text,
    list_text_of,
    dot_product_of,
    each_adds_to,
    each_may_add,
    each_may_negate,
    each_negates_to,
    may_dot,
    negate_each,
    product_terms,
    ComplexVector,
};
use crate::error::AlgebraError;
use crate::scalar::Scalar;
use crate::text::{bracket, bracketed, join, joined, row_separator, texts};

verus! {

/// A complex matrix: `rows × columns` cells, kept row after row.
#[derive(Debug, PartialEq)]
pub struct ComplexMatrix<R> {
    elements: Vec<Complex<R>>,
    rows: usize,
    columns: usize,
}

/// What a matrix is: its shape, and its cells in row-major order.
pub struct Grid<R> {
    pub rows: nat,
    pub columns: nat,
    pub cells: Seq<Complex<R>>,
}

impl<R: Scalar> Grid<R> {
    /// There are as many cells as the shape asks for.
    pub open spec fn well_formed(self) -> bool {
        self.cells.len() == self.rows * self.columns
    }

    /// Where the cell at `(row, column)` stands among the cells.
    pub open spec fn offset(self, row: int, column: int) -> int {
        row * self.columns + column
    }

    /// The cell at `(row, column)`.
    pub open spec fn cell(self, row: int, column: int) -> Complex<R> {
        self.cells[self.offset(row, column)]
    }

    /// Row `row`, left to right.
    pub open spec fn row(self, row: int) -> Seq<Complex<R>> {
        Seq::new(self.columns, |h: int| self.cell(row, h))
    }

    /// Column `column`, top to bottom.
    pub open spec fn column(self, column: int) -> Seq<Complex<R>> {
        Seq::new(self.rows, |h: int| self.cell(h, column))
    }
}

/// The matrix of one column whose rows are the coordinates `v`.
pub open spec fn column_grid<R>(v: Seq<Complex<R>>) -> Grid<R> {
    Grid { rows: v.len(), columns: 1, cells: v }
}

/// A cell inside a shape lies inside its row-major storage.
pub proof fn offset_in_range(rows: int, columns: int, row: int, column: int)
    requires
        0 <= row < rows,
        0 <= column < columns,
    ensures
        0 <= row * columns,
        0 <= row * columns + column < rows * columns,
{
    assert(row * columns + column < rows * columns) by (nonlinear_arith)
        requires
            0 <= row < rows,
            0 <= column < columns,
    ;
    assert(0 <= row * columns) by (nonlinear_arith)
        requires
            0 <= row,
            0 <= columns,
    ;
}

/// Each `c * a[i]` may be evaluated.
pub open spec fn each_may_be_scaled<R: Scalar>(c: Complex<R>, a: Seq<Complex<R>>) -> bool {
    forall|i: int| 0 <= i < a.len() ==> c.may_multiply(#[trigger] a[i])
}

/// `r` is a value of `a` scaled by `c` on the left: `r[i]` of `c * a[i]`.
pub open spec fn each_is_scaled_to<R: Scalar>(
    c: Complex<R>,
    a: Seq<Complex<R>>,
    r: Seq<Complex<R>>,
) -> bool {
    &&& r.len() == a.len()
    &&& forall|i: int| 0 <= i < a.len() ==> c.multiplies_to(a[i], #[trigger] r[i])
}

/// Every cell of the product of `a` and `b` may be evaluated: the dot product
/// of each row of `a` with each column of `b`.
pub open spec fn may_multiply<R: Scalar>(a: Grid<R>, b: Grid<R>) -> bool {
    forall|j: int, k: int|
        0 <= j < a.rows && 0 <= k < b.columns ==> may_dot(
            #[trigger] a.row(j),
            #[trigger] b.column(k),
        )
}

/// `r` is a value of the matrix product of `a` and `b`: of shape
/// `a.rows × b.columns`, its cell `(j, k)` a value of the dot product of row
/// `j` of `a` with column `k` of `b`.
pub open spec fn multiplies_to<R: Scalar>(a: Grid<R>, b: Grid<R>, r: Grid<R>) -> bool {
    &&& r.rows == a.rows
    &&& r.columns == b.columns
    &&& r.well_formed()
    &&& forall|j: int, k: int|
        0 <= j < a.rows && 0 <= k < b.columns ==> dot_product_of(
            a.row(j),
            b.column(k),
            #[trigger] r.cell(j, k),
        )
}

impl<R: Scalar> View for ComplexMatrix<R> {
    type V = Grid<R>;

    closed spec fn view(&self) -> Grid<R> {
        Grid { rows: self.rows as nat, columns: self.columns as nat, cells: self.elements@ }
    }
}

impl<R> ComplexMatrix<R> {
    #[verifier::type_invariant]
    spec fn shape_holds(self) -> bool {
        self.elements@.len() == self.rows * self.columns
    }
}

impl<R: Scalar> ComplexMatrix<R> {
    /// The matrix of the given shape over `elements`, taken row after row;
    /// `ShapeMismatch` unless there are exactly `rows * columns` of them.
    pub fn new(elements: Vec<Complex<R>>, rows: usize, columns: usize) -> (r: Result<
        Self,
        AlgebraError,
    >)
        ensures
            match r {
                Ok(m) => elements@.len() == rows * columns && m@ == (Grid {
                    rows: rows as nat,
                    columns: columns as nat,
                    cells: elements@,
                }),
                Err(e) => e == AlgebraError::ShapeMismatch && elements@.len() != rows * columns,
            },
    {
        let given = elements.len();
        match rows.checked_mul(columns) {
            Some(count) => {
                if count == given {
                    Ok(ComplexMatrix { elements, rows, columns })
                } else {
                    Err(AlgebraError::ShapeMismatch)
                }
            },
            None => Err(AlgebraError::ShapeMismatch),
        }
    }

    /// The shape, `(rows, columns)`.
    pub fn dimensions(&self) -> (d: (usize, usize))
        ensures
            d.0 == self@.rows,
            d.1 == self@.columns,
            self@.well_formed(),
    {
        proof {
            use_type_invariant(self);
        }
        (self.rows, self.columns)
    }

    /// The cell at `(row, column)`; `OutOfRange` when either index is not
    /// below its bound.
    pub fn at(&self, row: usize, column: usize) -> (r: Result<Complex<R>, AlgebraError>)
        ensures
            match r {
                Ok(c) => row < self@.rows && column < self@.columns && c == self@.cell(
                    row as int,
                    column as int,
                ),
                Err(e) => e == AlgebraError::OutOfRange && (row >= self@.rows || column
                    >= self@.columns),
            },
    {
        if row >= self.rows || column >= self.columns {
            return Err(AlgebraError::OutOfRange);
        }
        proof {
            use_type_invariant(self);
            offset_in_range(self.rows as int, self.columns as int, row as int, column as int);
            assert(self.elements@.len() == self.elements.len());
        }
        Ok(self.elements[row * self.columns + column])
    }

    /// Writes `value` to the cell at `(row, column)` and leaves the others as
    /// they are; `OutOfRange`, and nothing written, when either index is not
    /// below its bound.
    pub fn set(&mut self, row: usize, column: usize, value: Complex<R>) -> (r: Result<
        (),
        AlgebraError,
    >)
        ensures
            match r {
                Ok(_) => row < old(self)@.rows && column < old(self)@.columns && final(self)@ == (
                Grid {
                    rows: old(self)@.rows,
                    columns: old(self)@.columns,
                    cells: old(self)@.cells.update(
                        old(self)@.offset(row as int, column as int),
                        value,
                    ),
                }),
                Err(e) => e == AlgebraError::OutOfRange && (row >= old(self)@.rows || column >= old(
                    self,
                )@.columns) && final(self)@ == old(self)@,
            },
    {
        if row >= self.rows || column >= self.columns {
            return Err(AlgebraError::OutOfRange);
        }
        proof {
            use_type_invariant(&*self);
            offset_in_range(self.rows as int, self.columns as int, row as int, column as int);
            assert(self.elements@.len() == self.elements.len());
        }
        let at = row * self.columns + column;
        self.elements[at] = value;
        Ok(())
    }

    /// The `n × 1` matrix whose rows are the coordinates of `vector`.
    pub fn from_vector(vector: ComplexVector<R>) -> (r: Self)
        ensures
            r@ == column_grid(vector@),
    {
        let rows = vector.0.len();
        assert(rows * 1 == rows) by (nonlinear_arith);
        ComplexMatrix { elements: vector.0, rows, columns: 1 }
    }

    /// `self + other`, cell by cell; `ShapeMismatch` when the shapes differ.
    pub fn add(self, other: Self) -> (r: Result<Self, AlgebraError>)
        requires
            self@.rows == other@.rows && self@.columns == other@.columns ==> each_may_add(
                self@.cells,
                other@.cells,
            ),
        ensures
            match r {
                Ok(m) => {
                    &&& self@.rows == other@.rows
                    &&& self@.columns == other@.columns
                    &&& m@.rows == self@.rows
                    &&& m@.columns == self@.columns
                    &&& m@.well_formed()
                    &&& each_adds_to(self@.cells, other@.cells, m@.cells)
                },
                Err(e) => e == AlgebraError::ShapeMismatch && !(self@.rows == other@.rows
                    && self@.columns == other@.columns),
            },
    {
        if self.rows != other.rows || self.columns != other.columns {
            return Err(AlgebraError::ShapeMismatch);
        }
        proof {
            use_type_invariant(&self);
            use_type_invariant(&other);
        }
        let elements = add_each(&self.elements, &other.elements);
        Ok(ComplexMatrix { elements, rows: self.rows, columns: self.columns })
    }

    /// `scalar * self`: each cell multiplied by `scalar` on the left.
    pub fn scalar_multiply(self, scalar: Complex<R>) -> (r: Self)
        requires
            each_may_be_scaled(scalar, self@.cells),
        ensures
            r@.rows == self@.rows,
            r@.columns == self@.columns,
            r@.well_formed(),
            each_is_scaled_to(scalar, self@.cells, r@.cells),
    {
        proof {
            use_type_invariant(&self);
        }
        let n = self.elements.len();
        let mut out: Vec<Complex<R>> = Vec::new();
        let mut i: usize = 0;
        while i < n
            invariant
                n == self.elements@.len(),
                i <= n,
                out@.len() == i,
                each_may_be_scaled(scalar, self.elements@),
                forall|k: int|
                    0 <= k < i ==> scalar.multiplies_to(self.elements@[k], #[trigger] out@[k]),
            decreases n - i,
        {
            let x = self.elements[i];
            assert(scalar.may_multiply(self.elements@[i as int]));
            out.push(scalar.multiply(x));
            i += 1;
        }
        ComplexMatrix { elements: out, rows: self.rows, columns: self.columns }
    }

    /// `-self`, the additive inverse: each cell negated.
    pub fn negate(self) -> (r: Self)
        requires
            each_may_negate(self@.cells),
        ensures
            r@.rows == self@.rows,
            r@.columns == self@.columns,
            r@.well_formed(),
            each_negates_to(self@.cells, r@.cells),
    {
        proof {
            use_type_invariant(&self);
        }
        let elements = negate_each(&self.elements);
        ComplexMatrix { elements, rows: self.rows, columns: self.columns }
    }

    /// Cell `(j, k)` of `self * other`: the products of row `j` of `self`
    /// with column `k` of `other`, added up from zero.
    fn product_cell(&self, other: &Self, j: usize, k: usize) -> (r: Complex<R>)
        requires
            self@.columns == other@.rows,
            j < self@.rows,
            k < other@.columns,
            may_dot(self@.row(j as int), other@.column(k as int)),
        ensures
            dot_product_of(self@.row(j as int), other@.column(k as int), r),
    {
        proof {
            use_type_invariant(self);
            use_type_invariant(other);
        }
        let inner = self.columns;
        let ghost a = self@.row(j as int);
        let ghost b = other@.column(k as int);
        let mut sum = Complex::<R>::zero();
        let ghost mut terms: Seq<Complex<R>> = Seq::empty();
        let mut h: usize = 0;
        while h < inner
            invariant
                inner == self.columns,
                inner == other.rows,
                j < self.rows,
                k < other.columns,
                self.elements@.len() == self.rows * self.columns,
                other.elements@.len() == other.rows * other.columns,
                a == self@.row(j as int),
                b == other@.column(k as int),
                h <= inner,
                may_dot(a, b),
                terms.len() == h,
                product_terms(a, b, terms),
                totals_to(terms, sum),
            decreases inner - h,
        {
            proof {
                offset_in_range(self.rows as int, self.columns as int, j as int, h as int);
                offset_in_range(other.rows as int, other.columns as int, h as int, k as int);
                assert(self.elements@.len() == self.elements.len());
                assert(other.elements@.len() == other.elements.len());
            }
            let x = self.elements[j * self.columns + h];
            let y = other.elements[h * other.columns + k];
            assert(x == a[h as int]);
            assert(y == b[h as int]);
            assert(a[h as int].may_multiply(b[h as int]));
            let term = x.multiply(y);
            assert(a[h as int].multiplies_to(b[h as int], term));
            let ghost before = sum;
            sum.add_assign(term);
            proof {
                totals_to_push(terms, before, term, sum);
                terms = terms.push(term);
            }
            h += 1;
        }
        sum
    }

    /// The matrix product `self * other`; `ShapeMismatch` unless `self` has
    /// as many columns as `other` has rows.
    pub fn multiply(self, other: Self) -> (r: Result<Self, AlgebraError>)
        requires
            self@.columns == other@.rows ==> may_multiply(self@, other@),
        ensures
            match r {
                Ok(m) => self@.columns == other@.rows && multiplies_to(self@, other@, m@),
                Err(e) => e == AlgebraError::ShapeMismatch && self@.columns != other@.rows,
            },
    {
        if self.columns != other.rows {
            return Err(AlgebraError::ShapeMismatch);
        }
        let rows = self.rows;
        let columns = other.columns;
        let mut out: Vec<Complex<R>> = Vec::new();
        let mut j: usize = 0;
        while j < rows
            invariant
                rows == self@.rows,
                columns == other@.columns,
                self@.columns == other@.rows,
                may_multiply(self@, other@),
                j <= rows,
                out@.len() == j * columns,
                forall|i: int|
                    0 <= i < out@.len() ==> dot_product_of(
                        self@.row(i / columns as int),
                        other@.column(i % columns as int),
                        #[trigger] out@[i],
                    ),
            decreases rows - j,
        {
            let mut k: usize = 0;
            while k < columns
                invariant
                    rows == self@.rows,
                    columns == other@.columns,
                    self@.columns == other@.rows,
                    may_multiply(self@, other@),
                    j < rows,
                    k <= columns,
                    out@.len() == j * columns + k,
                    forall|i: int|
                        0 <= i < out@.len() ==> dot_product_of(
                            self@.row(i / columns as int),
                            other@.column(i % columns as int),
                            #[trigger] out@[i],
                        ),
                decreases columns - k,
            {
                assert(may_dot(self@.row(j as int), other@.column(k as int)));
                let cell = self.product_cell(&other, j, k);
                proof {
                    lemma_fundamental_div_mod_converse(
                        j * columns + k,
                        columns as int,
                        j as int,
                        k as int,
                    );
                }
                out.push(cell);
                k += 1;
            }
            assert((j + 1) * columns == j * columns + columns) by (nonlinear_arith);
            j += 1;
        }
        let product = ComplexMatrix { elements: out, rows, columns };
        proof {
            assert forall|j: int, k: int|
                0 <= j < self@.rows && 0 <= k < other@.columns implies dot_product_of(
                self@.row(j),
                other@.column(k),
                #[trigger] product@.cell(j, k),
            ) by {
                offset_in_range(rows as int, columns as int, j, k);
                lemma_fundamental_div_mod_converse(j * columns + k, columns as int, j, k);
            }
        }
        Ok(product)
    }
}

/// The product of a matrix with a vector, `matrix * vector`: the vector is
/// taken as a matrix of one column, multiplied as matrices are, and the one
/// column of the product is handed back as a vector. `ShapeMismatch` unless
/// `matrix` has as many columns as `vector` has coordinates.
///
/// So the result is the one column of the matrix product, and at the same
/// time coordinate `j` of it is a value of the dot product of row `j` of
/// `matrix` with `vector`: the two definitions of the product agree.
pub fn product_matrix_vector<R: Scalar>(matrix: ComplexMatrix<R>, vector: ComplexVector<R>) -> (r:
    Result<ComplexVector<R>, AlgebraError>)
    requires
        matrix@.columns == vector@.len() ==> forall|j: int|
            0 <= j < matrix@.rows ==> may_dot(#[trigger] matrix@.row(j), vector@),
    ensures
        match r {
            Ok(v) => {
                &&& matrix@.columns == vector@.len()
                &&& v@.len() == matrix@.rows
                &&& multiplies_to(matrix@, column_grid(vector@), column_grid(v@))
                &&& forall|j: int|
                    0 <= j < matrix@.rows ==> dot_product_of(
                        matrix@.row(j),
                        vector@,
                        #[trigger] v@[j],
                    )
            },
            Err(e) => e == AlgebraError::ShapeMismatch && matrix@.columns != vector@.len(),
        },
{
    let ghost coordinates = vector@;
    let ghost grid = matrix@;
    let column = ComplexMatrix::from_vector(vector);
    proof {
        assert(column@.column(0) =~= coordinates);
        if matrix@.columns == coordinates.len() {
            assert forall|j: int, k: int|
                0 <= j < matrix@.rows && 0 <= k < column@.columns implies may_dot(
                #[trigger] matrix@.row(j),
                #[trigger] column@.column(k),
            ) by {
                assert(k == 0);
            }
        }
    }
    match matrix.multiply(column) {
        Ok(product) => {
            proof {
                assert forall|j: int| 0 <= j < grid.rows implies dot_product_of(
                    grid.row(j),
                    coordinates,
                    #[trigger] product.elements@[j],
                ) by {
                    assert(product@.cell(j, 0) == product.elements@[j]);
                }
                assert(product@ == column_grid(product.elements@));
            }
            Ok(ComplexVector(product.elements))
        },
        Err(e) => Err(e),
    }
}

/// `t` is a text of the matrix `m`: the texts of its rows, each a list text,
/// a comma between neighbours, in square brackets.
pub open spec fn table_text_of<R: Scalar + PartialOrd + Display>(m: Grid<R>, t: Seq<char>) -> bool {
    exists|lines: Seq<Seq<char>>|
        {
            &&& lines.len() == m.rows
            &&& forall|j: int| 0 <= j < m.rows ==> list_text_of(m.row(j), #[trigger] lines[j])
            &&& t == bracketed(#[trigger] joined(lines, row_separator()))
        }
}

impl<R: Scalar + PartialOrd + Display> ComplexMatrix<R> {
    /// The text of `self`, such as `[[1+0i, 2+0i],[3+0i, 4+0i]]`.
    pub fn to_text(&self) -> (t: String)
        ensures
            table_text_of(self@, t@),
    {
        proof {
            use_type_invariant(self);
        }
        let mut lines: Vec<String> = Vec::new();
        let mut j: usize = 0;
        while j < self.rows
            invariant
                self.elements@.len() == self.rows * self.columns,
                j <= self.rows,
                lines@.len() == j,
                forall|i: int| 0 <= i < j ==> list_text_of(self@.row(i), #[trigger] lines@[i]@),
            decreases self.rows - j,
        {
            proof {
                assert(self.elements@.len() == self.elements.len());
                assert(j * self.columns + self.columns <= self.rows * self.columns)
                    by (nonlinear_arith)
                    requires
                        j < self.rows,
                ;
                assert(0 <= j * self.columns) by (nonlinear_arith);
                assert(self.elements@.subrange(
                    j * self.columns,
                    j * self.columns + self.columns,
                ) =~= self@.row(j as int));
            }
            let line = list_text(&self.elements, j * self.columns, self.columns);
            lines.push(line);
            j += 1;
        }
        proof {
            reveal_strlit(",");
            assert(","@ =~= row_separator());
        }
        let inner = join(&lines, ",");
        let out = bracket(inner.as_str());
        proof {
            let shown = texts(lines@);
            assert(shown.len() == self@.rows);
            assert forall|i: int| 0 <= i < self@.rows implies list_text_of(
                self@.row(i),
                #[trigger] shown[i],
            ) by {
                assert(shown[i] == lines@[i]@);
            }
            assert(out@ == bracketed(joined(shown, row_separator())));
        }
        out
    }
}

} // verus!
