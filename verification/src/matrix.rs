//! Dense row-major trace matrices.
//!
//! A trace is a flat vector of cells together with a row width; row `i` is the
//! slice of cells from `i * width` to `(i + 1) * width`.

use vstd::prelude::*;

verus! {

/// A dense row-major matrix of trace cells.
#[derive(Clone, Debug)]
pub struct RowMajorMatrix<T> {
    pub values: Vec<T>,
    pub width: usize,
}

/// Flatten a sequence of rows into row-major cell order.
pub open spec fn flatten_rows<T>(rows: Seq<Seq<T>>) -> Seq<T>
    decreases rows.len(),
{
    if rows.len() == 0 {
        Seq::empty()
    } else {
        rows[0] + flatten_rows(rows.skip(1))
    }
}

/// All rows of the sequence have the given width.
pub open spec fn rows_have_width<T>(rows: Seq<Seq<T>>, width: int) -> bool {
    forall|i: int| 0 <= i < rows.len() ==> (#[trigger] rows[i]).len() == width
}

/// Flattening rows of a fixed width multiplies the length out.
pub proof fn lemma_flatten_len<T>(rows: Seq<Seq<T>>, width: int)
    requires
        rows_have_width(rows, width),
        width >= 0,
    ensures
        flatten_rows(rows).len() == rows.len() * width,
    decreases rows.len(),
{
    if rows.len() == 0 {
    } else {
        assert(rows_have_width(rows.skip(1), width));
        lemma_flatten_len(rows.skip(1), width);
        assert(rows[0].len() == width);
        assert(flatten_rows(rows).len() == width + (rows.len() - 1) * width);
        assert(width + (rows.len() - 1) * width == rows.len() * width) by (nonlinear_arith);
    }
}

/// Row `i` of the flattened sequence is row `i` of the row sequence.
pub proof fn lemma_flatten_row<T>(rows: Seq<Seq<T>>, width: int, i: int)
    requires
        rows_have_width(rows, width),
        width >= 0,
        0 <= i < rows.len(),
    ensures
        flatten_rows(rows).subrange(i * width, (i + 1) * width) == rows[i],
    decreases i,
{
    lemma_flatten_len(rows, width);
    if i == 0 {
        lemma_flatten_len(rows.skip(1), width);
        assert(width <= rows.len() * width) by (nonlinear_arith)
            requires
                width >= 0,
                rows.len() >= 1,
        ;
        assert(flatten_rows(rows).subrange(0, width) =~= rows[0]);
        assert(i * width == 0 && (i + 1) * width == width) by (nonlinear_arith)
            requires
                i == 0,
        ;
    } else {
        let w = width;
        let b = flatten_rows(rows.skip(1));
        lemma_flatten_row(rows.skip(1), w, i - 1);
        lemma_flatten_len(rows.skip(1), w);
        assert((i - 1) * w == i * w - w && i * w == (i + 1) * w - w && w <= i * w && (i + 1) * w
            <= rows.len() * w) by (nonlinear_arith)
            requires
                1 <= i < rows.len(),
                w >= 0,
        ;
        assert(flatten_rows(rows) == rows[0] + b);
        assert(flatten_rows(rows).subrange(i * w, (i + 1) * w) =~= b.subrange(
            (i - 1) * w,
            i * w,
        ));
        assert(rows.skip(1)[i - 1] == rows[i]);
        assert(b.subrange((i - 1) * w, i * w) == rows.skip(1)[i - 1]);
    }
}

impl<T: Copy> RowMajorMatrix<T> {
    /// A matrix is well formed when its width is positive and its cells fill
    /// whole rows.
    pub open spec fn wf(self) -> bool {
        self.width > 0 && self.values@.len() as int % (self.width as int) == 0
    }

    /// The number of rows.
    pub open spec fn spec_height(self) -> int {
        self.values@.len() as int / (self.width as int)
    }

    /// Row `i`, as a sequence of cells.
    pub open spec fn spec_row(self, i: int) -> Seq<T> {
        self.values@.subrange(i * (self.width as int), (i + 1) * (self.width as int))
    }

    /// Build a matrix from flat row-major cells.
    pub fn new(values: Vec<T>, width: usize) -> (r: RowMajorMatrix<T>)
        requires
            width > 0,
            values@.len() as int % (width as int) == 0,
        ensures
            r.values == values,
            r.width == width,
            r.wf(),
    {
        RowMajorMatrix { values, width }
    }

    /// The number of rows.
    pub fn height(&self) -> (r: usize)
        requires
            self.wf(),
        ensures
            r as int == self.spec_height(),
    {
        self.values.len() / self.width
    }

    /// Read one cell.
    pub fn get(&self, row: usize, col: usize) -> (r: T)
        requires
            self.wf(),
            row < self.spec_height(),
            col < self.width,
        ensures
            r == self.spec_row(row as int)[col as int],
    {
        proof {
            vstd::std_specs::vec::axiom_spec_len(&self.values);
            lemma_row_start_bound(
                self.values@.len() as int,
                self.width as int,
                row as int,
                col as int,
            );
            assert(self.spec_row(row as int)[col as int] == self.values@[row as int
                * (self.width as int) + col as int]);
        }
        self.values[row * self.width + col]
    }

    /// Copy row `i` out of the matrix.
    pub fn row(&self, i: usize) -> (r: Vec<T>)
        requires
            self.wf(),
            i < self.spec_height(),
        ensures
            r@ == self.spec_row(i as int),
    {
        let mut out: Vec<T> = Vec::new();
        let mut c: usize = 0;
        proof {
            vstd::std_specs::vec::axiom_spec_len(&self.values);
            lemma_row_start_bound(self.values@.len() as int, self.width as int, i as int, 0);
        }
        while c < self.width
            invariant
                c <= self.width,
                self.wf(),
                i < self.spec_height(),
                out@ =~= self.values@.subrange(
                    i as int * (self.width as int),
                    i as int * (self.width as int) + c as int,
                ),
            decreases self.width - c,
        {
            proof {
                vstd::std_specs::vec::axiom_spec_len(&self.values);
                lemma_row_start_bound(
                    self.values@.len() as int,
                    self.width as int,
                    i as int,
                    c as int,
                );
            }
            out.push(self.values[i * self.width + c]);
            c = c + 1;
        }
        proof {
            assert(out@ =~= self.spec_row(i as int));
        }
        out
    }
}

/// Within a well-formed matrix, cell `(row, col)` lies inside the flat vector.
proof fn lemma_row_start_bound(len: int, width: int, row: int, col: int)
    requires
        width > 0,
        len % width == 0,
        0 <= row < len / width,
        0 <= col < width,
    ensures
        0 <= row * width,
        row * width + col < len,
        (row + 1) * width <= len,
        (row + 1) * width == row * width + width,
    decreases 0int,
{
    assert((row + 1) * width == row * width + width) by (nonlinear_arith);
    assert((row + 1) * width <= len) by (nonlinear_arith)
        requires
            width > 0,
            len % width == 0,
            0 <= row < len / width,
    ;
    assert(row * width + col < len) by (nonlinear_arith)
        requires
            width > 0,
            len % width == 0,
            0 <= row < len / width,
            0 <= col < width,
    ;
    assert(0 <= row * width) by (nonlinear_arith)
        requires
            row >= 0,
            width > 0,
    ;
}

} // verus!
