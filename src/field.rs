//! A grid of unit directions, rebuilt every frame, and the mapping from
//! positions to its cells.
use vstd::prelude::*;

use crate::geom::{Rect, Vec2, COORD_MAX, UNIT};
use crate::particle::POS_MAX;

verus! {

/// Largest number of cells a field may hold (2^24).
pub const CELLS_MAX: u64 = 0x100_0000;

/// `v` has length `UNIT` up to rounding: its squared length is within
/// `2 * UNIT` of `UNIT * UNIT`.
pub open spec fn is_unit(v: Vec2) -> bool {
    UNIT * UNIT - 2 * UNIT <= v.norm_sq() <= UNIT * UNIT + 2 * UNIT
}

/// `a / b` rounded toward zero.
pub open spec fn trunc_div(a: int, b: int) -> int {
    if a >= 0 {
        a / b
    } else {
        -((-a) / b)
    }
}

/// `c` clamped into `[lo, hi]`.
pub open spec fn clamp(c: int, lo: int, hi: int) -> int {
    if c < lo {
        lo
    } else if c > hi {
        hi
    } else {
        c
    }
}

/// The cell coordinate of offset `v` on an axis of `n` cells of size `tile`:
/// the quotient rounded toward zero, then clamped into `[0, n - 1]`.
pub open spec fn cell_coord(v: int, tile: int, n: int) -> int {
    clamp(trunc_div(v, tile), 0, n - 1)
}

/// Why a set of directions was refused.
#[derive(Clone, Copy, Debug, PartialEq, Eq, Structural)]
pub enum FieldError {
    /// The number of directions is not the number of cells.
    WrongCount { expected: usize, given: usize },
    /// The direction at `index` is not of unit length.
    NotUnit { index: usize },
}

/// A grid of `columns` by `rows + 1` directions in row-major order: the row
/// past the nominal last one is sampled too, though lookups clamp rows to
/// `rows - 1`.
#[derive(Debug)]
pub struct FlowField {
    pub columns: usize,
    pub rows: usize,
    pub cells: Vec<Vec2>,
}

/// The number of cells a field of `columns` by `rows` holds.
pub open spec fn cell_count(columns: int, rows: int) -> int {
    columns * (rows + 1)
}

/// Every direction in `dirs` is a unit direction.
pub open spec fn all_unit(dirs: Seq<Vec2>) -> bool {
    forall|i: int| 0 <= i < dirs.len() ==> is_unit(#[trigger] dirs[i])
}

fn is_unit_exec(v: Vec2) -> (r: bool)
    ensures
        r == is_unit(v),
{
    if v.x < -2 * UNIT || v.x > 2 * UNIT || v.y < -2 * UNIT || v.y > 2 * UNIT {
        proof {
            lemma_unit_components(v);
        }
        return false;
    }
    assert(0 <= v.x * v.x <= 4 * UNIT * UNIT && 0 <= v.y * v.y <= 4 * UNIT * UNIT) by (nonlinear_arith)
        requires
            -2 * UNIT <= v.x <= 2 * UNIT,
            -2 * UNIT <= v.y <= 2 * UNIT,
            UNIT == 1024,
    ;
    let n: i64 = v.x * v.x + v.y * v.y;
    UNIT * UNIT - 2 * UNIT <= n && n <= UNIT * UNIT + 2 * UNIT
}

/// The components of a unit direction are at most `UNIT` in magnitude.
pub proof fn lemma_unit_components(v: Vec2)
    ensures
        is_unit(v) ==> -UNIT <= v.x <= UNIT && -UNIT <= v.y <= UNIT,
{
    if is_unit(v) {
        assert(v.x * v.x >= 0 && v.y * v.y >= 0) by (nonlinear_arith);
        assert(-UNIT <= v.x <= UNIT) by (nonlinear_arith)
            requires
                v.x * v.x <= 1024 * 1024 + 2 * 1024,
        ;
        assert(-UNIT <= v.y <= UNIT) by (nonlinear_arith)
            requires
                v.y * v.y <= 1024 * 1024 + 2 * 1024,
        ;
    }
}

/// The cell coordinate of offset `v`; see `cell_coord`.
pub fn cell_coord_exec(v: i64, tile: i64, n: usize) -> (r: usize)
    requires
        tile > 0,
        n >= 1,
    ensures
        r == cell_coord(v as int, tile as int, n as int),
        r < n,
{
    if v < 0 {
        assert(trunc_div(v as int, tile as int) <= 0) by (nonlinear_arith)
            requires
                v < 0,
                tile > 0,
        ;
        0
    } else {
        let q: i64 = v / tile;
        if q as u64 >= n as u64 {
            n - 1
        } else {
            q as usize
        }
    }
}

impl FlowField {
    pub open spec fn cell_count(self) -> int {
        cell_count(self.columns as int, self.rows as int)
    }

    /// Whether the field holds a direction for every cell.
    pub open spec fn is_built(self) -> bool {
        self.cells.len() == self.cell_count()
    }

    /// Dimensions positive and bounded; cells either absent or all present,
    /// every one a unit direction.
    pub open spec fn wf(self) -> bool {
        &&& self.columns >= 1
        &&& self.rows >= 1
        &&& self.cell_count() <= CELLS_MAX
        &&& (self.cells.len() == 0 || self.is_built())
        &&& all_unit(self.cells@)
    }

    /// The flat index of the cell that steers a particle at `pos`: offsets
    /// from the right and top edges of `bounds`, divided by `tile`, rounded
    /// toward zero and clamped into the nominal grid.
    pub open spec fn index_spec(self, pos: Vec2, bounds: Rect, tile: int) -> int {
        let x = cell_coord(bounds.right + pos.x, tile, self.columns as int);
        let y = cell_coord(bounds.top + pos.y, tile, self.rows as int);
        y * self.columns + x
    }

    /// An empty field of `columns` by `rows` cells.
    pub fn new(columns: usize, rows: usize) -> (r: FlowField)
        requires
            columns >= 1,
            rows >= 1,
            cell_count(columns as int, rows as int) <= CELLS_MAX,
        ensures
            r.columns == columns,
            r.rows == rows,
            r.cells@.len() == 0,
            r.wf(),
    {
        FlowField { columns, rows, cells: Vec::new() }
    }

    /// The number of cells, the extra row included.
    pub fn len(&self) -> (r: usize)
        requires
            self.wf(),
        ensures
            r == self.cell_count(),
    {
        proof {
            lemma_count_bounds(self.columns as int, self.rows as int);
        }
        self.columns * (self.rows + 1)
    }

    /// The grid coordinates `(column, row)` of every cell in row-major order:
    /// where the directions handed to `rebuild` are to be sampled.
    pub fn sample_points(&self) -> (r: Vec<(usize, usize)>)
        requires
            self.wf(),
        ensures
            r@.len() == self.cell_count(),
            forall|i: int|
                0 <= i < r@.len() ==> #[trigger] r@[i] == ((i % self.columns as int) as usize, (i
                    / self.columns as int) as usize),
    {
        let count = self.len();
        let mut r: Vec<(usize, usize)> = Vec::new();
        let mut i: usize = 0;
        while i < count
            invariant
                self.wf(),
                count == self.cell_count(),
                i <= count,
                r@.len() == i,
                forall|j: int|
                    0 <= j < i ==> #[trigger] r@[j] == ((j % self.columns as int) as usize, (j
                        / self.columns as int) as usize),
            decreases count - i,
        {
            r.push((i % self.columns, i / self.columns));
            i = i + 1;
        }
        r
    }

    /// Replaces every cell by the given directions, in row-major order. Refused,
    /// with the field unchanged, when their number is not the number of cells
    /// or one of them is not a unit direction.
    pub fn rebuild(&mut self, directions: &Vec<Vec2>) -> (r: Result<(), FieldError>)
        requires
            old(self).wf(),
        ensures
            final(self).wf(),
            all_unit(final(self).cells@),
            r is Ok <==> directions@.len() == old(self).cell_count() && all_unit(directions@),
            r is Ok ==> final(self).cells@ == directions@ && final(self).columns == old(
                self,
            ).columns && final(self).rows == old(self).rows,
            r is Err ==> *final(self) == *old(self),
            r matches Err(FieldError::WrongCount { expected, given }) ==> expected
                == old(self).cell_count() && given == directions@.len() && given != expected,
            r matches Err(FieldError::NotUnit { index }) ==> directions@.len()
                == old(self).cell_count() && index < directions@.len() && !is_unit(
                directions@[index as int],
            ) && all_unit(directions@.take(index as int)),
    {
        let count = self.len();
        if directions.len() != count {
            return Err(FieldError::WrongCount { expected: count, given: directions.len() });
        }
        let mut i: usize = 0;
        while i < count
            invariant
                *self == *old(self),
                old(self).wf(),
                count == old(self).cell_count(),
                i <= count,
                directions@.len() == count,
                forall|j: int| 0 <= j < i ==> is_unit(#[trigger] directions@[j]),
            decreases count - i,
        {
            if !is_unit_exec(directions[i]) {
                assert forall|j: int| 0 <= j < i implies is_unit(
                    #[trigger] directions@.take(i as int)[j],
                ) by {
                    assert(directions@.take(i as int)[j] == directions@[j]);
                }
                return Err(FieldError::NotUnit { index: i });
            }
            i = i + 1;
        }
        self.cells.clear();
        let mut k: usize = 0;
        while k < count
            invariant
                self.columns == old(self).columns,
                self.rows == old(self).rows,
                old(self).wf(),
                count == old(self).cell_count(),
                k <= count,
                directions@.len() == count,
                all_unit(directions@),
                self.cells@ == directions@.take(k as int),
            decreases count - k,
        {
            self.cells.push(directions[k]);
            k = k + 1;
            assert(self.cells@ =~= directions@.take(k as int));
        }
        assert(directions@.take(count as int) =~= directions@);
        Ok(())
    }

    /// The flat index of the cell that steers a particle at `pos`; always a
    /// cell of the nominal grid.
    pub fn index_of(&self, pos: Vec2, bounds: &Rect, tile: i64) -> (r: usize)
        requires
            self.wf(),
            bounds.wf(),
            tile > 0,
            -POS_MAX <= pos.x <= POS_MAX,
            -POS_MAX <= pos.y <= POS_MAX,
        ensures
            r == self.index_spec(pos, *bounds, tile as int),
            r < self.columns * self.rows,
            r < self.cell_count(),
    {
        let x = cell_coord_exec(bounds.right + pos.x, tile, self.columns);
        let y = cell_coord_exec(bounds.top + pos.y, tile, self.rows);
        proof {
            lemma_index_in_grid(x as int, y as int, self.columns as int, self.rows as int);
            lemma_count_bounds(self.columns as int, self.rows as int);
        }
        y * self.columns + x
    }

    /// The direction stored at `index`.
    pub fn direction(&self, index: usize) -> (r: Vec2)
        requires
            self.wf(),
            index < self.cells@.len(),
        ensures
            r == self.cells@[index as int],
            is_unit(r),
    {
        self.cells[index]
    }
}

/// Whatever the position, the cell that steers it lies in the nominal grid.
pub proof fn lemma_index_in_bounds(field: FlowField, pos: Vec2, bounds: Rect, tile: int)
    requires
        field.columns >= 1,
        field.rows >= 1,
        tile > 0,
    ensures
        0 <= field.index_spec(pos, bounds, tile) < field.columns * field.rows,
{
    let x = cell_coord(bounds.right + pos.x, tile, field.columns as int);
    let y = cell_coord(bounds.top + pos.y, tile, field.rows as int);
    lemma_index_in_grid(x, y, field.columns as int, field.rows as int);
}

proof fn lemma_count_bounds(columns: int, rows: int)
    requires
        columns >= 1,
        rows >= 1,
        cell_count(columns, rows) <= CELLS_MAX,
    ensures
        columns * rows < cell_count(columns, rows),
        columns <= CELLS_MAX,
        rows + 1 <= CELLS_MAX,
{
    assert(columns * rows < columns * (rows + 1)) by (nonlinear_arith)
        requires
            columns >= 1,
    ;
    assert(columns <= columns * (rows + 1) && rows + 1 <= columns * (rows + 1)) by (nonlinear_arith)
        requires
            columns >= 1,
            rows >= 1,
    ;
}

/// A row-major index of a cell inside a `columns` by `rows` grid is below
/// `columns * rows`.
pub proof fn lemma_index_in_grid(x: int, y: int, columns: int, rows: int)
    requires
        0 <= x < columns,
        0 <= y < rows,
    ensures
        0 <= y * columns + x < columns * rows,
{
    assert(0 <= y * columns + x < columns * rows) by (nonlinear_arith)
        requires
            0 <= x < columns,
            0 <= y < rows,
    ;
}

} // verus!
