//! 2D representation of the game world's map.

use crate::point::{wrap_spec, Point};
use crate::tile::Tile;
use vstd::arithmetic::div_mod::{lemma_mod_bound, lemma_multiply_divide_lt};
use vstd::arithmetic::mul::lemma_mul_is_commutative;
use vstd::prelude::*;

verus! {

/// 2D collection of `Tile` with fixed dimensions and visibility.
///
/// Visibility is represented by wrapping each `Tile` in an `Option`: `None`
/// is a cell that is not currently observed, `Some(..)` the last content
/// reported for it.  Cells are stored row-major; every access wraps its
/// coordinate first, so any `Point` indexes the grid.
#[derive(Debug)]
pub struct Grid {
    rows: i32,
    cols: i32,
    tiles: Vec<Option<Tile>>,
}

/// The row-major storage index a point denotes once wrapped.
pub open spec fn cell_index(p: Point, rows: int, cols: int) -> int {
    wrap_spec(p.row as int, rows) * cols + wrap_spec(p.col as int, cols)
}

/// A cleared grid: every cell forgets its content except permanent water.
pub open spec fn clear_spec(m: Seq<Option<Tile>>) -> Seq<Option<Tile>> {
    Seq::new(m.len(), |i: int| if m[i] == Some(Tile::Water) {
        m[i]
    } else {
        None
    })
}

/// Law: a clear keeps every water cell and forgets every other cell, and
/// clearing again changes nothing more, so any number of clears acts as one.
pub proof fn lemma_clear_except_water(m: Seq<Option<Tile>>)
    ensures
        forall|i: int| 0 <= i < m.len() && m[i] == Some(Tile::Water) ==> clear_spec(m)[i] == m[i],
        forall|i: int| 0 <= i < m.len() && m[i] != Some(Tile::Water) ==> clear_spec(m)[i] is None,
        clear_spec(clear_spec(m)) == clear_spec(m),
{
    assert(clear_spec(clear_spec(m)) =~= clear_spec(m));
}

proof fn lemma_cell_index_bounds(p: Point, rows: int, cols: int)
    requires
        0 < rows,
        0 < cols,
    ensures
        0 <= cell_index(p, rows, cols) < rows * cols,
{
    crate::point::lemma_wrap_modulo(p.row as int, rows);
    crate::point::lemma_wrap_modulo(p.col as int, cols);
    let r = wrap_spec(p.row as int, rows);
    let c = wrap_spec(p.col as int, cols);
    assert(0 <= r * cols + c < rows * cols) by (nonlinear_arith)
        requires
            0 <= r < rows,
            0 <= c < cols,
    ;
}

impl Grid {
    /// The fixed number of rows.
    pub closed spec fn spec_rows(&self) -> int {
        self.rows as int
    }

    /// The fixed number of columns.
    pub closed spec fn spec_cols(&self) -> int {
        self.cols as int
    }

    /// The stored cells, row-major.
    pub closed spec fn contents(&self) -> Seq<Option<Tile>> {
        self.tiles@
    }

    /// Well-formedness: positive dimensions and exactly `rows * cols` cells.
    pub open spec fn wf(&self) -> bool {
        &&& 0 < self.spec_rows()
        &&& 0 < self.spec_cols()
        &&& self.spec_rows() * self.spec_cols() <= usize::MAX
        &&& self.contents().len() == self.spec_rows() * self.spec_cols()
    }

    /// Create a new grid with fixed dimensions, all cells unobserved.
    pub fn new(rows: i32, cols: i32) -> (g: Grid)
        requires
            0 < rows,
            0 < cols,
            rows * cols <= usize::MAX,
        ensures
            g.wf(),
            g.spec_rows() == rows,
            g.spec_cols() == cols,
            g.contents().len() == rows * cols,
            forall|i: int| 0 <= i < g.contents().len() ==> g.contents()[i] is None,
    {
        let n: usize = (rows as usize) * (cols as usize);
        let mut tiles: Vec<Option<Tile>> = Vec::new();
        let mut i: usize = 0;
        while i < n
            invariant
                i <= n,
                tiles@.len() == i,
                forall|j: int| 0 <= j < i ==> tiles@[j] is None,
            decreases n - i,
        {
            tiles.push(None);
            i = i + 1;
        }
        Grid { rows, cols, tiles }
    }

    /// The fixed number of rows.
    pub fn rows(&self) -> (r: i32)
        ensures
            r as int == self.spec_rows(),
    {
        self.rows
    }

    /// The fixed number of columns.
    pub fn cols(&self) -> (r: i32)
        ensures
            r as int == self.spec_cols(),
    {
        self.cols
    }

    /// Read the cell a point denotes, wrapping the point first.
    pub fn get(&self, p: Point) -> (r: Option<Tile>)
        requires
            self.wf(),
        ensures
            r == self.contents()[cell_index(p, self.spec_rows(), self.spec_cols())],
    {
        proof {
            lemma_cell_index_bounds(p, self.spec_rows(), self.spec_cols());
        }
        let q = p.wrap(self.rows, self.cols);
        let i: usize = (q.row as usize) * (self.cols as usize) + (q.col as usize);
        self.tiles[i]
    }

    /// Overwrite the cell a point denotes, wrapping the point first.
    pub fn set(&mut self, p: Point, t: Option<Tile>)
        requires
            old(self).wf(),
        ensures
            final(self).wf(),
            final(self).spec_rows() == old(self).spec_rows(),
            final(self).spec_cols() == old(self).spec_cols(),
            final(self).contents() == old(self).contents().update(
                cell_index(p, old(self).spec_rows(), old(self).spec_cols()),
                t,
            ),
    {
        proof {
            lemma_cell_index_bounds(p, self.spec_rows(), self.spec_cols());
        }
        let q = p.wrap(self.rows, self.cols);
        let i: usize = (q.row as usize) * (self.cols as usize) + (q.col as usize);
        self.tiles.set(i, t);
    }

    /// Forget every cell whose stored content is not permanent water.
    pub fn clear_except_water(&mut self)
        requires
            old(self).wf(),
        ensures
            final(self).wf(),
            final(self).spec_rows() == old(self).spec_rows(),
            final(self).spec_cols() == old(self).spec_cols(),
            final(self).contents() == clear_spec(old(self).contents()),
    {
        let n: usize = self.tiles.len();
        let mut i: usize = 0;
        while i < n
            invariant
                i <= n,
                n == self.tiles@.len(),
                self.rows == old(self).rows,
                self.cols == old(self).cols,
                self.tiles@.len() == old(self).tiles@.len(),
                forall|j: int| 0 <= j < i ==> self.tiles@[j] == clear_spec(old(self).tiles@)[j],
                forall|j: int| i <= j < n ==> self.tiles@[j] == old(self).tiles@[j],
            decreases n - i,
        {
            match self.tiles[i] {
                Some(Tile::Water) => {},
                _ => {
                    self.tiles.set(i, None);
                },
            }
            i = i + 1;
        }
        assert(self.tiles@ =~= clear_spec(old(self).tiles@));
    }

    /// A cursor over all cells, in row-major order.
    pub fn tiles<'a>(&'a self) -> (it: Tiles<'a>)
        requires
            self.wf(),
        ensures
            it.grid == self,
            it.idx == 0,
    {
        Tiles { grid: self, idx: 0 }
    }

    /// A cursor over all cell positions, in row-major order, for traversals
    /// that rewrite cells through [`Grid::get`] and [`Grid::set`].
    pub fn tiles_mut(&mut self) -> (it: TilesMut)
        requires
            old(self).wf(),
        ensures
            *final(self) == *old(self),
            it.rows == old(self).spec_rows(),
            it.cols == old(self).spec_cols(),
            it.idx == 0,
    {
        TilesMut { rows: self.rows, cols: self.cols, idx: 0 }
    }
}

/// The point that denotes row-major cell `i` of a grid with `cols` columns.
pub open spec fn point_of_index(i: int, cols: int) -> Point {
    Point { row: (i / cols) as i32, col: (i % cols) as i32 }
}

/// A cursor over all cells of a grid, in row-major order.
pub struct Tiles<'a> {
    /// The grid being traversed.
    pub grid: &'a Grid,
    /// The storage index of the next cell to yield.
    pub idx: usize,
}

impl<'a> Tiles<'a> {
    /// Yield the next cell and the point that denotes it, or `None` when
    /// every cell has been visited.
    pub fn next(&mut self) -> (r: Option<(Point, Option<Tile>)>)
        requires
            old(self).grid.wf(),
        ensures
            final(self).grid == old(self).grid,
            if old(self).idx < old(self).grid.contents().len() {
                final(self).idx == old(self).idx + 1 && r == Some(
                    (
                        point_of_index(old(self).idx as int, old(self).grid.spec_cols()),
                        old(self).grid.contents()[old(self).idx as int],
                    ),
                )
            } else {
                final(self).idx == old(self).idx && r is None
            },
    {
        if self.idx < self.grid.tiles.len() {
            proof {
                lemma_mul_is_commutative(self.grid.spec_rows(), self.grid.spec_cols());
                lemma_multiply_divide_lt(
                    self.idx as int,
                    self.grid.spec_cols(),
                    self.grid.spec_rows(),
                );
                lemma_mod_bound(self.idx as int, self.grid.spec_cols());
            }
            let cols = self.grid.cols as usize;
            let p = Point { row: (self.idx / cols) as i32, col: (self.idx % cols) as i32 };
            let t = self.grid.tiles[self.idx];
            self.idx = self.idx + 1;
            Some((p, t))
        } else {
            None
        }
    }
}

/// A cursor over all cell positions of a grid, in row-major order.
///
/// Verified code cannot hold a mutable borrow inside a struct, so unlike a
/// mutable iterator this cursor yields each position exactly once and leaves
/// the rewriting of cells to [`Grid::get`] and [`Grid::set`] on the grid it
/// was made from.
pub struct TilesMut {
    /// Rows of the grid being traversed.
    pub rows: i32,
    /// Columns of the grid being traversed.
    pub cols: i32,
    /// The storage index of the next position to yield.
    pub idx: usize,
}

impl TilesMut {
    /// Yield the next cell position, or `None` when every position has been
    /// visited.
    pub fn next(&mut self) -> (r: Option<Point>)
        requires
            0 < old(self).rows,
            0 < old(self).cols,
            old(self).rows * old(self).cols <= usize::MAX,
        ensures
            final(self).rows == old(self).rows,
            final(self).cols == old(self).cols,
            if old(self).idx < old(self).rows * old(self).cols {
                final(self).idx == old(self).idx + 1 && r == Some(
                    point_of_index(old(self).idx as int, old(self).cols as int),
                )
            } else {
                final(self).idx == old(self).idx && r is None
            },
    {
        let n: usize = (self.rows as usize) * (self.cols as usize);
        if self.idx < n {
            proof {
                lemma_mul_is_commutative(self.rows as int, self.cols as int);
                lemma_multiply_divide_lt(self.idx as int, self.cols as int, self.rows as int);
                lemma_mod_bound(self.idx as int, self.cols as int);
            }
            let cols = self.cols as usize;
            let p = Point { row: (self.idx / cols) as i32, col: (self.idx % cols) as i32 };
            self.idx = self.idx + 1;
            Some(p)
        } else {
            None
        }
    }
}

} // verus!
