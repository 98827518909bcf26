//! Toroidal 2D positions.

use vstd::arithmetic::div_mod::{lemma_mod_add_multiples_vanish, lemma_mod_bound};
use vstd::prelude::*;

verus! {

/// A position on the toroidal grid.
///
/// Row and column are free integers; they are normalized into
/// `[0, rows) x [0, cols)` by [`Point::wrap`] at the point of grid indexing,
/// never eagerly.
#[derive(Clone, Copy, Debug, Hash, PartialEq, Eq, Structural)]
pub struct Point {
    pub row: i32,
    pub col: i32,
}

/// The representative of `n` modulo `m` in `[0, m)`: a true (Euclidean)
/// modulo, so `wrap_spec(-1, 5) == 4`.
pub open spec fn wrap_spec(n: int, m: int) -> int {
    n % m
}

/// Law: for every integer `n` and positive modulus `m`, the wrapped value
/// lies in `[0, m)` and is invariant under shifting `n` by `m`.
pub proof fn lemma_wrap_modulo(n: int, m: int)
    requires
        m > 0,
    ensures
        0 <= wrap_spec(n, m) < m,
        wrap_spec(n, m) == wrap_spec(n + m, m),
{
    lemma_mod_bound(n, m);
    lemma_mod_add_multiples_vanish(n, m);
}

/// Normalize `n` into `[0, m)` with a true modulo.
pub fn wrap(n: i32, m: i32) -> (r: i32)
    requires
        m > 0,
    ensures
        r == wrap_spec(n as int, m as int),
{
    proof {
        lemma_mod_bound(n as int, m as int);
    }
    match n.checked_rem_euclid(m) {
        Some(r) => r,
        None => 0,
    }
}

/// Normalize `a + b` into `[0, m)`, free of intermediate overflow.
pub fn wrap_sum(a: i32, b: i32, m: i32) -> (r: i32)
    requires
        m > 0,
    ensures
        r == wrap_spec(a + b, m as int),
{
    let s: i64 = a as i64 + b as i64;
    proof {
        lemma_mod_bound(s as int, m as int);
    }
    match s.checked_rem_euclid(m as i64) {
        Some(r) => r as i32,
        None => 0,
    }
}

impl Point {
    /// Normalize both components into `[0, rows) x [0, cols)`.
    pub fn wrap(&self, rows: i32, cols: i32) -> (r: Point)
        requires
            rows > 0,
            cols > 0,
        ensures
            r.row == wrap_spec(self.row as int, rows as int),
            r.col == wrap_spec(self.col as int, cols as int),
    {
        Point { row: wrap(self.row, rows), col: wrap(self.col, cols) }
    }

    /// Component-wise sum.  No wrapping is applied here; wrapping happens
    /// at the point of grid indexing.
    pub fn add(self, rhs: Point) -> (r: Point)
        requires
            i32::MIN <= self.row + rhs.row <= i32::MAX,
            i32::MIN <= self.col + rhs.col <= i32::MAX,
        ensures
            r.row == self.row + rhs.row,
            r.col == self.col + rhs.col,
    {
        Point { row: self.row + rhs.row, col: self.col + rhs.col }
    }
}

} // verus!
