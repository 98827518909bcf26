//! The entire game world.

use crate::ant::Ant;
use crate::direction::{dir_char, Direction};
use crate::error::Error;
use crate::parse::{
    chars_of, dec_str, int_token_val, parse_i32, parse_i32_ok, parse_u8, parse_u8_ok,
    push_dec_i32, split_spaces, split_spaces_spec, token_eq_str, token_views,
};
use crate::grid::{cell_index, clear_spec, Grid};
use crate::params::Params;
use crate::player::{player_of, Player};
use crate::point::{wrap_spec, wrap_sum, Point};
use crate::tile::Tile;
use vstd::prelude::*;

verus! {

/// Whether `p`, taken as an offset, lies within sight of an ant: at squared
/// distance above zero and at most `vr2`.
pub open spec fn in_view(p: Point, vr2: int) -> bool {
    let d = (p.row as int) * (p.row as int) + (p.col as int) * (p.col as int);
    0 < d <= vr2
}

/// Whether `offs` holds exactly the offsets within sight, each once.
pub open spec fn is_vision_offsets(offs: Seq<Point>, vr2: int) -> bool {
    &&& forall|k: int| 0 <= k < offs.len() ==> in_view(#[trigger] offs[k], vr2)
    &&& forall|p: Point| #[trigger] in_view(p, vr2) ==> offs.contains(p)
    &&& forall|k1: int, k2: int| 0 <= k1 < k2 < offs.len() ==> offs[k1] != offs[k2]
}

/// The largest integer whose square does not exceed `n`.
fn isqrt(n: i32) -> (r: i32)
    requires
        n >= 0,
    ensures
        0 <= r <= 46340,
        r * r <= n,
        (r + 1) * (r + 1) > n,
{
    let mut r: i32 = 0;
    let mut done: bool = false;
    while !done
        invariant
            0 <= r <= 46340,
            r <= n,
            r * r <= n,
            done ==> (r + 1) * (r + 1) > n,
        decreases n - r + (if done {
            0int
        } else {
            1int
        }),
    {
        let r1: i64 = r as i64 + 1;
        proof {
            assert(r1 * r1 <= 46341 * 46341) by (nonlinear_arith)
                requires
                    1 <= r1 <= 46341,
            ;
        }
        let sq: i64 = r1 * r1;
        if sq <= n as i64 {
            proof {
                assert(r1 <= 46340) by (nonlinear_arith)
                    requires
                        1 <= r1,
                        r1 * r1 <= i32::MAX,
                ;
                assert(r1 <= n) by (nonlinear_arith)
                    requires
                        1 <= r1,
                        r1 * r1 <= n as int,
                ;
            }
            r = r + 1;
        } else {
            done = true;
        }
    }
    r
}

/// Calculate a set of "vision offsets": points relative to an ant that it
/// can see.  This is an expensive operation, and so should be performed once
/// and cached (as the results are valid for the entirety of a game).
pub fn vision_offsets(params: &Params) -> (offs: Vec<Point>)
    ensures
        is_vision_offsets(offs@, params.viewradius2 as int),
{
    let vr2 = params.viewradius2;
    let mx: i32 = if vr2 < 0 {
        0
    } else {
        isqrt(vr2)
    };
    let mut offs: Vec<Point> = Vec::new();
    let mut d_row: i32 = -mx;
    while d_row <= mx
        invariant
            0 <= mx <= 46340,
            vr2 < (mx + 1) * (mx + 1),
            -mx <= d_row <= mx + 1,
            forall|k: int| 0 <= k < offs@.len() ==> in_view(#[trigger] offs@[k], vr2 as int),
            forall|p: Point|
                #[trigger] in_view(p, vr2 as int) && -mx <= p.row && p.row < d_row
                    ==> offs@.contains(p),
            forall|k: int|
                0 <= k < offs@.len() ==> (#[trigger] offs@[k]).row < d_row,
            forall|k1: int, k2: int| 0 <= k1 < k2 < offs@.len() ==> offs@[k1] != offs@[k2],
        decreases mx + 1 - d_row,
    {
        let mut d_col: i32 = -mx;
        while d_col <= mx
            invariant
                0 <= mx <= 46340,
                vr2 < (mx + 1) * (mx + 1),
                -mx <= d_row <= mx,
                -mx <= d_col <= mx + 1,
                forall|k: int| 0 <= k < offs@.len() ==> in_view(#[trigger] offs@[k], vr2 as int),
                forall|p: Point|
                    #[trigger] in_view(p, vr2 as int) && ((-mx <= p.row && p.row < d_row) || (
                    p.row == d_row && -mx <= p.col && p.col < d_col)) ==> offs@.contains(p),
                forall|k: int|
                    0 <= k < offs@.len() ==> ((#[trigger] offs@[k]).row < d_row || (offs@[k].row
                        == d_row && offs@[k].col < d_col)),
                forall|k1: int, k2: int| 0 <= k1 < k2 < offs@.len() ==> offs@[k1] != offs@[k2],
            decreases mx + 1 - d_col,
        {
            let ghost prev = offs@;
            proof {
                assert(0 <= (d_row as int) * (d_row as int) <= 46341 * 46341 && 0 <= (
                d_col as int) * (d_col as int) <= 46341 * 46341) by (nonlinear_arith)
                    requires
                        -46341 <= d_row as int <= 46341,
                        -46341 <= d_col as int <= 46341,
                ;
            }
            let d: i64 = (d_row as i64) * (d_row as i64) + (d_col as i64) * (d_col as i64);
            if 0 < d && d <= vr2 as i64 {
                offs.push(Point { row: d_row, col: d_col });
                proof {
                    assert(forall|k: int| 0 <= k < prev.len() ==> offs@[k] == prev[k]);
                    assert(offs@.contains(offs@[prev.len() as int]));
                    assert(forall|p: Point| prev.contains(p) ==> offs@.contains(p));
                }
            }
            proof {
                assert(forall|p: Point|
                    in_view(p, vr2 as int) && p.row == d_row && p.col == d_col ==> p == (Point {
                        row: d_row,
                        col: d_col,
                    }));
            }
            d_col = d_col + 1;
        }
        proof {
            assert forall|p: Point|
                in_view(p, vr2 as int) && p.row == d_row implies -mx <= p.col <= mx by {
                assert((p.row as int) * (p.row as int) >= 0) by (nonlinear_arith);
                assert((p.col as int) * (p.col as int) <= vr2 as int);
                assert(-mx <= p.col <= mx) by (nonlinear_arith)
                    requires
                        (p.col as int) * (p.col as int) < (mx + 1) * (mx + 1),
                        0 <= mx,
                ;
            }
        }
        d_row = d_row + 1;
    }
    proof {
        assert forall|p: Point| #[trigger] in_view(p, vr2 as int) implies offs@.contains(p) by {
            assert((p.col as int) * (p.col as int) >= 0) by (nonlinear_arith);
            assert((p.row as int) * (p.row as int) <= vr2 as int);
            assert(-mx <= p.row <= mx) by (nonlinear_arith)
                requires
                    (p.row as int) * (p.row as int) < (mx + 1) * (mx + 1),
                    0 <= mx,
            ;
        }
    }
    offs
}

/// The storage cell that offset `off` from `center` lands on, wrapped onto
/// the torus.
pub open spec fn target_index(center: Point, off: Point, rows: int, cols: int) -> int {
    wrap_spec(center.row + off.row, rows) * cols + wrap_spec(center.col + off.col, cols)
}

/// Whether storage cell `i` lies within sight of an ant at `center`.
pub open spec fn visible_from(i: int, center: Point, offs: Seq<Point>, rows: int, cols: int) -> bool {
    exists|k: int| 0 <= k < offs.len() && target_index(center, #[trigger] offs[k], rows, cols) == i
}

/// A vision refresh: every unobserved cell within sight of an ant at
/// `center` becomes known bare land; every other cell keeps its content.
pub open spec fn vision_fill(
    m: Seq<Option<Tile>>,
    center: Point,
    offs: Seq<Point>,
    rows: int,
    cols: int,
) -> Seq<Option<Tile>> {
    Seq::new(m.len(), |i: int| if m[i] is None && visible_from(i, center, offs, rows, cols) {
        Some(Tile::Land)
    } else {
        m[i]
    })
}

/// Law: a vision refresh never disturbs a cell that already holds known
/// content.
pub proof fn lemma_vision_fill_non_destructive(
    m: Seq<Option<Tile>>,
    center: Point,
    offs: Seq<Point>,
    rows: int,
    cols: int,
)
    ensures
        forall|i: int|
            0 <= i < m.len() && m[i] is Some ==> vision_fill(m, center, offs, rows, cols)[i]
                == m[i],
{
}

/// Law: a vision refresh is idempotent; applying the same refresh twice
/// leaves exactly the state one application leaves.
pub proof fn lemma_vision_fill_idempotent(
    m: Seq<Option<Tile>>,
    center: Point,
    offs: Seq<Point>,
    rows: int,
    cols: int,
)
    ensures
        vision_fill(vision_fill(m, center, offs, rows, cols), center, offs, rows, cols)
            == vision_fill(m, center, offs, rows, cols),
{
    let once = vision_fill(m, center, offs, rows, cols);
    assert(vision_fill(once, center, offs, rows, cols) =~= once);
}

/// Whether a tile is a living ant of our own: the one sighting that
/// triggers a vision refresh.
pub open spec fn is_own_living_ant(t: Tile) -> bool {
    t == Tile::Ant(Ant { alive: true, owner: Player::Me })
}

/// One diff line's effect on the stored cells: the vision refresh the
/// content may trigger, then the write of the content itself.
pub open spec fn apply_cell(
    m: Seq<Option<Tile>>,
    p: Point,
    t: Tile,
    offs: Seq<Point>,
    rows: int,
    cols: int,
) -> Seq<Option<Tile>> {
    let filled = if is_own_living_ant(t) {
        vision_fill(m, p, offs, rows, cols)
    } else {
        m
    };
    filled.update(cell_index(p, rows, cols), Some(t))
}

/// One parsed diff line.
#[derive(Clone, Copy, Debug, PartialEq, Eq, Structural)]
pub enum Update {
    /// `turn N`: the turn counter becomes `N`.
    Turn(i32),
    /// A reported cell content at a coordinate.
    Cell(Point, Tile),
}

/// What one diff line means, or the error it earns.  The grammar follows
/// the engine's exact line forms: `turn N` on exactly two tokens, `w` and
/// `f` with a coordinate on exactly three, and `h`, `a` and `d` with a
/// coordinate and an owner field on exactly four.
pub open spec fn spec_parse_update(line: Seq<char>) -> Result<Update, Error> {
    let toks = split_spaces_spec(line);
    if toks.len() == 2 {
        if toks[0] == "turn"@ {
            if parse_i32_ok(toks[1]) {
                Ok(Update::Turn(int_token_val(toks[1]) as i32))
            } else {
                Err(Error::ParseInt)
            }
        } else {
            Err(Error::UnexpectedLine)
        }
    } else if toks.len() >= 3 {
        if !parse_i32_ok(toks[1]) || !parse_i32_ok(toks[2]) {
            Err(Error::ParseInt)
        } else {
            let p = (Point {
                row: int_token_val(toks[1]) as i32,
                col: int_token_val(toks[2]) as i32,
            });
            if toks[0] == "w"@ {
                if toks.len() == 3 {
                    Ok(Update::Cell(p, Tile::Water))
                } else {
                    Err(Error::UnknownCommand)
                }
            } else if toks[0] == "f"@ {
                if toks.len() == 3 {
                    Ok(Update::Cell(p, Tile::Food))
                } else {
                    Err(Error::UnknownCommand)
                }
            } else if toks.len() == 4 {
                if !parse_u8_ok(toks[3]) {
                    Err(Error::ParseInt)
                } else {
                    let owner = player_of(int_token_val(toks[3]));
                    if toks[0] == "h"@ {
                        Ok(Update::Cell(p, Tile::Hill(owner)))
                    } else if toks[0] == "a"@ {
                        Ok(Update::Cell(p, Tile::Ant(Ant { alive: true, owner })))
                    } else if toks[0] == "d"@ {
                        Ok(Update::Cell(p, Tile::Ant(Ant { alive: false, owner })))
                    } else {
                        Err(Error::UnknownCommand)
                    }
                }
            } else {
                Err(Error::UnknownCommand)
            }
        }
    } else {
        Err(Error::UnexpectedLine)
    }
}

/// Read one diff line.
pub fn parse_update(line: &str) -> (r: Result<Update, Error>)
    ensures
        r == spec_parse_update(line@),
{
    let chars = chars_of(line);
    let toks = split_spaces(&chars);
    proof {
        assert(token_views(toks@) == split_spaces_spec(line@));
        assert(forall|j: int|
            0 <= j < toks@.len() ==> token_views(toks@)[j] == toks@[j]@);
    }
    if toks.len() == 2 {
        if token_eq_str(&toks[0], "turn") {
            match parse_i32(&toks[1]) {
                Ok(n) => Ok(Update::Turn(n)),
                Err(e) => Err(e),
            }
        } else {
            Err(Error::UnexpectedLine)
        }
    } else if toks.len() >= 3 {
        let row = match parse_i32(&toks[1]) {
            Ok(v) => v,
            Err(e) => {
                return Err(e);
            },
        };
        let col = match parse_i32(&toks[2]) {
            Ok(v) => v,
            Err(e) => {
                return Err(e);
            },
        };
        let p = Point { row, col };
        if token_eq_str(&toks[0], "w") {
            if toks.len() == 3 {
                Ok(Update::Cell(p, Tile::Water))
            } else {
                Err(Error::UnknownCommand)
            }
        } else if token_eq_str(&toks[0], "f") {
            if toks.len() == 3 {
                Ok(Update::Cell(p, Tile::Food))
            } else {
                Err(Error::UnknownCommand)
            }
        } else if toks.len() == 4 {
            let owner_n = match parse_u8(&toks[3]) {
                Ok(v) => v,
                Err(e) => {
                    return Err(e);
                },
            };
            let owner = if owner_n == 0 {
                Player::Me
            } else {
                Player::Other(owner_n)
            };
            if token_eq_str(&toks[0], "h") {
                Ok(Update::Cell(p, Tile::Hill(owner)))
            } else if token_eq_str(&toks[0], "a") {
                Ok(Update::Cell(p, Tile::Ant(Ant { alive: true, owner })))
            } else if token_eq_str(&toks[0], "d") {
                Ok(Update::Cell(p, Tile::Ant(Ant { alive: false, owner })))
            } else {
                Err(Error::UnknownCommand)
            }
        } else {
            Err(Error::UnknownCommand)
        }
    } else {
        Err(Error::UnexpectedLine)
    }
}

/// Law: vision refreshes from two centers commute; cells within sight of
/// either end up known whichever refresh runs first.
pub proof fn lemma_vision_fill_commutes(
    m: Seq<Option<Tile>>,
    c1: Point,
    c2: Point,
    offs: Seq<Point>,
    rows: int,
    cols: int,
)
    ensures
        vision_fill(vision_fill(m, c1, offs, rows, cols), c2, offs, rows, cols) == vision_fill(
            vision_fill(m, c2, offs, rows, cols),
            c1,
            offs,
            rows,
            cols,
        ),
{
    assert(vision_fill(vision_fill(m, c1, offs, rows, cols), c2, offs, rows, cols) =~= vision_fill(
        vision_fill(m, c2, offs, rows, cols),
        c1,
        offs,
        rows,
        cols,
    ));
}



/// Law: applying one diff line's cell write (vision refresh included) twice
/// leaves exactly the state one application leaves.
pub proof fn lemma_apply_cell_idempotent(
    m: Seq<Option<Tile>>,
    p: Point,
    t: Tile,
    offs: Seq<Point>,
    rows: int,
    cols: int,
)
    requires
        0 <= cell_index(p, rows, cols) < m.len(),
    ensures
        apply_cell(apply_cell(m, p, t, offs, rows, cols), p, t, offs, rows, cols) == apply_cell(
            m,
            p,
            t,
            offs,
            rows,
            cols,
        ),
{
    let once = apply_cell(m, p, t, offs, rows, cols);
    let twice = apply_cell(once, p, t, offs, rows, cols);
    let i = cell_index(p, rows, cols);
    if is_own_living_ant(t) {
        let filled = vision_fill(m, p, offs, rows, cols);
        assert(vision_fill(once, p, offs, rows, cols) =~= once);
    }
    assert(twice =~= once);
}

proof fn lemma_vision_fill_step(
    m: Seq<Option<Tile>>,
    center: Point,
    offs: Seq<Point>,
    k: int,
    rows: int,
    cols: int,
)
    requires
        0 <= k < offs.len(),
        0 < rows,
        0 < cols,
        m.len() == rows * cols,
    ensures
        ({
            let prev = vision_fill(m, center, offs.take(k), rows, cols);
            let t = target_index(center, offs[k], rows, cols);
            vision_fill(m, center, offs.take(k + 1), rows, cols) == if prev[t] is None {
                prev.update(t, Some(Tile::Land))
            } else {
                prev
            }
        }),
{
    let prev = vision_fill(m, center, offs.take(k), rows, cols);
    let next = vision_fill(m, center, offs.take(k + 1), rows, cols);
    let t = target_index(center, offs[k], rows, cols);
    crate::point::lemma_wrap_modulo(center.row + offs[k].row, rows);
    crate::point::lemma_wrap_modulo(center.col + offs[k].col, cols);
    let wr = wrap_spec(center.row + offs[k].row, rows);
    let wc = wrap_spec(center.col + offs[k].col, cols);
    assert(0 <= wr * cols + wc < rows * cols) by (nonlinear_arith)
        requires
            0 <= wr < rows,
            0 <= wc < cols,
    ;
    let after = if prev[t] is None {
        prev.update(t, Some(Tile::Land))
    } else {
        prev
    };
    assert(offs.take(k + 1)[k] == offs[k]);
    assert(visible_from(t, center, offs.take(k + 1), rows, cols));
    assert forall|i: int| 0 <= i < m.len() implies next[i] == after[i] by {
        if visible_from(i, center, offs.take(k), rows, cols) {
            let w = choose|j: int|
                0 <= j < offs.take(k).len() && target_index(
                    center,
                    #[trigger] offs.take(k)[j],
                    rows,
                    cols,
                ) == i;
            assert(offs.take(k + 1)[w] == offs.take(k)[w]);
            assert(visible_from(i, center, offs.take(k + 1), rows, cols));
        }
        if i != t && visible_from(i, center, offs.take(k + 1), rows, cols) {
            let w = choose|j: int|
                0 <= j < offs.take(k + 1).len() && target_index(
                    center,
                    #[trigger] offs.take(k + 1)[j],
                    rows,
                    cols,
                ) == i;
            assert(w < k);
            assert(offs.take(k)[w] == offs.take(k + 1)[w]);
            assert(visible_from(i, center, offs.take(k), rows, cols));
        }
    }
    assert(next =~= after);
}

/// The entire game world.
///
/// All game state is tracked in something reachable via the `World`, and it
/// is the only thing passed to the bot during each turn.
#[derive(Debug)]
pub struct World<'a> {
    /// The game parameters, shared and never mutated by the world.
    pub params: &'a Params,
    /// The current turn counter.
    pub turn: i32,
    /// The grid of last known cell contents.
    pub grid: Grid,
    /// The cached vision offsets, computed once at construction.
    pub vision_offsets: Vec<Point>,
}

impl<'a> World<'a> {
    /// The current turn counter.
    pub open spec fn spec_turn(&self) -> int {
        self.turn as int
    }

    /// The game parameters this world was built from.
    pub open spec fn spec_params(&self) -> Params {
        *self.params
    }

    /// The cached vision offsets.
    pub open spec fn offsets(&self) -> Seq<Point> {
        self.vision_offsets@
    }

    /// Well-formedness: the grid has its stated shape.
    pub open spec fn wf(&self) -> bool {
        self.grid.wf()
    }

    /// Construct a new `World` from the given game parameters.
    pub fn new(params: &'a Params) -> (w: World<'a>)
        requires
            0 < params.rows,
            0 < params.cols,
            params.rows * params.cols <= usize::MAX,
        ensures
            w.wf(),
            w.spec_turn() == 0,
            w.spec_params() == *params,
            w.grid.spec_rows() == params.rows,
            w.grid.spec_cols() == params.cols,
            forall|i: int| 0 <= i < w.grid.contents().len() ==> w.grid.contents()[i] is None,
            is_vision_offsets(w.offsets(), params.viewradius2 as int),
    {
        World {
            params,
            turn: 0,
            grid: Grid::new(params.rows, params.cols),
            vision_offsets: vision_offsets(params),
        }
    }

    /// Clear all tiles, except water (which never changes between turns).
    pub fn clear(&mut self)
        requires
            old(self).wf(),
        ensures
            final(self).wf(),
            final(self).spec_turn() == old(self).spec_turn(),
            final(self).spec_params() == old(self).spec_params(),
            final(self).offsets() == old(self).offsets(),
            final(self).grid.spec_rows() == old(self).grid.spec_rows(),
            final(self).grid.spec_cols() == old(self).grid.spec_cols(),
            final(self).grid.contents() == clear_spec(old(self).grid.contents()),
    {
        self.grid.clear_except_water();
    }

    /// Update vision relative to the given `point` using the cached vision
    /// offsets: every unobserved cell in sight becomes known bare land.
    fn update_vision(&mut self, point: Point)
        requires
            old(self).wf(),
        ensures
            final(self).wf(),
            final(self).spec_turn() == old(self).spec_turn(),
            final(self).spec_params() == old(self).spec_params(),
            final(self).offsets() == old(self).offsets(),
            final(self).grid.spec_rows() == old(self).grid.spec_rows(),
            final(self).grid.spec_cols() == old(self).grid.spec_cols(),
            final(self).grid.contents() == vision_fill(
                old(self).grid.contents(),
                point,
                old(self).offsets(),
                old(self).grid.spec_rows(),
                old(self).grid.spec_cols(),
            ),
    {
        let ghost m0 = self.grid.contents();
        let ghost rows = self.grid.spec_rows();
        let ghost cols = self.grid.spec_cols();
        let ghost offs = self.vision_offsets@;
        let rows_e = self.grid.rows();
        let cols_e = self.grid.cols();
        let n: usize = self.vision_offsets.len();
        proof {
            assert(self.grid.contents() =~= vision_fill(m0, point, offs.take(0), rows, cols));
        }
        let mut k: usize = 0;
        while k < n
            invariant
                k <= n,
                n == self.vision_offsets@.len(),
                self.vision_offsets@ == offs,
                self.params == old(self).params,
                self.turn == old(self).turn,
                self.grid.wf(),
                self.grid.spec_rows() == rows,
                self.grid.spec_cols() == cols,
                rows_e as int == rows,
                cols_e as int == cols,
                m0.len() == rows * cols,
                self.grid.contents() == vision_fill(m0, point, offs.take(k as int), rows, cols),
            decreases n - k,
        {
            let off = self.vision_offsets[k];
            let q = Point {
                row: wrap_sum(point.row, off.row, rows_e),
                col: wrap_sum(point.col, off.col, cols_e),
            };
            proof {
                crate::point::lemma_wrap_modulo(point.row + off.row, rows);
                crate::point::lemma_wrap_modulo(point.col + off.col, cols);
                crate::point::lemma_wrap_modulo(q.row as int, rows);
                crate::point::lemma_wrap_modulo(q.col as int, cols);
                vstd::arithmetic::div_mod::lemma_small_mod(q.row as nat, rows as nat);
                vstd::arithmetic::div_mod::lemma_small_mod(q.col as nat, cols as nat);
                assert(cell_index(q, rows, cols) == target_index(point, off, rows, cols));
                lemma_vision_fill_step(m0, point, offs, k as int, rows, cols);
            }
            match self.grid.get(q) {
                None => {
                    self.grid.set(q, Some(Tile::Land));
                },
                Some(_) => {},
            }
            k = k + 1;
        }
        proof {
            assert(offs.take(n as int) =~= offs);
        }
    }

    /// Update world from one line of input.
    ///
    /// Blank and `go` lines are not handled here and should not be passed
    /// in.  Vision is updated automatically as our own living ants are
    /// discovered.  A line that fails to parse leaves the world unchanged.
    pub fn update(&mut self, line: &str) -> (r: Result<(), Error>)
        requires
            old(self).wf(),
        ensures
            final(self).wf(),
            final(self).spec_params() == old(self).spec_params(),
            final(self).offsets() == old(self).offsets(),
            final(self).grid.spec_rows() == old(self).grid.spec_rows(),
            final(self).grid.spec_cols() == old(self).grid.spec_cols(),
            match spec_parse_update(line@) {
                Err(e) => r == Err::<(), Error>(e) && final(self).grid.contents() == old(
                    self,
                ).grid.contents() && final(self).spec_turn() == old(self).spec_turn(),
                Ok(Update::Turn(n)) => r == Ok::<(), Error>(()) && final(self).spec_turn() == n
                    && final(self).grid.contents() == old(self).grid.contents(),
                Ok(Update::Cell(p, t)) => r == Ok::<(), Error>(()) && final(self).spec_turn()
                    == old(self).spec_turn() && final(self).grid.contents() == apply_cell(
                    old(self).grid.contents(),
                    p,
                    t,
                    old(self).offsets(),
                    old(self).grid.spec_rows(),
                    old(self).grid.spec_cols(),
                ),
            },
    {
        let u = match parse_update(line) {
            Ok(u) => u,
            Err(e) => {
                return Err(e);
            },
        };
        match u {
            Update::Turn(n) => {
                self.turn = n;
            },
            Update::Cell(p, t) => {
                let refresh = match t {
                    Tile::Ant(Ant { alive: true, owner: Player::Me }) => true,
                    _ => false,
                };
                if refresh {
                    self.update_vision(p);
                }
                self.grid.set(p, Some(t));
            },
        }
        Ok(())
    }


    /// The command line ordering the ant at `p` to step toward `dir`.
    pub open spec fn order_line(p: Point, dir: Direction) -> Seq<char> {
        seq!['o', ' '] + dec_str(p.row as int) + seq![' '] + dec_str(p.col as int) + seq![' ']
            + seq![dir_char(dir)]
    }

    /// Render the order for an ant at a given point to move in the given
    /// direction.  The world does not verify that a living own ant occupies
    /// the point, nor that the destination is passable; those checks belong
    /// to the decision strategy, and the surrounding program emits the line.
    pub fn order(&self, point: Point, direction: Direction) -> (line: String)
        ensures
            line@ == Self::order_line(point, direction),
    {
        proof {
            reveal_strlit("o ");
            reveal_strlit(" ");
        }
        let mut s = String::from_str("o ");
        proof {
            assert(s@ =~= seq!['o', ' ']);
        }
        push_dec_i32(&mut s, point.row);
        s.append(" ");
        push_dec_i32(&mut s, point.col);
        s.append(" ");
        s.append(direction.letter());
        proof {
            assert(s@ =~= Self::order_line(point, direction));
        }
        s
    }

    /// Check what turn it is.
    pub fn turn(&self) -> (t: i32)
        ensures
            t as int == self.spec_turn(),
    {
        self.turn
    }
}

} // verus!
