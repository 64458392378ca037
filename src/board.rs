//! Coordinates, directions and movement on a toroidal grid.

use vstd::arithmetic::div_mod::{lemma_fundamental_div_mod, lemma_fundamental_div_mod_converse};
use vstd::prelude::*;

verus! {

/// A cell of the board: column `x`, row `y` (row 0 is the top row).
#[derive(Clone, Copy, Debug, PartialEq, Eq, Structural)]
pub struct Pos {
    pub x: u32,
    pub y: u32,
}

/// The direction in which the snake's head moves on the next tick.
#[derive(Clone, Copy, Debug, PartialEq, Eq, Structural)]
pub enum Direction {
    Up,
    Down,
    Left,
    Right,
}

/// `v` brought into `[0, n)` modulo `n`.
pub open spec fn wrap(v: int, n: int) -> int {
    ((v % n) + n) % n
}

/// Whether `p` lies on a board of `w` columns and `h` rows.
pub open spec fn on_board(p: Pos, w: int, h: int) -> bool {
    p.x < w && p.y < h
}

/// The cell one step from `p` in direction `d`, each axis wrapped on its own.
pub open spec fn next_pos(p: Pos, d: Direction, w: int, h: int) -> Pos {
    match d {
        Direction::Up => Pos { x: wrap(p.x as int, w) as u32, y: wrap(p.y - 1, h) as u32 },
        Direction::Down => Pos { x: wrap(p.x as int, w) as u32, y: wrap(p.y + 1, h) as u32 },
        Direction::Left => Pos { x: wrap(p.x - 1, w) as u32, y: wrap(p.y as int, h) as u32 },
        Direction::Right => Pos { x: wrap(p.x + 1, w) as u32, y: wrap(p.y as int, h) as u32 },
    }
}

/// Wrapping a value that is at most one cell off the board.
pub proof fn lemma_wrap_near(v: int, n: int)
    requires
        0 <= v < n,
    ensures
        wrap(v, n) == v,
        wrap(v - 1, n) == if v == 0 { n - 1 } else { v - 1 },
        wrap(v + 1, n) == if v + 1 == n { 0 } else { v + 1 },
{
    lemma_fundamental_div_mod_converse(v, n, 0, v);
    lemma_fundamental_div_mod_converse(v + n, n, 1, v);
    if v == 0 {
        lemma_fundamental_div_mod_converse(-1, n, -1, n - 1);
        lemma_fundamental_div_mod_converse(2 * n - 1, n, 1, n - 1);
    } else {
        lemma_fundamental_div_mod_converse(v - 1, n, 0, v - 1);
        lemma_fundamental_div_mod_converse(v - 1 + n, n, 1, v - 1);
    }
    if v + 1 == n {
        lemma_fundamental_div_mod_converse(n, n, 1, 0);
        lemma_fundamental_div_mod_converse(0 + n, n, 1, 0);
        lemma_fundamental_div_mod_converse(0, n, 0, 0);
    } else {
        lemma_fundamental_div_mod_converse(v + 1, n, 0, v + 1);
        lemma_fundamental_div_mod_converse(v + 1 + n, n, 1, v + 1);
    }
}

/// Moving off one edge of the board re-enters at the opposite edge, and a
/// move never leaves the board.
pub proof fn lemma_wrap_edges(w: u32, h: u32, x: u32, y: u32)
    requires
        0 < w,
        0 < h,
        x < w,
        y < h,
    ensures
        next_pos(Pos { x: (w - 1) as u32, y }, Direction::Right, w as int, h as int) == (Pos { x: 0, y }),
        next_pos(Pos { x: 0, y }, Direction::Left, w as int, h as int) == (Pos { x: (w - 1) as u32, y }),
        next_pos(Pos { x, y: 0 }, Direction::Up, w as int, h as int) == (Pos { x, y: (h - 1) as u32 }),
        next_pos(Pos { x, y: (h - 1) as u32 }, Direction::Down, w as int, h as int) == (Pos { x, y: 0 }),
        forall|d: Direction| on_board(#[trigger] next_pos(Pos { x, y }, d, w as int, h as int), w as int, h as int),
{
    lemma_wrap_near(w - 1, w as int);
    lemma_wrap_near(0, w as int);
    lemma_wrap_near(0, h as int);
    lemma_wrap_near(h - 1, h as int);
    lemma_wrap_near(x as int, w as int);
    lemma_wrap_near(y as int, h as int);
}

/// The cell with row-major index `i` on a board `w` columns wide.
pub open spec fn cell_at(i: int, w: int) -> Pos {
    Pos { x: (i % w) as u32, y: (i / w) as u32 }
}

/// Every cell of a `w` by `h` board, in row-major order.
pub open spec fn all_cells(w: int, h: int) -> Seq<Pos> {
    Seq::new((w * h) as nat, |i: int| cell_at(i, w))
}

/// A row-major index below `w * h` names a cell on the board.
pub proof fn lemma_cell_at_on_board(i: int, w: int, h: int)
    requires
        0 < w,
        0 <= i < w * h,
    ensures
        on_board(cell_at(i, w), w, h),
        i % w < w,
        0 <= i / w < h,
{
    lemma_fundamental_div_mod(i, w);
    assert(0 <= i % w < w) by (nonlinear_arith)
        requires 0 < w;
    assert(0 <= i / w) by (nonlinear_arith)
        requires 0 < w, 0 <= i;
    assert(i / w < h) by (nonlinear_arith)
        requires 0 < w, 0 <= i, i < w * h, i == w * (i / w) + (i % w), 0 <= i % w;
}

/// The number of cells of a board fits in a `u64`.
pub proof fn lemma_board_size_fits(w: u32, h: u32)
    ensures
        w * h <= u64::MAX,
{
    assert(w as int * h as int <= u32::MAX as int * u32::MAX as int) by (nonlinear_arith)
        requires w <= u32::MAX, h <= u32::MAX;
}

/// Distinct row-major indices name distinct cells.
proof fn lemma_all_cells_unique(w: int, h: int)
    requires
        0 < w <= u32::MAX,
        0 < h <= u32::MAX,
    ensures
        all_cells(w, h).no_duplicates(),
{
    let s = all_cells(w, h);
    assert forall|i: int, j: int| 0 <= i < s.len() && 0 <= j < s.len() && i != j implies s[i] != s[j] by {
        lemma_cell_at_on_board(i, w, h);
        lemma_cell_at_on_board(j, w, h);
        lemma_fundamental_div_mod(i, w);
        lemma_fundamental_div_mod(j, w);
    }
}

/// A snake without repeated cells that is shorter than the board leaves a
/// free cell.
pub proof fn lemma_free_cell_exists(body: Seq<Pos>, w: int, h: int)
    requires
        0 < w <= u32::MAX,
        0 < h <= u32::MAX,
        body.no_duplicates(),
        body.len() < w * h,
    ensures
        exists|i: int| 0 <= i < w * h && !body.contains(#[trigger] cell_at(i, w)),
{
    if forall|i: int| 0 <= i < w * h ==> body.contains(#[trigger] cell_at(i, w)) {
        let cells = all_cells(w, h);
        lemma_all_cells_unique(w, h);
        cells.unique_seq_to_set();
        body.unique_seq_to_set();
        assert(cells.to_set().subset_of(body.to_set())) by {
            assert forall|p: Pos| cells.to_set().contains(p) implies body.to_set().contains(p) by {
                let k = choose|k: int| 0 <= k < cells.len() && cells[k] == p;
                assert(body.contains(cell_at(k, w)));
            }
        }
        vstd::set_lib::lemma_len_subset(cells.to_set(), body.to_set());
        assert(false);
    }
}

/// The cell one step from `p` in direction `d`.
pub fn step(p: Pos, d: Direction, width: u32, height: u32) -> (r: Pos)
    requires
        on_board(p, width as int, height as int),
    ensures
        r == next_pos(p, d, width as int, height as int),
        on_board(r, width as int, height as int),
{
    proof {
        lemma_wrap_near(p.x as int, width as int);
        lemma_wrap_near(p.y as int, height as int);
    }
    match d {
        Direction::Up => Pos { x: p.x, y: if p.y == 0 { height - 1 } else { p.y - 1 } },
        Direction::Down => Pos { x: p.x, y: if p.y + 1 == height { 0 } else { p.y + 1 } },
        Direction::Left => Pos { x: if p.x == 0 { width - 1 } else { p.x - 1 }, y: p.y },
        Direction::Right => Pos { x: if p.x + 1 == width { 0 } else { p.x + 1 }, y: p.y },
    }
}

} // verus!
