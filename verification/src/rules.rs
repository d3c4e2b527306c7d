//! The mathematical model of the grid: cell states, row-major indexing,
//! toroidal wrapping, the neighbor count and the transition rule.

use vstd::prelude::*;

verus! {

/// The state of one cell of the grid.
#[derive(Clone, Copy, Debug, PartialEq, Eq, Structural)]
pub enum Cell {
    Dead,
    Alive,
}

/// The flat, row-major index of the cell at `(r, c)` on a grid `w` cells wide.
pub open spec fn flat_index(w: int, r: int, c: int) -> int {
    r * w + c
}

/// The coordinate one step before `x` on a cycle of length `m`.
pub open spec fn wrap_prev(x: int, m: int) -> int {
    (x + m - 1) % m
}

/// The coordinate one step after `x` on a cycle of length `m`.
pub open spec fn wrap_next(x: int, m: int) -> int {
    (x + 1) % m
}

/// 1 when the cell at `(r, c)` is alive, 0 otherwise, so that a neighbor
/// count is a sum of eight such flags.
pub open spec fn live_flag(cells: Seq<Cell>, w: int, r: int, c: int) -> int {
    if cells[flat_index(w, r, c)] is Alive {
        1
    } else {
        0
    }
}

/// The number of live cells among the eight toroidally-wrapped neighbors of
/// `(r, c)`: the rows `r - 1`, `r`, `r + 1` and the columns `c - 1`, `c`,
/// `c + 1`, each taken modulo the grid size, with the pair `(r, c)` itself
/// left out.
pub open spec fn neighbor_count(cells: Seq<Cell>, w: int, h: int, r: int, c: int) -> int {
    live_flag(cells, w, wrap_prev(r, h), wrap_prev(c, w)) + live_flag(
        cells,
        w,
        wrap_prev(r, h),
        c,
    ) + live_flag(cells, w, wrap_prev(r, h), wrap_next(c, w)) + live_flag(
        cells,
        w,
        r,
        wrap_prev(c, w),
    ) + live_flag(cells, w, r, wrap_next(c, w)) + live_flag(
        cells,
        w,
        wrap_next(r, h),
        wrap_prev(c, w),
    ) + live_flag(cells, w, wrap_next(r, h), c) + live_flag(
        cells,
        w,
        wrap_next(r, h),
        wrap_next(c, w),
    )
}

/// The transition rule: a live cell survives with two or three live
/// neighbors, a dead cell comes alive with exactly three, and every other
/// cell is dead in the next generation.
pub open spec fn transition(cur: Cell, live: int) -> Cell {
    match cur {
        Cell::Alive => if 2 <= live && live <= 3 {
            Cell::Alive
        } else {
            Cell::Dead
        },
        Cell::Dead => if live == 3 {
            Cell::Alive
        } else {
            Cell::Dead
        },
    }
}

/// The whole next generation, each cell computed by the transition rule
/// from the same snapshot `cells`.
pub open spec fn next_generation(cells: Seq<Cell>, w: int, h: int) -> Seq<Cell> {
    Seq::new(cells.len(), |i: int| transition(cells[i], neighbor_count(cells, w, h, i / w, i % w)))
}

/// The generation reached from `cells` after `n` ticks.
pub open spec fn generation_after(cells: Seq<Cell>, w: int, h: int, n: nat) -> Seq<Cell>
    decreases n,
{
    if n == 0 {
        cells
    } else {
        next_generation(generation_after(cells, w, h, (n - 1) as nat), w, h)
    }
}

/// The deterministic seed pattern: the cell at flat index `i` starts alive
/// exactly when `i` is divisible by 2 or by 7.
pub open spec fn seed_cell(i: int) -> Cell {
    if i % 2 == 0 || i % 7 == 0 {
        Cell::Alive
    } else {
        Cell::Dead
    }
}

/// The glyph a cell is rendered as: hollow for a dead cell, filled for a
/// live one.
pub open spec fn glyph(c: Cell) -> char {
    match c {
        Cell::Dead => '\u{25fb}',
        Cell::Alive => '\u{25fc}',
    }
}

/// The position of column `c` of row `r` in the rendered text, where every
/// row takes `w` glyphs and one newline; column `w` is the newline itself.
pub open spec fn line_index(w: int, r: int, c: int) -> int {
    r * (w + 1) + c
}

/// Rendered positions grow with the row-then-column order of the cells.
pub proof fn lemma_line_index_order(w: int, r1: int, c1: int, r2: int, c2: int)
    requires
        0 <= r1,
        0 <= c1 <= w,
        0 <= c2 <= w,
        r1 < r2 || (r1 == r2 && c1 <= c2),
    ensures
        0 <= line_index(w, r1, c1) <= line_index(w, r2, c2),
        r1 < r2 || c1 < c2 ==> line_index(w, r1, c1) < line_index(w, r2, c2),
{
    assert(0 <= r1 * (w + 1) + c1) by (nonlinear_arith)
        requires
            0 <= r1,
            0 <= c1 <= w,
    ;
    assert(r1 * (w + 1) + c1 <= r2 * (w + 1) + c2) by (nonlinear_arith)
        requires
            0 <= r1,
            0 <= c1 <= w,
            0 <= c2 <= w,
            r1 < r2 || (r1 == r2 && c1 <= c2),
    ;
    assert((r1 < r2 || c1 < c2) ==> r1 * (w + 1) + c1 < r2 * (w + 1) + c2) by (nonlinear_arith)
        requires
            0 <= r1,
            0 <= c1 <= w,
            0 <= c2 <= w,
            r1 < r2 || (r1 == r2 && c1 <= c2),
    ;
}

/// On a cycle of length `m` the wrapped coordinates have a branch-free
/// closed form: stepping back from 0 lands on `m - 1`, stepping forward
/// from `m - 1` lands on 0, and every other step moves by one.
pub proof fn lemma_wrap_forms(x: int, m: int)
    requires
        1 <= m,
        0 <= x < m,
    ensures
        wrap_prev(x, m) == if x == 0 {
            m - 1
        } else {
            x - 1
        },
        wrap_next(x, m) == if x + 1 == m {
            0
        } else {
            x + 1
        },
        0 <= wrap_prev(x, m) < m,
        0 <= wrap_next(x, m) < m,
{
    if x == 0 {
        assert((x + m - 1) % m == m - 1) by (nonlinear_arith)
            requires
                1 <= m,
                x == 0,
        ;
    } else {
        assert((x + m - 1) % m == x - 1) by (nonlinear_arith)
            requires
                1 <= m,
                1 <= x < m,
        ;
    }
    if x + 1 == m {
        assert((x + 1) % m == 0) by (nonlinear_arith)
            requires
                1 <= m,
                x + 1 == m,
        ;
    } else {
        assert((x + 1) % m == x + 1) by (nonlinear_arith)
            requires
                1 <= m,
                0 <= x,
                x + 1 < m,
        ;
    }
}

/// Row-major indexing is a bijection between coordinate pairs and flat
/// indices: the index of an in-range pair is in range, and dividing it by
/// the width recovers the pair.
pub proof fn lemma_flat_index(w: int, h: int, r: int, c: int)
    requires
        1 <= w,
        0 <= r < h,
        0 <= c < w,
    ensures
        0 <= flat_index(w, r, c) < h * w,
        flat_index(w, r, c) / w == r,
        flat_index(w, r, c) % w == c,
{
    assert(0 <= r * w + c < h * w && (r * w + c) / w == r && (r * w + c) % w == c)
        by (nonlinear_arith)
        requires
            1 <= w,
            0 <= r < h,
            0 <= c < w,
    ;
}

/// Every flat index of the grid splits into an in-range coordinate pair.
pub proof fn lemma_index_split(w: int, h: int, i: int)
    requires
        1 <= w,
        0 <= i < h * w,
    ensures
        0 <= i / w < h,
        0 <= i % w < w,
        i == flat_index(w, i / w, i % w),
{
    assert(0 <= i / w < h && 0 <= i % w < w && i == (i / w) * w + i % w) by (nonlinear_arith)
        requires
            1 <= w,
            0 <= i < h * w,
    ;
}

} // verus!
