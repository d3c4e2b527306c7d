//! The Universe: a fixed-size toroidal Game of Life grid with verified
//! construction, neighbor counting, generational advance and rendering.

use crate::rules::{
    flat_index, glyph, line_index, live_flag, neighbor_count, next_generation, seed_cell,
    transition, wrap_next, wrap_prev, Cell,
};
use vstd::prelude::*;
use vstd::string::StringExecFns;

verus! {

/// A toroidal Game of Life grid: a width, a height, and a row-major buffer
/// of exactly `width * height` cells.
pub struct Universe {
    width: u32,
    height: u32,
    cells: Vec<Cell>,
}

/// The coordinate one step before `x` on a cycle of length `m`, by modular
/// wraparound rather than a boundary branch in the callers.
fn wrap_prev_coord(x: u32, m: u32) -> (r: u32)
    requires
        1 <= m,
        x < m,
    ensures
        r == wrap_prev(x as int, m as int),
        r < m,
{
    proof {
        crate::rules::lemma_wrap_forms(x as int, m as int);
    }
    if x == 0 {
        m - 1
    } else {
        x - 1
    }
}

/// The coordinate one step after `x` on a cycle of length `m`.
fn wrap_next_coord(x: u32, m: u32) -> (r: u32)
    requires
        1 <= m,
        x < m,
    ensures
        r == wrap_next(x as int, m as int),
        r < m,
{
    proof {
        crate::rules::lemma_wrap_forms(x as int, m as int);
    }
    if x + 1 == m {
        0
    } else {
        x + 1
    }
}

impl Universe {
    /// The grid width, for use in contracts.
    pub closed spec fn spec_width(&self) -> u32 {
        self.width
    }

    /// The grid height, for use in contracts.
    pub closed spec fn spec_height(&self) -> u32 {
        self.height
    }

    /// The current generation's buffer, for use in contracts.
    pub closed spec fn spec_cells(&self) -> Seq<Cell> {
        self.cells@
    }

    /// Well-formedness: positive dimensions and a buffer of exactly
    /// `height * width` cells, small enough to index with a `usize`.
    pub open spec fn wf(&self) -> bool {
        &&& 1 <= self.spec_width()
        &&& 1 <= self.spec_height()
        &&& self.spec_cells().len() == (self.spec_height() as int) * (self.spec_width() as int)
        &&& (self.spec_height() as int) * (self.spec_width() as int) <= usize::MAX as int
    }

    /// Builds a grid of the given dimensions holding the deterministic seed
    /// pattern: the cell at flat index `i` is alive exactly when
    /// `i % 2 == 0` or `i % 7 == 0`.
    pub fn with_dimensions(width: u32, height: u32) -> (u: Universe)
        requires
            1 <= width,
            1 <= height,
            (height as int) * (width as int) <= usize::MAX as int,
        ensures
            u.wf(),
            u.spec_width() == width,
            u.spec_height() == height,
            u.spec_cells().len() == (height as int) * (width as int),
            forall|i: int|
                0 <= i < u.spec_cells().len() ==> #[trigger] u.spec_cells()[i] == seed_cell(i),
            forall|i: int|
                0 <= i < u.spec_cells().len() ==> (#[trigger] u.spec_cells()[i] is Alive <==> (i % 2
                    == 0 || i % 7 == 0)),
    {
        let total: usize = (height as usize) * (width as usize);
        let mut cells: Vec<Cell> = Vec::new();
        let mut i: usize = 0;
        while i < total
            invariant
                i <= total,
                cells@.len() == i,
                forall|k: int| 0 <= k < i ==> cells@[k] == #[trigger] seed_cell(k),
            decreases total - i,
        {
            if i % 2 == 0 || i % 7 == 0 {
                cells.push(Cell::Alive);
            } else {
                cells.push(Cell::Dead);
            }
            i = i + 1;
        }
        proof {
            assert forall|k: int| 0 <= k < cells@.len() implies (cells@[k] is Alive <==> (k % 2
                == 0 || k % 7 == 0)) by {
                assert(cells@[k] == seed_cell(k));
            }
        }
        Universe { width, height, cells }
    }

    /// Builds the fixed demonstration grid: 64 by 64 cells holding the
    /// deterministic seed pattern.
    pub fn new() -> (u: Universe)
        ensures
            u.wf(),
            u.spec_width() == 64,
            u.spec_height() == 64,
            u.spec_cells().len() == 64 * 64,
            forall|i: int|
                0 <= i < u.spec_cells().len() ==> #[trigger] u.spec_cells()[i] == seed_cell(i),
    {
        Universe::with_dimensions(64, 64)
    }

    /// The fixed grid width.
    pub fn width(&self) -> (w: u32)
        ensures
            w == self.spec_width(),
    {
        self.width
    }

    /// The fixed grid height.
    pub fn height(&self) -> (h: u32)
        ensures
            h == self.spec_height(),
    {
        self.height
    }

    /// A read-only view of the current generation's buffer, in row-major
    /// order, valid until the next `tick`.
    pub fn cells(&self) -> (cells: &Vec<Cell>)
        ensures
            cells@ == self.spec_cells(),
    {
        &self.cells
    }

    /// The flat, row-major index of the cell at `(row, col)`.
    fn get_index(&self, row: u32, col: u32) -> (idx: usize)
        requires
            self.wf(),
            row < self.spec_height(),
            col < self.spec_width(),
        ensures
            idx == flat_index(self.spec_width() as int, row as int, col as int),
            idx < self.spec_cells().len(),
    {
        proof {
            crate::rules::lemma_flat_index(
                self.spec_width() as int,
                self.spec_height() as int,
                row as int,
                col as int,
            );
        }
        (row as usize) * (self.width as usize) + (col as usize)
    }

    /// 1 when the cell at `(row, col)` is alive, 0 otherwise.
    fn flag_at(&self, row: u32, col: u32) -> (f: u8)
        requires
            self.wf(),
            row < self.spec_height(),
            col < self.spec_width(),
        ensures
            f == live_flag(self.spec_cells(), self.spec_width() as int, row as int, col as int),
            f <= 1,
    {
        let idx = self.get_index(row, col);
        if self.cells[idx] == Cell::Alive {
            1
        } else {
            0
        }
    }

    /// Counts the live cells among the eight toroidally-wrapped neighbors
    /// of `(row, col)`; the cell itself is not one of them.
    pub fn live_neighbor_count(&self, row: u32, col: u32) -> (n: u8)
        requires
            self.wf(),
            row < self.spec_height(),
            col < self.spec_width(),
        ensures
            n == neighbor_count(
                self.spec_cells(),
                self.spec_width() as int,
                self.spec_height() as int,
                row as int,
                col as int,
            ),
            n <= 8,
    {
        let row_up = wrap_prev_coord(row, self.height);
        let row_down = wrap_next_coord(row, self.height);
        let col_left = wrap_prev_coord(col, self.width);
        let col_right = wrap_next_coord(col, self.width);
        let mut n: u8 = 0;
        n = n + self.flag_at(row_up, col_left);
        n = n + self.flag_at(row_up, col);
        n = n + self.flag_at(row_up, col_right);
        n = n + self.flag_at(row, col_left);
        n = n + self.flag_at(row, col_right);
        n = n + self.flag_at(row_down, col_left);
        n = n + self.flag_at(row_down, col);
        n = n + self.flag_at(row_down, col_right);
        n
    }

    /// Overwrites the state of one cell, leaving every other cell as it
    /// was; lets a caller lay out a pattern before ticking.
    pub fn set_cell(&mut self, row: u32, col: u32, state: Cell)
        requires
            old(self).wf(),
            row < old(self).spec_height(),
            col < old(self).spec_width(),
        ensures
            final(self).wf(),
            final(self).spec_width() == old(self).spec_width(),
            final(self).spec_height() == old(self).spec_height(),
            final(self).spec_cells() == old(self).spec_cells().update(
                flat_index(old(self).spec_width() as int, row as int, col as int),
                state,
            ),
    {
        let idx = self.get_index(row, col);
        self.cells[idx] = state;
    }

    /// Advances the grid by one generation: every cell of the new buffer is
    /// the transition rule applied to the old snapshot, and the new buffer
    /// replaces the old one only once every cell is computed.
    pub fn tick(&mut self)
        requires
            old(self).wf(),
        ensures
            final(self).wf(),
            final(self).spec_width() == old(self).spec_width(),
            final(self).spec_height() == old(self).spec_height(),
            final(self).spec_cells() == next_generation(
                old(self).spec_cells(),
                old(self).spec_width() as int,
                old(self).spec_height() as int,
            ),
    {
        let w = self.width;
        let h = self.height;
        let ghost snapshot: Seq<Cell> = self.cells@;
        let ghost new_gen: Seq<Cell> = next_generation(snapshot, w as int, h as int);
        let mut next: Vec<Cell> = Vec::new();
        let mut row: u32 = 0;
        while row < h
            invariant
                *self == *old(self),
                self.wf(),
                w == self.spec_width(),
                h == self.spec_height(),
                snapshot == self.spec_cells(),
                new_gen == next_generation(snapshot, w as int, h as int),
                row <= h,
                next@.len() == (row as int) * (w as int),
                forall|k: int| 0 <= k < next@.len() ==> next@[k] == new_gen[k],
            decreases h - row,
        {
            let mut col: u32 = 0;
            while col < w
                invariant
                    *self == *old(self),
                    self.wf(),
                    w == self.spec_width(),
                    h == self.spec_height(),
                    snapshot == self.spec_cells(),
                    new_gen == next_generation(snapshot, w as int, h as int),
                    row < h,
                    col <= w,
                    next@.len() == (row as int) * (w as int) + (col as int),
                    forall|k: int| 0 <= k < next@.len() ==> next@[k] == new_gen[k],
                decreases w - col,
            {
                let idx = self.get_index(row, col);
                let cur = self.cells[idx];
                let live = self.live_neighbor_count(row, col);
                let next_state = if cur == Cell::Alive {
                    if live < 2 {
                        Cell::Dead
                    } else if live <= 3 {
                        Cell::Alive
                    } else {
                        Cell::Dead
                    }
                } else {
                    if live == 3 {
                        Cell::Alive
                    } else {
                        Cell::Dead
                    }
                };
                proof {
                    crate::rules::lemma_flat_index(w as int, h as int, row as int, col as int);
                    assert(next_state == transition(
                        snapshot[flat_index(w as int, row as int, col as int)],
                        neighbor_count(snapshot, w as int, h as int, row as int, col as int),
                    ));
                }
                next.push(next_state);
                col = col + 1;
            }
            proof {
                assert((row as int + 1) * (w as int) == (row as int) * (w as int) + (w as int))
                    by (nonlinear_arith);
            }
            row = row + 1;
        }
        proof {
            assert(next@ =~= new_gen);
        }
        self.cells = next;
    }

    /// Renders the grid as text: `height` lines, each of `width` glyphs —
    /// hollow for a dead cell, filled for a live one — and each line
    /// newline-terminated.
    pub fn render(&self) -> (out: String)
        requires
            self.wf(),
        ensures
            out@.len() == (self.spec_height() as int) * ((self.spec_width() as int) + 1),
            forall|r: int, c: int|
                0 <= r < self.spec_height() && 0 <= c < self.spec_width() ==> out@[#[trigger] line_index(
                    self.spec_width() as int,
                    r,
                    c,
                )] == glyph(self.spec_cells()[flat_index(self.spec_width() as int, r, c)]),
            forall|r: int|
                0 <= r < self.spec_height() ==> out@[#[trigger] line_index(
                    self.spec_width() as int,
                    r,
                    self.spec_width() as int,
                )] == '\n',
    {
        let w = self.width;
        let h = self.height;
        let mut out = String::new();
        let mut row: u32 = 0;
        while row < h
            invariant
                self.wf(),
                w == self.spec_width(),
                h == self.spec_height(),
                row <= h,
                out@.len() == line_index(w as int, row as int, 0),
                forall|r: int, c: int|
                    0 <= r < row && 0 <= c < w ==> out@[#[trigger] line_index(w as int, r, c)]
                        == glyph(self.spec_cells()[flat_index(w as int, r, c)]),
                forall|r: int|
                    0 <= r < row ==> out@[#[trigger] line_index(w as int, r, w as int)] == '\n',
            decreases h - row,
        {
            let mut col: u32 = 0;
            while col < w
                invariant
                    self.wf(),
                    w == self.spec_width(),
                    h == self.spec_height(),
                    row < h,
                    col <= w,
                    out@.len() == line_index(w as int, row as int, col as int),
                    forall|r: int, c: int|
                        0 <= r < row && 0 <= c < w ==> out@[#[trigger] line_index(w as int, r, c)]
                            == glyph(self.spec_cells()[flat_index(w as int, r, c)]),
                    forall|r: int|
                        0 <= r < row ==> out@[#[trigger] line_index(w as int, r, w as int)] == '\n',
                    forall|c: int|
                        0 <= c < col ==> out@[#[trigger] line_index(w as int, row as int, c)]
                            == glyph(self.spec_cells()[flat_index(w as int, row as int, c)]),
                decreases w - col,
            {
                let idx = self.get_index(row, col);
                let cell = self.cells[idx];
                proof {
                    reveal_strlit("\u{25fb}");
                    reveal_strlit("\u{25fc}");
                }
                if cell == Cell::Dead {
                    out.append("\u{25fb}");
                } else {
                    out.append("\u{25fc}");
                }
                proof {
                    assert(out@.len() == line_index(w as int, row as int, col as int) + 1);
                    assert(out@[line_index(w as int, row as int, col as int)] == glyph(
                        self.spec_cells()[flat_index(w as int, row as int, col as int)],
                    ));
                    assert forall|r: int, c: int| 0 <= r < row && 0 <= c < w implies out@[
                        #[trigger] line_index(w as int, r, c)
                    ] == glyph(self.spec_cells()[flat_index(w as int, r, c)]) by {
                        crate::rules::lemma_line_index_order(w as int, r, c, row as int, col as int);
                    }
                    assert forall|r: int| 0 <= r < row implies out@[#[trigger] line_index(
                        w as int,
                        r,
                        w as int,
                    )] == '\n' by {
                        crate::rules::lemma_line_index_order(
                            w as int,
                            r,
                            w as int,
                            row as int,
                            col as int,
                        );
                    }
                    assert forall|c: int| 0 <= c < col implies out@[#[trigger] line_index(
                        w as int,
                        row as int,
                        c,
                    )] == glyph(self.spec_cells()[flat_index(w as int, row as int, c)]) by {
                        crate::rules::lemma_line_index_order(
                            w as int,
                            row as int,
                            c,
                            row as int,
                            col as int,
                        );
                    }
                }
                col = col + 1;
            }
            proof {
                reveal_strlit("\n");
            }
            out.append("\n");
            proof {
                assert(out@.len() == line_index(w as int, row as int, w as int) + 1);
                assert(out@[line_index(w as int, row as int, w as int)] == '\n');
                assert forall|r: int, c: int| 0 <= r <= row && 0 <= c < w implies out@[
                    #[trigger] line_index(w as int, r, c)
                ] == glyph(self.spec_cells()[flat_index(w as int, r, c)]) by {
                    crate::rules::lemma_line_index_order(w as int, r, c, row as int, w as int);
                }
                assert forall|r: int| 0 <= r < row implies out@[#[trigger] line_index(
                    w as int,
                    r,
                    w as int,
                )] == '\n' by {
                    crate::rules::lemma_line_index_order(w as int, r, w as int, row as int, w as int);
                }
                assert((row as int + 1) * ((w as int) + 1) == (row as int) * ((w as int) + 1) + (
                w as int) + 1) by (nonlinear_arith);
            }
            row = row + 1;
        }
        out
    }
}

} // verus!
