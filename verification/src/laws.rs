//! General facts about the engine: bounds and locality of the neighbor
//! count, wraparound at the grid's corner, purity of the generational
//! advance, the fate of an isolated live cell, and the block still life.

use crate::rules::{
    flat_index, generation_after, lemma_flat_index, lemma_index_split, lemma_wrap_forms, live_flag,
    neighbor_count, next_generation, transition, wrap_next, wrap_prev, Cell,
};
use vstd::prelude::*;

verus! {

/// A neighbor count is a sum of eight flags that are each 0 or 1, so it
/// always lies between 0 and 8.
pub proof fn lemma_neighbor_count_range(cells: Seq<Cell>, w: int, h: int, r: int, c: int)
    ensures
        0 <= neighbor_count(cells, w, h, r, c) <= 8,
{
}

/// Distinct in-range coordinate pairs have distinct flat indices.
proof fn lemma_flat_index_injective(w: int, h: int, r1: int, c1: int, r2: int, c2: int)
    requires
        1 <= w,
        0 <= r1 < h,
        0 <= c1 < w,
        0 <= r2 < h,
        0 <= c2 < w,
        r1 != r2 || c1 != c2,
    ensures
        flat_index(w, r1, c1) != flat_index(w, r2, c2),
{
    lemma_flat_index(w, h, r1, c1);
    lemma_flat_index(w, h, r2, c2);
}

/// On a grid at least 2 cells wide and high, none of the eight wrapped
/// neighbor positions of a cell is the cell itself, so the neighbor count
/// never counts the cell: changing the cell's own state leaves it as it was.
pub proof fn lemma_neighbor_count_ignores_self(
    cells: Seq<Cell>,
    w: int,
    h: int,
    r: int,
    c: int,
    state: Cell,
)
    requires
        2 <= w,
        2 <= h,
        cells.len() == h * w,
        0 <= r < h,
        0 <= c < w,
    ensures
        neighbor_count(cells.update(flat_index(w, r, c), state), w, h, r, c) == neighbor_count(
            cells,
            w,
            h,
            r,
            c,
        ),
{
    lemma_wrap_forms(r, h);
    lemma_wrap_forms(c, w);
    let rp: int = wrap_prev(r, h);
    let rn: int = wrap_next(r, h);
    let cp: int = wrap_prev(c, w);
    let cn: int = wrap_next(c, w);
    lemma_flat_index(w, h, r, c);
    lemma_flat_index_injective(w, h, rp, cp, r, c);
    lemma_flat_index_injective(w, h, rp, c, r, c);
    lemma_flat_index_injective(w, h, rp, cn, r, c);
    lemma_flat_index_injective(w, h, r, cp, r, c);
    lemma_flat_index_injective(w, h, r, cn, r, c);
    lemma_flat_index_injective(w, h, rn, cp, r, c);
    lemma_flat_index_injective(w, h, rn, c, r, c);
    lemma_flat_index_injective(w, h, rn, cn, r, c);
    lemma_flat_index(w, h, rp, cp);
    lemma_flat_index(w, h, rp, c);
    lemma_flat_index(w, h, rp, cn);
    lemma_flat_index(w, h, r, cp);
    lemma_flat_index(w, h, r, cn);
    lemma_flat_index(w, h, rn, cp);
    lemma_flat_index(w, h, rn, c);
    lemma_flat_index(w, h, rn, cn);
}

/// Toroidal wraparound at the corner: on a grid at least 2 cells wide and
/// high, the neighbor count of the cell at `(0, 0)` reads, among its eight
/// neighbors, the far cells `(h - 1, w - 1)`, `(h - 1, 0)` and `(0, w - 1)`.
pub proof fn lemma_neighbor_count_at_origin(cells: Seq<Cell>, w: int, h: int)
    requires
        2 <= w,
        2 <= h,
    ensures
        neighbor_count(cells, w, h, 0, 0) == live_flag(cells, w, h - 1, w - 1) + live_flag(
            cells,
            w,
            h - 1,
            0,
        ) + live_flag(cells, w, h - 1, 1) + live_flag(cells, w, 0, w - 1) + live_flag(
            cells,
            w,
            0,
            1,
        ) + live_flag(cells, w, 1, w - 1) + live_flag(cells, w, 1, 0) + live_flag(cells, w, 1, 1),
{
    lemma_wrap_forms(0, h);
    lemma_wrap_forms(0, w);
}

/// The generational advance is pure: every cell of the next generation is
/// the transition rule applied to the prior generation's snapshot alone —
/// its own old state and the count of its old neighbors.
pub proof fn lemma_next_generation_pointwise(cells: Seq<Cell>, w: int, h: int, r: int, c: int)
    requires
        1 <= w,
        cells.len() == h * w,
        0 <= r < h,
        0 <= c < w,
    ensures
        next_generation(cells, w, h).len() == cells.len(),
        next_generation(cells, w, h)[flat_index(w, r, c)] == transition(
            cells[flat_index(w, r, c)],
            neighbor_count(cells, w, h, r, c),
        ),
{
    lemma_flat_index(w, h, r, c);
}

/// On a grid at least 2 cells wide and high, a live cell whose grid is
/// otherwise all dead has no live neighbors, and dies after one tick.
pub proof fn lemma_isolated_cell_dies(cells: Seq<Cell>, w: int, h: int, r: int, c: int)
    requires
        2 <= w,
        2 <= h,
        cells.len() == h * w,
        0 <= r < h,
        0 <= c < w,
        cells[flat_index(w, r, c)] is Alive,
        forall|i: int| 0 <= i < cells.len() && i != flat_index(w, r, c) ==> cells[i] is Dead,
    ensures
        neighbor_count(cells, w, h, r, c) == 0,
        next_generation(cells, w, h)[flat_index(w, r, c)] is Dead,
{
    lemma_wrap_forms(r, h);
    lemma_wrap_forms(c, w);
    let rp: int = wrap_prev(r, h);
    let rn: int = wrap_next(r, h);
    let cp: int = wrap_prev(c, w);
    let cn: int = wrap_next(c, w);
    lemma_flat_index_injective(w, h, rp, cp, r, c);
    lemma_flat_index_injective(w, h, rp, c, r, c);
    lemma_flat_index_injective(w, h, rp, cn, r, c);
    lemma_flat_index_injective(w, h, r, cp, r, c);
    lemma_flat_index_injective(w, h, r, cn, r, c);
    lemma_flat_index_injective(w, h, rn, cp, r, c);
    lemma_flat_index_injective(w, h, rn, c, r, c);
    lemma_flat_index_injective(w, h, rn, cn, r, c);
    lemma_flat_index(w, h, rp, cp);
    lemma_flat_index(w, h, rp, c);
    lemma_flat_index(w, h, rp, cn);
    lemma_flat_index(w, h, r, cp);
    lemma_flat_index(w, h, r, cn);
    lemma_flat_index(w, h, rn, cp);
    lemma_flat_index(w, h, rn, c);
    lemma_flat_index(w, h, rn, cn);
    lemma_next_generation_pointwise(cells, w, h, r, c);
}

/// The grid whose only live cells form the 2-by-2 block with top-left
/// corner `(br, bc)`.
pub open spec fn block_pattern(cells: Seq<Cell>, w: int, h: int, br: int, bc: int) -> bool {
    &&& cells.len() == h * w
    &&& forall|i: int|
        0 <= i < cells.len() ==> #[trigger] cells[i] == (if (i / w == br || i / w == br + 1) && (
        i % w == bc || i % w == bc + 1) {
            Cell::Alive
        } else {
            Cell::Dead
        })
}

/// Under a block pattern the flag of an in-range cell is 1 exactly on the
/// four block cells.
proof fn lemma_block_flag(cells: Seq<Cell>, w: int, h: int, br: int, bc: int, r: int, c: int)
    requires
        block_pattern(cells, w, h, br, bc),
        1 <= w,
        0 <= r < h,
        0 <= c < w,
    ensures
        live_flag(cells, w, r, c) == if (r == br || r == br + 1) && (c == bc || c == bc + 1) {
            1int
        } else {
            0int
        },
{
    lemma_flat_index(w, h, r, c);
}

/// A 2-by-2 block of live cells that does not touch the grid's edge — so
/// no wraparound reaches it — is unchanged by one tick: each block cell
/// has exactly three live neighbors and survives, and every other cell
/// stays dead, the cells around the block seeing at most two live
/// neighbors.
#[verifier::rlimit(60)]
pub proof fn lemma_block_next_generation(cells: Seq<Cell>, w: int, h: int, br: int, bc: int)
    requires
        block_pattern(cells, w, h, br, bc),
        1 <= br,
        br + 2 <= h - 1,
        1 <= bc,
        bc + 2 <= w - 1,
    ensures
        next_generation(cells, w, h) == cells,
{
    assert forall|i: int| 0 <= i < cells.len() implies next_generation(cells, w, h)[i] == cells[i]
    by {
        lemma_index_split(w, h, i);
        let r: int = i / w;
        let c: int = i % w;
        lemma_wrap_forms(r, h);
        lemma_wrap_forms(c, w);
        let rp: int = wrap_prev(r, h);
        let rn: int = wrap_next(r, h);
        let cp: int = wrap_prev(c, w);
        let cn: int = wrap_next(c, w);
        lemma_block_flag(cells, w, h, br, bc, r, c);
        lemma_block_flag(cells, w, h, br, bc, rp, cp);
        lemma_block_flag(cells, w, h, br, bc, rp, c);
        lemma_block_flag(cells, w, h, br, bc, rp, cn);
        lemma_block_flag(cells, w, h, br, bc, r, cp);
        lemma_block_flag(cells, w, h, br, bc, r, cn);
        lemma_block_flag(cells, w, h, br, bc, rn, cp);
        lemma_block_flag(cells, w, h, br, bc, rn, c);
        lemma_block_flag(cells, w, h, br, bc, rn, cn);
    }
    assert(next_generation(cells, w, h) =~= cells);
}

/// A generation that one tick leaves unchanged is unchanged by any number
/// of ticks.
pub proof fn lemma_fixed_point_forever(cells: Seq<Cell>, w: int, h: int, n: nat)
    requires
        next_generation(cells, w, h) == cells,
    ensures
        generation_after(cells, w, h, n) == cells,
    decreases n,
{
    if n > 0 {
        lemma_fixed_point_forever(cells, w, h, (n - 1) as nat);
    }
}

/// The block still life: a 2-by-2 block of live cells that does not touch
/// the grid's edge is unchanged after any number of ticks.
pub proof fn lemma_block_still_life(cells: Seq<Cell>, w: int, h: int, br: int, bc: int, n: nat)
    requires
        block_pattern(cells, w, h, br, bc),
        1 <= br,
        br + 2 <= h - 1,
        1 <= bc,
        bc + 2 <= w - 1,
    ensures
        generation_after(cells, w, h, n) == cells,
{
    lemma_block_next_generation(cells, w, h, br, bc);
    lemma_fixed_point_forever(cells, w, h, n);
}

} // verus!
