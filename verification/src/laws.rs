use vstd::prelude::*;
use crate::cell::{Cell, Wind, next_generation};
use crate::universe::{Grid, UNDO_LIMIT, lemma_index_in_range};
use crate::brush::{in_brush, lemma_index_injective};
use crate::species::Species;
use crate::tick::{lemma_blown_at_touches, lemma_touched_trans};

verus! {

/// Column of the position with flat offset `i`.
pub open spec fn column_of(g: Grid, i: int) -> int {
    i % g.width
}

/// Row of the position with flat offset `i`.
pub open spec fn row_of(g: Grid, i: int) -> int {
    i / g.width
}

/// The flat offset is a bijection between the positions of the grid and the
/// offsets below `width * height`: it stays in that range, no two positions
/// share an offset, and every offset of the range belongs to a position.
pub proof fn lemma_index_bijection(g: Grid)
    requires
        g.wf(),
    ensures
        forall|x: int, y: int| g.in_bounds(x, y) ==> 0 <= #[trigger] g.index(x, y) < g.width * g.height,
        forall|x1: int, y1: int, x2: int, y2: int|
            g.in_bounds(x1, y1) && g.in_bounds(x2, y2) && #[trigger] g.index(x1, y1) == #[trigger] g.index(x2, y2)
                ==> x1 == x2 && y1 == y2,
        forall|i: int|
            0 <= i < g.width * g.height ==> g.in_bounds(#[trigger] column_of(g, i), row_of(g, i))
                && g.index(column_of(g, i), row_of(g, i)) == i,
{
    assert forall|x: int, y: int| g.in_bounds(x, y) implies 0 <= #[trigger] g.index(x, y) < g.width
        * g.height by {
        lemma_index_in_range(g, x, y);
    }
    assert forall|x1: int, y1: int, x2: int, y2: int|
        g.in_bounds(x1, y1) && g.in_bounds(x2, y2) && #[trigger] g.index(x1, y1) == #[trigger] g.index(
            x2,
            y2,
        ) implies x1 == x2 && y1 == y2 by {
        lemma_index_injective(g, x1, y1, x2, y2);
    }
    assert forall|i: int| 0 <= i < g.width * g.height implies g.in_bounds(
        #[trigger] column_of(g, i),
        row_of(g, i),
    ) && g.index(column_of(g, i), row_of(g, i)) == i by {
        let w = g.width;
        let h = g.height;
        assert(w > 0) by (nonlinear_arith)
            requires 0 <= i < w * h, 0 <= w;
        assert(0 <= i % w < w && 0 <= i / w < h && i % w + (i / w) * w == i) by (nonlinear_arith)
            requires 0 <= i < w * h, 0 < w, 0 <= h;
    }
}

/// The generation after `ticks` ticks, each of which advances it twice.
pub open spec fn generation_after(start: u8, ticks: nat) -> u8
    decreases ticks,
{
    if ticks == 0 {
        start
    } else {
        next_generation(next_generation(generation_after(start, (ticks - 1) as nat)))
    }
}

/// After `ticks` ticks the generation has moved by twice that count,
/// modulo 256.
pub proof fn lemma_generation_after(start: u8, ticks: nat)
    ensures
        generation_after(start, ticks) == (start + 2 * ticks) % 256,
    decreases ticks,
{
    if ticks > 0 {
        lemma_generation_after(start, (ticks - 1) as nat);
    }
}

/// One tick from generation 0 ends at generation 2, and 128 ticks bring
/// every generation back to itself.
pub proof fn lemma_generation_period(start: u8)
    ensures
        generation_after(0, 1) == 2,
        generation_after(start, 128) == start,
{
    lemma_generation_after(0, 1);
    lemma_generation_after(start, 128);
}

/// Taking a snapshot and undoing at once restores cells and history
/// exactly, as long as the history was not full; a full history loses its
/// oldest snapshot and nothing else.
pub proof fn lemma_push_then_pop(g: Grid)
    requires
        g.wf(),
    ensures
        g.pushed().wf(),
        g.pushed().undo[0] == g.cells,
        g.pushed().popped().cells == g.cells,
        g.undo.len() < UNDO_LIMIT ==> g.pushed().popped() == g,
        g.undo.len() == UNDO_LIMIT ==> g.pushed().popped().undo == g.undo.subrange(0, UNDO_LIMIT - 1),
{
    let grown = seq![g.cells] + g.undo;
    assert(grown[0] == g.cells);
    if g.undo.len() < UNDO_LIMIT {
        assert(g.pushed().popped().undo =~= g.undo);
    } else {
        assert(g.pushed().popped().undo =~= g.undo.subrange(0, UNDO_LIMIT - 1));
    }
}

/// The history after `count` snapshots in a row.
pub open spec fn pushed_times(g: Grid, count: nat) -> Grid
    decreases count,
{
    if count == 0 {
        g
    } else {
        pushed_times(g, (count - 1) as nat).pushed()
    }
}

/// However many snapshots are taken, the history holds the smaller of their
/// number (added to what it held) and the limit, and the grid stays
/// well-formed.
pub proof fn lemma_history_bounded(g: Grid, count: nat)
    requires
        g.wf(),
    ensures
        pushed_times(g, count).wf(),
        pushed_times(g, count).cells == g.cells,
        pushed_times(g, count).undo.len() == if g.undo.len() + count <= UNDO_LIMIT {
            g.undo.len() + count
        } else {
            UNDO_LIMIT as nat
        },
    decreases count,
{
    if count > 0 {
        lemma_history_bounded(g, (count - 1) as nat);
        lemma_push_then_pop(pushed_times(g, (count - 1) as nat));
    }
}

/// Undoing on an empty history changes nothing; on any other it restores
/// the newest snapshot and removes it.
pub proof fn lemma_pop(g: Grid)
    requires
        g.wf(),
    ensures
        g.popped().wf(),
        g.undo.len() == 0 ==> g.popped() == g,
        g.undo.len() > 0 ==> g.popped().cells == g.undo[0] && g.popped().undo.len() == g.undo.len() - 1,
{
}

/// What a rule emits is never what it reads: emission goes to the write
/// buffer and leaves every read of the wind as it was.
pub proof fn lemma_emission_not_read(g: Grid, x: int, y: int, wind: Wind, rx: int, ry: int)
    ensures
        g.with_burn(x, y, wind).wind_at(rx, ry) == g.wind_at(rx, ry),
        g.with_burn(x, y, wind).winds == g.winds,
{
}

/// Wind transport of the first `rows` cells of a column keeps the shape of
/// the grid and the write winds, and leaves every cell as it was or stamped.
pub proof fn lemma_blown_column_touches(g: Grid, x: int, rows: nat)
    requires
        g.wf(),
        0 <= x < g.width,
        rows <= g.height,
    ensures
        g.blown_column(x, rows).wf(),
        g.blown_column(x, rows).touched_from(g),
        g.blown_column(x, rows).burns == g.burns,
    decreases rows,
{
    if rows > 0 {
        let mid = g.blown_column(x, (rows - 1) as nat);
        lemma_blown_column_touches(g, x, (rows - 1) as nat);
        lemma_blown_at_touches(mid, x, rows - 1);
        lemma_touched_trans(g, mid, mid.blown_at(x, rows - 1));
    }
}

/// Wind transport of the first `columns` columns keeps the shape of the
/// grid and the write winds, and leaves every cell as it was or stamped.
pub proof fn lemma_blown_columns_touches(g: Grid, columns: nat)
    requires
        g.wf(),
        columns <= g.width,
    ensures
        g.blown_columns(columns).wf(),
        g.blown_columns(columns).touched_from(g),
        g.blown_columns(columns).burns == g.burns,
    decreases columns,
{
    if columns > 0 {
        let mid = g.blown_columns((columns - 1) as nat);
        lemma_blown_columns_touches(g, (columns - 1) as nat);
        lemma_blown_column_touches(mid, columns - 1, mid.height as nat);
        lemma_touched_trans(g, mid, mid.blown_column(columns - 1, mid.height as nat));
    }
}

/// The wind phase moves cells and nothing else: shape, both wind buffers
/// and history stay, the generation advances by one, and every cell is as
/// it was or carries the stamp of the phase.
pub proof fn lemma_wind_phase_frame(g: Grid)
    requires
        g.wf(),
    ensures
        g.blown().wf(),
        g.phase_outcome(g.blown()),
        g.blown().width == g.width,
        g.blown().height == g.height,
        g.blown().winds == g.winds,
        g.blown().burns == g.burns,
        g.blown().undo == g.undo,
        g.blown().generation == next_generation(g.generation),
{
    lemma_blown_columns_touches(g, g.width as nat);
    let mid = g.blown_columns(g.width as nat);
    assert(mid.touched_from(g) && g.blown() == mid.advanced());
}

/// In a tick that starts on an even generation the material phase walks
/// each row from left to right; in a tick that starts on an odd generation,
/// from right to left.
pub proof fn lemma_scan_direction(g: Grid, step: int)
    requires
        g.wf(),
    ensures
        g.generation % 2 == 0 ==> g.blown().scan_column(step) == step,
        g.generation % 2 == 1 ==> g.blown().scan_column(step) == g.width - 1 - step,
{
    lemma_wind_phase_frame(g);
}

/// Every position outside the grid reads as a wall with zero registers
/// that carries the current generation.
pub proof fn lemma_outside_is_wall(g: Grid, x: int, y: int)
    requires
        !g.in_bounds(x, y),
    ensures
        g.cell_at(x, y) == (Cell { species: Species::Wall, ra: 0, rb: 0, clock: g.generation }),
{
}

/// Inside the brush, painting `Empty` frees every cell of the grid, and
/// outside the brush no stroke changes anything.
pub proof fn lemma_paint_disc(g: Grid, px: int, py: int, x: int, y: int, size: int, species: Species, jitter: Seq<u8>)
    ensures
        in_brush(px - x, py - y, size) ==> g.painted_at(px, py, x, y, size, Species::Empty, jitter).species
            == Species::Empty,
        in_brush(px - x, py - y, size) && g.cell_at(px, py).species == Species::Empty ==> g.painted_at(
            px,
            py,
            x,
            y,
            size,
            species,
            jitter,
        ).species == species,
        !in_brush(px - x, py - y, size) ==> g.painted_at(px, py, x, y, size, species, jitter) == g.cell_at(
            px,
            py,
        ),
{
}

/// A cell written through a neighbourhood carries the stamp of the next
/// generation, whatever stamp it was handed with, and is otherwise what
/// was written.
pub proof fn lemma_write_stamps(g: Grid, x: int, y: int, cell: Cell)
    requires
        g.wf(),
        g.in_bounds(x, y),
    ensures
        g.with_cell(x, y, cell).cell_at(x, y) == (Cell { clock: next_generation(g.generation), ..cell }),
        g.with_cell(x, y, cell).cell_at(x, y).clock == (g.generation + 1) % 256,
{
    lemma_index_in_range(g, x, y);
}

} // verus!
