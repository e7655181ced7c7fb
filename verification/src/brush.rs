use vstd::prelude::*;
use crate::cell::{Cell, empty_cell};
use crate::species::Species;
use crate::universe::{Grid, Universe, lemma_index_in_range};

verus! {

/// Upper bound, exclusive, of the random part of a painted cell's register.
pub const JITTER_SPAN: u8 = 30;

/// Radius of a brush of diameter `size`.
pub open spec fn brush_radius(size: int) -> int {
    if size >= 0 { size / 2 } else { 0 }
}

/// Whether the offset `(dx, dy)` from the centre lies strictly inside the
/// circle of a brush of diameter `size`.
pub open spec fn in_brush(dx: int, dy: int, size: int) -> bool {
    dx * dx + dy * dy < brush_radius(size) * brush_radius(size)
}

/// Side of the square around the brush.
pub open spec fn brush_side(size: int) -> int {
    2 * brush_radius(size) + 1
}

/// Number of random draws that a stroke of diameter `size` takes: one for
/// each offset of the square around the brush, none for a brush without
/// interior.
pub open spec fn brush_slots(size: int) -> int {
    if brush_radius(size) >= 1 { brush_side(size) * brush_side(size) } else { 0 }
}

/// Place of the offset `(dx, dy)` among the draws: the square is walked
/// column by column.
pub open spec fn brush_slot(dx: int, dy: int, size: int) -> int {
    (dx + brush_radius(size)) * brush_side(size) + (dy + brush_radius(size))
}

/// Distance of the generation, reduced modulo 127, from 60.
pub open spec fn swing(generation: u8) -> int {
    let phase = generation % 127;
    if phase >= 60 { phase - 60 } else { 60 - phase }
}

/// A freshly painted cell.
pub open spec fn painted_cell(species: Species, generation: u8, jitter: u8) -> Cell {
    Cell { species, ra: (80 + jitter + swing(generation)) as u8, rb: 0, clock: generation }
}

impl Grid {
    /// The cell at `(px, py)` after a stroke centred at `(x, y)`: inside the
    /// brush a fresh cell replaces a free cell, and any cell when the stroke
    /// paints `Empty`; everything else stays.
    pub open spec fn painted_at(
        self,
        px: int,
        py: int,
        x: int,
        y: int,
        size: int,
        species: Species,
        jitter: Seq<u8>,
    ) -> Cell {
        if in_brush(px - x, py - y, size) && (self.cell_at(px, py).species == Species::Empty
            || species == Species::Empty) {
            painted_cell(species, self.generation, jitter[brush_slot(px - x, py - y, size)])
        } else {
            self.cell_at(px, py)
        }
    }
}

/// Offsets inside the brush lie inside the square around it, and each has a
/// place among the draws.
pub proof fn lemma_brush_inside_square(dx: int, dy: int, size: int)
    requires
        in_brush(dx, dy, size),
    ensures
        -brush_radius(size) < dx < brush_radius(size),
        -brush_radius(size) < dy < brush_radius(size),
        0 <= brush_slot(dx, dy, size) < brush_slots(size),
{
    let r = brush_radius(size);
    assert(-r < dx < r && -r < dy < r && r >= 1) by (nonlinear_arith)
        requires dx * dx + dy * dy < r * r, r >= 0;
    lemma_slot_in_range(dx + r, dy + r, 2 * r + 1);
}

proof fn lemma_slot_in_range(a: int, b: int, side: int)
    requires
        0 <= a < side,
        0 <= b < side,
    ensures
        0 <= a * side + b < side * side,
        0 <= a * side,
{
    assert(0 <= a * side && a * side + side <= side * side) by (nonlinear_arith)
        requires 0 <= a < side;
}

/// Two positions of the grid with the same flat offset are the same.
pub proof fn lemma_index_injective(g: Grid, x1: int, y1: int, x2: int, y2: int)
    requires
        g.in_bounds(x1, y1),
        g.in_bounds(x2, y2),
        g.index(x1, y1) == g.index(x2, y2),
    ensures
        x1 == x2,
        y1 == y2,
{
    let w = g.width;
    assert(y1 == y2) by (nonlinear_arith)
        requires 0 <= x1 < w, 0 <= x2 < w, x1 + y1 * w == x2 + y2 * w;
}

impl Universe {
    /// Stamps a filled circle of `species` centred at `(x, y)`. `size` is
    /// the diameter; `jitter` holds one random draw below 30 for each offset
    /// of the square around the brush.
    pub fn paint(&mut self, x: i32, y: i32, size: i32, species: Species, jitter: &Vec<u8>)
        requires
            old(self).wf(),
            jitter@.len() >= brush_slots(size as int),
            forall|k: int| 0 <= k < jitter@.len() ==> jitter@[k] < JITTER_SPAN,
        ensures
            final(self)@ == (Grid { cells: final(self)@.cells, ..old(self)@ }),
            final(self)@.cells.len() == old(self)@.cells.len(),
            forall|px: int, py: int|
                old(self)@.in_bounds(px, py) ==> #[trigger] final(self)@.cell_at(px, py) == old(
                    self,
                )@.painted_at(px, py, x as int, y as int, size as int, species, jitter@),
    {
        let radius: i64 = if size >= 0 { (size / 2) as i64 } else { 0 };
        if radius < 1 {
            proof {
                assert forall|px: int, py: int| old(self)@.in_bounds(px, py) implies #[trigger] self@.cell_at(
                    px,
                    py,
                ) == old(self)@.painted_at(px, py, x as int, y as int, size as int, species, jitter@) by {
                    assert((px - x) * (px - x) + (py - y) * (py - y) >= 0) by (nonlinear_arith);
                }
            }
            return;
        }
        let side: i64 = 2 * radius + 1;
        let count: usize = jitter.len();
        let generation: u8 = self.generation();
        let phase: u8 = generation % 127;
        let sway: u8 = if phase >= 60 { phase - 60 } else { 60 - phase };
        let mut dx: i64 = -radius;
        while dx <= radius
            invariant
                old(self).wf(),
                self.wf(),
                1 <= radius <= 0x4000_0000,
                radius == brush_radius(size as int),
                side == brush_side(size as int),
                generation == old(self)@.generation,
                sway == swing(generation),
                count == jitter@.len(),
                jitter@.len() >= brush_slots(size as int),
                forall|k: int| 0 <= k < jitter@.len() ==> jitter@[k] < JITTER_SPAN,
                -radius <= dx <= radius + 1,
                self@ == (Grid { cells: self@.cells, ..old(self)@ }),
                self@.cells.len() == old(self)@.cells.len(),
                forall|px: int, py: int|
                    old(self)@.in_bounds(px, py) ==> #[trigger] self@.cell_at(px, py) == (if -radius <= px - x
                        < dx {
                        old(self)@.painted_at(px, py, x as int, y as int, size as int, species, jitter@)
                    } else {
                        old(self)@.cell_at(px, py)
                    }),
            decreases radius + 1 - dx,
        {
            let mut dy: i64 = -radius;
            while dy <= radius
                invariant
                    old(self).wf(),
                    self.wf(),
                    1 <= radius <= 0x4000_0000,
                    radius == brush_radius(size as int),
                    side == brush_side(size as int),
                    generation == old(self)@.generation,
                    sway == swing(generation),
                    count == jitter@.len(),
                    jitter@.len() >= brush_slots(size as int),
                    forall|k: int| 0 <= k < jitter@.len() ==> jitter@[k] < JITTER_SPAN,
                    -radius <= dx <= radius,
                    -radius <= dy <= radius + 1,
                    self@ == (Grid { cells: self@.cells, ..old(self)@ }),
                    self@.cells.len() == old(self)@.cells.len(),
                    forall|px: int, py: int|
                        old(self)@.in_bounds(px, py) ==> #[trigger] self@.cell_at(px, py) == (if -radius <= px
                            - x < dx || (px - x == dx && -radius <= py - y < dy) {
                            old(self)@.painted_at(
                                px,
                                py,
                                x as int,
                                y as int,
                                size as int,
                                species,
                                jitter@,
                            )
                        } else {
                            old(self)@.cell_at(px, py)
                        }),
                decreases radius + 1 - dy,
            {
                proof {
                    assert(0 <= dx * dx <= radius * radius && 0 <= dy * dy <= radius * radius
                        && radius * radius <= 0x1000_0000_0000_0000) by (nonlinear_arith)
                        requires
                            -radius <= dx <= radius,
                            -radius <= dy <= radius,
                            radius <= 0x4000_0000,
                    ;
                }
                let inside = dx * dx + dy * dy < radius * radius;
                let px: i64 = x as i64 + dx;
                let py: i64 = y as i64 + dy;
                let ghost before = self@;
                if inside && 0 <= px && px < self.width() as i64 && 0 <= py && py < self.height() as i64 {
                    let here = self.get_cell(px as i32, py as i32);
                    if here.species == Species::Empty || species == Species::Empty {
                        proof {
                            lemma_brush_inside_square(dx as int, dy as int, size as int);
                            lemma_slot_in_range(dx + radius, dy + radius, side as int);
                            assert(side * side <= 0x8000_0001 * 0x8000_0001) by (nonlinear_arith)
                                requires 0 <= side <= 0x8000_0001;
                        }
                        let slot: i64 = (dx + radius) * side + (dy + radius);
                        assert(slot == brush_slot(dx as int, dy as int, size as int));
                        assert(0 <= slot < count);
                        let draw: u8 = jitter[slot as usize];
                        let fresh = Cell {
                            species,
                            ra: 80 + draw + sway,
                            rb: 0,
                            clock: generation,
                        };
                        self.put_cell(px as i32, py as i32, fresh);
                        proof {
                            lemma_index_in_range(before, px as int, py as int);
                            assert forall|qx: int, qy: int| old(self)@.in_bounds(qx, qy) && !(qx
                                == px && qy == py) implies #[trigger] self@.cell_at(qx, qy)
                                == before.cell_at(qx, qy) by {
                                if before.index(qx, qy) == before.index(px as int, py as int) {
                                    lemma_index_injective(before, qx, qy, px as int, py as int);
                                }
                                lemma_index_in_range(before, qx, qy);
                            }
                        }
                    }
                }
                dy += 1;
            }
            proof {
                assert forall|px: int, py: int| old(self)@.in_bounds(px, py) implies #[trigger] self@.cell_at(
                    px,
                    py,
                ) == (if -radius <= px - x < dx + 1 {
                    old(self)@.painted_at(px, py, x as int, y as int, size as int, species, jitter@)
                } else {
                    old(self)@.cell_at(px, py)
                }) by {
                    if in_brush(px - x, py - y, size as int) {
                        lemma_brush_inside_square(px - x, py - y, size as int);
                    }
                }
            }
            dx += 1;
        }
        proof {
            assert forall|px: int, py: int| old(self)@.in_bounds(px, py) implies #[trigger] self@.cell_at(
                px,
                py,
            ) == old(self)@.painted_at(px, py, x as int, y as int, size as int, species, jitter@) by {
                if in_brush(px - x, py - y, size as int) {
                    lemma_brush_inside_square(px - x, py - y, size as int);
                }
            }
        }
    }
}

} // verus!
