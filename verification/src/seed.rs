use vstd::prelude::*;
use crate::cell::{Cell, empty_cell, still_wind};
use crate::species::Species;
use crate::universe::Universe;

verus! {

/// Upper bound, exclusive, of the random part of a scattered cell's register.
pub const TINT_SPAN: u8 = 70;

/// The random draws that decide what one cell of a new universe holds.
#[derive(Clone, Copy, Debug)]
pub struct Scatter {
    /// The rare draw that lets a seed sprout.
    pub sprout: bool,
    /// The frequent draw that leaves the cell free.
    pub sparse: bool,
    /// The random part of the cell's register, below 70.
    pub tint: u8,
}

/// The cell at flat offset `i` of a new universe of `total` cells: a seed
/// where `sprout` was drawn in the first quarter of the offsets; else free
/// where `sparse` was drawn or in the first third; else sand.
pub open spec fn scattered_cell(draw: Scatter, i: int, total: int) -> Cell {
    if draw.sprout && i < total / 4 {
        Cell { species: Species::Seed, ra: (80 + draw.tint) as u8, rb: 0, clock: 0 }
    } else if draw.sparse || i < total / 3 {
        empty_cell()
    } else {
        Cell { species: Species::Sand, ra: (80 + draw.tint) as u8, rb: 0, clock: 0 }
    }
}

impl Universe {
    /// A universe of `width` by `height` cells, scattered from one draw per
    /// cell, with still winds, at generation 0 and with an empty history.
    pub fn new(width: i32, height: i32, draws: &Vec<Scatter>) -> (u: Universe)
        requires
            0 <= width,
            0 <= height,
            width * height <= i32::MAX,
            draws@.len() == width * height,
            forall|k: int| 0 <= k < draws@.len() ==> draws@[k].tint < TINT_SPAN,
        ensures
            u.wf(),
            u@.width == width,
            u@.height == height,
            u@.generation == 0,
            u@.undo == Seq::<Seq<Cell>>::empty(),
            u@.winds == Seq::new(draws@.len(), |i: int| still_wind()),
            u@.burns == Seq::new(draws@.len(), |i: int| still_wind()),
            u@.cells == Seq::new(draws@.len(), |i: int| scattered_cell(draws@[i], i, draws@.len() as int)),
    {
        let total: usize = draws.len();
        let mut cells: Vec<Cell> = Vec::new();
        let mut i: usize = 0;
        while i < total
            invariant
                i <= total,
                total == draws@.len(),
                forall|k: int| 0 <= k < draws@.len() ==> draws@[k].tint < TINT_SPAN,
                cells@.len() == i,
                forall|k: int| 0 <= k < i ==> cells@[k] == scattered_cell(draws@[k], k, total as int),
            decreases total - i,
        {
            let draw = draws[i];
            let cell = if draw.sprout && i < total / 4 {
                Cell { species: Species::Seed, ra: 80 + draw.tint, rb: 0, clock: 0 }
            } else if draw.sparse || i < total / 3 {
                Cell::empty()
            } else {
                Cell { species: Species::Sand, ra: 80 + draw.tint, rb: 0, clock: 0 }
            };
            cells.push(cell);
            i += 1;
        }
        assert(cells@ =~= Seq::new(draws@.len(), |i: int| scattered_cell(draws@[i], i, draws@.len() as int)));
        Universe::from_cells(width, height, cells)
    }
}

} // verus!
