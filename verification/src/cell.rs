use vstd::prelude::*;
use crate::species::Species;

verus! {

/// Directional flow at one grid position. `dx` and `dy` are stored with an
/// offset: 126 means no flow along that axis.
#[derive(Clone, Copy, Debug, PartialEq, Eq, Structural)]
pub struct Wind {
    pub dx: u8,
    pub dy: u8,
    pub pressure: u8,
    pub density: u8,
}

/// One grid cell: a material tag, two registers that belong to the
/// material's rule, and the generation stamp of the last write.
#[derive(Clone, Copy, Debug, PartialEq, Eq, Structural)]
pub struct Cell {
    pub species: Species,
    pub ra: u8,
    pub rb: u8,
    pub clock: u8,
}

/// The stored byte that stands for no flow.
pub const WIND_CENTER: u8 = 126;

/// The free cell: no material, zero registers, zero stamp.
pub open spec fn empty_cell() -> Cell {
    Cell { species: Species::Empty, ra: 0, rb: 0, clock: 0 }
}

/// The cell reported for every position outside the grid.
pub open spec fn wall_cell(generation: u8) -> Cell {
    Cell { species: Species::Wall, ra: 0, rb: 0, clock: generation }
}

/// Wind with all four fields zero.
pub open spec fn still_wind() -> Wind {
    Wind { dx: 0, dy: 0, pressure: 0, density: 0 }
}

/// The generation that follows `generation`, wrapping at 256.
pub open spec fn next_generation(generation: u8) -> u8 {
    if generation == 255 { 0u8 } else { (generation + 1) as u8 }
}

/// Whether a cell carrying `clock` was already written during the phase
/// that runs at `generation`.
pub open spec fn is_stamped(clock: u8, generation: u8) -> bool {
    clock == next_generation(generation)
}

impl Cell {
    /// The free cell.
    pub fn empty() -> (c: Cell)
        ensures
            c == empty_cell(),
    {
        Cell { species: Species::Empty, ra: 0, rb: 0, clock: 0 }
    }

    /// The boundary cell as seen at `generation`.
    pub fn wall(generation: u8) -> (c: Cell)
        ensures
            c == wall_cell(generation),
    {
        Cell { species: Species::Wall, ra: 0, rb: 0, clock: generation }
    }

    /// Whether this cell was already written during the phase that runs at
    /// `generation`.
    pub fn stamped(&self, generation: u8) -> (b: bool)
        ensures
            b == is_stamped(self.clock, generation),
    {
        self.clock == generation.wrapping_add(1)
    }
}

impl Wind {
    /// Wind with all four fields zero.
    pub fn still() -> (w: Wind)
        ensures
            w == still_wind(),
    {
        Wind { dx: 0, dy: 0, pressure: 0, density: 0 }
    }
}

} // verus!
