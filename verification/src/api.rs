use vstd::prelude::*;
use crate::cell::{Cell, Wind};
use crate::universe::{Grid, Universe};

verus! {

/// Whether a relative offset lies in the window that a rule may touch: one
/// column to either side, two rows up or down.
pub open spec fn in_window(dx: int, dy: int) -> bool {
    -1 <= dx <= 1 && -2 <= dy <= 2
}

/// The neighbourhood of one cell: the only way a material rule reaches the
/// grid. It holds the universe while the rule runs and is bound to the
/// position of the cell under update.
pub struct SandApi {
    x: i32,
    y: i32,
    universe: Universe,
}

impl View for SandApi {
    type V = Grid;

    closed spec fn view(&self) -> Grid {
        self.universe@
    }
}

impl SandApi {
    /// Column of the cell under update.
    pub closed spec fn x(&self) -> int {
        self.x as int
    }

    /// Row of the cell under update.
    pub closed spec fn y(&self) -> int {
        self.y as int
    }

    /// A neighbourhood is bound to a position inside a well-formed grid.
    pub open spec fn wf(&self) -> bool {
        self@.wf() && self@.in_bounds(self.x(), self.y())
    }

    pub(crate) fn seat(universe: Universe, x: i32, y: i32) -> (api: SandApi)
        ensures
            api@ == universe@,
            api.x() == x,
            api.y() == y,
    {
        SandApi { x, y, universe }
    }

    pub(crate) fn move_to(&mut self, x: i32, y: i32)
        ensures
            final(self)@ == old(self)@,
            final(self).x() == x,
            final(self).y() == y,
    {
        self.x = x;
        self.y = y;
    }

    pub(crate) fn release(self) -> (universe: Universe)
        ensures
            universe@ == self@,
    {
        self.universe
    }

    /// Prepares the write wind slot of the bound position for a rule: it is
    /// set to zero.
    pub(crate) fn calm(&mut self)
        requires
            old(self).wf(),
        ensures
            final(self)@ == old(self)@.with_burn(old(self).x(), old(self).y(), crate::cell::still_wind()),
            final(self).x() == old(self).x(),
            final(self).y() == old(self).y(),
    {
        self.universe.put_burn(self.x, self.y, Wind::still());
    }

    /// The generation of the running phase.
    pub fn generation(&self) -> (g: u8)
        ensures
            g == self@.generation,
    {
        self.universe.generation()
    }

    /// Executable form of [`in_window`].
    pub fn reaches(dx: i32, dy: i32) -> (b: bool)
        ensures
            b == in_window(dx as int, dy as int),
    {
        -1 <= dx && dx <= 1 && -2 <= dy && dy <= 2
    }

    /// Reads the cell at the offset `(dx, dy)` from the bound position.
    /// Outside the grid every position reads as a wall with zero registers,
    /// stamped with the current generation.
    pub fn get(&mut self, dx: i32, dy: i32) -> (c: Cell)
        requires
            old(self).wf(),
            in_window(dx as int, dy as int),
        ensures
            c == old(self)@.cell_at(old(self).x() + dx, old(self).y() + dy),
            *final(self) == *old(self),
    {
        let nx: i64 = self.x as i64 + dx as i64;
        let ny: i64 = self.y as i64 + dy as i64;
        if nx < 0 || nx >= self.universe.width() as i64 || ny < 0 || ny >= self.universe.height() as i64 {
            return Cell::wall(self.universe.generation());
        }
        self.universe.get_cell(nx as i32, ny as i32)
    }

    /// Writes `v` at the offset `(dx, dy)` from the bound position, stamped
    /// with the generation after the current one whatever stamp `v` carries.
    /// Outside the grid nothing is written.
    pub fn set(&mut self, dx: i32, dy: i32, v: Cell)
        requires
            old(self).wf(),
            in_window(dx as int, dy as int),
        ensures
            final(self)@ == old(self)@.with_cell(old(self).x() + dx, old(self).y() + dy, v),
            final(self).x() == old(self).x(),
            final(self).y() == old(self).y(),
    {
        let nx: i64 = self.x as i64 + dx as i64;
        let ny: i64 = self.y as i64 + dy as i64;
        if nx < 0 || nx >= self.universe.width() as i64 || ny < 0 || ny >= self.universe.height() as i64 {
            return;
        }
        let stamp: u8 = self.universe.generation().wrapping_add(1);
        self.universe.put_cell(nx as i32, ny as i32, Cell { species: v.species, ra: v.ra, rb: v.rb, clock: stamp });
    }

    /// Reads the read wind buffer at the bound position.
    pub fn get_fluid(&mut self) -> (w: Wind)
        requires
            old(self).wf(),
        ensures
            w == old(self)@.wind_at(old(self).x(), old(self).y()),
            *final(self) == *old(self),
    {
        self.universe.get_wind(self.x, self.y)
    }

    /// Writes the write wind buffer at the bound position. The read buffer
    /// is left as it is.
    pub fn set_fluid(&mut self, v: Wind)
        requires
            old(self).wf(),
        ensures
            final(self)@ == old(self)@.with_burn(old(self).x(), old(self).y(), v),
            final(self).x() == old(self).x(),
            final(self).y() == old(self).y(),
    {
        self.universe.put_burn(self.x, self.y, v);
    }
}

} // verus!
