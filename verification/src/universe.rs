use vstd::prelude::*;
use std::collections::VecDeque;
use crate::cell::{Cell, Wind, empty_cell, wall_cell, still_wind, next_generation};

verus! {

/// How many snapshots the undo history keeps.
pub const UNDO_LIMIT: usize = 50;

/// The mathematical content of a [`Universe`].
pub struct Grid {
    pub width: int,
    pub height: int,
    /// Row-major cells: position `(x, y)` is at `x + y * width`.
    pub cells: Seq<Cell>,
    /// The wind buffer that transport and fluid reads consult.
    pub winds: Seq<Wind>,
    /// The wind buffer that collects what materials emit.
    pub burns: Seq<Wind>,
    pub generation: u8,
    /// Snapshots of `cells`, newest first.
    pub undo: Seq<Seq<Cell>>,
}

impl Grid {
    /// The shape that every operation keeps.
    pub open spec fn wf(self) -> bool {
        &&& 0 <= self.width
        &&& 0 <= self.height
        &&& self.width * self.height <= i32::MAX
        &&& self.cells.len() == self.width * self.height
        &&& self.winds.len() == self.width * self.height
        &&& self.burns.len() == self.width * self.height
        &&& self.undo.len() <= UNDO_LIMIT
        &&& forall|k: int| 0 <= k < self.undo.len() ==> (#[trigger] self.undo[k]).len() == self.cells.len()
    }

    pub open spec fn in_bounds(self, x: int, y: int) -> bool {
        0 <= x < self.width && 0 <= y < self.height
    }

    /// Flat offset of `(x, y)`.
    pub open spec fn index(self, x: int, y: int) -> int {
        x + y * self.width
    }

    /// Flat offset of `(x, y)` in the wind buffers, whose rows run the other
    /// way: wind row 0 lies under cell row `height - 1`.
    pub open spec fn wind_index(self, x: int, y: int) -> int {
        self.index(x, self.height - 1 - y)
    }

    /// What a rule sees at `(x, y)`: the stored cell, or a wall stamped with
    /// the current generation where the position is outside the grid.
    pub open spec fn cell_at(self, x: int, y: int) -> Cell {
        if self.in_bounds(x, y) {
            self.cells[self.index(x, y)]
        } else {
            wall_cell(self.generation)
        }
    }

    /// The read wind at `(x, y)`.
    pub open spec fn wind_at(self, x: int, y: int) -> Wind {
        self.winds[self.wind_index(x, y)]
    }

    /// The grid after `wind` was emitted at `(x, y)`: only the write buffer
    /// changes.
    pub open spec fn with_burn(self, x: int, y: int, wind: Wind) -> Grid {
        Grid { burns: self.burns.update(self.wind_index(x, y), wind), ..self }
    }

    /// The grid one phase later.
    pub open spec fn advanced(self) -> Grid {
        Grid { generation: next_generation(self.generation), ..self }
    }

    /// The grid with every cell free.
    pub open spec fn cleared(self) -> Grid {
        Grid { cells: Seq::new(self.cells.len(), |i: int| empty_cell()), ..self }
    }

    /// The grid after its cells were copied to the front of the history,
    /// the oldest snapshot leaving once the limit is passed.
    pub open spec fn pushed(self) -> Grid {
        let grown = seq![self.cells] + self.undo;
        Grid {
            undo: if grown.len() > UNDO_LIMIT { grown.subrange(0, UNDO_LIMIT as int) } else { grown },
            ..self
        }
    }

    /// The grid after the newest snapshot replaced its cells; with an empty
    /// history nothing changes.
    pub open spec fn popped(self) -> Grid {
        if self.undo.len() > 0 {
            Grid { cells: self.undo[0], undo: self.undo.subrange(1, self.undo.len() as int), ..self }
        } else {
            self
        }
    }

    /// The grid with an empty history.
    pub open spec fn flushed(self) -> Grid {
        Grid { undo: Seq::empty(), ..self }
    }

    /// The grid after a rule wrote `cell` at `(x, y)`: the cell is stored
    /// with the stamp of the running phase; outside the grid nothing changes.
    pub open spec fn with_cell(self, x: int, y: int, cell: Cell) -> Grid {
        if self.in_bounds(x, y) {
            Grid {
                cells: self.cells.update(
                    self.index(x, y),
                    Cell { clock: next_generation(self.generation), ..cell },
                ),
                ..self
            }
        } else {
            self
        }
    }
}

/// Inside the grid, the flat offset is a valid position of every buffer.
pub proof fn lemma_index_in_range(g: Grid, x: int, y: int)
    requires
        0 <= g.width,
        0 <= g.height,
        g.in_bounds(x, y),
    ensures
        0 <= y * g.width <= g.width * g.height - g.width,
        0 <= g.index(x, y) < g.width * g.height,
        0 <= g.wind_index(x, y) < g.width * g.height,
        g.in_bounds(x, g.height - 1 - y),
{
    let w = g.width;
    let h = g.height;
    assert(0 <= y * w && y * w <= w * h - w) by (nonlinear_arith)
        requires 0 <= y < h, 0 < w;
    let z = h - 1 - y;
    assert(0 <= z * w && z * w <= w * h - w) by (nonlinear_arith)
        requires 0 <= z < h, 0 < w;
}

/// The simulation state: cells, two wind buffers, the generation counter
/// and the undo history.
pub struct Universe {
    width: i32,
    height: i32,
    cells: Vec<Cell>,
    undo_stack: VecDeque<Vec<Cell>>,
    winds: Vec<Wind>,
    burns: Vec<Wind>,
    generation: u8,
}

impl View for Universe {
    type V = Grid;

    closed spec fn view(&self) -> Grid {
        Grid {
            width: self.width as int,
            height: self.height as int,
            cells: self.cells@,
            winds: self.winds@,
            burns: self.burns@,
            generation: self.generation,
            undo: Seq::new(self.undo_stack@.len(), |k: int| self.undo_stack@[k]@),
        }
    }
}

impl Universe {
    /// The invariant of a universe: that of its grid.
    pub open spec fn wf(&self) -> bool {
        self@.wf()
    }

    /// A universe without cells.
    pub(crate) fn hollow() -> (u: Universe)
        ensures
            u.wf(),
    {
        Universe {
            width: 0,
            height: 0,
            cells: Vec::new(),
            undo_stack: VecDeque::new(),
            winds: Vec::new(),
            burns: Vec::new(),
            generation: 0,
        }
    }

    /// A universe of the given shape and cells, with still winds, at
    /// generation 0 and with an empty history.
    pub fn from_cells(width: i32, height: i32, cells: Vec<Cell>) -> (u: Universe)
        requires
            0 <= width,
            0 <= height,
            width * height <= i32::MAX,
            cells@.len() == width * height,
        ensures
            u.wf(),
            u@.width == width,
            u@.height == height,
            u@.cells == cells@,
            u@.generation == 0,
            u@.undo == Seq::<Seq<Cell>>::empty(),
            u@.winds == Seq::new(cells@.len(), |i: int| still_wind()),
            u@.burns == Seq::new(cells@.len(), |i: int| still_wind()),
    {
        let n: usize = cells.len();
        let mut winds: Vec<Wind> = Vec::new();
        let mut burns: Vec<Wind> = Vec::new();
        let mut i: usize = 0;
        while i < n
            invariant
                i <= n,
                winds@ == Seq::new(i as nat, |k: int| still_wind()),
                burns@ == Seq::new(i as nat, |k: int| still_wind()),
            decreases n - i,
        {
            winds.push(Wind::still());
            burns.push(Wind::still());
            i += 1;
            assert(winds@ =~= Seq::new(i as nat, |k: int| still_wind()));
            assert(burns@ =~= Seq::new(i as nat, |k: int| still_wind()));
        }
        let u = Universe {
            width,
            height,
            cells,
            undo_stack: VecDeque::with_capacity(50),
            winds,
            burns,
            generation: 0,
        };
        assert(u@.undo =~= Seq::<Seq<Cell>>::empty());
        u
    }

    pub fn width(&self) -> (w: i32)
        ensures
            w == self@.width,
    {
        self.width
    }

    pub fn height(&self) -> (h: i32)
        ensures
            h == self@.height,
    {
        self.height
    }

    /// The generation counter.
    pub fn generation(&self) -> (g: u8)
        ensures
            g == self@.generation,
    {
        self.generation
    }

    /// The cells, row-major.
    pub fn cells(&self) -> (view: &Vec<Cell>)
        ensures
            view@ == self@.cells,
    {
        &self.cells
    }

    /// The wind buffer that is read.
    pub fn winds(&self) -> (view: &Vec<Wind>)
        ensures
            view@ == self@.winds,
    {
        &self.winds
    }

    /// The wind buffer that is written.
    pub fn burns(&self) -> (view: &Vec<Wind>)
        ensures
            view@ == self@.burns,
    {
        &self.burns
    }

    /// Replaces the read wind buffer.
    pub fn set_winds(&mut self, winds: Vec<Wind>)
        requires
            old(self).wf(),
            winds@.len() == old(self)@.winds.len(),
        ensures
            final(self)@ == (Grid { winds: winds@, ..old(self)@ }),
    {
        self.winds = winds;
    }

    pub(crate) fn get_index(&self, x: i32, y: i32) -> (i: usize)
        requires
            self.wf(),
            self@.in_bounds(x as int, y as int),
        ensures
            i == self@.index(x as int, y as int),
            i < self@.cells.len(),
    {
        proof {
            lemma_index_in_range(self@, x as int, y as int);
        }
        let i: i32 = x + y * self.width;
        i as usize
    }

    pub(crate) fn get_cell(&self, x: i32, y: i32) -> (c: Cell)
        requires
            self.wf(),
            self@.in_bounds(x as int, y as int),
        ensures
            c == self@.cell_at(x as int, y as int),
    {
        let i: usize = self.get_index(x, y);
        self.cells[i]
    }

    pub(crate) fn get_wind(&self, x: i32, y: i32) -> (w: Wind)
        requires
            self.wf(),
            self@.in_bounds(x as int, y as int),
        ensures
            w == self@.wind_at(x as int, y as int),
    {
        proof {
            lemma_index_in_range(self@, x as int, y as int);
        }
        let i: usize = self.get_index(x, (self.height - y) - 1);
        self.winds[i]
    }

    /// Stores `cell` at `(x, y)` as it is.
    pub(crate) fn put_cell(&mut self, x: i32, y: i32, cell: Cell)
        requires
            old(self).wf(),
            old(self)@.in_bounds(x as int, y as int),
        ensures
            final(self)@ == (Grid {
                cells: old(self)@.cells.update(old(self)@.index(x as int, y as int), cell),
                ..old(self)@
            }),
    {
        let i: usize = self.get_index(x, y);
        self.cells[i] = cell;
    }

    pub(crate) fn put_burn(&mut self, x: i32, y: i32, wind: Wind)
        requires
            old(self).wf(),
            old(self)@.in_bounds(x as int, y as int),
        ensures
            final(self)@ == old(self)@.with_burn(x as int, y as int, wind),
    {
        proof {
            lemma_index_in_range(self@, x as int, y as int);
        }
        let i: usize = self.get_index(x, (self.height - y) - 1);
        self.burns[i] = wind;
    }

    pub(crate) fn advance(&mut self)
        ensures
            final(self)@ == old(self)@.advanced(),
    {
        self.generation = self.generation.wrapping_add(1);
    }

    /// Frees every cell. Winds, generation and history stay.
    pub fn reset(&mut self)
        requires
            old(self).wf(),
        ensures
            final(self)@ == old(self)@.cleared(),
    {
        let n: usize = self.cells.len();
        let mut i: usize = 0;
        while i < n
            invariant
                i <= n,
                n == old(self)@.cells.len(),
                self.cells@.len() == n,
                forall|k: int| 0 <= k < i ==> self.cells@[k] == empty_cell(),
                self@ == (Grid { cells: self.cells@, ..old(self)@ }),
            decreases n - i,
        {
            self.cells[i] = Cell::empty();
            i += 1;
        }
        assert(self.cells@ =~= old(self)@.cleared().cells);
    }

    /// Copies the cells to the front of the history and drops the oldest
    /// snapshot beyond the limit.
    pub fn push_undo(&mut self)
        requires
            old(self).wf(),
        ensures
            final(self)@ == old(self)@.pushed(),
    {
        let snapshot = self.cells.clone();
        assert(snapshot@ =~= self.cells@);
        self.undo_stack.push_front(snapshot);
        self.undo_stack.truncate(UNDO_LIMIT);
        assert(self@.undo =~= old(self)@.pushed().undo);
    }

    /// Puts the newest snapshot back in place of the cells and removes it
    /// from the history; does nothing when the history is empty.
    pub fn pop_undo(&mut self)
        requires
            old(self).wf(),
        ensures
            final(self)@ == old(self)@.popped(),
    {
        let old_state = self.undo_stack.pop_front();
        match old_state {
            Some(state) => {
                self.cells = state;
                assert(self@.undo =~= old(self)@.popped().undo);
            },
            None => {
                assert(self@.undo =~= old(self)@.undo);
            },
        }
    }

    /// Empties the history.
    pub fn flush_undos(&mut self)
        requires
            old(self).wf(),
        ensures
            final(self)@ == old(self)@.flushed(),
    {
        self.undo_stack.clear();
        assert(self@.undo =~= Seq::<Seq<Cell>>::empty());
    }
}

} // verus!
