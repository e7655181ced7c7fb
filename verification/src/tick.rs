use vstd::prelude::*;
use crate::api::SandApi;
use crate::cell::{Cell, Wind, WIND_CENTER, empty_cell, is_stamped, next_generation, still_wind};
use crate::species::{Species, wind_threshold, is_lofted};
use crate::universe::{Grid, Universe};

verus! {

/// Unit displacement that a stored wind byte causes along its axis for a
/// material with the given threshold: the byte is centred on 126.
pub open spec fn gust(stored: u8, threshold: int) -> int {
    let flow = stored - WIND_CENTER;
    if flow < -threshold {
        -1
    } else if flow > threshold {
        1
    } else {
        0
    }
}

impl Grid {
    /// Wind transport of the cell at `(x, y)`. A cell already written in
    /// this phase, or a free one, stays. Otherwise the wind at the position
    /// gives a unit step per axis (a positive vertical flow blows upwards,
    /// towards smaller `y`); if the step is not zero and leads to a free
    /// cell, the source is freed and the cell is written there, or two rows
    /// up where it rises, belongs to the lofted materials and finds that
    /// cell free too.
    pub open spec fn blown_at(self, x: int, y: int) -> Grid {
        let cell = self.cell_at(x, y);
        let wind = self.wind_at(x, y);
        let dx = gust(wind.dx, wind_threshold(cell.species));
        let dy = -gust(wind.dy, wind_threshold(cell.species));
        if is_stamped(cell.clock, self.generation) || cell.species == Species::Empty {
            self
        } else if (dx != 0 || dy != 0) && self.cell_at(x + dx, y + dy).species == Species::Empty {
            let vacated = self.with_cell(x, y, empty_cell());
            let leap = dy == -1 && vacated.cell_at(x + dx, y - 2).species == Species::Empty
                && is_lofted(cell.species);
            vacated.with_cell(x + dx, if leap { y - 2 } else { y + dy }, cell)
        } else {
            self
        }
    }

    /// Wind transport of the first `rows` cells of column `x`, top down.
    pub open spec fn blown_column(self, x: int, rows: nat) -> Grid
        decreases rows,
    {
        if rows == 0 {
            self
        } else {
            self.blown_column(x, (rows - 1) as nat).blown_at(x, rows - 1)
        }
    }

    /// Wind transport of the first `columns` columns, left to right.
    pub open spec fn blown_columns(self, columns: nat) -> Grid
        decreases columns,
    {
        if columns == 0 {
            self
        } else {
            self.blown_columns((columns - 1) as nat).blown_column(columns - 1, self.height as nat)
        }
    }

    /// The grid after the wind phase: every column swept, then the
    /// generation advanced by one.
    pub open spec fn blown(self) -> Grid {
        self.blown_columns(self.width as nat).advanced()
    }

    /// What a material rule may have done to `before` while the phase ran:
    /// shape, generation, read winds and history are the same, and every
    /// cell is either as it was or carries the stamp of the phase.
    pub open spec fn touched_from(self, before: Grid) -> bool {
        &&& self.width == before.width
        &&& self.height == before.height
        &&& self.generation == before.generation
        &&& self.winds == before.winds
        &&& self.undo == before.undo
        &&& self.cells.len() == before.cells.len()
        &&& self.burns.len() == before.burns.len()
        &&& forall|i: int|
            0 <= i < self.cells.len() ==> #[trigger] self.cells[i] == before.cells[i]
                || is_stamped(self.cells[i].clock, self.generation)
    }

    /// What holds of the grid `after` a phase that started on `self`,
    /// whatever the rules did: it is touched as above and one generation
    /// further.
    pub open spec fn phase_outcome(self, after: Grid) -> bool {
        exists|mid: Grid| #[trigger] mid.touched_from(self) && after == mid.advanced()
    }

    /// Column visited at step `step` of a row of the material phase: left to
    /// right while the phase runs on an odd generation, which is the case in
    /// a tick that started on an even one, and right to left otherwise.
    pub open spec fn scan_column(self, step: int) -> int {
        if self.generation % 2 == 1 {
            step
        } else {
            self.width - 1 - step
        }
    }
}

/// The rule of the materials: what a cell does when its turn comes.
pub trait Material: Sized {
    /// What one update may do. `self` and `grid` are the rules and the grid
    /// when the update of `cell` at `(x, y)` begins, `after_rules` and
    /// `after` what they are when it ends. Rules that do not say more allow
    /// everything.
    open spec fn allows(&self, cell: Cell, x: int, y: int, grid: Grid, after_rules: &Self, after: Grid) -> bool {
        true
    }

    /// Updates `cell`, the cell at the position that `api` is bound to,
    /// through `api` alone.
    fn update(&mut self, cell: Cell, api: &mut SandApi)
        requires
            old(api).wf(),
            cell == old(api)@.cell_at(old(api).x(), old(api).y()),
            !is_stamped(cell.clock, old(api)@.generation),
        ensures
            final(api)@.touched_from(old(api)@),
            old(self).allows(cell, old(api).x(), old(api).y(), old(api)@, final(self), final(api)@),
    ;
}

/// The rule under which no material does anything.
pub struct Inert;

impl Material for Inert {
    open spec fn allows(&self, cell: Cell, x: int, y: int, grid: Grid, after_rules: &Self, after: Grid) -> bool {
        after == grid
    }

    fn update(&mut self, cell: Cell, api: &mut SandApi) {
    }
}

/// One visit of the material phase, at `(x, y)`: the write wind slot of the
/// position is set to zero; then a cell already written in this phase is
/// left alone, and any other is handed to the rules together with the grid
/// as it then stands.
pub open spec fn visited<M: Material>(
    rules: M,
    grid: Grid,
    x: int,
    y: int,
    after_rules: M,
    after: Grid,
) -> bool {
    let cell = grid.cell_at(x, y);
    let calmed = grid.with_burn(x, y, still_wind());
    if is_stamped(cell.clock, grid.generation) {
        after_rules == rules && after == calmed
    } else {
        rules.allows(cell, x, y, calmed, &after_rules, after) && after.touched_from(calmed)
    }
}

/// The visit that brings a sweep of `grid` to `steps` steps: step `k`,
/// counted from 0, is at row `k / width` and at the column that
/// [`Grid::scan_column`] gives for `k % width`.
pub open spec fn step_visited<M: Material>(
    grid: Grid,
    steps: nat,
    rules: M,
    before: Grid,
    after_rules: M,
    after: Grid,
) -> bool {
    visited(
        rules,
        before,
        grid.scan_column((steps - 1) % grid.width),
        (steps - 1) / grid.width,
        after_rules,
        after,
    )
}

/// The first `steps` visits of the material phase that starts with `rules`
/// on `grid`: rows from the top, and in each row the columns in the order
/// of [`Grid::scan_column`].
pub open spec fn swept<M: Material>(rules: M, grid: Grid, steps: nat, after_rules: M, after: Grid) -> bool
    decreases steps,
{
    if steps == 0 {
        after_rules == rules && after == grid
    } else {
        exists|mid_rules: M, mid: Grid|
            swept(rules, grid, (steps - 1) as nat, mid_rules, mid) && #[trigger] step_visited(
                grid,
                steps,
                mid_rules,
                mid,
                after_rules,
                after,
            )
    }
}

/// A sweep followed by the next visit is a sweep of one more step.
pub proof fn lemma_swept_step<M: Material>(
    rules: M,
    grid: Grid,
    steps: nat,
    mid_rules: M,
    mid: Grid,
    after_rules: M,
    after: Grid,
)
    requires
        steps > 0,
        swept(rules, grid, (steps - 1) as nat, mid_rules, mid),
        step_visited(grid, steps, mid_rules, mid, after_rules, after),
    ensures
        swept(rules, grid, steps, after_rules, after),
{
}

/// The material phase: every position visited once, then the generation
/// advanced by one.
pub open spec fn material_phase<M: Material>(rules: M, grid: Grid, after_rules: M, after: Grid) -> bool {
    exists|mid: Grid|
        #[trigger] swept(rules, grid, (grid.width * grid.height) as nat, after_rules, mid) && after
            == mid.advanced()
}

/// Writing a cell through a neighbourhood is a touch.
pub proof fn lemma_write_touches(g: Grid, x: int, y: int, cell: Cell)
    requires
        g.wf(),
    ensures
        g.with_cell(x, y, cell).touched_from(g),
        g.with_cell(x, y, cell).wf(),
{
    if g.in_bounds(x, y) {
        crate::universe::lemma_index_in_range(g, x, y);
    }
}

/// Touches compose.
pub proof fn lemma_touched_trans(a: Grid, b: Grid, c: Grid)
    requires
        b.touched_from(a),
        c.touched_from(b),
    ensures
        c.touched_from(a),
{
    assert forall|i: int| 0 <= i < c.cells.len() implies #[trigger] c.cells[i] == a.cells[i]
        || is_stamped(c.cells[i].clock, c.generation) by {
        assert(c.cells[i] == b.cells[i] || is_stamped(c.cells[i].clock, c.generation));
        assert(b.cells[i] == a.cells[i] || is_stamped(b.cells[i].clock, b.generation));
    }
}

/// Wind transport of one cell keeps the shape of the grid and touches it.
pub proof fn lemma_blown_at_touches(g: Grid, x: int, y: int)
    requires
        g.wf(),
        g.in_bounds(x, y),
    ensures
        g.blown_at(x, y).wf(),
        g.blown_at(x, y).touched_from(g),
        g.blown_at(x, y).burns == g.burns,
{
    let vacated = g.with_cell(x, y, empty_cell());
    lemma_write_touches(g, x, y, empty_cell());
    let wind = g.wind_at(x, y);
    let cell = g.cell_at(x, y);
    let dx = gust(wind.dx, wind_threshold(cell.species));
    let dy = -gust(wind.dy, wind_threshold(cell.species));
    lemma_write_touches(vacated, x + dx, y - 2, cell);
    lemma_write_touches(vacated, x + dx, y + dy, cell);
    lemma_touched_trans(g, vacated, vacated.with_cell(x + dx, y - 2, cell));
    lemma_touched_trans(g, vacated, vacated.with_cell(x + dx, y + dy, cell));
}

/// A cell that the transport of another cell has changed is not carried
/// again in the same phase: it bears the stamp of the phase, and its own
/// transport leaves the grid as it is.
pub proof fn lemma_moved_cell_rests(g: Grid, x: int, y: int, qx: int, qy: int)
    requires
        g.wf(),
        g.in_bounds(x, y),
        g.in_bounds(qx, qy),
        g.blown_at(x, y).cell_at(qx, qy) != g.cell_at(qx, qy),
    ensures
        is_stamped(g.blown_at(x, y).cell_at(qx, qy).clock, g.generation),
        g.blown_at(x, y).blown_at(qx, qy) == g.blown_at(x, y),
{
    lemma_blown_at_touches(g, x, y);
    crate::universe::lemma_index_in_range(g, qx, qy);
}

impl Cell {
    /// Hands this cell, the cell at the position that `api` is bound to, to
    /// the rules.
    pub fn update<M: Material>(&self, api: &mut SandApi, rules: &mut M)
        requires
            old(api).wf(),
            *self == old(api)@.cell_at(old(api).x(), old(api).y()),
            !is_stamped(self.clock, old(api)@.generation),
        ensures
            final(api)@.touched_from(old(api)@),
            old(rules).allows(*self, old(api).x(), old(api).y(), old(api)@, final(rules), final(api)@),
    {
        rules.update(*self, api);
    }
}

impl Universe {
    /// Wind transport of the cell that `api` is bound to.
    fn blow_wind(cell: Cell, wind: Wind, api: &mut SandApi)
        requires
            old(api).wf(),
            cell == old(api)@.cell_at(old(api).x(), old(api).y()),
            wind == old(api)@.wind_at(old(api).x(), old(api).y()),
        ensures
            final(api)@ == old(api)@.blown_at(old(api).x(), old(api).y()),
            final(api).x() == old(api).x(),
            final(api).y() == old(api).y(),
    {
        if cell.stamped(api.generation()) {
            return;
        }
        if cell.species == Species::Empty {
            return;
        }
        let mut dx: i32 = 0;
        let mut dy: i32 = 0;
        let threshold: i32 = cell.species.threshold();
        let wx: i32 = (wind.dx as i32) - (WIND_CENTER as i32);
        let wy: i32 = (wind.dy as i32) - (WIND_CENTER as i32);
        if wx > threshold {
            dx = 1;
        }
        if wy > threshold {
            dy = -1;
        }
        if wx < -threshold {
            dx = -1;
        }
        if wy < -threshold {
            dy = 1;
        }
        if dx != 0 || dy != 0 {
            let target = api.get(dx, dy);
            if target.species == Species::Empty {
                proof {
                    lemma_write_touches(api@, api.x(), api.y(), empty_cell());
                }
                api.set(0, 0, Cell::empty());
                if dy == -1 && cell.species.lofted() {
                    let above = api.get(dx, -2);
                    if above.species == Species::Empty {
                        dy = -2;
                    }
                }
                api.set(dx, dy, cell);
            }
        }
    }

    /// The material update of the cell that `api` is bound to: a cell already
    /// written in this phase is left alone, any other is handed to the rules.
    fn update_cell<M: Material>(cell: Cell, api: &mut SandApi, rules: &mut M)
        requires
            old(api).wf(),
            cell == old(api)@.cell_at(old(api).x(), old(api).y()),
        ensures
            final(api)@.touched_from(old(api)@),
            is_stamped(cell.clock, old(api)@.generation) ==> final(api)@ == old(api)@ && *final(rules) == *old(
                rules,
            ),
            !is_stamped(cell.clock, old(api)@.generation) ==> old(rules).allows(
                cell,
                old(api).x(),
                old(api).y(),
                old(api)@,
                final(rules),
                final(api)@,
            ),
    {
        if cell.stamped(api.generation()) {
            return;
        }
        cell.update(api, rules);
    }

    /// The wind phase: every cell, column by column from the left and in
    /// each column from the top, is carried by the wind at its position;
    /// then the generation advances by one.
    pub fn wind_pass(&mut self)
        requires
            old(self).wf(),
        ensures
            final(self)@ == old(self)@.blown(),
            final(self).wf(),
            old(self)@.phase_outcome(final(self)@),
            final(self)@.burns == old(self)@.burns,
    {
        let width: i32 = self.width();
        let height: i32 = self.height();
        let mut held = Universe::hollow();
        core::mem::swap(self, &mut held);
        let mut api = SandApi::seat(held, 0, 0);
        let mut x: i32 = 0;
        while x < width
            invariant
                0 <= x <= width,
                width == old(self)@.width,
                height == old(self)@.height,
                api@ == old(self)@.blown_columns(x as nat),
                api@.wf(),
                api@.touched_from(old(self)@),
                api@.burns == old(self)@.burns,
            decreases width - x,
        {
            let ghost column_start = api@;
            let mut y: i32 = 0;
            while y < height
                invariant
                    0 <= x < width,
                    0 <= y <= height,
                    width == old(self)@.width,
                    height == old(self)@.height,
                    api@ == column_start.blown_column(x as int, y as nat),
                    api@.wf(),
                    api@.touched_from(old(self)@),
                    api@.burns == old(self)@.burns,
                decreases height - y,
            {
                api.move_to(x, y);
                let cell = api.get(0, 0);
                let wind = api.get_fluid();
                proof {
                    lemma_blown_at_touches(api@, x as int, y as int);
                    lemma_touched_trans(old(self)@, api@, api@.blown_at(x as int, y as int));
                }
                Universe::blow_wind(cell, wind, &mut api);
                y += 1;
            }
            x += 1;
        }
        let mut held = api.release();
        proof {
            assert(held@.touched_from(old(self)@));
        }
        held.advance();
        core::mem::swap(self, &mut held);
    }

    /// The material phase: rows from the top; in each row the columns in
    /// the order of [`Grid::scan_column`]. At each position the write wind
    /// slot is set to zero, and the cell, unless it was already written in
    /// this phase, is handed to `rules`. Then the generation advances by
    /// one.
    pub fn material_pass<M: Material>(&mut self, rules: &mut M)
        requires
            old(self).wf(),
        ensures
            final(self).wf(),
            old(self)@.phase_outcome(final(self)@),
            material_phase(*old(rules), old(self)@, *final(rules), final(self)@),
    {
        let width: i32 = self.width();
        let height: i32 = self.height();
        let ascending = self.generation() % 2 == 1;
        let mut held = Universe::hollow();
        core::mem::swap(self, &mut held);
        let mut api = SandApi::seat(held, 0, 0);
        let ghost mut done: int = 0;
        let mut y: i32 = 0;
        while y < height
            invariant
                0 <= y <= height,
                width == old(self)@.width,
                height == old(self)@.height,
                ascending == (old(self)@.generation % 2 == 1),
                api@.wf(),
                api@.touched_from(old(self)@),
                done == y * width,
                swept(*old(rules), old(self)@, done as nat, *rules, api@),
            decreases height - y,
        {
            let mut step: i32 = 0;
            while step < width
                invariant
                    0 <= y < height,
                    0 <= step <= width,
                    width == old(self)@.width,
                    height == old(self)@.height,
                    ascending == (old(self)@.generation % 2 == 1),
                    api@.wf(),
                    api@.touched_from(old(self)@),
                    done == y * width + step,
                    swept(*old(rules), old(self)@, done as nat, *rules, api@),
                decreases width - step,
            {
                let x: i32 = if ascending { step } else { width - 1 - step };
                api.move_to(x, y);
                let cell = api.get(0, 0);
                let ghost before = api@;
                let ghost rules_before = *rules;
                proof {
                    crate::universe::lemma_index_in_range(before, x as int, y as int);
                }
                api.calm();
                let ghost calmed = api@;
                Universe::update_cell(cell, &mut api, rules);
                proof {
                    lemma_touched_trans(before, calmed, api@);
                    lemma_touched_trans(old(self)@, before, api@);
                    assert(0 <= y * width) by (nonlinear_arith)
                        requires 0 <= y, 0 <= width;
                    vstd::arithmetic::div_mod::lemma_fundamental_div_mod_converse(
                        done,
                        width as int,
                        y as int,
                        step as int,
                    );
                    assert(x == old(self)@.scan_column(done % (width as int)));
                    assert(visited(rules_before, before, x as int, y as int, *rules, api@));
                    let ghost next: nat = (done + 1) as nat;
                    assert((next - 1) as nat == done as nat);
                    assert(swept(*old(rules), old(self)@, (next - 1) as nat, rules_before, before));
                    assert(step_visited(old(self)@, next, rules_before, before, *rules, api@));
                    lemma_swept_step(*old(rules), old(self)@, next, rules_before, before, *rules, api@);
                    done = done + 1;
                }
                step += 1;
            }
            proof {
                assert(y * width + width == (y + 1) * width) by (nonlinear_arith);
            }
            y += 1;
        }
        let mut held = api.release();
        let ghost mid = held@;
        held.advance();
        core::mem::swap(self, &mut held);
        proof {
            assert(mid.touched_from(old(self)@) && self@ == mid.advanced());
            assert(height * width == width * height) by (nonlinear_arith);
            assert(swept(*old(rules), old(self)@, (old(self)@.width * old(self)@.height) as nat, *rules, mid));
        }
    }

    /// One tick: the wind phase, then the material phase. The generation
    /// advances by two.
    pub fn tick<M: Material>(&mut self, rules: &mut M)
        requires
            old(self).wf(),
        ensures
            final(self).wf(),
            old(self)@.blown().phase_outcome(final(self)@),
            material_phase(*old(rules), old(self)@.blown(), *final(rules), final(self)@),
            final(self)@.generation == next_generation(next_generation(old(self)@.generation)),
            final(self)@.width == old(self)@.width,
            final(self)@.height == old(self)@.height,
            final(self)@.winds == old(self)@.winds,
            final(self)@.undo == old(self)@.undo,
    {
        self.wind_pass();
        self.material_pass(rules);
    }
}

} // verus!
