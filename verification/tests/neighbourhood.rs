use sandgrid::{Cell, Inert, Material, SandApi, Species, Universe, Wind};

fn calm() -> Wind {
    Wind { dx: 126, dy: 126, pressure: 0, density: 0 }
}

fn cell(species: Species, ra: u8) -> Cell {
    Cell { species, ra, rb: 0, clock: 0 }
}

fn calm_universe(width: i32, height: i32, cells: Vec<Cell>) -> Universe {
    let n = cells.len();
    let mut u = Universe::from_cells(width, height, cells);
    u.set_winds(vec![calm(); n]);
    u
}

/// Reads the four corners of the window and two cells next to the centre.
struct CornerReader {
    seen: Vec<Cell>,
}

impl Material for CornerReader {
    fn update(&mut self, _cell: Cell, api: &mut SandApi) {
        self.seen.push(api.get(1, 2));
        self.seen.push(api.get(-1, -2));
        self.seen.push(api.get(-1, 2));
        self.seen.push(api.get(1, -2));
        self.seen.push(api.get(0, 0));
    }
}

#[test]
fn off_grid_reads_are_walls_stamped_with_the_generation() {
    let mut u = calm_universe(1, 1, vec![cell(Species::Stone, 9)]);
    let mut reader = CornerReader { seen: Vec::new() };
    u.material_pass(&mut reader);
    let wall = Cell { species: Species::Wall, ra: 0, rb: 0, clock: 0 };
    assert_eq!(reader.seen, vec![wall, wall, wall, wall, cell(Species::Stone, 9)]);

    let mut reader = CornerReader { seen: Vec::new() };
    u.material_pass(&mut reader);
    let wall = Cell { species: Species::Wall, ra: 0, rb: 0, clock: 1 };
    assert_eq!(reader.seen[0], wall);
    assert_eq!(reader.seen[1], wall);
}

#[test]
fn corner_offsets_inside_the_grid_read_the_stored_cells() {
    let cells: Vec<Cell> = (0..15).map(|i| cell(Species::Wall, i as u8)).collect();
    let mut u = calm_universe(3, 5, cells);
    struct Centre {
        seen: Vec<u8>,
    }
    impl Material for Centre {
        fn update(&mut self, cell: Cell, api: &mut SandApi) {
            if cell.ra == 7 {
                self.seen.push(api.get(1, 2).ra);
                self.seen.push(api.get(-1, -2).ra);
                self.seen.push(api.get(0, 1).ra);
            }
        }
    }
    let mut rules = Centre { seen: Vec::new() };
    u.material_pass(&mut rules);
    assert_eq!(rules.seen, vec![14, 0, 10]);
}

#[test]
fn window_is_one_column_and_two_rows_wide() {
    assert!(!SandApi::reaches(2, 0));
    assert!(!SandApi::reaches(0, 3));
    assert!(!SandApi::reaches(-2, 0));
    assert!(!SandApi::reaches(0, -3));
    assert!(SandApi::reaches(1, 2));
    assert!(SandApi::reaches(-1, -2));
    assert!(SandApi::reaches(0, 0));
}

/// Writes one cell with a stamp of its own choosing.
struct Writer {
    dx: i32,
    dy: i32,
    value: Cell,
}

impl Material for Writer {
    fn update(&mut self, cell: Cell, api: &mut SandApi) {
        if cell.species == Species::Cloner {
            api.set(self.dx, self.dy, self.value);
        }
    }
}

#[test]
fn written_cells_carry_the_next_generation() {
    let mut u = calm_universe(2, 1, vec![cell(Species::Cloner, 0), cell(Species::Empty, 0)]);
    let mut writer =
        Writer { dx: 1, dy: 0, value: Cell { species: Species::Water, ra: 3, rb: 4, clock: 77 } };
    u.material_pass(&mut writer);
    assert_eq!(u.cells()[1], Cell { species: Species::Water, ra: 3, rb: 4, clock: 1 });
    assert_eq!(u.cells()[0], cell(Species::Cloner, 0));
    assert_eq!(u.generation(), 1);
}

#[test]
fn stamp_wraps_at_the_last_generation() {
    let mut u = calm_universe(2, 1, vec![cell(Species::Cloner, 0), cell(Species::Empty, 0)]);
    for _ in 0..255 {
        u.wind_pass();
    }
    assert_eq!(u.generation(), 255);
    let mut writer =
        Writer { dx: 1, dy: 0, value: Cell { species: Species::Water, ra: 3, rb: 4, clock: 200 } };
    u.material_pass(&mut writer);
    assert_eq!(u.cells()[1].clock, 0);
    assert_eq!(u.generation(), 0);
}

#[test]
fn writes_outside_the_grid_do_nothing() {
    let mut u = calm_universe(1, 1, vec![cell(Species::Cloner, 5)]);
    let mut writer = Writer { dx: 1, dy: 2, value: cell(Species::Sand, 1) };
    u.material_pass(&mut writer);
    assert_eq!(u.cells().clone(), vec![cell(Species::Cloner, 5)]);
}

/// Emits wind and reads the wind before and after.
struct Emitter {
    read: Vec<Wind>,
}

impl Material for Emitter {
    fn update(&mut self, _cell: Cell, api: &mut SandApi) {
        self.read.push(api.get_fluid());
        api.set_fluid(Wind { dx: 1, dy: 2, pressure: 3, density: 4 });
        self.read.push(api.get_fluid());
    }
}

#[test]
fn emitted_wind_is_not_read_back() {
    let mut u = Universe::from_cells(1, 2, vec![cell(Species::Wall, 0), cell(Species::Wall, 1)]);
    let low = Wind { dx: 126, dy: 126, pressure: 10, density: 0 };
    let high = Wind { dx: 126, dy: 126, pressure: 20, density: 0 };
    u.set_winds(vec![low, high]);
    let mut emitter = Emitter { read: Vec::new() };
    u.tick(&mut emitter);
    // The wind rows run against the cell rows: the top cell reads the last wind row.
    assert_eq!(emitter.read, vec![high, high, low, low]);
    assert_eq!(u.winds().clone(), vec![low, high]);
    let emitted = Wind { dx: 1, dy: 2, pressure: 3, density: 4 };
    assert_eq!(u.burns().clone(), vec![emitted, emitted]);

    let mut emitter = Emitter { read: Vec::new() };
    u.tick(&mut emitter);
    assert_eq!(emitter.read, vec![high, high, low, low]);
}

#[test]
fn material_phase_clears_the_write_wind() {
    let mut u = Universe::from_cells(1, 2, vec![cell(Species::Wall, 0), cell(Species::Wall, 1)]);
    let mut emitter = Emitter { read: Vec::new() };
    u.tick(&mut emitter);
    assert_eq!(u.burns()[0], Wind { dx: 1, dy: 2, pressure: 3, density: 4 });
    let mut inert = Inert;
    u.tick(&mut inert);
    let still = Wind { dx: 0, dy: 0, pressure: 0, density: 0 };
    assert_eq!(u.burns().clone(), vec![still, still]);
}

#[test]
fn stamped_cells_are_not_handed_to_the_rules() {
    // The writer at the left stamps its right neighbour, which is then skipped.
    struct Counting {
        updates: Vec<u8>,
    }
    impl Material for Counting {
        fn update(&mut self, cell: Cell, api: &mut SandApi) {
            self.updates.push(cell.ra);
            if cell.ra == 1 {
                api.set(1, 0, Cell { species: Species::Wall, ra: 9, rb: 0, clock: 0 });
            }
        }
    }
    let mut u = calm_universe(2, 1, vec![cell(Species::Wall, 1), cell(Species::Wall, 2)]);
    u.wind_pass();
    let mut rules = Counting { updates: Vec::new() };
    u.material_pass(&mut rules);
    assert_eq!(rules.updates, vec![1]);
    assert_eq!(u.cells()[1], Cell { species: Species::Wall, ra: 9, rb: 0, clock: 2 });
}
