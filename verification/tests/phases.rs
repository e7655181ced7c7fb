use sandgrid::{Cell, Inert, Material, SandApi, Species, Universe, Wind};

fn wind(dx: u8, dy: u8) -> Wind {
    Wind { dx, dy, pressure: 0, density: 0 }
}

fn cell(species: Species, ra: u8) -> Cell {
    Cell { species, ra, rb: 0, clock: 0 }
}

fn universe(width: i32, height: i32, cells: Vec<Cell>, w: Wind) -> Universe {
    let n = cells.len();
    let mut u = Universe::from_cells(width, height, cells);
    u.set_winds(vec![w; n]);
    u
}

#[test]
fn wind_moves_a_cell_once_per_phase_in_two_columns() {
    let sand = Cell { species: Species::Sand, ra: 7, rb: 9, clock: 0 };
    let mut u = universe(2, 1, vec![sand, cell(Species::Empty, 0)], wind(200, 126));
    u.wind_pass();
    assert_eq!(
        u.cells().clone(),
        vec![
            Cell { species: Species::Empty, ra: 0, rb: 0, clock: 1 },
            Cell { species: Species::Sand, ra: 7, rb: 9, clock: 1 },
        ]
    );
    assert_eq!(u.generation(), 1);
}

#[test]
fn wind_moves_a_cell_once_per_phase_in_three_columns() {
    let sand = Cell { species: Species::Sand, ra: 7, rb: 9, clock: 0 };
    let empty = cell(Species::Empty, 0);
    let mut u = universe(3, 1, vec![sand, empty, empty], wind(200, 126));
    u.wind_pass();
    assert_eq!(
        u.cells().clone(),
        vec![
            Cell { species: Species::Empty, ra: 0, rb: 0, clock: 1 },
            Cell { species: Species::Sand, ra: 7, rb: 9, clock: 1 },
            empty,
        ]
    );
    u.wind_pass();
    assert_eq!(
        u.cells().clone(),
        vec![
            Cell { species: Species::Empty, ra: 0, rb: 0, clock: 1 },
            Cell { species: Species::Empty, ra: 0, rb: 0, clock: 2 },
            Cell { species: Species::Sand, ra: 7, rb: 9, clock: 2 },
        ]
    );
}

#[test]
fn wind_moves_a_cell_once_per_phase_down_a_column() {
    let sand = cell(Species::Sand, 1);
    let empty = cell(Species::Empty, 0);
    let mut u = universe(1, 3, vec![sand, empty, empty], wind(126, 0));
    u.wind_pass();
    assert_eq!(u.cells()[0].species, Species::Empty);
    assert_eq!(u.cells()[1], Cell { species: Species::Sand, ra: 1, rb: 0, clock: 1 });
    assert_eq!(u.cells()[2], empty);
}

#[test]
fn rising_sand_hops_two_cells() {
    let sand = cell(Species::Sand, 1);
    let empty = cell(Species::Empty, 0);
    let mut u = universe(1, 3, vec![empty, empty, sand], wind(126, 200));
    u.wind_pass();
    assert_eq!(u.cells()[0], Cell { species: Species::Sand, ra: 1, rb: 0, clock: 1 });
    assert_eq!(u.cells()[1], empty);
    assert_eq!(u.cells()[2], Cell { species: Species::Empty, ra: 0, rb: 0, clock: 1 });
}

#[test]
fn rising_stone_hops_one_cell() {
    let stone = cell(Species::Stone, 1);
    let empty = cell(Species::Empty, 0);
    let mut u = universe(1, 3, vec![empty, empty, stone], wind(126, 200));
    u.wind_pass();
    assert_eq!(u.cells()[0], empty);
    assert_eq!(u.cells()[1], Cell { species: Species::Stone, ra: 1, rb: 0, clock: 1 });
    assert_eq!(u.cells()[2].species, Species::Empty);
}

#[test]
fn rising_sand_under_a_blocked_second_cell_hops_one() {
    let sand = cell(Species::Sand, 1);
    let empty = cell(Species::Empty, 0);
    let wall = cell(Species::Wall, 0);
    let mut u = universe(1, 3, vec![wall, empty, sand], wind(126, 200));
    u.wind_pass();
    assert_eq!(u.cells()[0], wall);
    assert_eq!(u.cells()[1], Cell { species: Species::Sand, ra: 1, rb: 0, clock: 1 });
}

#[test]
fn wind_at_the_threshold_does_not_move() {
    // Sand moves beyond 30: a stored 156 is a flow of exactly 30.
    let sand = cell(Species::Sand, 1);
    let empty = cell(Species::Empty, 0);
    let mut u = universe(2, 1, vec![sand, empty], wind(156, 126));
    u.wind_pass();
    assert_eq!(u.cells().clone(), vec![sand, empty]);
    let mut u = universe(2, 1, vec![sand, empty], wind(157, 126));
    u.wind_pass();
    assert_eq!(u.cells()[1].species, Species::Sand);
    // Water has no entry of its own and moves beyond 40.
    let water = cell(Species::Water, 1);
    let mut u = universe(2, 1, vec![water, empty], wind(166, 126));
    u.wind_pass();
    assert_eq!(u.cells().clone(), vec![water, empty]);
    let mut u = universe(2, 1, vec![water, empty], wind(167, 126));
    u.wind_pass();
    assert_eq!(u.cells()[1].species, Species::Water);
}

#[test]
fn walls_never_move_and_blocked_cells_stay() {
    let wall = cell(Species::Wall, 0);
    let sand = cell(Species::Sand, 0);
    let mut u = universe(2, 1, vec![wall, sand], wind(255, 126));
    u.wind_pass();
    assert_eq!(u.cells().clone(), vec![wall, sand]);
}

#[test]
fn thresholds_by_material() {
    assert_eq!(Species::Empty.threshold(), 500);
    assert_eq!(Species::Wall.threshold(), 500);
    assert_eq!(Species::Cloner.threshold(), 500);
    assert_eq!(Species::Stone.threshold(), 70);
    assert_eq!(Species::Wood.threshold(), 70);
    assert_eq!(Species::Plant.threshold(), 60);
    assert_eq!(Species::Lava.threshold(), 60);
    assert_eq!(Species::Ice.threshold(), 60);
    assert_eq!(Species::Fungus.threshold(), 54);
    assert_eq!(Species::Oil.threshold(), 50);
    assert_eq!(Species::Water.threshold(), 40);
    assert_eq!(Species::Acid.threshold(), 40);
    assert_eq!(Species::Seed.threshold(), 35);
    assert_eq!(Species::Sand.threshold(), 30);
    assert_eq!(Species::Mite.threshold(), 30);
    assert_eq!(Species::Firework.threshold(), 30);
    assert_eq!(Species::Dust.threshold(), 10);
    assert_eq!(Species::Fire.threshold(), 5);
    assert_eq!(Species::Gas.threshold(), 5);
    assert!(Species::Sand.lofted());
    assert!(Species::Oil.lofted());
    assert!(!Species::Stone.lofted());
    assert!(!Species::Gas.lofted());
}

#[test]
fn a_tick_advances_the_generation_by_two() {
    let mut u = universe(2, 2, vec![cell(Species::Empty, 0); 4], wind(126, 126));
    let mut rules = Inert;
    assert_eq!(u.generation(), 0);
    u.tick(&mut rules);
    assert_eq!(u.generation(), 2);
    for _ in 0..127 {
        u.tick(&mut rules);
    }
    assert_eq!(u.generation(), 0);
}

#[test]
fn generation_returns_after_128_ticks_from_an_odd_start() {
    let mut u = universe(1, 1, vec![cell(Species::Empty, 0)], wind(126, 126));
    let mut rules = Inert;
    u.wind_pass();
    assert_eq!(u.generation(), 1);
    for _ in 0..128 {
        u.tick(&mut rules);
    }
    assert_eq!(u.generation(), 1);
}

struct Recorder {
    seen: Vec<u8>,
}

impl Material for Recorder {
    fn update(&mut self, cell: Cell, _api: &mut SandApi) {
        self.seen.push(cell.ra);
    }
}

#[test]
fn rows_are_walked_left_to_right_in_a_tick_from_an_even_generation() {
    let cells: Vec<Cell> = (0..6).map(|i| cell(Species::Wall, i as u8)).collect();
    let mut u = universe(3, 2, cells, wind(126, 126));
    let mut rules = Recorder { seen: Vec::new() };
    u.tick(&mut rules);
    assert_eq!(rules.seen, vec![0, 1, 2, 3, 4, 5]);
}

#[test]
fn rows_are_walked_right_to_left_in_a_tick_from_an_odd_generation() {
    let cells: Vec<Cell> = (0..6).map(|i| cell(Species::Wall, i as u8)).collect();
    let mut u = universe(3, 2, cells, wind(126, 126));
    u.wind_pass();
    assert_eq!(u.generation(), 1);
    let mut rules = Recorder { seen: Vec::new() };
    u.tick(&mut rules);
    assert_eq!(rules.seen, vec![2, 1, 0, 5, 4, 3]);
}

#[test]
fn a_tick_keeps_the_read_winds() {
    let sand = cell(Species::Sand, 0);
    let empty = cell(Species::Empty, 0);
    let mut u = universe(2, 2, vec![sand, empty, empty, empty], wind(200, 90));
    let before = u.winds().clone();
    let mut rules = Inert;
    u.tick(&mut rules);
    assert_eq!(u.winds().clone(), before);
    assert_eq!(u.width(), 2);
    assert_eq!(u.height(), 2);
}
