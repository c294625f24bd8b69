use game_of_life::engine::living_neighbours;
use game_of_life::engine::next_turn;
use game_of_life::engine::read_coords;
use game_of_life::engine::space_hit;
use game_of_life::engine::Run;
use game_of_life::grid::get_index;
use game_of_life::grid::initialize_grid;
use game_of_life::grid::Grid;
use game_of_life::grid::Position;
use game_of_life::grid::SingleTile;
use game_of_life::grid::State;

fn set_alive(g: &mut Grid, x: usize, y: usize) {
    g.set(Position { x, y }, State::Alive);
}

fn alive_cells(g: &Grid) -> Vec<(usize, usize)> {
    let mut out: Vec<(usize, usize)> = Vec::new();
    for (pos, s) in g.snapshot() {
        if s == State::Alive {
            out.push((pos.x, pos.y));
        }
    }
    out
}

#[test]
fn toggle_involution_restores_grid() {
    let mut g = initialize_grid();
    let before = g.snapshot();
    g.toggle(Position { x: 5, y: 5 });
    g.toggle(Position { x: 5, y: 5 });
    assert_eq!(g.snapshot(), before);
    assert_eq!(g.get(Position { x: 5, y: 5 }), State::Dead);
}

#[test]
fn toggle_flips_exactly_one_cell() {
    let mut g = initialize_grid();
    g.toggle(Position { x: 3, y: 4 });
    for (pos, s) in g.snapshot() {
        if pos.x == 3 && pos.y == 4 {
            assert_eq!(s, State::Alive);
        } else {
            assert_eq!(s, State::Dead);
        }
    }
}

#[test]
fn change_state_flips_tile_and_keeps_position() {
    let mut t = SingleTile { state: State::Dead, position: Position { x: 7, y: 9 } };
    t.change_state();
    assert_eq!(t.state, State::Alive);
    assert_eq!(t.position, Position { x: 7, y: 9 });
    t.change_state();
    assert_eq!(t.state, State::Dead);
}

#[test]
fn border_census_zero_despite_neighbours() {
    let mut g = initialize_grid();
    for x in 0..30 {
        for y in 0..30 {
            set_alive(&mut g, x, y);
        }
    }
    let census = living_neighbours(&g);
    assert_eq!(census.len(), 900);
    for x in 0..30usize {
        for y in 0..30usize {
            let c = census[get_index(Position { x, y })];
            if x == 0 || x == 29 || y == 0 || y == 29 {
                assert_eq!(c, 0);
            } else {
                assert_eq!(c, 8);
            }
        }
    }
}

#[test]
fn lone_cell_dies() {
    let mut g = initialize_grid();
    set_alive(&mut g, 10, 10);
    let run = Run(true);
    next_turn(&run, &mut g);
    assert_eq!(g.get(Position { x: 10, y: 10 }), State::Dead);
    assert_eq!(alive_cells(&g), Vec::<(usize, usize)>::new());
}

#[test]
fn l_configuration_steps_to_block() {
    let mut g = initialize_grid();
    set_alive(&mut g, 10, 10);
    set_alive(&mut g, 10, 11);
    set_alive(&mut g, 11, 10);
    let run = Run(true);
    next_turn(&run, &mut g);
    // (10,10) has census 2 and stays Alive; (11,11) has census 3 and is born;
    // the other two corners of the block survive on census 2 as well.
    let mut expected = initialize_grid();
    set_alive(&mut expected, 10, 10);
    set_alive(&mut expected, 10, 11);
    set_alive(&mut expected, 11, 10);
    set_alive(&mut expected, 11, 11);
    assert_eq!(g.snapshot(), expected.snapshot());
}

#[test]
fn paused_advance_leaves_grid_identical() {
    let mut g = initialize_grid();
    set_alive(&mut g, 10, 10);
    set_alive(&mut g, 10, 11);
    set_alive(&mut g, 11, 10);
    let before = g.snapshot();
    let run = Run::new();
    next_turn(&run, &mut g);
    assert_eq!(g.snapshot(), before);
}

#[test]
fn index_bijective_over_grid() {
    let mut seen = vec![false; 900];
    for x in 0..30usize {
        for y in 0..30usize {
            let i = get_index(Position { x, y });
            assert!(i < 900);
            assert!(!seen[i]);
            seen[i] = true;
        }
    }
    assert!(seen.iter().all(|&b| b));
}

#[test]
fn pointer_maps_center_pixel() {
    assert_eq!(read_coords(350, 350), Position { x: 15, y: 15 });
}

#[test]
fn pointer_maps_screen_edges() {
    assert_eq!(read_coords(0, 0), Position { x: 0, y: 0 });
    assert_eq!(read_coords(699, 699), Position { x: 29, y: 29 });
    assert_eq!(read_coords(23, 23), Position { x: 0, y: 0 });
    assert_eq!(read_coords(24, 24), Position { x: 1, y: 1 });
}

#[test]
fn simultaneous_update_blinker() {
    let mut g = initialize_grid();
    // A vertical blinker: under a sequential sweep in index order, (9,11)
    // would be born first and (10,10) would then see census 2 and survive;
    // the simultaneous rule kills (10,10) and rotates the blinker.
    set_alive(&mut g, 10, 10);
    set_alive(&mut g, 10, 11);
    set_alive(&mut g, 10, 12);
    let run = Run(true);
    next_turn(&run, &mut g);
    assert_eq!(g.get(Position { x: 10, y: 10 }), State::Dead);
    assert_eq!(g.get(Position { x: 10, y: 12 }), State::Dead);
    assert_eq!(alive_cells(&g), vec![(9, 11), (10, 11), (11, 11)]);
}

#[test]
fn blinker_oscillates_with_period_two() {
    let mut g = initialize_grid();
    set_alive(&mut g, 10, 10);
    set_alive(&mut g, 10, 11);
    set_alive(&mut g, 10, 12);
    let before = g.snapshot();
    let run = Run(true);
    next_turn(&run, &mut g);
    next_turn(&run, &mut g);
    assert_eq!(g.snapshot(), before);
}

#[test]
fn full_grid_collapses_in_one_turn() {
    let mut g = initialize_grid();
    for x in 0..30 {
        for y in 0..30 {
            set_alive(&mut g, x, y);
        }
    }
    let run = Run(true);
    next_turn(&run, &mut g);
    assert_eq!(alive_cells(&g), Vec::<(usize, usize)>::new());
}

#[test]
fn run_flag_starts_paused_and_space_hit_flips() {
    let mut run = Run::new();
    assert!(!run.0);
    space_hit(&mut run);
    assert!(run.0);
    space_hit(&mut run);
    assert!(!run.0);
}

#[test]
fn snapshot_is_x_major_and_complete() {
    let mut g = initialize_grid();
    g.toggle(Position { x: 2, y: 7 });
    let snap = g.snapshot();
    assert_eq!(snap.len(), 900);
    assert_eq!(snap[2 * 30 + 7], (Position { x: 2, y: 7 }, State::Alive));
    assert_eq!(snap[0], (Position { x: 0, y: 0 }, State::Dead));
    assert_eq!(snap[899], (Position { x: 29, y: 29 }, State::Dead));
}

#[test]
fn get_and_set_read_back() {
    let mut g = initialize_grid();
    g.set(Position { x: 0, y: 0 }, State::Alive);
    g.set(Position { x: 29, y: 29 }, State::Alive);
    assert_eq!(g.get(Position { x: 0, y: 0 }), State::Alive);
    assert_eq!(g.get(Position { x: 29, y: 29 }), State::Alive);
    assert_eq!(g.get(Position { x: 1, y: 0 }), State::Dead);
    g.set(Position { x: 0, y: 0 }, State::Dead);
    assert_eq!(g.get(Position { x: 0, y: 0 }), State::Dead);
}
