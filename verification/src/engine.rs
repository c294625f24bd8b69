//! The simulation engine: neighbor census, generation-advance rule,
//! run/pause control, and pointer-to-coordinate mapping.

use vstd::prelude::*;

verus! {

use crate::grid::ARENA_HEIGHT;
use crate::grid::ARENA_WIDTH;
use crate::grid::Grid;
use crate::grid::Position;
use crate::grid::State;
use crate::grid::get_index;
use crate::grid::index_of;
use vstd::arithmetic::div_mod::lemma_div_is_ordered;

/// 1 for an Alive cell, 0 for a Dead one.
pub open spec fn live(s: State) -> int {
    match s {
        State::Alive => 1,
        State::Dead => 0,
    }
}

/// Whether `(x, y)` lies strictly inside the grid: not on the outer ring.
pub open spec fn interior(x: int, y: int) -> bool {
    0 < x && x + 1 < ARENA_WIDTH && 0 < y && y + 1 < ARENA_HEIGHT
}

/// The neighbor census of coordinate `(x, y)` over grid model `g`: the number
/// of Alive cells among its 8 immediate neighbors for an interior coordinate,
/// and 0 by definition for a coordinate on the outer ring (no wraparound;
/// border cells never count neighbors).
pub open spec fn census_at(g: Seq<State>, x: int, y: int) -> int {
    if interior(x, y) {
        live(g[index_of(x - 1, y - 1)]) + live(g[index_of(x - 1, y)]) + live(
            g[index_of(x - 1, y + 1)],
        ) + live(g[index_of(x, y - 1)]) + live(g[index_of(x, y + 1)]) + live(
            g[index_of(x + 1, y - 1)],
        ) + live(g[index_of(x + 1, y)]) + live(g[index_of(x + 1, y + 1)])
    } else {
        0
    }
}

/// The census of a border coordinate is 0 whatever the grid holds: cells on
/// the outer ring never gain neighbors.
pub proof fn lemma_border_census_zero(g: Seq<State>, x: int, y: int)
    requires
        0 <= x < ARENA_WIDTH,
        0 <= y < ARENA_HEIGHT,
        !interior(x, y),
    ensures
        census_at(g, x, y) == 0,
{
}

/// Reads one cell as its census contribution, 1 or 0.
fn live_count(grid: &Grid, x: usize, y: usize) -> (c: u8)
    requires
        grid.wf(),
        x < ARENA_WIDTH,
        y < ARENA_HEIGHT,
    ensures
        c == live(grid.cell(x as int, y as int)),
{
    match grid.get(Position { x, y }) {
        State::Alive => 1,
        State::Dead => 0,
    }
}

/// The full neighbor census of the current grid, one count per coordinate at
/// its linear index: the census of every interior coordinate and 0 for every
/// coordinate on the outer ring.
pub fn living_neighbours(grid: &Grid) -> (out: Vec<u8>)
    requires
        grid.wf(),
    ensures
        out@.len() == ARENA_WIDTH * ARENA_HEIGHT,
        forall|x: int, y: int|
            0 <= x < ARENA_WIDTH && 0 <= y < ARENA_HEIGHT ==> #[trigger] out@[index_of(x, y)]
                == census_at(grid@, x, y),
{
    let mut out: Vec<u8> = Vec::new();
    let mut x: usize = 0;
    while x < ARENA_WIDTH
        invariant
            grid.wf(),
            x <= ARENA_WIDTH,
            out@.len() == x * ARENA_WIDTH,
            forall|a: int, b: int|
                0 <= a < x && 0 <= b < ARENA_HEIGHT ==> #[trigger] out@[index_of(a, b)]
                    == census_at(grid@, a, b),
        decreases ARENA_WIDTH - x,
    {
        let mut y: usize = 0;
        while y < ARENA_HEIGHT
            invariant
                grid.wf(),
                x < ARENA_WIDTH,
                y <= ARENA_HEIGHT,
                out@.len() == x * ARENA_WIDTH + y,
                forall|a: int, b: int|
                    0 <= a < x && 0 <= b < ARENA_HEIGHT ==> #[trigger] out@[index_of(a, b)]
                        == census_at(grid@, a, b),
                forall|b: int|
                    0 <= b < y ==> #[trigger] out@[index_of(x as int, b)]
                        == census_at(grid@, x as int, b),
            decreases ARENA_HEIGHT - y,
        {
            if x != 0 && y != 0 && x != ARENA_WIDTH - 1 && y != ARENA_HEIGHT - 1 {
                let c = live_count(grid, x - 1, y - 1) + live_count(grid, x - 1, y) + live_count(
                    grid,
                    x - 1,
                    y + 1,
                ) + live_count(grid, x, y - 1) + live_count(grid, x, y + 1) + live_count(
                    grid,
                    x + 1,
                    y - 1,
                ) + live_count(grid, x + 1, y) + live_count(grid, x + 1, y + 1);
                out.push(c);
            } else {
                out.push(0);
            }
            y = y + 1;
        }
        x = x + 1;
    }
    out
}

/// The generation-advance rule (B3/S23) for one cell: an Alive cell survives
/// on a census of 2 or 3 and dies otherwise; a Dead cell is born on a census
/// of exactly 3 and stays Dead otherwise.
pub open spec fn next_state(s: State, c: int) -> State {
    match s {
        State::Alive => if c == 2 || c == 3 {
            State::Alive
        } else {
            State::Dead
        },
        State::Dead => if c == 3 {
            State::Alive
        } else {
            State::Dead
        },
    }
}

/// The run/pause flag: `true` means the simulation advances on timer ticks,
/// `false` means it is frozen. The simulation starts paused.
pub struct Run(pub bool);

impl Run {
    /// The flag in its startup configuration: paused.
    pub fn new() -> (r: Run)
        ensures
            !r.0,
    {
        Run(false)
    }
}

/// Flips the run/pause flag on one control-input edge: Paused becomes
/// Running and Running becomes Paused.
pub fn space_hit(run: &mut Run)
    ensures
        final(run).0 == !old(run).0,
{
    run.0 = !run.0;
}

/// Advances the grid by one generation when the run flag is set, and leaves
/// it untouched when it is not. The advance is simultaneous: every cell's
/// next state is the rule applied to its pre-update state and the census of
/// the pre-update grid, never to a partially updated one.
pub fn next_turn(run: &Run, grid: &mut Grid)
    requires
        old(grid).wf(),
    ensures
        final(grid).wf(),
        !run.0 ==> *final(grid) == *old(grid),
        run.0 ==> forall|x: int, y: int|
            0 <= x < ARENA_WIDTH && 0 <= y < ARENA_HEIGHT ==> #[trigger] final(grid).cell(x, y)
                == next_state(old(grid).cell(x, y), census_at(old(grid)@, x, y)),
{
    if !run.0 {
        return;
    }
    let neighbours = living_neighbours(grid);
    let ghost g0 = grid@;
    let mut x: usize = 0;
    while x < ARENA_WIDTH
        invariant
            grid.wf(),
            x <= ARENA_WIDTH,
            g0.len() == ARENA_WIDTH * ARENA_HEIGHT,
            neighbours@.len() == ARENA_WIDTH * ARENA_HEIGHT,
            forall|a: int, b: int|
                0 <= a < ARENA_WIDTH && 0 <= b < ARENA_HEIGHT ==> #[trigger] neighbours@[index_of(
                    a,
                    b,
                )] == census_at(g0, a, b),
            forall|a: int, b: int|
                0 <= a < ARENA_WIDTH && 0 <= b < ARENA_HEIGHT && index_of(a, b) < index_of(
                    x as int,
                    0,
                ) ==> #[trigger] grid@[index_of(a, b)] == next_state(
                    g0[index_of(a, b)],
                    census_at(g0, a, b),
                ),
            forall|a: int, b: int|
                0 <= a < ARENA_WIDTH && 0 <= b < ARENA_HEIGHT && index_of(a, b) >= index_of(
                    x as int,
                    0,
                ) ==> #[trigger] grid@[index_of(a, b)] == g0[index_of(a, b)],
        decreases ARENA_WIDTH - x,
    {
        let mut y: usize = 0;
        while y < ARENA_HEIGHT
            invariant
                grid.wf(),
                x < ARENA_WIDTH,
                y <= ARENA_HEIGHT,
                g0.len() == ARENA_WIDTH * ARENA_HEIGHT,
                neighbours@.len() == ARENA_WIDTH * ARENA_HEIGHT,
                forall|a: int, b: int|
                    0 <= a < ARENA_WIDTH && 0 <= b < ARENA_HEIGHT ==> #[trigger] neighbours@[index_of(
                        a,
                        b,
                    )] == census_at(g0, a, b),
                forall|a: int, b: int|
                    0 <= a < ARENA_WIDTH && 0 <= b < ARENA_HEIGHT && index_of(a, b) < index_of(
                        x as int,
                        y as int,
                    ) ==> #[trigger] grid@[index_of(a, b)] == next_state(
                        g0[index_of(a, b)],
                        census_at(g0, a, b),
                    ),
                forall|a: int, b: int|
                    0 <= a < ARENA_WIDTH && 0 <= b < ARENA_HEIGHT && index_of(a, b) >= index_of(
                        x as int,
                        y as int,
                    ) ==> #[trigger] grid@[index_of(a, b)] == g0[index_of(a, b)],
            decreases ARENA_HEIGHT - y,
        {
            let pos = Position { x, y };
            let i = get_index(pos);
            let c = neighbours[i];
            let s = grid.get(pos);
            let n = match s {
                State::Alive => match c {
                    0 | 1 => State::Dead,
                    2 | 3 => State::Alive,
                    _ => State::Dead,
                },
                State::Dead => if c == 3 {
                    State::Alive
                } else {
                    State::Dead
                },
            };
            grid.set(pos, n);
            y = y + 1;
        }
        x = x + 1;
    }
}

/// Screen width in pixels, for the pointer-to-coordinate mapping.
pub const SCREEN_WIDTH: usize = 700;

/// Screen height in pixels, for the pointer-to-coordinate mapping.
pub const SCREEN_HEIGHT: usize = 700;

/// Maps raw pixel coordinates to the grid coordinate whose tile covers them:
/// `floor(abs * arena / screen)` on each axis. The mapping itself checks no
/// bounds: a pixel inside the screen lands on a valid coordinate, one outside
/// it yields an out-of-range coordinate that the caller must reject before
/// touching the grid.
pub fn read_coords(abs_x: usize, abs_y: usize) -> (pos: Position)
    requires
        abs_x * ARENA_WIDTH <= usize::MAX,
        abs_y * ARENA_HEIGHT <= usize::MAX,
    ensures
        pos.x == abs_x * ARENA_WIDTH / (SCREEN_WIDTH as int),
        pos.y == abs_y * ARENA_HEIGHT / (SCREEN_HEIGHT as int),
        abs_x < SCREEN_WIDTH && abs_y < SCREEN_HEIGHT ==> pos.valid(),
{
    let x = abs_x * ARENA_WIDTH / SCREEN_WIDTH;
    let y = abs_y * ARENA_HEIGHT / SCREEN_HEIGHT;
    proof {
        if abs_x < SCREEN_WIDTH && abs_y < SCREEN_HEIGHT {
            lemma_div_is_ordered(abs_x * ARENA_WIDTH as int, (SCREEN_WIDTH - 1) * ARENA_WIDTH as int, SCREEN_WIDTH as int);
            lemma_div_is_ordered(abs_y * ARENA_HEIGHT as int, (SCREEN_HEIGHT - 1) * ARENA_HEIGHT as int, SCREEN_HEIGHT as int);
        }
    }
    Position { x, y }
}

} // verus!
