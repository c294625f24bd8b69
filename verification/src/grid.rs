//! The grid store: cell states at fixed coordinates, addressed by a
//! deterministic linear index, together with the single-cell toggle rule.

use vstd::prelude::*;

verus! {

use vstd::arithmetic::div_mod::lemma_fundamental_div_mod;
use vstd::arithmetic::div_mod::lemma_fundamental_div_mod_converse;
use vstd::arithmetic::div_mod::lemma_mod_pos_bound;

/// Number of cells along the x axis.
pub const ARENA_WIDTH: usize = 30;

/// Number of cells along the y axis.
pub const ARENA_HEIGHT: usize = 30;

/// State of one cell: Alive or Dead, nothing else.
#[derive(Clone, Copy, PartialEq, Eq, Structural, Debug)]
pub enum State {
    Dead,
    Alive,
}

/// The opposite state: Alive becomes Dead and Dead becomes Alive.
pub open spec fn flip(s: State) -> State {
    match s {
        State::Alive => State::Dead,
        State::Dead => State::Alive,
    }
}

/// A grid coordinate. Only coordinates with `x < ARENA_WIDTH` and
/// `y < ARENA_HEIGHT` address a cell.
#[derive(Clone, Copy, PartialEq, Eq, Structural, Debug)]
pub struct Position {
    pub x: usize,
    pub y: usize,
}

impl Position {
    /// Whether this coordinate addresses a cell of the grid.
    pub open spec fn valid(self) -> bool {
        self.x < ARENA_WIDTH && self.y < ARENA_HEIGHT
    }
}

/// The linear index of coordinate `(x, y)`: `x * ARENA_WIDTH + y`,
/// the x-major, y-minor linearization of the grid.
pub open spec fn index_of(x: int, y: int) -> int {
    x * (ARENA_WIDTH as int) + y
}

/// The coordinate whose linear index is `i`.
pub open spec fn pos_of(i: int) -> Position {
    Position { x: (i / (ARENA_WIDTH as int)) as usize, y: (i % (ARENA_WIDTH as int)) as usize }
}

/// Round trip from a coordinate through its linear index: `index_of` stays in
/// `[0, ARENA_WIDTH * ARENA_HEIGHT)` and `pos_of` inverts it.
pub proof fn lemma_pos_of_index_of(x: int, y: int)
    requires
        0 <= x < ARENA_WIDTH,
        0 <= y < ARENA_HEIGHT,
    ensures
        0 <= index_of(x, y) < ARENA_WIDTH * ARENA_HEIGHT,
        pos_of(index_of(x, y)) == (Position { x: x as usize, y: y as usize }),
{
    lemma_fundamental_div_mod_converse(index_of(x, y), ARENA_WIDTH as int, x, y);
}

/// Round trip from a linear index through its coordinate: `pos_of` lands in
/// the valid range and `index_of` inverts it.
pub proof fn lemma_index_of_pos_of(i: int)
    requires
        0 <= i < ARENA_WIDTH * ARENA_HEIGHT,
    ensures
        pos_of(i).valid(),
        index_of(pos_of(i).x as int, pos_of(i).y as int) == i,
{
    lemma_fundamental_div_mod(i, ARENA_WIDTH as int);
    lemma_mod_pos_bound(i, ARENA_WIDTH as int);
}

/// The linear index is injective over the valid coordinate range: two
/// distinct coordinates never address the same cell.
pub proof fn lemma_index_injective(x1: int, y1: int, x2: int, y2: int)
    requires
        0 <= x1 < ARENA_WIDTH,
        0 <= y1 < ARENA_HEIGHT,
        0 <= x2 < ARENA_WIDTH,
        0 <= y2 < ARENA_HEIGHT,
        index_of(x1, y1) == index_of(x2, y2),
    ensures
        x1 == x2,
        y1 == y2,
{
    lemma_pos_of_index_of(x1, y1);
    lemma_pos_of_index_of(x2, y2);
}

/// Every linear index in `[0, ARENA_WIDTH * ARENA_HEIGHT)` is the image of
/// some valid coordinate: with injectivity, `index_of` is a bijection.
pub proof fn lemma_index_surjective(i: int)
    requires
        0 <= i < ARENA_WIDTH * ARENA_HEIGHT,
    ensures
        exists|x: int, y: int|
            0 <= x < ARENA_WIDTH && 0 <= y < ARENA_HEIGHT && index_of(x, y) == i,
{
    lemma_index_of_pos_of(i);
    assert(index_of(pos_of(i).x as int, pos_of(i).y as int) == i);
}

/// Computes the linear index of an in-range coordinate.
pub fn get_index(pos: Position) -> (i: usize)
    requires
        pos.valid(),
    ensures
        i == index_of(pos.x as int, pos.y as int),
        i < ARENA_WIDTH * ARENA_HEIGHT,
{
    pos.x * ARENA_WIDTH + pos.y
}

/// One cell of the grid: its state together with its fixed coordinate.
#[derive(Clone, Copy, PartialEq, Eq, Structural, Debug)]
pub struct SingleTile {
    pub state: State,
    pub position: Position,
}

impl SingleTile {
    /// Flips this cell between Alive and Dead; the coordinate is untouched.
    pub fn change_state(&mut self)
        ensures
            final(self).state == flip(old(self).state),
            final(self).position == old(self).position,
    {
        self.state = match self.state {
            State::Alive => State::Dead,
            State::Dead => State::Alive,
        };
    }
}

/// The grid store: one cell for every coordinate of
/// `[0, ARENA_WIDTH) x [0, ARENA_HEIGHT)`, held at its linear index.
pub struct Grid {
    pub tiles: Vec<SingleTile>,
}

impl View for Grid {
    type V = Seq<State>;

    /// The mathematical model of the grid: the sequence of cell states in
    /// linear-index order, so the state at `(x, y)` is `self@[index_of(x, y)]`.
    open spec fn view(&self) -> Seq<State> {
        self.tiles@.map(|i: int, t: SingleTile| t.state)
    }
}

impl Grid {
    /// Well-formedness: the grid holds exactly one cell per coordinate, each
    /// stored at its linear index and carrying that coordinate.
    pub open spec fn wf(self) -> bool {
        &&& self.tiles@.len() == ARENA_WIDTH * ARENA_HEIGHT
        &&& forall|i: int|
            0 <= i < self.tiles@.len() ==> (#[trigger] self.tiles@[i]).position == pos_of(i)
    }

    /// The state of the cell at coordinate `(x, y)`.
    pub open spec fn cell(self, x: int, y: int) -> State {
        self@[index_of(x, y)]
    }

    /// Reads the cell at an in-range coordinate.
    pub fn get(&self, pos: Position) -> (s: State)
        requires
            self.wf(),
            pos.valid(),
        ensures
            s == self.cell(pos.x as int, pos.y as int),
    {
        let i = get_index(pos);
        self.tiles[i].state
    }

    /// Overwrites the cell at an in-range coordinate; no other cell changes.
    pub fn set(&mut self, pos: Position, s: State)
        requires
            old(self).wf(),
            pos.valid(),
        ensures
            final(self).wf(),
            final(self)@ == old(self)@.update(index_of(pos.x as int, pos.y as int), s),
    {
        let i = get_index(pos);
        let p = self.tiles[i].position;
        self.tiles.set(i, SingleTile { state: s, position: p });
        proof {
            assert(self@ =~= old(self)@.update(index_of(pos.x as int, pos.y as int), s));
        }
    }

    /// Flips the cell at an in-range coordinate between Alive and Dead;
    /// no other cell changes.
    pub fn toggle(&mut self, pos: Position)
        requires
            old(self).wf(),
            pos.valid(),
        ensures
            final(self).wf(),
            final(self)@ == toggle_spec(old(self)@, pos.x as int, pos.y as int),
    {
        let i = get_index(pos);
        let mut t = self.tiles[i];
        t.change_state();
        self.tiles.set(i, t);
        proof {
            assert(self@ =~= toggle_spec(old(self)@, pos.x as int, pos.y as int));
        }
    }

    /// Every cell exactly once, as `(coordinate, state)` pairs in the natural
    /// x-major, y-minor, ascending order.
    pub fn snapshot(&self) -> (out: Vec<(Position, State)>)
        requires
            self.wf(),
        ensures
            out@.len() == ARENA_WIDTH * ARENA_HEIGHT,
            forall|i: int| 0 <= i < out@.len() ==> #[trigger] out@[i] == (pos_of(i), self@[i]),
            forall|x: int, y: int|
                0 <= x < ARENA_WIDTH && 0 <= y < ARENA_HEIGHT ==> #[trigger] out@[index_of(x, y)]
                    == (Position { x: x as usize, y: y as usize }, self.cell(x, y)),
    {
        let n = ARENA_WIDTH * ARENA_HEIGHT;
        let mut out: Vec<(Position, State)> = Vec::new();
        let mut k: usize = 0;
        while k < n
            invariant
                self.wf(),
                n == ARENA_WIDTH * ARENA_HEIGHT,
                k <= n,
                out@.len() == k,
                forall|i: int| 0 <= i < k ==> #[trigger] out@[i] == (pos_of(i), self@[i]),
            decreases n - k,
        {
            let t = self.tiles[k];
            out.push((t.position, t.state));
            k = k + 1;
        }
        proof {
            assert forall|x: int, y: int|
                0 <= x < ARENA_WIDTH && 0 <= y < ARENA_HEIGHT implies #[trigger] out@[index_of(
                x,
                y,
            )] == (Position { x: x as usize, y: y as usize }, self.cell(x, y)) by {
                lemma_pos_of_index_of(x, y);
            }
        }
        out
    }
}

/// The grid model after a toggle at `(x, y)`: the state there is flipped and
/// every other cell keeps its state.
pub open spec fn toggle_spec(g: Seq<State>, x: int, y: int) -> Seq<State> {
    g.update(index_of(x, y), flip(g[index_of(x, y)]))
}

/// Toggling the same coordinate twice restores the whole grid, the toggled
/// cell included: toggle is an involution.
pub proof fn lemma_toggle_involution(g: Seq<State>, x: int, y: int)
    requires
        0 <= x < ARENA_WIDTH,
        0 <= y < ARENA_HEIGHT,
        g.len() == ARENA_WIDTH * ARENA_HEIGHT,
    ensures
        toggle_spec(toggle_spec(g, x, y), x, y) == g,
{
    lemma_pos_of_index_of(x, y);
    assert(toggle_spec(toggle_spec(g, x, y), x, y) =~= g);
}

/// Builds the grid in its startup configuration: every coordinate present,
/// every cell Dead.
pub fn initialize_grid() -> (g: Grid)
    ensures
        g.wf(),
        forall|x: int, y: int|
            0 <= x < ARENA_WIDTH && 0 <= y < ARENA_HEIGHT ==> g.cell(x, y) == State::Dead,
{
    let mut tiles: Vec<SingleTile> = Vec::new();
    let mut i: usize = 0;
    while i < ARENA_WIDTH
        invariant
            i <= ARENA_WIDTH,
            tiles@.len() == i * ARENA_WIDTH,
            forall|k: int|
                0 <= k < tiles@.len() ==> (#[trigger] tiles@[k]).position == pos_of(k),
            forall|k: int| 0 <= k < tiles@.len() ==> (#[trigger] tiles@[k]).state == State::Dead,
        decreases ARENA_WIDTH - i,
    {
        let mut j: usize = 0;
        while j < ARENA_HEIGHT
            invariant
                i < ARENA_WIDTH,
                j <= ARENA_HEIGHT,
                tiles@.len() == i * ARENA_WIDTH + j,
                forall|k: int|
                    0 <= k < tiles@.len() ==> (#[trigger] tiles@[k]).position == pos_of(k),
                forall|k: int|
                    0 <= k < tiles@.len() ==> (#[trigger] tiles@[k]).state == State::Dead,
            decreases ARENA_HEIGHT - j,
        {
            proof {
                lemma_pos_of_index_of(i as int, j as int);
            }
            tiles.push(SingleTile { state: State::Dead, position: Position { x: i, y: j } });
            j = j + 1;
        }
        i = i + 1;
    }
    let g = Grid { tiles };
    proof {
        assert forall|x: int, y: int|
            0 <= x < ARENA_WIDTH && 0 <= y < ARENA_HEIGHT implies g.cell(x, y) == State::Dead by {
            lemma_pos_of_index_of(x, y);
        }
    }
    g
}

} // verus!
