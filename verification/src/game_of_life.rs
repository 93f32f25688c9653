//! Conway's Game of Life on a bounded board.

use vstd::prelude::*;

verus! {

/// The number of frames between two generations.
pub const FRAMES_PER_GENERATION: u64 = 12;

/// The side of a fresh board.
pub const BOARD_SIDE: usize = 20;

/// Whether the generations advance.
#[derive(Debug, Copy, Clone, PartialEq, Eq, Structural)]
pub enum GameState {
    Paused,
    NextFrame,
    Running,
}

/// The keys that the board reacts to.
#[derive(Debug, Copy, Clone, PartialEq, Eq, Structural)]
pub enum Key {
    Space,
    R,
    Back,
    Right,
    Other,
}

/// What a key asks for beyond a change of the game state.
#[derive(Debug, Copy, Clone, PartialEq, Eq, Structural)]
pub enum KeyEffect {
    /// Nothing but, perhaps, the game state changed.
    StateOnly,
    /// The board has been cleared and waits for fresh random cells.
    Randomise,
}

/// The state that the space bar leads to.
pub open spec fn spec_toggle(state: GameState) -> GameState {
    match state {
        GameState::Paused => GameState::Running,
        GameState::Running => GameState::Paused,
        GameState::NextFrame => GameState::Paused,
    }
}

impl GameState {
    /// The state that the space bar leads to: running if paused, paused
    /// otherwise. The state itself is left as it is.
    pub fn toggle(&mut self) -> (toggled: Self)
        ensures
            toggled == spec_toggle(*old(self)),
            *final(self) == *old(self),
    {
        match self {
            GameState::Paused => GameState::Running,
            GameState::Running => GameState::Paused,
            GameState::NextFrame => GameState::Paused,
        }
    }
}

/// A board: rows of cells, all rows of one length.
pub type Grid = Seq<Seq<bool>>;

/// Whether a grid has at least one row and all its rows have the length of
/// the first.
pub open spec fn rectangular(grid: Grid) -> bool {
    &&& grid.len() > 0
    &&& forall|i: int| 0 <= i < grid.len() ==> (#[trigger] grid[i]).len() == grid[0].len()
}

/// One if the cell at row `i`, column `j` is on the board and alive, else
/// zero.
pub open spec fn alive(grid: Grid, i: int, j: int) -> int {
    if 0 <= i < grid.len() && 0 <= j < grid[0].len() && grid[i][j] {
        1
    } else {
        0
    }
}

/// The number of living cells among the up to eight neighbours of a cell.
pub open spec fn live_neighbours(grid: Grid, i: int, j: int) -> int {
    alive(grid, i - 1, j - 1) + alive(grid, i - 1, j) + alive(grid, i - 1, j + 1) + alive(
        grid,
        i,
        j - 1,
    ) + alive(grid, i, j + 1) + alive(grid, i + 1, j - 1) + alive(grid, i + 1, j) + alive(
        grid,
        i + 1,
        j + 1,
    )
}

/// The cell at row `i`, column `j` in the next generation: a living cell
/// stays alive with two or three living neighbours, a dead cell comes alive
/// with exactly three.
pub open spec fn next_cell(grid: Grid, i: int, j: int) -> bool {
    if grid[i][j] {
        live_neighbours(grid, i, j) == 2 || live_neighbours(grid, i, j) == 3
    } else {
        live_neighbours(grid, i, j) == 3
    }
}

/// The next generation of a whole board.
pub open spec fn next_generation(grid: Grid) -> Grid {
    Seq::new(grid.len(), |i: int| Seq::new(grid[0].len(), |j: int| next_cell(grid, i, j)))
}

/// A board of `rows` by `columns` dead cells.
pub open spec fn dead_grid(rows: nat, columns: nat) -> Grid {
    Seq::new(rows, |i: int| Seq::new(columns, |j: int| false))
}

/// The grid with the cell at row `i`, column `j` inverted.
pub open spec fn flipped(grid: Grid, i: int, j: int) -> Grid {
    grid.update(i, grid[i].update(j, !grid[i][j]))
}

/// Whether a generation is due: the game is not paused, and the frame is one
/// of those on which generations fall.
pub open spec fn generation_due(state: GameState, frame: u64) -> bool {
    state != GameState::Paused && frame % FRAMES_PER_GENERATION == 0
}

/// The board of the game together with its state.
#[derive(Debug, Clone)]
pub struct Model {
    cells: Vec<Vec<bool>>,
    state: GameState,
}

/// The neighbouring coordinate below `at`, if there is one.
fn before(at: usize) -> (coordinate: Option<usize>)
    ensures
        coordinate == if at > 0 {
            Some((at - 1) as usize)
        } else {
            None::<usize>
        },
{
    if at > 0 {
        Some(at - 1)
    } else {
        None
    }
}

/// The neighbouring coordinate above `at`, if there is one below `bound`.
fn after(at: usize, bound: usize) -> (coordinate: Option<usize>)
    requires
        at < bound,
    ensures
        coordinate == if at + 1 < bound {
            Some((at + 1) as usize)
        } else {
            None::<usize>
        },
{
    if at + 1 < bound {
        Some(at + 1)
    } else {
        None
    }
}

/// The coordinate that an optional coordinate stands for; one that is missing
/// stands for a place off the board.
pub open spec fn coordinate_of(coordinate: Option<usize>) -> int {
    match coordinate {
        Some(at) => at as int,
        None => -1,
    }
}

impl Model {
    /// The cells, row by row.
    pub closed spec fn grid(&self) -> Grid {
        Seq::new(self.cells@.len(), |i: int| self.cells@[i]@)
    }

    /// The state of the game.
    pub closed spec fn game_state(&self) -> GameState {
        self.state
    }

    /// The board is rectangular.
    pub open spec fn wf(&self) -> bool {
        rectangular(self.grid())
    }

    /// One if the cell at the given coordinates is on the board and alive.
    fn alive_at(&self, row: Option<usize>, column: Option<usize>) -> (count: u8)
        requires
            self.wf(),
            row matches Some(i) ==> i < self.grid().len(),
            column matches Some(j) ==> j < self.grid()[0].len(),
        ensures
            count == alive(self.grid(), coordinate_of(row), coordinate_of(column)),
    {
        match row {
            Some(i) => match column {
                Some(j) => {
                    assert(self.grid()[i as int].len() == self.grid()[0].len());
                    if self.cells[i][j] {
                        1
                    } else {
                        0
                    }
                },
                None => 0,
            },
            None => 0,
        }
    }

    /// The cell at row `i`, column `j` in the next generation.
    fn next_cell_at(&self, i: usize, j: usize) -> (cell: bool)
        requires
            self.wf(),
            i < self.grid().len(),
            j < self.grid()[0].len(),
        ensures
            cell == next_cell(self.grid(), i as int, j as int),
    {
        assert(self.grid()[i as int].len() == self.grid()[0].len());
        let rows: usize = self.cells.len();
        let columns: usize = self.cells[0].len();
        let north: Option<usize> = before(i);
        let south: Option<usize> = after(i, rows);
        let west: Option<usize> = before(j);
        let east: Option<usize> = after(j, columns);
        let here_i: Option<usize> = Some(i);
        let here_j: Option<usize> = Some(j);
        let count: u8 = self.alive_at(north, west) + self.alive_at(north, here_j) + self.alive_at(
            north,
            east,
        ) + self.alive_at(here_i, west) + self.alive_at(here_i, east) + self.alive_at(south, west)
            + self.alive_at(south, here_j) + self.alive_at(south, east);
        assert(count == live_neighbours(self.grid(), i as int, j as int));
        if self.cells[i][j] {
            count == 2 || count == 3
        } else {
            count == 3
        }
    }

    /// A paused board of twenty by twenty dead cells.
    pub fn clear_state() -> (model: Self)
        ensures
            model.wf(),
            model.grid() == dead_grid(BOARD_SIDE as nat, BOARD_SIDE as nat),
            model.game_state() == GameState::Paused,
    {
        let mut cells: Vec<Vec<bool>> = Vec::new();
        let mut i: usize = 0;
        while i < BOARD_SIDE
            invariant
                i <= BOARD_SIDE,
                cells@.len() == i,
                forall|r: int| 0 <= r < i ==> (#[trigger] cells@[r])@ == Seq::new(
                    BOARD_SIDE as nat,
                    |j: int| false,
                ),
            decreases BOARD_SIDE - i,
        {
            let mut row: Vec<bool> = Vec::new();
            let mut j: usize = 0;
            while j < BOARD_SIDE
                invariant
                    j <= BOARD_SIDE,
                    row@.len() == j,
                    forall|c: int| 0 <= c < j ==> row@[c] == false,
                decreases BOARD_SIDE - j,
            {
                row.push(false);
                j = j + 1;
            }
            assert(row@ =~= Seq::new(BOARD_SIDE as nat, |j: int| false));
            cells.push(row);
            i = i + 1;
        }
        let model = Model { cells, state: GameState::Paused };
        assert(model.grid() =~= dead_grid(BOARD_SIDE as nat, BOARD_SIDE as nat));
        model
    }

    /// A paused board with the given cells, provided that they form a
    /// rectangle with at least one row.
    pub fn from_cells(cells: Vec<Vec<bool>>) -> (result: Option<Self>)
        ensures
            result.is_some() <==> rectangular(Seq::new(cells@.len(), |i: int| cells@[i]@)),
            result matches Some(model) ==> {
                &&& model.wf()
                &&& model.grid() == Seq::new(cells@.len(), |i: int| cells@[i]@)
                &&& model.game_state() == GameState::Paused
            },
    {
        let ghost grid = Seq::new(cells@.len(), |i: int| cells@[i]@);
        if cells.len() == 0 {
            return None;
        }
        let columns: usize = cells[0].len();
        let mut i: usize = 0;
        while i < cells.len()
            invariant
                i <= cells@.len(),
                cells@.len() > 0,
                columns == cells@[0]@.len(),
                grid == Seq::new(cells@.len(), |i: int| cells@[i]@),
                forall|r: int| 0 <= r < i ==> (#[trigger] grid[r]).len() == columns,
            decreases cells@.len() - i,
        {
            if cells[i].len() != columns {
                assert(grid[i as int].len() != grid[0].len());
                return None;
            }
            i = i + 1;
        }
        Some(Model { cells, state: GameState::Paused })
    }

    /// The number of rows.
    pub fn rows(&self) -> (count: usize)
        ensures
            count == self.grid().len(),
    {
        self.cells.len()
    }

    /// The number of columns.
    pub fn columns(&self) -> (count: usize)
        requires
            self.wf(),
        ensures
            count == self.grid()[0].len(),
    {
        self.cells[0].len()
    }

    /// The cell at row `i`, column `j`.
    pub fn cell(&self, i: usize, j: usize) -> (alive: bool)
        requires
            self.wf(),
            i < self.grid().len(),
            j < self.grid()[0].len(),
        ensures
            alive == self.grid()[i as int][j as int],
    {
        assert(self.grid()[i as int].len() == self.grid()[0].len());
        self.cells[i][j]
    }

    /// The state of the game.
    pub fn state(&self) -> (state: GameState)
        ensures
            state == self.game_state(),
    {
        self.state
    }

    /// Advances the board by one generation where one is due on `frame`, and
    /// pauses a game that was to show a single generation. Returns whether a
    /// generation was computed.
    pub fn update(&mut self, frame: u64) -> (advanced: bool)
        requires
            old(self).wf(),
        ensures
            final(self).wf(),
            advanced == generation_due(old(self).game_state(), frame),
            advanced ==> final(self).grid() == next_generation(old(self).grid()),
            !advanced ==> final(self).grid() == old(self).grid(),
            final(self).game_state() == if advanced && old(self).game_state()
                == GameState::NextFrame {
                GameState::Paused
            } else {
                old(self).game_state()
            },
    {
        if self.state == GameState::Paused || frame % FRAMES_PER_GENERATION != 0 {
            return false;
        }
        let rows: usize = self.cells.len();
        let columns: usize = self.cells[0].len();
        let mut new_cells: Vec<Vec<bool>> = Vec::new();
        let mut i: usize = 0;
        while i < rows
            invariant
                self.wf(),
                *self == *old(self),
                rows == self.grid().len(),
                columns == self.grid()[0].len(),
                i <= rows,
                new_cells@.len() == i,
                forall|r: int|
                    0 <= r < i ==> (#[trigger] new_cells@[r])@ == Seq::new(
                        columns as nat,
                        |j: int| next_cell(self.grid(), r, j),
                    ),
            decreases rows - i,
        {
            let mut row: Vec<bool> = Vec::new();
            let mut j: usize = 0;
            while j < columns
                invariant
                    self.wf(),
                    rows == self.grid().len(),
                    columns == self.grid()[0].len(),
                    i < rows,
                    j <= columns,
                    row@.len() == j,
                    forall|c: int| 0 <= c < j ==> row@[c] == next_cell(self.grid(), i as int, c),
                decreases columns - j,
            {
                let cell: bool = self.next_cell_at(i, j);
                row.push(cell);
                j = j + 1;
            }
            assert(row@ =~= Seq::new(columns as nat, |j: int| next_cell(self.grid(), i as int, j)));
            new_cells.push(row);
            i = i + 1;
        }
        let ghost before = self.grid();
        self.cells = new_cells;
        assert(self.grid() =~= next_generation(before));
        if self.state == GameState::NextFrame {
            self.state = GameState::Paused;
        }
        true
    }

    /// Inverts the cell at row `i`, column `j` on a click of the left mouse
    /// button, unless the game is running or the place is off the board.
    /// Returns whether a cell changed.
    pub fn mouse_pressed(&mut self, left_button: bool, i: i32, j: i32) -> (changed: bool)
        requires
            old(self).wf(),
        ensures
            final(self).wf(),
            final(self).game_state() == old(self).game_state(),
            changed == (left_button && old(self).game_state() != GameState::Running && 0 <= i
                < old(self).grid().len() && 0 <= j < old(self).grid()[0].len()),
            changed ==> final(self).grid() == flipped(old(self).grid(), i as int, j as int),
            !changed ==> final(self).grid() == old(self).grid(),
    {
        if !left_button {
            return false;
        }
        if self.state == GameState::Running {
            return false;
        }
        if i < 0 || j < 0 {
            return false;
        }
        let row: usize = i as usize;
        let column: usize = j as usize;
        if row >= self.cells.len() || column >= self.cells[0].len() {
            return false;
        }
        assert(self.grid()[row as int].len() == self.grid()[0].len());
        let ghost before = self.grid();
        let mut cells: Vec<bool> = self.cells[row].clone();
        let inverted: bool = !cells[column];
        cells.set(column, inverted);
        self.cells.set(row, cells);
        assert(self.grid() =~= flipped(before, i as int, j as int));
        true
    }

    /// Reacts to a key: the space bar toggles between paused and running,
    /// the right arrow asks for a single generation, backspace clears the
    /// board, and R clears it and asks for random cells.
    pub fn key_pressed(&mut self, key: Key) -> (effect: KeyEffect)
        requires
            old(self).wf(),
        ensures
            final(self).wf(),
            effect == if key == Key::R {
                KeyEffect::Randomise
            } else {
                KeyEffect::StateOnly
            },
            final(self).game_state() == match key {
                Key::Space => spec_toggle(old(self).game_state()),
                Key::Right => GameState::NextFrame,
                Key::R | Key::Back => GameState::Paused,
                Key::Other => old(self).game_state(),
            },
            final(self).grid() == match key {
                Key::R | Key::Back => dead_grid(BOARD_SIDE as nat, BOARD_SIDE as nat),
                _ => old(self).grid(),
            },
    {
        match key {
            Key::Space => {
                let toggled: GameState = self.state.toggle();
                self.state = toggled;
                KeyEffect::StateOnly
            },
            Key::R => {
                *self = Model::clear_state();
                KeyEffect::Randomise
            },
            Key::Back => {
                *self = Model::clear_state();
                KeyEffect::StateOnly
            },
            Key::Right => {
                self.state = GameState::NextFrame;
                KeyEffect::StateOnly
            },
            Key::Other => KeyEffect::StateOnly,
        }
    }

    /// A paused board of twenty by twenty cells that takes its cells, row by
    /// row, from the first four hundred of `coins`; none where the coins are
    /// fewer.
    pub fn random_state(coins: &Vec<bool>) -> (result: Option<Self>)
        ensures
            result.is_some() <==> coins@.len() >= BOARD_SIDE * BOARD_SIDE,
            result matches Some(model) ==> {
                &&& model.wf()
                &&& model.game_state() == GameState::Paused
                &&& model.grid() == Seq::new(
                    BOARD_SIDE as nat,
                    |i: int| Seq::new(BOARD_SIDE as nat, |j: int| coins@[i * BOARD_SIDE + j]),
                )
            },
    {
        if coins.len() < BOARD_SIDE * BOARD_SIDE {
            return None;
        }
        let mut cells: Vec<Vec<bool>> = Vec::new();
        let mut i: usize = 0;
        while i < BOARD_SIDE
            invariant
                i <= BOARD_SIDE,
                coins@.len() >= BOARD_SIDE * BOARD_SIDE,
                cells@.len() == i,
                forall|r: int|
                    0 <= r < i ==> (#[trigger] cells@[r])@ == Seq::new(
                        BOARD_SIDE as nat,
                        |j: int| coins@[r * BOARD_SIDE + j],
                    ),
            decreases BOARD_SIDE - i,
        {
            let mut row: Vec<bool> = Vec::new();
            let mut j: usize = 0;
            while j < BOARD_SIDE
                invariant
                    i < BOARD_SIDE,
                    j <= BOARD_SIDE,
                    coins@.len() >= BOARD_SIDE * BOARD_SIDE,
                    row@.len() == j,
                    forall|c: int| 0 <= c < j ==> row@[c] == coins@[i * BOARD_SIDE + c],
                decreases BOARD_SIDE - j,
            {
                row.push(coins[i * BOARD_SIDE + j]);
                j = j + 1;
            }
            assert(row@ =~= Seq::new(BOARD_SIDE as nat, |j: int| coins@[i * BOARD_SIDE + j]));
            cells.push(row);
            i = i + 1;
        }
        let model = Model { cells, state: GameState::Paused };
        assert(model.grid() =~= Seq::new(
            BOARD_SIDE as nat,
            |i: int| Seq::new(BOARD_SIDE as nat, |j: int| coins@[i * BOARD_SIDE + j]),
        ));
        Some(model)
    }
}

} // verus!
