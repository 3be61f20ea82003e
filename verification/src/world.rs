//! The executable game.
//!
//! A [`World`] holds one game in machine integers. Its view is the
//! [`Game`] that it stands for, and every method is specified by what it
//! does to that view.
//!
//! The engine draws no random numbers itself. Whenever a reward cell is to
//! be placed, [`World::draw_bound`] gives the bound below which the host
//! draws an index, and [`World::offer_draw`] takes the index; the host
//! repeats the two until `draw_bound` has nothing more to ask.

use vstd::prelude::*;
use crate::game::{spawn_body, Game, GameStatus, SPAWN_LENGTH};
use crate::game_laws::{lemma_spawn_wf, lemma_step_wf, lemma_turn_wf};
use crate::grid::{
    in_grid,
    lemma_coordinates,
    lemma_next_cell_by_index,
    lemma_next_cell_in_grid,
    next_cell,
    Direction,
};
use vstd::arithmetic::div_mod::lemma_fundamental_div_mod_converse;

verus! {

/// One cell of the snake, by its index on the grid.
#[derive(PartialEq, Eq, Structural, Clone, Copy, Debug)]
pub struct SnakeCell(pub usize);

struct Snake {
    body: Vec<SnakeCell>,
    direction: Direction,
}

/// The indices of a sequence of cells.
pub open spec fn cell_indices(cells: Seq<SnakeCell>) -> Seq<int> {
    cells.map_values(|cell: SnakeCell| cell.0 as int)
}

/// What the game shows for a status.
pub open spec fn display_text(status: Option<GameStatus>) -> Seq<char> {
    match status {
        None => "No status"@,
        Some(GameStatus::Played) => "Playing..."@,
        Some(GameStatus::Won) => "You have won!"@,
        Some(GameStatus::Lost) => "WASTED"@,
    }
}

impl Snake {
    /// The indices of the body cells, head first.
    spec fn cells(&self) -> Seq<int> {
        cell_indices(self.body@)
    }

    /// A snake that heads right, with its head at `spawn_index` and each
    /// further cell one index lower, `length` cells in all unless index 0
    /// comes first.
    fn new(spawn_index: usize, length: usize) -> (snake: Snake)
        ensures
            snake.cells() == spawn_body(spawn_index as int, length as int),
            snake.direction == Direction::Right,
    {
        let mut body: Vec<SnakeCell> = Vec::new();
        for i in 0..length
            invariant
                body.len() == if i <= spawn_index {
                    i as int
                } else {
                    spawn_index + 1
                },
                forall|j: int| 0 <= j < body.len() ==> (#[trigger] body[j]).0 == spawn_index - j,
        {
            if i <= spawn_index {
                body.push(SnakeCell(spawn_index - i));
            }
        }
        let snake = Snake { body, direction: Direction::Right };
        assert(snake.cells() =~= spawn_body(spawn_index as int, length as int));
        snake
    }

    /// Turns the snake to `dir`.
    fn change_direction(&mut self, dir: Direction)
        ensures
            final(self).direction == dir,
            final(self).body == old(self).body,
    {
        self.direction = dir;
    }

    /// Whether `cell` is among the body cells from position `from` on.
    fn occupies(&self, cell: usize, from: usize) -> (found: bool)
        requires
            from <= self.body.len(),
        ensures
            found == self.cells().skip(from as int).contains(cell as int),
    {
        let ghost rest = self.cells().skip(from as int);
        let mut i: usize = from;
        while i < self.body.len()
            invariant
                from <= i <= self.body.len(),
                rest == self.cells().skip(from as int),
                forall|j: int| 0 <= j < i - from ==> rest[j] != cell,
            decreases self.body.len() - i,
        {
            if self.body[i].0 == cell {
                assert(rest[i - from] == cell);
                return true;
            }
            i += 1;
        }
        false
    }
}

/// The state of one game.
pub struct World {
    width: usize,
    size: usize,
    snake: Snake,
    next_cell: Option<SnakeCell>,
    reward_cell: Option<usize>,
    reward_due: bool,
    points: usize,
    status: Option<GameStatus>,
}

/// An optional index as an optional integer.
pub open spec fn index_view(index: Option<usize>) -> Option<int> {
    match index {
        Some(i) => Some(i as int),
        None => None,
    }
}

impl View for World {
    type V = Game;

    closed spec fn view(&self) -> Game {
        Game {
            width: self.width as int,
            size: self.size as int,
            body: self.snake.cells(),
            heading: self.snake.direction,
            next_cell: match self.next_cell {
                Some(cell) => Some(cell.0 as int),
                None => None,
            },
            reward_cell: index_view(self.reward_cell),
            reward_due: self.reward_due,
            points: self.points as int,
            status: self.status,
        }
    }
}

impl World {
    /// Starts the game, or starts it again: whatever the status was, the
    /// game is being played.
    pub fn game_start(&mut self)
        ensures
            final(self)@ == old(self)@.start(),
            old(self)@.wf() ==> final(self)@.wf(),
    {
        self.status = Some(GameStatus::Played);
    }

    /// The status, `None` before the game was started.
    pub fn game_status(&self) -> (status: Option<GameStatus>)
        ensures
            status == self@.status,
    {
        self.status
    }

    /// The status in words.
    pub fn get_display_status(&self) -> (text: String)
        ensures
            text@ == display_text(self@.status),
    {
        match self.game_status() {
            None => "No status".to_owned(),
            Some(GameStatus::Played) => "Playing...".to_owned(),
            Some(GameStatus::Won) => "You have won!".to_owned(),
            Some(GameStatus::Lost) => "WASTED".to_owned(),
        }
    }

    /// A game on a grid of `width` rows and columns, with the head of the
    /// snake at `snake_idx`. No reward cell is set yet: a draw is due.
    ///
    /// The game can be played if the grid has a cell and the head lies on
    /// it.
    pub fn new(width: usize, snake_idx: usize) -> (world: World)
        requires
            width * width <= usize::MAX,
        ensures
            world@ == Game::spawn(width as int, snake_idx as int),
            world@.wf() <==> 0 < width && snake_idx < width * width,
    {
        let snake = Snake::new(snake_idx, SPAWN_LENGTH);
        let size: usize = width * width;
        let world = World {
            width,
            size,
            snake,
            next_cell: None,
            reward_cell: None,
            reward_due: true,
            status: None,
            points: 0,
        };
        proof {
            if 0 < width && snake_idx < width * width {
                lemma_spawn_wf(width as int, snake_idx as int);
            } else if 0 < width {
                assert(world@.body[0] == snake_idx);
            }
        }
        world
    }

    /// Rewards collected so far.
    pub fn points(&self) -> (points: usize)
        ensures
            points == self@.points,
    {
        self.points
    }

    /// The reward cell, if one is set.
    pub fn reaward_cell(&self) -> (reward_cell: Option<usize>)
        ensures
            index_view(reward_cell) == self@.reward_cell,
    {
        self.reward_cell
    }

    /// Sets or clears the reward cell. No draw is due afterwards.
    pub fn set_reaward_cell(&mut self, reward_cell: Option<usize>)
        ensures
            final(self)@ == old(self)@.with_reward(index_view(reward_cell)),
            old(self)@.wf() ==> final(self)@.wf(),
    {
        self.reward_cell = reward_cell;
        self.reward_due = false;
    }

    /// Takes the reward cell away and asks the host for a draw to place a
    /// new one.
    pub fn new_reaward_cell(&mut self)
        ensures
            final(self)@ == old(self)@.without_reward(),
            old(self)@.wf() ==> final(self)@.wf(),
    {
        self.reward_cell = None;
        self.reward_due = true;
    }

    /// One round of placing a reward cell: `drawn` if it is a cell of the
    /// grid that the snake does not cover, else nothing, and the host draws
    /// again.
    fn generate_reaward_cell(snake: &Snake, size: usize, drawn: usize) -> (cell: Option<usize>)
        ensures
            cell == if drawn < size && !snake.cells().contains(drawn as int) {
                Some(drawn)
            } else {
                None
            },
    {
        assert(snake.cells().skip(0) =~= snake.cells());
        if drawn < size && !snake.occupies(drawn, 0) {
            Some(drawn)
        } else {
            None
        }
    }

    /// The bound below which the host is to draw an index for the reward
    /// cell: the number of cells, while a draw is due.
    pub fn draw_bound(&self) -> (bound: Option<usize>)
        ensures
            index_view(bound) == if self@.reward_due {
                Some(self@.size)
            } else {
                None
            },
    {
        if self.reward_due {
            Some(self.size)
        } else {
            None
        }
    }

    /// Takes an index that the host has drawn. It becomes the reward cell
    /// if a draw is due and the index is a cell of the grid that the snake
    /// does not cover; otherwise nothing changes.
    pub fn offer_draw(&mut self, drawn: usize) -> (accepted: bool)
        ensures
            accepted == old(self)@.accepts(drawn as int),
            final(self)@ == old(self)@.offer(drawn as int),
            old(self)@.wf() ==> final(self)@.wf(),
    {
        if !self.reward_due {
            return false;
        }
        match World::generate_reaward_cell(&self.snake, self.size, drawn) {
            Some(reward_cell) => {
                self.set_reaward_cell(Some(reward_cell));
                true
            },
            None => false,
        }
    }

    /// Cells per row.
    pub fn width(&self) -> (width: usize)
        ensures
            width == self@.width,
    {
        self.width
    }

    /// The cell of the head.
    pub fn snake_head_idx(&self) -> (head: usize)
        requires
            self@.body.len() > 0,
        ensures
            head == self@.head(),
    {
        self.snake.body[0].0
    }

    /// Turns the snake to `dir`, unless that would lead the head straight
    /// back into the cell behind it: then nothing changes. A snake of one
    /// cell may turn anywhere.
    pub fn change_snake_dir(&mut self, dir: Direction)
        requires
            old(self)@.wf(),
        ensures
            final(self)@ == old(self)@.turn(dir),
            final(self)@.wf(),
    {
        proof {
            lemma_turn_wf(self@, dir);
        }
        let next_cell = self.gen_next_snake_cell(&dir);

        if self.snake.body.len() >= 2 && self.snake.body[1].0 == next_cell.0 {
            return;
        }
        self.next_cell = Some(next_cell);
        self.snake.change_direction(dir);
    }

    /// The number of cells of the snake.
    pub fn snake_len(&self) -> (len: usize)
        ensures
            len == self@.body.len(),
    {
        self.snake.body.len()
    }

    /// The cells of the snake, head first.
    pub fn snake_cells(&self) -> (cells: &Vec<SnakeCell>)
        ensures
            cell_indices(cells@) == self@.body,
    {
        &self.snake.body
    }

    /// Moves the game on by one tick.
    pub fn step(&mut self)
        requires
            old(self)@.wf(),
        ensures
            final(self)@ == old(self)@.step(),
            final(self)@.wf(),
    {
        proof {
            lemma_step_wf(self@);
        }
        match self.status {
            Some(GameStatus::Played) => {
                let next_cell = match self.next_cell {
                    Some(cell) => cell,
                    None => self.gen_next_snake_cell(&self.snake.direction),
                };
                self.snake.body.insert(0, next_cell);
                assert(self.snake.cells() =~= old(self)@.body.insert(0, next_cell.0 as int));
                let hit = match self.reward_cell {
                    Some(reward_cell) => reward_cell == next_cell.0,
                    None => false,
                };
                if hit {
                    if self.snake_len() < self.size {
                        self.new_reaward_cell();
                    } else {
                        self.set_reaward_cell(None);
                        self.status = Some(GameStatus::Won);
                    }
                    self.points = self.points + 1;
                } else {
                    self.snake.body.pop();
                    assert(self.snake.cells() =~= old(self)@.body.insert(
                        0,
                        next_cell.0 as int,
                    ).drop_last());
                }
                self.next_cell = None;
                if self.snake.occupies(next_cell.0, 1) {
                    self.status = Some(GameStatus::Lost);
                }
            },
            _ => {},
        }
    }

    /// The cell one step from the head in direction `dir`.
    pub fn gen_next_snake_cell(&self, dir: &Direction) -> (cell: SnakeCell)
        requires
            self@.wf(),
        ensures
            cell.0 == next_cell(self@.width, self@.head(), *dir),
            in_grid(self@.width, cell.0 as int),
    {
        let snake_idx: usize = self.snake_head_idx();
        let current_row: usize = snake_idx / self.width();
        proof {
            let width: int = self.width as int;
            let head: int = snake_idx as int;
            assert(in_grid(width, self@.body[0]));
            lemma_coordinates(width, head);
            lemma_next_cell_by_index(width, head, *dir);
            lemma_next_cell_in_grid(width, head, *dir);
            assert(width <= width * width) by (nonlinear_arith)
                requires
                    0 < width,
            ;
        }
        match dir {
            Direction::Right => {
                SnakeCell(current_row * self.width() + (snake_idx + 1) % self.width())
            },
            Direction::Left => {
                if snake_idx >= 1 && (snake_idx - 1) / self.width() == current_row {
                    SnakeCell(current_row * self.width() + (snake_idx - 1) % self.width())
                } else {
                    proof {
                        if snake_idx == 0 {
                            lemma_fundamental_div_mod_converse(
                                -1,
                                self.width as int,
                                -1,
                                self.width - 1,
                            );
                        }
                    }
                    SnakeCell(current_row * self.width() + self.width() - 1)
                }
            },
            Direction::Up => {
                if snake_idx >= self.width() {
                    SnakeCell(snake_idx - self.width())
                } else {
                    // From the top row to the bottom row of the same column.
                    SnakeCell(self.size - self.width() + snake_idx)
                }
            },
            Direction::Down => {
                // `(snake_idx + width) % size`, without a sum that could
                // leave the range of `usize`.
                let last_row: usize = self.size - self.width();
                if snake_idx >= last_row {
                    proof {
                        lemma_fundamental_div_mod_converse(
                            snake_idx + self.width,
                            self.size as int,
                            1,
                            snake_idx - last_row,
                        );
                    }
                    SnakeCell(snake_idx - last_row)
                } else {
                    proof {
                        lemma_fundamental_div_mod_converse(
                            snake_idx + self.width,
                            self.size as int,
                            0,
                            snake_idx + self.width,
                        );
                    }
                    SnakeCell(snake_idx + self.width())
                }
            },
        }
    }
}

} // verus!
