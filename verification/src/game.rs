//! The game as mathematics.
//!
//! A [`Game`] is one state of a game, made of unbounded integers and a
//! sequence. Its methods say what each operation of the engine does to a
//! state. The executable [`crate::world::World`] is specified against them:
//! its view is a `Game`, and each of its methods ends in the state that the
//! method of the same purpose gives here.

use vstd::prelude::*;
use crate::grid::{adjacent, in_grid, next_cell, Direction};

verus! {

/// How a game stands once it has been started.
#[derive(Clone, Copy, PartialEq, Eq, Structural, Debug)]
pub enum GameStatus {
    Won,
    Lost,
    Played,
}

/// One state of a game.
#[verifier::ext_equal]
pub struct Game {
    /// Cells per row, and rows.
    pub width: int,
    /// Cells in all.
    pub size: int,
    /// The cells of the snake, head first.
    pub body: Seq<int>,
    /// Where the snake is heading.
    pub heading: Direction,
    /// The cell that an accepted turn has fixed for the next tick.
    pub next_cell: Option<int>,
    /// The cell that scores when the head enters it.
    pub reward_cell: Option<int>,
    /// Whether the host owes the game a draw for a new reward cell.
    pub reward_due: bool,
    /// Rewards collected.
    pub points: int,
    /// `None` until the game is started.
    pub status: Option<GameStatus>,
}

/// The body of a snake spawned at `spawn_index` with `length` cells asked
/// for: the indices from `spawn_index` downwards, cut off below index 0.
pub open spec fn spawn_body(spawn_index: int, length: int) -> Seq<int> {
    let kept = if length <= spawn_index + 1 {
        length
    } else {
        spawn_index + 1
    };
    Seq::new(kept as nat, |i: int| spawn_index - i)
}

/// The number of cells that a new snake asks for.
pub const SPAWN_LENGTH: usize = 3;

impl Game {
    /// The state of a game before anything has happened: a snake of up to
    /// three cells that heads right, no points, no status, and a reward
    /// cell still to be drawn.
    pub open spec fn spawn(width: int, spawn_index: int) -> Game {
        Game {
            width,
            size: width * width,
            body: spawn_body(spawn_index, SPAWN_LENGTH as int),
            heading: Direction::Right,
            next_cell: None,
            reward_cell: None,
            reward_due: true,
            points: 0,
            status: None,
        }
    }

    /// The cell of the head.
    pub open spec fn head(self) -> int {
        self.body[0]
    }

    /// The cell one step ahead of the head.
    pub open spec fn ahead(self) -> int {
        next_cell(self.width, self.head(), self.heading)
    }

    /// The cell that the head enters at the next tick.
    pub open spec fn upcoming(self) -> int {
        match self.next_cell {
            Some(cell) => cell,
            None => self.ahead(),
        }
    }

    /// What holds of every state that the engine reaches: the grid is a
    /// square with at least one cell, the snake has a head and lies on the
    /// grid, a pending cell is the one that the heading leads to, no reward
    /// cell is set while one is due, and the snake is longer than the score.
    pub open spec fn wf(self) -> bool {
        &&& 0 < self.width
        &&& self.size == self.width * self.width
        &&& self.body.len() > 0
        &&& forall|i: int| 0 <= i < self.body.len() ==> in_grid(self.width, #[trigger] self.body[i])
        &&& (self.next_cell matches Some(cell) ==> cell == self.ahead())
        &&& (self.reward_due ==> self.reward_cell is None)
        &&& 0 <= self.points < self.body.len()
    }

    /// Whether the reward cell, if one is set, is a cell of the grid that
    /// the snake does not cover.
    pub open spec fn reward_is_free(self) -> bool {
        self.reward_cell matches Some(cell) ==> 0 <= cell < self.size && !self.body.contains(cell)
    }

    /// Whether the body cell at position `i` is one step away from the cell
    /// behind it.
    pub open spec fn follows(self, i: int) -> bool {
        adjacent(self.width, self.body[i + 1], self.body[i])
    }

    /// Whether the body is one chain: each cell but the last is one step
    /// away from the cell behind it.
    pub open spec fn connected(self) -> bool {
        forall|i: int| 0 <= i < self.body.len() - 1 ==> #[trigger] self.follows(i)
    }

    /// The game after it has been started, or started again.
    pub open spec fn start(self) -> Game {
        Game { status: Some(GameStatus::Played), ..self }
    }

    /// Whether turning to `dir` would lead the head straight back into the
    /// cell behind it. A snake of one cell has nothing behind it.
    pub open spec fn reverses(self, dir: Direction) -> bool {
        self.body.len() >= 2 && self.body[1] == next_cell(self.width, self.head(), dir)
    }

    /// The game after the host has asked for a turn to `dir`: unchanged if
    /// the turn reverses, else heading `dir` with the cell ahead pending.
    pub open spec fn turn(self, dir: Direction) -> Game {
        if self.reverses(dir) {
            self
        } else {
            Game {
                heading: dir,
                next_cell: Some(next_cell(self.width, self.head(), dir)),
                ..self
            }
        }
    }

    /// The game after the host has set the reward cell itself.
    pub open spec fn with_reward(self, reward_cell: Option<int>) -> Game {
        Game { reward_cell, reward_due: false, ..self }
    }

    /// The game after a new reward cell has been asked for.
    pub open spec fn without_reward(self) -> Game {
        Game { reward_cell: None, reward_due: true, ..self }
    }

    /// Whether `drawn` becomes the reward cell: one is due, and `drawn` is a
    /// cell of the grid that the snake does not cover.
    pub open spec fn accepts(self, drawn: int) -> bool {
        &&& self.reward_due
        &&& 0 <= drawn < self.size
        &&& !self.body.contains(drawn)
    }

    /// The game after the host has offered the index `drawn`.
    pub open spec fn offer(self, drawn: int) -> Game {
        if self.accepts(drawn) {
            Game { reward_cell: Some(drawn), reward_due: false, ..self }
        } else {
            self
        }
    }

    /// Whether the next tick collects the reward.
    pub open spec fn hits_reward(self) -> bool {
        self.reward_cell == Some(self.upcoming())
    }

    /// The body after the next tick: the upcoming cell in front, and the
    /// tail gone unless the reward is collected.
    pub open spec fn moved_body(self) -> Seq<int> {
        let grown = self.body.insert(0, self.upcoming());
        if self.hits_reward() {
            grown
        } else {
            grown.drop_last()
        }
    }

    /// Whether the head, after the next tick, lies on another cell of the
    /// body.
    pub open spec fn bites_itself(self) -> bool {
        self.moved_body().skip(1).contains(self.upcoming())
    }

    /// Whether the snake, after the next tick, covers as many cells as the
    /// grid has, or more.
    pub open spec fn fills_grid(self) -> bool {
        self.body.len() + 1 >= self.size
    }

    /// The game one tick later. Nothing moves unless the game is being
    /// played. Otherwise the head enters the upcoming cell and the pending
    /// cell is cleared. On the reward cell the snake grows by that cell and
    /// scores a point; the reward cell is taken away, and a new one is due
    /// unless the snake fills the grid, which wins the game. A head that
    /// ends on another cell of the body loses the game, won or not.
    pub open spec fn step(self) -> Game {
        if self.status != Some(GameStatus::Played) {
            self
        } else {
            let hit = self.hits_reward();
            Game {
                body: self.moved_body(),
                next_cell: None,
                reward_cell: if hit {
                    None
                } else {
                    self.reward_cell
                },
                reward_due: if hit {
                    !self.fills_grid()
                } else {
                    self.reward_due
                },
                points: if hit {
                    self.points + 1
                } else {
                    self.points
                },
                status: Some(
                    if self.bites_itself() {
                        GameStatus::Lost
                    } else if hit && self.fills_grid() {
                        GameStatus::Won
                    } else {
                        GameStatus::Played
                    },
                ),
                ..self
            }
        }
    }

    /// The game `ticks` ticks later.
    pub open spec fn steps(self, ticks: nat) -> Game
        decreases ticks,
    {
        if ticks == 0 {
            self
        } else {
            self.step().steps((ticks - 1) as nat)
        }
    }
}

} // verus!
