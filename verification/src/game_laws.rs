//! What holds of the game whatever the host does.

use vstd::prelude::*;
use vstd::set_lib::{lemma_int_range, lemma_len_subset, set_int_range};
use crate::game::{spawn_body, Game, GameStatus, SPAWN_LENGTH};
use crate::grid::{
    in_grid,
    lemma_coordinates,
    lemma_next_cell_by_index,
    lemma_next_cell_in_grid,
    lemma_step_back,
    next_cell,
    opposite,
    row_of,
    Direction,
};

verus! {

/// A game that is spawned on a grid with at least one cell, at a cell of
/// that grid, is well formed.
pub proof fn lemma_spawn_wf(width: int, spawn_index: int)
    requires
        0 < width,
        0 <= spawn_index < width * width,
    ensures
        Game::spawn(width, spawn_index).wf(),
{
}

/// Starting a game keeps it well formed.
pub proof fn lemma_start_wf(game: Game)
    requires
        game.wf(),
    ensures
        game.start().wf(),
{
}

/// A turn keeps the game well formed.
pub proof fn lemma_turn_wf(game: Game, dir: Direction)
    requires
        game.wf(),
    ensures
        game.turn(dir).wf(),
{
}

/// Setting, asking for and offering a reward cell keep the game well
/// formed.
pub proof fn lemma_reward_wf(game: Game, reward_cell: Option<int>, drawn: int)
    requires
        game.wf(),
    ensures
        game.with_reward(reward_cell).wf(),
        game.without_reward().wf(),
        game.offer(drawn).wf(),
{
}

/// A tick keeps the game well formed.
pub proof fn lemma_step_wf(game: Game)
    requires
        game.wf(),
    ensures
        game.step().wf(),
{
    if game.status == Some(GameStatus::Played) {
        lemma_next_cell_in_grid(game.width, game.head(), game.heading);
        let after = game.step();
        assert forall|i: int| 0 <= i < after.body.len() implies in_grid(
            after.width,
            #[trigger] after.body[i],
        ) by {
            if i > 0 {
                assert(after.body[i] == game.body[i - 1]);
            }
        }
    }
}

/// While a game is played, a tick moves the head one step in the heading
/// of the snake, whether or not a turn has left a pending cell.
pub proof fn lemma_step_moves_ahead(game: Game)
    requires
        game.wf(),
        game.status == Some(GameStatus::Played),
    ensures
        game.step().head() == next_cell(game.width, game.head(), game.heading),
        in_grid(game.width, game.step().head()),
{
    lemma_next_cell_in_grid(game.width, game.head(), game.heading);
}

/// A snake of two cells or more that has just moved in direction `dir`
/// cannot turn to the opposite direction: the turn changes nothing, and so
/// the tick that follows it ends as it would have ended without the turn.
pub proof fn lemma_reversal_is_ignored(game: Game, dir: Direction)
    requires
        game.wf(),
        game.body.len() >= 2,
        game.head() == next_cell(game.width, game.body[1], dir),
    ensures
        game.turn(opposite(dir)) == game,
        game.turn(opposite(dir)).step() == game.step(),
{
    assert(in_grid(game.width, game.body[1]));
    lemma_step_back(game.width, game.body[1], dir);
}

/// A snake that covers fewer cells than the grid has leaves a cell of the
/// grid free.
pub proof fn lemma_free_cell_exists(game: Game)
    requires
        game.wf(),
        game.body.len() < game.size,
    ensures
        exists|cell: int| 0 <= cell < game.size && !#[trigger] game.body.contains(cell),
{
    if forall|cell: int| 0 <= cell < game.size ==> #[trigger] game.body.contains(cell) {
        let covered = game.body.to_set();
        let all = set_int_range(0, game.size);
        lemma_int_range(0, game.size);
        game.body.lemma_cardinality_of_set();
        vstd::seq_lib::seq_to_set_is_finite(game.body);
        assert forall|cell: int| all.contains(cell) implies covered.contains(cell) by {
            assert(game.body.contains(cell));
        }
        lemma_len_subset(all, covered);
    }
}

/// Collecting the reward while the grown snake leaves room on the grid
/// grows the snake by the reward cell, scores exactly one point and leaves
/// a draw due. Whatever index the host then offers, the reward cell stays
/// absent or becomes that index, and then it is a cell of the grid that the
/// grown snake does not cover. At least one index would be accepted.
pub proof fn lemma_reward_collected(game: Game, drawn: int)
    requires
        game.wf(),
        game.status == Some(GameStatus::Played),
        game.hits_reward(),
        !game.fills_grid(),
    ensures
        game.step().body == game.body.insert(0, game.upcoming()),
        game.step().points == game.points + 1,
        game.step().reward_cell is None,
        game.step().reward_due,
        game.step().offer(drawn).points == game.points + 1,
        game.step().offer(drawn).body == game.step().body,
        game.step().offer(drawn).reward_is_free(),
        game.step().offer(drawn).reward_cell == if game.step().accepts(drawn) {
            Some(drawn)
        } else {
            None
        },
        exists|cell: int| #[trigger] game.step().accepts(cell),
{
    let after = game.step();
    lemma_step_wf(game);
    lemma_free_cell_exists(after);
    let free = choose|cell: int| 0 <= cell < after.size && !#[trigger] after.body.contains(cell);
    assert(after.accepts(free));
}

/// Collecting a reward that lay on a free cell, with a snake that then
/// fills the grid, wins the game: the status is won, the reward cell is
/// absent with no draw due, and one point is scored.
pub proof fn lemma_last_reward_wins(game: Game)
    requires
        game.wf(),
        game.status == Some(GameStatus::Played),
        game.reward_is_free(),
        game.hits_reward(),
        game.fills_grid(),
    ensures
        game.step().status == Some(GameStatus::Won),
        game.step().reward_cell is None,
        !game.step().reward_due,
        game.step().points == game.points + 1,
        game.step().body == game.body.insert(0, game.upcoming()),
{
    let next = game.upcoming();
    let moved = game.moved_body();
    if moved.skip(1).contains(next) {
        let i = choose|i: int| 0 <= i < moved.skip(1).len() && moved.skip(1)[i] == next;
        assert(game.body[i] == next);
    }
}

/// While a game is played, a tick loses it exactly when it leaves the head
/// on another cell of the body.
pub proof fn lemma_collision_loses(game: Game)
    requires
        game.wf(),
        game.status == Some(GameStatus::Played),
    ensures
        game.step().status == Some(GameStatus::Lost) <==> game.step().body.skip(1).contains(
            game.step().head(),
        ),
{
}

/// A game that is not being played stands still: one tick changes nothing.
pub proof fn lemma_step_after_end(game: Game)
    requires
        game.status != Some(GameStatus::Played),
    ensures
        game.step() == game,
{
}

/// Once a game is won or lost, or while it has not been started, no number
/// of ticks changes anything: body, points, reward cell and all the rest
/// stay as they are.
pub proof fn lemma_steps_after_end(game: Game, ticks: nat)
    requires
        game.status != Some(GameStatus::Played),
    ensures
        game.steps(ticks) == game,
    decreases ticks,
{
    if ticks > 0 {
        lemma_steps_after_end(game, (ticks - 1) as nat);
    }
}

/// A snake whose cells are all different keeps them different through a
/// tick, unless that tick loses the game.
pub proof fn lemma_body_stays_distinct(game: Game)
    requires
        game.wf(),
        game.status == Some(GameStatus::Played),
        game.body.no_duplicates(),
    ensures
        game.step().status != Some(GameStatus::Lost) ==> game.step().body.no_duplicates(),
{
    let moved = game.step().body;
    if !game.bites_itself() {
        assert forall|i: int, j: int|
            0 <= i < moved.len() && 0 <= j < moved.len() && i != j implies moved[i] != moved[j] by {
            if i == 0 {
                assert(moved.skip(1)[j - 1] == moved[j]);
            } else if j == 0 {
                assert(moved.skip(1)[i - 1] == moved[i]);
            } else {
                assert(moved[i] == game.body[i - 1]);
                assert(moved[j] == game.body[j - 1]);
            }
        }
    }
}

/// A reward cell that the snake does not cover stays so through a tick, and
/// through whatever the host offers for a draw.
pub proof fn lemma_reward_stays_free(game: Game, drawn: int)
    requires
        game.wf(),
        game.reward_is_free(),
    ensures
        game.step().reward_is_free(),
        game.offer(drawn).reward_is_free(),
{
    let after = game.step();
    if game.status == Some(GameStatus::Played) && !game.hits_reward() {
        if let Some(cell) = game.reward_cell {
            if after.body.contains(cell) {
                let i = choose|i: int| 0 <= i < after.body.len() && after.body[i] == cell;
                if i > 0 {
                    assert(game.body[i - 1] == cell);
                }
            }
        }
    }
}

/// A new snake whose cells lie in one row is one chain.
pub proof fn lemma_spawn_connected(width: int, spawn_index: int)
    requires
        0 < width,
        in_grid(width, spawn_index),
        forall|i: int|
            0 <= i < spawn_body(spawn_index, SPAWN_LENGTH as int).len() ==> row_of(
                width,
                #[trigger] spawn_body(spawn_index, SPAWN_LENGTH as int)[i],
            ) == row_of(width, spawn_index),
    ensures
        Game::spawn(width, spawn_index).connected(),
{
    let game = Game::spawn(width, spawn_index);
    assert forall|i: int| 0 <= i < game.body.len() - 1 implies #[trigger] game.follows(i) by {
        let behind = game.body[i + 1];
        let cell = game.body[i];
        assert(cell == behind + 1);
        assert(in_grid(width, behind) && in_grid(width, cell));
        lemma_coordinates(width, cell);
        lemma_next_cell_by_index(width, behind, Direction::Right);
    }
}

/// A snake that is one chain stays one chain through a tick.
pub proof fn lemma_body_stays_connected(game: Game)
    requires
        game.wf(),
        game.connected(),
    ensures
        game.step().connected(),
{
    let after = game.step();
    if game.status == Some(GameStatus::Played) {
        assert forall|i: int| 0 <= i < after.body.len() - 1 implies #[trigger] after.follows(i) by {
            if i > 0 {
                assert(game.follows(i - 1));
            }
        }
    }
}

} // verus!
