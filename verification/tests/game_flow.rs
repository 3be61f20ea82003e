//! Status of a game from start to end.

use snake_game::{Direction, GameStatus, World};

fn cells(world: &World) -> Vec<usize> {
    world.snake_cells().iter().map(|cell| cell.0).collect()
}

/// A snake of five cells on a grid of three by three that has just run into
/// itself.
fn lost_world() -> World {
    let mut world = World::new(3, 2);
    world.game_start();
    world.change_snake_dir(Direction::Down);
    world.set_reaward_cell(Some(5));
    world.step();
    world.set_reaward_cell(Some(8));
    world.step();
    assert_eq!(cells(&world), vec![8, 5, 2, 1, 0]);
    assert_eq!(world.points(), 2);
    world.set_reaward_cell(Some(6));
    world.change_snake_dir(Direction::Left);
    world.step();
    world.change_snake_dir(Direction::Up);
    world.step();
    assert_eq!(cells(&world), vec![4, 7, 8, 5, 2]);
    assert_eq!(world.game_status(), Some(GameStatus::Played));
    world.change_snake_dir(Direction::Right);
    world.step();
    world
}

#[test]
fn status_is_absent_until_started() {
    let world = World::new(8, 10);
    assert_eq!(world.game_status(), None);
    assert_eq!(world.get_display_status(), "No status");
}

#[test]
fn steps_before_the_start_change_nothing() {
    let mut world = World::new(8, 10);
    assert!(world.offer_draw(11));
    for _ in 0..3 {
        world.step();
        assert_eq!(cells(&world), vec![10, 9, 8]);
        assert_eq!(world.points(), 0);
        assert_eq!(world.reaward_cell(), Some(11));
        assert_eq!(world.game_status(), None);
    }
}

#[test]
fn start_sets_the_status_to_played() {
    let mut world = World::new(8, 10);
    world.game_start();
    assert_eq!(world.game_status(), Some(GameStatus::Played));
    assert_eq!(world.get_display_status(), "Playing...");
    world.game_start();
    assert_eq!(world.game_status(), Some(GameStatus::Played));
    assert_eq!(cells(&world), vec![10, 9, 8]);
}

#[test]
fn tight_loop_loses_the_game() {
    let world = lost_world();
    assert_eq!(cells(&world), vec![5, 4, 7, 8, 5]);
    assert_eq!(world.game_status(), Some(GameStatus::Lost));
    assert_eq!(world.get_display_status(), "WASTED");
    assert_eq!(world.points(), 2);
    assert_eq!(world.reaward_cell(), Some(6));
}

#[test]
fn loop_of_four_cells_chases_its_tail() {
    let mut world = World::new(3, 2);
    world.game_start();
    world.change_snake_dir(Direction::Down);
    world.set_reaward_cell(Some(5));
    world.step();
    assert_eq!(cells(&world), vec![5, 2, 1, 0]);
    world.change_snake_dir(Direction::Left);
    world.step();
    world.change_snake_dir(Direction::Up);
    world.step();
    world.change_snake_dir(Direction::Right);
    world.step();
    assert_eq!(cells(&world), vec![2, 1, 4, 5]);
    assert_eq!(world.game_status(), Some(GameStatus::Played));
}

#[test]
fn steps_after_a_loss_change_nothing() {
    let mut world = lost_world();
    for _ in 0..5 {
        world.change_snake_dir(Direction::Down);
        world.step();
        assert_eq!(cells(&world), vec![5, 4, 7, 8, 5]);
        assert_eq!(world.points(), 2);
        assert_eq!(world.reaward_cell(), Some(6));
        assert_eq!(world.game_status(), Some(GameStatus::Lost));
    }
}

#[test]
fn start_after_a_loss_plays_on() {
    let mut world = lost_world();
    world.game_start();
    assert_eq!(world.game_status(), Some(GameStatus::Played));
    assert_eq!(cells(&world), vec![5, 4, 7, 8, 5]);
    assert_eq!(world.points(), 2);
    world.step();
    assert_eq!(cells(&world), vec![3, 5, 4, 7, 8]);
    assert_eq!(world.game_status(), Some(GameStatus::Played));
}

#[test]
fn start_after_a_win_plays_on() {
    let mut world = World::new(2, 2);
    assert!(world.offer_draw(3));
    world.game_start();
    world.step();
    assert_eq!(world.game_status(), Some(GameStatus::Won));
    world.game_start();
    assert_eq!(world.game_status(), Some(GameStatus::Played));
    world.step();
    assert_eq!(cells(&world), vec![2, 3, 2, 1]);
    assert_eq!(world.game_status(), Some(GameStatus::Lost));
}

#[test]
fn lost_beats_won_when_the_reward_lay_under_the_snake() {
    let mut world = World::new(2, 3);
    assert_eq!(cells(&world), vec![3, 2, 1]);
    world.game_start();
    world.set_reaward_cell(Some(2));
    world.step();
    assert_eq!(cells(&world), vec![2, 3, 2, 1]);
    assert_eq!(world.points(), 1);
    assert_eq!(world.reaward_cell(), None);
    assert_eq!(world.draw_bound(), None);
    assert_eq!(world.game_status(), Some(GameStatus::Lost));
}

#[test]
fn snake_on_a_grid_of_one_cell_runs_in_place() {
    let mut world = World::new(1, 0);
    world.game_start();
    for dir in [Direction::Up, Direction::Right, Direction::Down, Direction::Left] {
        world.change_snake_dir(dir);
        world.step();
        assert_eq!(cells(&world), vec![0]);
        assert_eq!(world.game_status(), Some(GameStatus::Played));
    }
}
