//! Placing and collecting reward cells.

use snake_game::{GameStatus, World};

fn cells(world: &World) -> Vec<usize> {
    world.snake_cells().iter().map(|cell| cell.0).collect()
}

#[test]
fn new_world_asks_for_a_draw() {
    let world = World::new(8, 10);
    assert_eq!(world.reaward_cell(), None);
    assert_eq!(world.draw_bound(), Some(64));
}

#[test]
fn draw_on_a_free_cell_is_accepted() {
    let mut world = World::new(8, 10);
    assert!(world.offer_draw(0));
    assert_eq!(world.reaward_cell(), Some(0));
    assert_eq!(world.draw_bound(), None);
}

#[test]
fn draw_on_the_snake_is_refused() {
    let mut world = World::new(8, 10);
    for covered in [10, 9, 8] {
        assert!(!world.offer_draw(covered));
        assert_eq!(world.reaward_cell(), None);
        assert_eq!(world.draw_bound(), Some(64));
    }
    assert!(world.offer_draw(11));
    assert_eq!(world.reaward_cell(), Some(11));
}

#[test]
fn draw_off_the_grid_is_refused() {
    let mut world = World::new(8, 10);
    assert!(!world.offer_draw(64));
    assert!(!world.offer_draw(usize::MAX));
    assert_eq!(world.reaward_cell(), None);
    assert_eq!(world.draw_bound(), Some(64));
    assert!(world.offer_draw(63));
}

#[test]
fn draw_that_is_not_due_is_refused() {
    let mut world = World::new(8, 10);
    assert!(world.offer_draw(20));
    assert!(!world.offer_draw(30));
    assert_eq!(world.reaward_cell(), Some(20));
}

#[test]
fn set_reaward_cell_overwrites_and_settles_the_draw() {
    let mut world = World::new(8, 10);
    world.set_reaward_cell(Some(5));
    assert_eq!(world.reaward_cell(), Some(5));
    assert_eq!(world.draw_bound(), None);
    world.set_reaward_cell(None);
    assert_eq!(world.reaward_cell(), None);
    assert_eq!(world.draw_bound(), None);
    assert!(!world.offer_draw(20));
}

#[test]
fn new_reaward_cell_asks_for_a_draw() {
    let mut world = World::new(8, 10);
    assert!(world.offer_draw(20));
    world.new_reaward_cell();
    assert_eq!(world.reaward_cell(), None);
    assert_eq!(world.draw_bound(), Some(64));
    assert!(!world.offer_draw(9));
    assert!(world.offer_draw(21));
    assert_eq!(world.reaward_cell(), Some(21));
}

#[test]
fn collecting_the_reward_grows_and_scores() {
    let mut world = World::new(8, 10);
    assert!(world.offer_draw(11));
    world.game_start();
    world.step();
    assert_eq!(cells(&world), vec![11, 10, 9, 8]);
    assert_eq!(world.snake_len(), 4);
    assert_eq!(world.points(), 1);
    assert_eq!(world.game_status(), Some(GameStatus::Played));
    assert_eq!(world.reaward_cell(), None);
    assert_eq!(world.draw_bound(), Some(64));

    for covered in [11, 10, 9, 8] {
        assert!(!world.offer_draw(covered));
    }
    assert!(world.offer_draw(30));
    let reward = world.reaward_cell();
    assert_eq!(reward, Some(30));
    assert!(!cells(&world).contains(&30));
    assert_eq!(world.points(), 1);
}

#[test]
fn steps_without_a_reward_only_move() {
    let mut world = World::new(8, 10);
    world.game_start();
    for _ in 0..20 {
        world.step();
        assert_eq!(world.snake_len(), 3);
        assert_eq!(world.points(), 0);
        assert_eq!(world.reaward_cell(), None);
        assert_eq!(world.draw_bound(), Some(64));
    }
    assert_eq!(cells(&world), vec![14, 13, 12]);
}

#[test]
fn two_rewards_in_a_row() {
    let mut world = World::new(8, 10);
    world.game_start();
    world.set_reaward_cell(Some(11));
    world.step();
    world.set_reaward_cell(Some(12));
    world.step();
    assert_eq!(cells(&world), vec![12, 11, 10, 9, 8]);
    assert_eq!(world.points(), 2);
    world.step();
    assert_eq!(cells(&world), vec![13, 12, 11, 10, 9]);
    assert_eq!(world.points(), 2);
}

#[test]
fn last_free_cell_wins_the_game() {
    let mut world = World::new(2, 2);
    assert_eq!(cells(&world), vec![2, 1, 0]);
    assert_eq!(world.draw_bound(), Some(4));
    for refused in [0, 1, 2, 4] {
        assert!(!world.offer_draw(refused));
    }
    assert!(world.offer_draw(3));
    world.game_start();
    world.step();
    assert_eq!(world.game_status(), Some(GameStatus::Won));
    assert_eq!(world.get_display_status(), "You have won!");
    assert_eq!(world.reaward_cell(), None);
    assert_eq!(world.draw_bound(), None);
    assert_eq!(world.points(), 1);
    assert_eq!(cells(&world), vec![3, 2, 1, 0]);
    assert_eq!(world.snake_len(), 4);
}

#[test]
fn steps_after_a_win_change_nothing() {
    let mut world = World::new(2, 2);
    assert!(world.offer_draw(3));
    world.game_start();
    world.step();
    assert_eq!(world.game_status(), Some(GameStatus::Won));
    for _ in 0..5 {
        world.step();
        assert_eq!(cells(&world), vec![3, 2, 1, 0]);
        assert_eq!(world.points(), 1);
        assert_eq!(world.reaward_cell(), None);
        assert_eq!(world.game_status(), Some(GameStatus::Won));
    }
}

#[test]
fn reward_under_the_snake_loses_the_game() {
    let mut world = World::new(3, 2);
    world.game_start();
    world.set_reaward_cell(Some(0));
    world.step();
    assert_eq!(cells(&world), vec![0, 2, 1, 0]);
    assert_eq!(world.points(), 1);
    assert_eq!(world.game_status(), Some(GameStatus::Lost));
}

#[test]
fn grid_without_cells_accepts_no_draw() {
    let mut world = World::new(0, 0);
    assert_eq!(world.width(), 0);
    assert_eq!(cells(&world), vec![0]);
    assert_eq!(world.draw_bound(), Some(0));
    assert!(!world.offer_draw(0));
    assert_eq!(world.reaward_cell(), None);
}

#[test]
fn full_grid_accepts_no_draw() {
    let mut world = World::new(1, 0);
    assert_eq!(cells(&world), vec![0]);
    assert_eq!(world.draw_bound(), Some(1));
    assert!(!world.offer_draw(0));
    assert!(!world.offer_draw(1));
    assert_eq!(world.draw_bound(), Some(1));
}

#[test]
fn snake_spawned_off_the_grid_leaves_the_grid_free() {
    let mut world = World::new(2, 10);
    assert_eq!(cells(&world), vec![10, 9, 8]);
    assert_eq!(world.draw_bound(), Some(4));
    assert!(!world.offer_draw(9));
    assert!(world.offer_draw(0));
    assert_eq!(world.reaward_cell(), Some(0));
}
