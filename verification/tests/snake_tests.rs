use std::collections::VecDeque;

use snake_core::Direction;
use snake_core::SnakeGame;

#[test]
fn new_initial_state() {
    let g = SnakeGame::new(10, 10);
    assert_eq!(g.width, 10);
    assert_eq!(g.height, 10);
    assert_eq!(g.snake.len(), 1);
    assert_eq!(g.snake[0], (8, 5));
    assert_eq!(g.direction, Direction::Left);
    assert_eq!(g.next_direction, Direction::Left);
    assert_eq!(g.food, (2, 5));
    assert!(!g.game_over);
}

#[test]
fn new_narrow_boards() {
    let g = SnakeGame::new(2, 4);
    assert_eq!(g.snake[0], (0, 2));
    assert_eq!(g.food, (1, 2));

    let g = SnakeGame::new(1, 1);
    assert_eq!(g.snake[0], (0, 0));
    assert_eq!(g.food, (0, 0));
}

#[test]
fn first_tick_moves_left() {
    let mut g = SnakeGame::new(10, 10);
    g.tick();
    assert_eq!(g.snake.len(), 1);
    assert_eq!(g.snake[0], (7, 5));
    assert_eq!(g.food, (2, 5));
    assert_eq!(g.direction, Direction::Left);
    assert!(!g.game_over);
}

#[test]
fn is_valid_checks_bounds() {
    let g = SnakeGame::new(10, 4);
    assert!(g.is_valid((0, 0)));
    assert!(g.is_valid((9, 3)));
    assert!(!g.is_valid((10, 0)));
    assert!(!g.is_valid((0, 4)));
}

#[test]
fn boundary_collision_one_row() {
    let mut g = SnakeGame::new(5, 1);
    assert_eq!(g.snake[0], (3, 0));
    g.change_direction(Direction::Top);
    g.tick();
    assert!(g.game_over);
    assert_eq!(g.snake.len(), 1);
    assert_eq!(g.snake[0], (3, 0));

    let mut g = SnakeGame::new(5, 1);
    g.change_direction(Direction::Bottom);
    g.tick();
    assert!(g.game_over);
    assert_eq!(g.snake.len(), 1);
}

#[test]
fn boundary_collision_one_column() {
    let mut g = SnakeGame::new(1, 5);
    assert_eq!(g.snake[0], (0, 2));
    g.tick();
    assert!(g.game_over);
    assert_eq!(g.snake.len(), 1);
    assert_eq!(g.snake[0], (0, 2));

    let mut g = SnakeGame::new(1, 5);
    g.direction = Direction::Bottom;
    g.change_direction(Direction::Right);
    g.tick();
    assert!(g.game_over);
    assert_eq!(g.snake.len(), 1);
}

#[test]
fn boundary_collision_left_edge() {
    let mut g = SnakeGame::new(10, 10);
    for _ in 0..8 {
        g.tick();
    }
    // The head ate the food at (2, 5) on the way and reached (0, 5).
    assert_eq!(g.snake[0], (0, 5));
    assert!(!g.game_over);
    g.tick();
    assert!(g.game_over);
    assert_eq!(g.snake[0], (0, 5));
}

#[test]
fn reversal_is_rejected() {
    let mut g = SnakeGame::new(10, 10);
    g.change_direction(Direction::Right);
    g.tick();
    assert_eq!(g.direction, Direction::Left);
    assert_eq!(g.snake[0], (7, 5));
    assert!(!g.game_over);
}

#[test]
fn same_heading_is_rejected_latest_accepted_wins() {
    let mut g = SnakeGame::new(10, 10);
    g.change_direction(Direction::Top);
    g.change_direction(Direction::Left);
    g.tick();
    assert_eq!(g.direction, Direction::Top);
    assert_eq!(g.snake[0], (8, 4));
}

#[test]
fn steady_state_keeps_length() {
    let mut g = SnakeGame::new(10, 10);
    for expected_x in [7, 6, 5, 4, 3] {
        g.tick();
        assert_eq!(g.snake.len(), 1);
        assert_eq!(g.snake[0], (expected_x, 5));
        assert_eq!(g.food, (2, 5));
        assert!(!g.game_over);
    }
}

#[test]
fn growth_on_food() {
    let mut g = SnakeGame::new(10, 10);
    for _ in 0..5 {
        g.tick();
    }
    assert_eq!(g.snake[0], (3, 5));
    g.tick();
    assert_eq!(g.snake.len(), 2);
    assert_eq!(g.snake[0], (2, 5));
    assert_eq!(g.snake[1], (3, 5));
    assert!(!g.game_over);
    // Fresh food lies on the board and not on any cell the body held
    // when it was placed.
    assert!(g.food.0 < 10 && g.food.1 < 10);
    assert_ne!(g.food, (3, 5));
}

#[test]
fn self_collision_ends_game() {
    let mut g = SnakeGame::new(10, 10);
    g.snake = VecDeque::from(vec![(4, 2), (4, 3), (3, 3), (3, 2)]);
    g.change_direction(Direction::Bottom);
    g.tick();
    assert!(g.game_over);
    assert_eq!(g.snake.len(), 4);
    assert_eq!(g.snake[0], (4, 2));
    assert_eq!(g.food, (2, 5));
}

#[test]
fn tail_cell_counts_as_collision() {
    let mut g = SnakeGame::new(10, 10);
    g.snake = VecDeque::from(vec![(1, 1), (2, 1), (2, 2), (1, 2)]);
    g.next_direction = Direction::Bottom;
    g.tick();
    assert!(g.game_over);
    assert_eq!(g.snake.len(), 4);
    assert_eq!(g.snake[0], (1, 1));
}

#[test]
fn board_full_after_last_food() {
    let mut g = SnakeGame::new(2, 2);
    g.snake = VecDeque::from(vec![(0, 0), (0, 1), (1, 1)]);
    g.food = (1, 0);
    g.next_direction = Direction::Right;
    g.tick();
    // The body now fills the board; the only free cell at placement
    // time was the one the head took, so the food lands there.
    assert_eq!(g.snake.len(), 4);
    assert_eq!(g.snake[0], (1, 0));
    assert_eq!(g.food, (1, 0));
    assert!(!g.game_over);
    g.tick();
    assert!(g.game_over);
    assert_eq!(g.snake.len(), 4);
}

#[test]
fn game_over_is_terminal() {
    let mut g = SnakeGame::new(1, 5);
    g.tick();
    assert!(g.game_over);
    let snake_before: Vec<(usize, usize)> = g.snake.iter().copied().collect();
    let food_before = g.food;
    let direction_before = g.direction;
    for _ in 0..3 {
        g.tick();
        g.change_direction(Direction::Bottom);
        g.tick();
    }
    assert!(g.game_over);
    let snake_after: Vec<(usize, usize)> = g.snake.iter().copied().collect();
    assert_eq!(snake_after, snake_before);
    assert_eq!(g.food, food_before);
    assert_eq!(g.direction, direction_before);
}

#[test]
fn fresh_food_avoids_body() {
    // Eat food with a longer body and check the draw respects it.
    let mut g = SnakeGame::new(3, 3);
    g.snake = VecDeque::from(vec![(1, 1), (1, 0), (0, 0)]);
    g.food = (1, 2);
    g.next_direction = Direction::Bottom;
    g.tick();
    assert_eq!(g.snake.len(), 4);
    assert_eq!(g.snake[0], (1, 2));
    assert!(!g.game_over);
    assert!(g.food.0 < 3 && g.food.1 < 3);
    assert_ne!(g.food, (1, 1));
    assert_ne!(g.food, (1, 0));
    assert_ne!(g.food, (0, 0));
}
