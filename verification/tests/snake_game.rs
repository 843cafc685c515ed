//! The Snake state machine: movement, growth, food respawn, game over.

use cube::snake::SnakeGame;
use cube::{Gd, Position};
use fastrand::Rng;

fn body_contains(game: &SnakeGame, p: Position) -> bool {
    game.snake.body.iter().any(|c| *c == p)
}

fn pos(x: i8, y: i8) -> Position {
    Position::new(x, y)
}

/// A fresh game whose initial food avoids the given cells.
fn game_with_food_avoiding(avoid: &[Position]) -> (SnakeGame, Rng) {
    let mut seed: u64 = 1;
    loop {
        let mut rng = Rng::with_seed(seed);
        let game = SnakeGame::new(&mut rng);
        if !avoid.iter().any(|p| *p == game.food) {
            return (game, rng);
        }
        seed += 1;
    }
}

#[test]
fn initial_state() {
    let mut rng = Rng::with_seed(7);
    let game = SnakeGame::new(&mut rng);
    assert_eq!(game.width, 8);
    assert_eq!(game.height, 8);
    assert_eq!(game.waiting_time, 600);
    assert_eq!(game.score, 0);
    assert!(!game.game_over);
    assert_eq!(game.snake.head, pos(5, 5));
    assert_eq!(game.snake.body.len(), 2);
    assert_eq!(game.snake.body[0], pos(5, 5));
    assert_eq!(game.snake.body[1], pos(5, 6));
    assert!(!body_contains(&game, game.food));
}

#[test]
fn trajectory_up_up_right() {
    // Head (5,5) heading up, fed Up, Up, Right with no food on the path:
    // the head visits (5,4), (5,3), (6,3) and the length stays 2.
    let (mut game, mut rng) =
        game_with_food_avoiding(&[pos(5, 4), pos(5, 3), pos(6, 3)]);
    game.step(&Gd::Up, &mut rng);
    assert_eq!(game.snake.head, pos(5, 4));
    assert_eq!(game.snake.body.len(), 2);
    game.step(&Gd::Up, &mut rng);
    assert_eq!(game.snake.head, pos(5, 3));
    assert_eq!(game.snake.body.len(), 2);
    game.step(&Gd::Right, &mut rng);
    assert_eq!(game.snake.head, pos(6, 3));
    assert_eq!(game.snake.body.len(), 2);
    assert!(!game.game_over);
    assert_eq!(game.score, 0);
}

#[test]
fn idle_keeps_heading() {
    let (mut game, mut rng) = game_with_food_avoiding(&[pos(5, 4), pos(5, 3)]);
    game.step(&Gd::Idle, &mut rng);
    assert_eq!(game.snake.head, pos(5, 4));
    game.step(&Gd::Idle, &mut rng);
    assert_eq!(game.snake.head, pos(5, 3));
}

#[test]
fn reversal_is_ignored() {
    // Heading up, a Down reading is a 180 degree reversal: ignored.
    let (mut game, mut rng) = game_with_food_avoiding(&[pos(5, 4)]);
    game.step(&Gd::Down, &mut rng);
    assert_eq!(game.snake.head, pos(5, 4));
}

#[test]
fn growth_adds_one_cell_and_one_point() {
    // Find a seed whose first food sits right above the head.
    let mut seed: u64 = 1;
    let (mut game, mut rng) = loop {
        let mut rng = Rng::with_seed(seed);
        let game = SnakeGame::new(&mut rng);
        if game.food == pos(5, 4) {
            break (game, rng);
        }
        seed += 1;
    };
    let len_before = game.snake.body.len();
    let score_before = game.score;
    game.step(&Gd::Up, &mut rng);
    assert_eq!(game.snake.body.len(), len_before + 1);
    assert_eq!(game.score, score_before + 1);
    assert_eq!(game.snake.head, pos(5, 4));
    assert!(!game.game_over);
    // The food respawned off the snake.
    assert!(!body_contains(&game, game.food));
}

#[test]
fn wall_left_ends_game() {
    // Drive left until the head would reach x = -1.
    let (mut game, mut rng) = game_with_food_avoiding(&[
        pos(4, 5),
        pos(3, 5),
        pos(2, 5),
        pos(1, 5),
        pos(0, 5),
    ]);
    for expected_x in (0..5).rev() {
        game.step(&Gd::Left, &mut rng);
        assert_eq!(game.snake.head, pos(expected_x, 5));
        assert!(!game.game_over);
    }
    let head_before = game.snake.head;
    game.step(&Gd::Left, &mut rng);
    assert!(game.game_over);
    assert_eq!(game.snake.head, head_before);
    // No further movement after the terminal state.
    game.step(&Gd::Up, &mut rng);
    assert_eq!(game.snake.head, head_before);
    assert_eq!(game.snake.body.len(), 2);
}

#[test]
fn wall_right_ends_game() {
    // Drive right until the head would reach x = 8 on the 8-wide board.
    let (mut game, mut rng) = game_with_food_avoiding(&[pos(6, 5), pos(7, 5)]);
    game.step(&Gd::Right, &mut rng);
    game.step(&Gd::Right, &mut rng);
    assert_eq!(game.snake.head, pos(7, 5));
    assert!(!game.game_over);
    game.step(&Gd::Right, &mut rng);
    assert!(game.game_over);
    assert_eq!(game.snake.head, pos(7, 5));
}

#[test]
fn self_collision_ends_game() {
    // Grow twice at known cells, then turn back into the body:
    // eat at (5,4), eat at (6,4), move down to (6,5), then Left lands on
    // (5,5), a body cell other than the head.
    let mut seed: u64 = 1;
    'search: loop {
        let mut rng = Rng::with_seed(seed);
        let mut game = SnakeGame::new(&mut rng);
        if game.food != pos(5, 4) {
            seed += 1;
            continue;
        }
        game.step(&Gd::Up, &mut rng);
        assert_eq!(game.score, 1);
        if game.food != pos(6, 4) {
            seed += 1;
            continue;
        }
        game.step(&Gd::Right, &mut rng);
        assert_eq!(game.score, 2);
        assert_eq!(game.snake.body.len(), 4);
        if game.food == pos(6, 5) || game.food == pos(5, 5) {
            seed += 1;
            continue;
        }
        game.step(&Gd::Down, &mut rng);
        assert_eq!(game.snake.head, pos(6, 5));
        assert!(!game.game_over);
        game.step(&Gd::Left, &mut rng);
        assert!(game.game_over);
        assert_eq!(game.snake.head, pos(6, 5));
        assert_eq!(game.snake.body.len(), 4);
        // Terminal: a further tick changes nothing.
        game.step(&Gd::Right, &mut rng);
        assert_eq!(game.snake.head, pos(6, 5));
        assert_eq!(game.snake.body.len(), 4);
        break 'search;
    }
}

#[test]
fn food_respawn_avoids_body() {
    // Over many seeds and repeated respawns the food never lands on the
    // snake.
    for seed in 0..200u64 {
        let mut rng = Rng::with_seed(seed);
        let mut game = SnakeGame::new(&mut rng);
        assert!(!body_contains(&game, game.food));
        for _ in 0..50 {
            game.create_food(&mut rng);
            assert!(!body_contains(&game, game.food));
        }
    }
}

#[test]
fn random_cell_is_on_board() {
    let mut rng = Rng::with_seed(42);
    for _ in 0..1000 {
        let p = Position::random(&mut rng, 8, 8);
        assert!(p.x >= 0 && p.x < 8);
        assert!(p.y >= 0 && p.y < 8);
    }
}
