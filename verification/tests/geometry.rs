//! Geometry value types: positions, directions, defaults.

use cube::{Direction, Gd, Position};

#[test]
fn next_moves_one_cell() {
    let p = Position::new(3, 4);
    assert_eq!(p.next(Direction::Up), Position::new(3, 3));
    assert_eq!(p.next(Direction::Right), Position::new(4, 4));
    assert_eq!(p.next(Direction::Down), Position::new(3, 5));
    assert_eq!(p.next(Direction::Left), Position::new(2, 4));
}

#[test]
fn translate_mutates_in_place() {
    let mut p = Position::new(0, 0);
    p.translate(Direction::Down);
    p.translate(Direction::Right);
    assert_eq!(p, Position::new(1, 1));
    p.translate(Direction::Up);
    p.translate(Direction::Left);
    assert_eq!(p, Position::new(0, 0));
}

#[test]
fn next_can_leave_the_board() {
    let p = Position::new(0, 0);
    assert_eq!(p.next(Direction::Left), Position::new(-1, 0));
    assert_eq!(p.next(Direction::Up), Position::new(0, -1));
}

#[test]
fn opposite_pairs() {
    assert_eq!(Direction::Up.opposite(), Direction::Down);
    assert_eq!(Direction::Down.opposite(), Direction::Up);
    assert_eq!(Direction::Right.opposite(), Direction::Left);
    assert_eq!(Direction::Left.opposite(), Direction::Right);
}

#[test]
fn opposite_is_an_involution() {
    for d in [Direction::Up, Direction::Right, Direction::Down, Direction::Left] {
        assert_eq!(d.opposite().opposite(), d);
    }
}

#[test]
fn defaults() {
    assert_eq!(Position::default(), Position::new(0, 0));
    assert_eq!(Gd::default(), Gd::Idle);
}
