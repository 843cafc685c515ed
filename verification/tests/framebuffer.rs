//! Framebuffer operations: pixel writes, bulk copies, rolling, and the
//! rendered frames of the Snake game.

use cube::ledc::LedControl;
use cube::mapping::num_map;
use cube::snake::SnakeGame;
use cube::{Gd, Position};
use fastrand::Rng;

#[test]
fn roll_left_discards_leftmost_column() {
    let mut lc = LedControl::new();
    lc.upload_raw([0b10000000, 0, 0, 0, 0, 0, 0, 0]);
    lc.roll(&Gd::Left);
    assert_eq!(lc.buf[0], 0b00000000);
}

#[test]
fn roll_right_moves_pixels_rightward() {
    let mut lc = LedControl::new();
    lc.upload_raw([0b10000000, 0, 0, 0, 0, 0, 0, 0]);
    lc.roll(&Gd::Right);
    assert_eq!(lc.buf[0], 0b01000000);
}

#[test]
fn roll_up_shifts_rows_and_zeroes_bottom() {
    let mut lc = LedControl::new();
    lc.upload_raw([1, 2, 3, 4, 5, 6, 7, 8]);
    lc.roll(&Gd::Up);
    assert_eq!(lc.buf, [2, 3, 4, 5, 6, 7, 8, 0]);
}

#[test]
fn roll_down_shifts_rows_and_zeroes_top() {
    let mut lc = LedControl::new();
    lc.upload_raw([1, 2, 3, 4, 5, 6, 7, 8]);
    lc.roll(&Gd::Down);
    assert_eq!(lc.buf, [0, 1, 2, 3, 4, 5, 6, 7]);
}

#[test]
fn roll_idle_is_a_no_op() {
    let mut lc = LedControl::new();
    lc.upload_raw([1, 2, 3, 4, 5, 6, 7, 8]);
    lc.roll(&Gd::Idle);
    assert_eq!(lc.buf, [1, 2, 3, 4, 5, 6, 7, 8]);
}

#[test]
fn set_led_places_single_pixel() {
    let mut lc = LedControl::new();
    lc.set_led(0, 0, true);
    assert_eq!(lc.buf[0], 0b10000000);
    lc.set_led(7, 0, true);
    assert_eq!(lc.buf[0], 0b10000001);
    lc.set_led(0, 0, false);
    assert_eq!(lc.buf[0], 0b00000001);
    assert_eq!(lc.buf[1..], [0u8; 7]);
}

#[test]
fn set_led_out_of_range_is_ignored() {
    let mut lc = LedControl::new();
    lc.set_led(8, 0, true);
    lc.set_led(0, 8, true);
    lc.set_led_work(200, 200, true);
    assert_eq!(lc.buf, [0u8; 8]);
    assert_eq!(lc.buf_work, [0u8; 8]);
}

#[test]
fn staging_and_display_are_separate() {
    let mut lc = LedControl::new();
    lc.set_led_work(3, 2, true);
    assert_eq!(lc.buf_work[2], 0b00010000);
    assert_eq!(lc.buf[2], 0);
    lc.clear_work();
    assert_eq!(lc.buf_work, [0u8; 8]);
}

#[test]
fn bulk_copies_are_verbatim() {
    let mut lc = LedControl::new();
    let rows = [9, 8, 7, 6, 5, 4, 3, 2];
    lc.bitmap_work(rows);
    assert_eq!(lc.buf_work, rows);
    lc.bitmap(rows);
    assert_eq!(lc.buf, rows);
    lc.clear();
    assert_eq!(lc.buf, [0u8; 8]);
    lc.upload_raw(rows);
    assert_eq!(lc.buf, rows);
}

#[test]
fn pixel_probe_reads_snapshot() {
    let lc = LedControl::new();
    let view = [0b10000000u8, 0, 0, 0, 0, 0, 0, 0b00000001];
    assert!(lc.get_led_state_work(0, 0, view));
    assert!(!lc.get_led_state_work(1, 0, view));
    assert!(lc.get_led_state_work(7, 7, view));
    assert!(!lc.get_led_state_work(8, 0, view));
    assert!(!lc.get_led_state_work(0, 8, view));
}

#[test]
fn snake_frame_shows_body_and_food() {
    let mut rng = Rng::with_seed(3);
    let game = SnakeGame::new(&mut rng);
    let mut lc = LedControl::new();
    game.draw(&mut lc);
    // Body cells (5,5) and (5,6) light bit 2 of rows 5 and 6.
    let fx = game.food.x as usize;
    let fy = game.food.y as usize;
    for y in 0..8usize {
        let mut expected: u8 = 0;
        if y == 5 || y == 6 {
            expected |= 0b00000100;
        }
        if y == fy {
            expected |= 1 << (7 - fx);
        }
        assert_eq!(lc.buf[y], expected, "row {}", y);
    }
    assert_eq!(lc.buf_work, [0u8; 8]);
}

#[test]
fn body_rasterization_matches_cells() {
    let mut rng = Rng::with_seed(11);
    let game = SnakeGame::new(&mut rng);
    let bytes = game.snake.as_bytes();
    for y in 0..8i8 {
        for x in 0..8i8 {
            let lit = bytes[y as usize] & (1 << (7 - x)) != 0;
            let occupied = game
                .snake
                .body
                .iter()
                .any(|c| *c == Position::new(x, y));
            assert_eq!(lit, occupied, "cell ({}, {})", x, y);
        }
    }
}

#[test]
fn digit_glyphs() {
    assert_eq!(
        num_map(0),
        [0b11100000, 0b10100000, 0b10100000, 0b10100000, 0b11100000, 0, 0, 0]
    );
    assert_eq!(
        num_map(7),
        [0b11100000, 0b00100000, 0b01000000, 0b01000000, 0b01000000, 0, 0, 0]
    );
}

#[test]
fn score_card_packs_two_digits() {
    let mut rng = Rng::with_seed(5);
    let game = SnakeGame::new(&mut rng);
    let mut lc = LedControl::new();
    // Score zero renders "00": each row holds the zero glyph in both
    // nibbles, shifted one column right.
    game.draw_score(&mut lc);
    assert_eq!(lc.buf, [0x77, 0x55, 0x55, 0x55, 0x77, 0, 0, 0]);
    assert_eq!(lc.buf_work, lc.buf);
}

#[test]
fn score_card_formula_matches_glyphs() {
    let mut rng = Rng::with_seed(5);
    let mut game = SnakeGame::new(&mut rng);
    game.calc_score();
    game.calc_score();
    game.calc_score();
    // Score 3 renders tens digit 0 and ones digit 3.
    let mut lc = LedControl::new();
    game.draw_score(&mut lc);
    let tens = num_map(0);
    let ones = num_map(3);
    for i in 0..8usize {
        assert_eq!(lc.buf[i], (tens[i] | (ones[i] >> 4)) >> 1, "row {}", i);
    }
}
