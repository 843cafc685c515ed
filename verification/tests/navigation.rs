//! Menu navigation: index wrap-around and the per-tick menu actions.

use cube::ui::Ui;
use cube::{next_index, prev_index, App, Gd, MenuAction};

#[test]
fn index_wraps_right_at_end() {
    // Five screens, index four: one step right wraps to zero.
    assert_eq!(next_index(4, 5), 0);
    assert_eq!(next_index(0, 5), 1);
    assert_eq!(next_index(3, 5), 4);
}

#[test]
fn index_wraps_left_at_front() {
    // Five screens, index zero: one step left wraps to four.
    assert_eq!(prev_index(0, 5), 4);
    assert_eq!(prev_index(4, 5), 3);
    assert_eq!(prev_index(1, 5), 0);
}

#[test]
fn menu_scrolls_and_wraps() {
    let mut app = App::new();
    assert_eq!(app.ui_current_idx, 0);
    app.gravity_direction(900, 0);
    assert_eq!(app.gd, Gd::Left);
    let act = app.menu_tick();
    assert_eq!(act, MenuAction::Redraw);
    assert_eq!(app.ui_current_idx, 6);
    app.gravity_direction(-900, 0);
    assert_eq!(app.gd, Gd::Right);
    let act2 = app.menu_tick();
    assert_eq!(act2, MenuAction::Redraw);
    assert_eq!(app.ui_current_idx, 0);
}

#[test]
fn menu_idle_redraws_in_place() {
    let mut app = App::new();
    app.gravity_direction(0, 0);
    assert_eq!(app.gd, Gd::Idle);
    let act = app.menu_tick();
    assert_eq!(act, MenuAction::Redraw);
    assert_eq!(app.ui_current_idx, 0);
    // The display buffer now holds the current screen's icon.
    assert_eq!(app.ledc.buf, Ui::Timer.ui());
}

#[test]
fn menu_up_enters_current_screen() {
    let mut app = App::new();
    app.gravity_direction(-900, 0);
    app.menu_tick();
    app.menu_tick();
    assert_eq!(app.ui_current_idx, 2);
    app.gravity_direction(0, -900);
    assert_eq!(app.gd, Gd::Up);
    let act = app.menu_tick();
    assert_eq!(act, MenuAction::Enter(Ui::Snake));
    assert_eq!(app.ui_current_idx, 2);
}

#[test]
fn menu_down_is_reserved() {
    let mut app = App::new();
    app.gravity_direction(0, 900);
    assert_eq!(app.gd, Gd::Down);
    let act = app.menu_tick();
    assert_eq!(act, MenuAction::Idle);
    assert_eq!(app.ui_current_idx, 0);
}

#[test]
fn screen_list_is_fixed() {
    let uis = Ui::uis();
    assert_eq!(
        uis,
        vec![Ui::Timer, Ui::Dice, Ui::Snake, Ui::BaGua, Ui::Maze, Ui::Temp, Ui::Sound]
    );
}
