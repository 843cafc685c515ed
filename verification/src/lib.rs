//! Control core of a handheld gadget with an 8x8 LED matrix and a tilt
//! sensor: device orientation is classified into a discrete gravity
//! direction, which drives a menu of screens; the representative game
//! (Snake) and the framebuffer model live in their own modules.
//!
//! Accelerometer samples are taken as integer milli-g values (one
//! thousandth of a g), so that a reading of roughly +/- 1 g on an axis is
//! roughly +/- 1000 here; the dead-zone threshold of half a g is 500.

use vstd::prelude::*;

pub mod ledc;
pub mod mapping;
pub mod rng;
pub mod snake;
pub mod ui;

use crate::ledc::LedControl;
use crate::ui::Ui;

verus! {

/// A grid cell. The origin is the top-left corner; `x` grows rightward,
/// `y` grows downward.
#[derive(Debug, Clone, Copy, PartialEq, Eq, Structural)]
pub struct Position {
    pub x: i8,
    pub y: i8,
}

impl Position {
    pub fn new(x: i8, y: i8) -> (r: Self)
        ensures
            r == (Position { x, y }),
    {
        Position { x, y }
    }

    /// The cell one step from `self` in direction `d`. The coordinate
    /// arithmetic here is exact: the casts do not truncate when the
    /// coordinates are strictly inside the `i8` range.
    pub open spec fn next_spec(self, d: Direction) -> Position {
        match d {
            Direction::Up => Position { x: self.x, y: (self.y - 1) as i8 },
            Direction::Right => Position { x: (self.x + 1) as i8, y: self.y },
            Direction::Down => Position { x: self.x, y: (self.y + 1) as i8 },
            Direction::Left => Position { x: (self.x - 1) as i8, y: self.y },
        }
    }

    /// Move this cell one step in direction `d`.
    pub fn translate(&mut self, d: Direction)
        requires
            i8::MIN < old(self).x < i8::MAX,
            i8::MIN < old(self).y < i8::MAX,
        ensures
            *final(self) == old(self).next_spec(d),
    {
        match d {
            Direction::Up => {
                self.y = self.y - 1;
            },
            Direction::Right => {
                self.x = self.x + 1;
            },
            Direction::Down => {
                self.y = self.y + 1;
            },
            Direction::Left => {
                self.x = self.x - 1;
            },
        }
    }

    /// A uniformly random cell with `0 <= x < w` and `0 <= y < h`.
    pub fn random(rng: &mut fastrand::Rng, w: i8, h: i8) -> (r: Self)
        requires
            w > 0,
            h > 0,
        ensures
            0 <= r.x < w,
            0 <= r.y < h,
    {
        Position { x: crate::rng::rand_i8_below(rng, w), y: crate::rng::rand_i8_below(rng, h) }
    }

    /// The cell one step from `self` in direction `d`, as a new value.
    pub fn next(&self, d: Direction) -> (r: Self)
        requires
            i8::MIN < self.x < i8::MAX,
            i8::MIN < self.y < i8::MAX,
        ensures
            r == self.next_spec(d),
    {
        let mut pos = *self;
        pos.translate(d);
        pos
    }
}

impl Default for Position {
    /// The origin cell.
    fn default() -> (r: Self)
        ensures
            r == (Position { x: 0i8, y: 0i8 }),
    {
        Position { x: 0, y: 0 }
    }
}

/// A committed heading on the grid.
#[derive(Debug, Clone, Copy, PartialEq, Eq, Structural)]
pub enum Direction {
    Up,
    Right,
    Down,
    Left,
}

impl Direction {
    pub open spec fn opposite_spec(self) -> Direction {
        match self {
            Direction::Up => Direction::Down,
            Direction::Right => Direction::Left,
            Direction::Down => Direction::Up,
            Direction::Left => Direction::Right,
        }
    }

    pub fn opposite(&self) -> (r: Self)
        ensures
            r == self.opposite_spec(),
    {
        match self {
            Direction::Up => Self::Down,
            Direction::Right => Self::Left,
            Direction::Down => Self::Up,
            Direction::Left => Self::Right,
        }
    }
}

/// `opposite` is a total involution: applying it twice returns the
/// original direction.
pub proof fn lemma_opposite_involution(d: Direction)
    ensures
        d.opposite_spec().opposite_spec() == d,
{
}

/// A discretized tilt reading: the gravity direction, or `None` when no
/// tilt is discernible.
#[derive(Debug, Clone, Copy, PartialEq, Eq, Structural)]
pub enum Gd {
    Idle,
    Up,
    Right,
    Down,
    Left,
}

impl Default for Gd {
    /// The idle reading.
    fn default() -> (r: Self)
        ensures
            r == Gd::Idle,
    {
        Gd::Idle
    }
}

impl From<Direction> for Gd {
    /// The gravity direction that reads as the given heading.
    fn from(v: Direction) -> (r: Self) {
        match v {
            Direction::Up => Self::Up,
            Direction::Right => Self::Right,
            Direction::Down => Self::Down,
            Direction::Left => Self::Left,
        }
    }
}

impl vstd::std_specs::convert::FromSpecImpl<Direction> for Gd {
    open spec fn obeys_from_spec() -> bool {
        true
    }

    open spec fn from_spec(v: Direction) -> Gd {
        match v {
            Direction::Up => Gd::Up,
            Direction::Right => Gd::Right,
            Direction::Down => Gd::Down,
            Direction::Left => Gd::Left,
        }
    }
}

/// The milli-g dead-zone threshold: tilt magnitudes at or below this on
/// both axes read as no tilt.
pub const TILT_THRESHOLD: i32 = 500;

/// Classification of one accelerometer sample `(ax, ay)` in milli-g,
/// given the previous gravity direction `prev`.
///
/// Dead zone first: when both magnitudes are at most the threshold the
/// result is `Gd::Idle`. Otherwise the dominant axis decides; the x axis
/// is cross-mapped (negative x tilt reads as `Right`) because the device's
/// physical x axis is mounted opposite the visual right direction. When
/// the two magnitudes tie, neither axis dominates and the previous reading
/// latches.
pub open spec fn classify_spec(ax: int, ay: int, prev: Gd) -> Gd {
    let ax_abs = if ax <= 0 { -ax } else { ax };
    let ay_abs = if ay <= 0 { -ay } else { ay };
    if ax_abs > TILT_THRESHOLD || ay_abs > TILT_THRESHOLD {
        if ax_abs > ay_abs {
            if ax < -TILT_THRESHOLD {
                Gd::Right
            } else {
                Gd::Left
            }
        } else if ax_abs < ay_abs {
            if ay < -TILT_THRESHOLD {
                Gd::Up
            } else {
                Gd::Down
            }
        } else {
            prev
        }
    } else {
        Gd::Idle
    }
}

/// Dead zone: every sample whose magnitudes are both at most the
/// threshold classifies as `Gd::Idle`, whatever reading came before.
pub proof fn lemma_dead_zone(ax: int, ay: int, prev: Gd)
    requires
        -TILT_THRESHOLD <= ax <= TILT_THRESHOLD,
        -TILT_THRESHOLD <= ay <= TILT_THRESHOLD,
    ensures
        classify_spec(ax, ay, prev) == Gd::Idle,
{
}

/// What one menu tick asks the surrounding loop to do: nothing, push the
/// display buffer to the hardware, or hand control to a screen's run
/// loop.
#[derive(Debug, Clone, Copy, PartialEq, Eq, Structural)]
pub enum MenuAction {
    Idle,
    Redraw,
    Enter(Ui),
}

/// The menu index one step to the right, wrapping to the front.
pub fn next_index(idx: i8, n: i8) -> (r: i8)
    requires
        0 <= idx < n,
    ensures
        r as int == (idx + 1) % (n as int),
{
    let r: i8 = if idx + 1 >= n {
        0
    } else {
        idx + 1
    };
    proof {
        if idx + 1 < n {
            vstd::arithmetic::div_mod::lemma_small_mod((idx + 1) as nat, n as nat);
        } else {
            vstd::arithmetic::div_mod::lemma_mod_self_0(n as int);
        }
    }
    r
}

/// The menu index one step to the left, wrapping to the back.
pub fn prev_index(idx: i8, n: i8) -> (r: i8)
    requires
        0 <= idx < n,
    ensures
        r as int == (idx - 1 + n) % (n as int),
{
    let r: i8 = if idx == 0 {
        n - 1
    } else {
        idx - 1
    };
    proof {
        if idx == 0 {
            vstd::arithmetic::div_mod::lemma_small_mod((n - 1) as nat, n as nat);
        } else {
            vstd::arithmetic::div_mod::lemma_mod_add_multiples_vanish((idx - 1) as int, n as int);
            vstd::arithmetic::div_mod::lemma_small_mod((idx - 1) as nat, n as nat);
        }
    }
    r
}

/// The top-level orchestrator's state: the screen list, the current
/// index, the buzzer switch, the last gravity reading, and the
/// framebuffer. The sensor and the physical display stay outside; their
/// readings and writes cross this type's methods as plain values.
pub struct App {
    /// Buzzer switch.
    pub buzzer: bool,
    /// The screens, in menu order.
    pub uis: Vec<Ui>,
    /// Index of the current screen.
    pub ui_current_idx: i8,
    pub gd: Gd,
    pub ledc: LedControl,
}

impl App {
    /// The screen list is the fixed menu, the index points into it, and
    /// the framebuffer's gravity field mirrors the orchestrator's.
    pub open spec fn wf(self) -> bool {
        &&& self.uis@ == Ui::uis_spec()
        &&& 0 <= self.ui_current_idx < self.uis@.len()
        &&& self.ledc.gd == self.gd
    }

    pub fn new() -> (r: Self)
        ensures
            r.wf(),
            r.buzzer,
            r.ui_current_idx == 0,
            r.gd == Gd::Idle,
            r.ledc.gd == Gd::Idle,
            forall|i: int| 0 <= i < 8 ==> r.ledc.buf@[i] == 0u8,
            forall|i: int| 0 <= i < 8 ==> r.ledc.buf_work@[i] == 0u8,
    {
        App {
            buzzer: true,
            uis: Ui::uis(),
            ui_current_idx: 0,
            gd: Gd::Idle,
            ledc: LedControl::new(),
        }
    }

    /// Classify one accelerometer sample, in milli-g, into the gravity
    /// direction, latching the previous reading on a dominance tie.
    pub fn gravity_direction(&mut self, ax: i32, ay: i32)
        requires
            old(self).wf(),
            ax > i32::MIN,
            ay > i32::MIN,
        ensures
            final(self).wf(),
            final(self).gd == classify_spec(ax as int, ay as int, old(self).gd),
            final(self).ledc.gd == final(self).gd,
            final(self).ledc.buf == old(self).ledc.buf,
            final(self).ledc.buf_work == old(self).ledc.buf_work,
            final(self).uis == old(self).uis,
            final(self).ui_current_idx == old(self).ui_current_idx,
            final(self).buzzer == old(self).buzzer,
    {
        let ax_abs: i32 = if ax <= 0 {
            0 - ax
        } else {
            ax
        };
        let ay_abs: i32 = if ay <= 0 {
            0 - ay
        } else {
            ay
        };
        if ax_abs > TILT_THRESHOLD || ay_abs > TILT_THRESHOLD {
            if ax_abs > ay_abs {
                if ax < -TILT_THRESHOLD {
                    self.ledc.gd = Gd::Right;
                    self.gd = Gd::Right;
                }
                if ax > TILT_THRESHOLD {
                    self.ledc.gd = Gd::Left;
                    self.gd = Gd::Left;
                }
            }
            if ax_abs < ay_abs {
                if ay < -TILT_THRESHOLD {
                    self.ledc.gd = Gd::Up;
                    self.gd = Gd::Up;
                }
                if ay > TILT_THRESHOLD {
                    self.ledc.gd = Gd::Down;
                    self.gd = Gd::Down;
                }
            }
        } else {
            self.ledc.gd = Gd::Idle;
            self.gd = Gd::Idle;
        }
    }

    /// One tick of the menu, driven by the current gravity reading: no
    /// tilt redraws the current screen, right and left scroll with
    /// wrap-around and redraw, up hands control to the current screen,
    /// down is reserved and does nothing.
    pub fn menu_tick(&mut self) -> (r: MenuAction)
        requires
            old(self).wf(),
        ensures
            final(self).wf(),
            final(self).gd == old(self).gd,
            final(self).uis == old(self).uis,
            final(self).buzzer == old(self).buzzer,
            final(self).ledc.gd == old(self).ledc.gd,
            final(self).ledc.buf_work == old(self).ledc.buf_work,
            old(self).gd == Gd::Idle ==> final(self).ui_current_idx == old(self).ui_current_idx
                && r == MenuAction::Redraw,
            old(self).gd == Gd::Right ==> final(self).ui_current_idx as int
                == (old(self).ui_current_idx + 1) % (old(self).uis@.len() as int)
                && r == MenuAction::Redraw,
            old(self).gd == Gd::Left ==> final(self).ui_current_idx as int
                == (old(self).ui_current_idx - 1 + old(self).uis@.len()) % (
            old(self).uis@.len() as int) && r == MenuAction::Redraw,
            old(self).gd == Gd::Up ==> *final(self) == *old(self) && r == MenuAction::Enter(
                old(self).uis@[old(self).ui_current_idx as int],
            ),
            old(self).gd == Gd::Down ==> *final(self) == *old(self) && r == MenuAction::Idle,
            r == MenuAction::Redraw ==> final(self).ledc.buf@
                == final(self).uis@[final(self).ui_current_idx as int].ui_spec(),
    {
        match self.gd {
            Gd::Idle => {
                let img = self.uis[self.ui_current_idx as usize].ui();
                self.ledc.upload_raw(img);
                MenuAction::Redraw
            },
            Gd::Up => MenuAction::Enter(self.uis[self.ui_current_idx as usize]),
            Gd::Right => {
                self.ui_current_idx = next_index(self.ui_current_idx, self.uis.len() as i8);
                let img = self.uis[self.ui_current_idx as usize].ui();
                self.ledc.upload_raw(img);
                MenuAction::Redraw
            },
            Gd::Left => {
                self.ui_current_idx = prev_index(self.ui_current_idx, self.uis.len() as i8);
                let img = self.uis[self.ui_current_idx as usize].ui();
                self.ledc.upload_raw(img);
                MenuAction::Redraw
            },
            Gd::Down => MenuAction::Idle,
        }
    }
}

} // verus!
