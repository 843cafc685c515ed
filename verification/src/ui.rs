//! The fixed set of selectable screens and their menu icons.

use vstd::prelude::*;

verus! {

/// A selectable menu entry: a mini-game or utility screen.
#[derive(Debug, Clone, Copy, PartialEq, Eq, Structural)]
pub enum Ui {
    Timer,
    Dice,
    Snake,
    BaGua,
    Maze,
    Temp,
    Sound,
}

impl Ui {
    /// The 8-row menu icon of this screen.
    pub open spec fn ui_spec(self) -> Seq<u8> {
        match self {
            Ui::Timer => seq![
                0b11111110u8,
                0b01000100u8,
                0b00101000u8,
                0b00010000u8,
                0b00101000u8,
                0b01000100u8,
                0b11111110u8,
                0b00000000u8,
            ],
            Ui::Dice => seq![
                0b11111110u8,
                0b10000010u8,
                0b10101010u8,
                0b10000010u8,
                0b10101010u8,
                0b10000010u8,
                0b11111110u8,
                0b00000000u8,
            ],
            Ui::Snake => seq![
                0b01111100u8,
                0b10000000u8,
                0b10000000u8,
                0b01111100u8,
                0b00000010u8,
                0b00000010u8,
                0b11111100u8,
                0b00000000u8,
            ],
            Ui::BaGua => seq![
                0b11111110u8,
                0b00000000u8,
                0b11101110u8,
                0b00000000u8,
                0b11101110u8,
                0b00000000u8,
                0b11111110u8,
                0b00000000u8,
            ],
            Ui::Maze => seq![
                0b11111110u8,
                0b10000010u8,
                0b10111010u8,
                0b10100010u8,
                0b10101110u8,
                0b10100000u8,
                0b11111110u8,
                0b00000000u8,
            ],
            Ui::Temp => seq![
                0b00010000u8,
                0b00101000u8,
                0b00101000u8,
                0b00101000u8,
                0b01000100u8,
                0b01111100u8,
                0b00111000u8,
                0b00000000u8,
            ],
            Ui::Sound => seq![
                0b00011110u8,
                0b00010010u8,
                0b00010010u8,
                0b00010000u8,
                0b01110000u8,
                0b11110000u8,
                0b01100000u8,
                0b00000000u8,
            ],
        }
    }

    /// The icon drawn for this screen in the menu.
    pub fn ui(&self) -> (r: [u8; 8])
        ensures
            r@ == self.ui_spec(),
    {
        let r: [u8; 8] = match self {
            Ui::Timer => [
                0b11111110,
                0b01000100,
                0b00101000,
                0b00010000,
                0b00101000,
                0b01000100,
                0b11111110,
                0b00000000,
            ],
            Ui::Dice => [
                0b11111110,
                0b10000010,
                0b10101010,
                0b10000010,
                0b10101010,
                0b10000010,
                0b11111110,
                0b00000000,
            ],
            Ui::Snake => [
                0b01111100,
                0b10000000,
                0b10000000,
                0b01111100,
                0b00000010,
                0b00000010,
                0b11111100,
                0b00000000,
            ],
            Ui::BaGua => [
                0b11111110,
                0b00000000,
                0b11101110,
                0b00000000,
                0b11101110,
                0b00000000,
                0b11111110,
                0b00000000,
            ],
            Ui::Maze => [
                0b11111110,
                0b10000010,
                0b10111010,
                0b10100010,
                0b10101110,
                0b10100000,
                0b11111110,
                0b00000000,
            ],
            Ui::Temp => [
                0b00010000,
                0b00101000,
                0b00101000,
                0b00101000,
                0b01000100,
                0b01111100,
                0b00111000,
                0b00000000,
            ],
            Ui::Sound => [
                0b00011110,
                0b00010010,
                0b00010010,
                0b00010000,
                0b01110000,
                0b11110000,
                0b01100000,
                0b00000000,
            ],
        };
        proof {
            assert(r@ =~= self.ui_spec());
        }
        r
    }

    /// The full screen list, in menu order.
    pub open spec fn uis_spec() -> Seq<Ui> {
        seq![Ui::Timer, Ui::Dice, Ui::Snake, Ui::BaGua, Ui::Maze, Ui::Temp, Ui::Sound]
    }

    /// Build the screen list, in menu order.
    pub fn uis() -> (r: Vec<Ui>)
        ensures
            r@ == Ui::uis_spec(),
    {
        let mut v: Vec<Ui> = Vec::new();
        v.push(Ui::Timer);
        v.push(Ui::Dice);
        v.push(Ui::Snake);
        v.push(Ui::BaGua);
        v.push(Ui::Maze);
        v.push(Ui::Temp);
        v.push(Ui::Sound);
        proof {
            assert(v@ =~= Ui::uis_spec());
        }
        v
    }
}

} // verus!
