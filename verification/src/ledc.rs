//! Dual-buffer model of the 8x8 LED matrix: a staging bitmap for
//! composing images and a display bitmap holding what is shown. Row index
//! is `y` (0 at the top); within a row, bit 7 is the leftmost column
//! (`x == 0`) and bit 0 the rightmost (`x == 7`).

use vstd::prelude::*;

use crate::Gd;

verus! {

/// Whether the pixel at column `x` of a row byte is lit: bit `7 - x`,
/// counted from the least significant bit.
pub open spec fn px(row: u8, x: u8) -> bool
    recommends
        x < 8,
{
    (row >> ((7 - x) as u8)) & 1u8 == 1u8
}

/// The dual-buffer LED matrix framebuffer.
pub struct LedControl {
    /// Staging buffer: scratch rows used to compose multi-part images.
    pub buf_work: [u8; 8],
    /// Display buffer: the rows pushed to the physical matrix.
    pub buf: [u8; 8],
    /// Last gravity direction seen, kept for orientation-aware drawing.
    pub gd: Gd,
}

impl LedControl {
    pub fn new() -> (r: Self)
        ensures
            forall|i: int| 0 <= i < 8 ==> r.buf_work@[i] == 0u8,
            forall|i: int| 0 <= i < 8 ==> r.buf@[i] == 0u8,
            r.gd == Gd::Idle,
    {
        Self { buf_work: [0; 8], buf: [0; 8], gd: Gd::Idle }
    }

    /// Zero every row of the staging buffer.
    pub fn clear_work(&mut self)
        ensures
            forall|i: int| 0 <= i < 8 ==> final(self).buf_work@[i] == 0u8,
            final(self).buf == old(self).buf,
            final(self).gd == old(self).gd,
    {
        let mut i: usize = 0;
        while i < 8
            invariant
                0 <= i <= 8,
                forall|j: int| 0 <= j < i ==> self.buf_work@[j] == 0u8,
                self.buf == old(self).buf,
                self.gd == old(self).gd,
            decreases 8 - i,
        {
            self.buf_work[i] = 0;
            i = i + 1;
        }
    }

    /// Zero every row of the display buffer.
    pub fn clear(&mut self)
        ensures
            forall|i: int| 0 <= i < 8 ==> final(self).buf@[i] == 0u8,
            final(self).buf_work == old(self).buf_work,
            final(self).gd == old(self).gd,
    {
        let mut i: usize = 0;
        while i < 8
            invariant
                0 <= i <= 8,
                forall|j: int| 0 <= j < i ==> self.buf@[j] == 0u8,
                self.buf_work == old(self).buf_work,
                self.gd == old(self).gd,
            decreases 8 - i,
        {
            self.buf[i] = 0;
            i = i + 1;
        }
    }

    /// Set or clear the pixel at `(x, y)` of the staging buffer. A
    /// coordinate outside the matrix is silently ignored.
    pub fn set_led_work(&mut self, x: u8, y: u8, on: bool)
        ensures
            x <= 7 && y <= 7 ==> {
                &&& forall|c: u8|
                    c < 8 ==> px(final(self).buf_work@[y as int], c) == (if c == x {
                        on
                    } else {
                        px(old(self).buf_work@[y as int], c)
                    })
                &&& forall|i: int|
                    0 <= i < 8 && i != y as int ==> final(self).buf_work@[i] == old(
                        self,
                    ).buf_work@[i]
            },
            !(x <= 7 && y <= 7) ==> final(self).buf_work == old(self).buf_work,
            final(self).buf == old(self).buf,
            final(self).gd == old(self).gd,
    {
        if x > 7 || y > 7 {
            return ;
        }
        let yi = y as usize;
        if on {
            let row = self.buf_work[yi] | (1u8 << (7 - x));
            proof {
                lemma_px_masks(self.buf_work@[y as int], x);
            }
            self.buf_work[yi] = row;
        } else {
            let row = self.buf_work[yi] & (!(1u8 << (7 - x)));
            proof {
                lemma_px_masks(self.buf_work@[y as int], x);
            }
            self.buf_work[yi] = row;
        }
    }

    /// Set or clear the pixel at `(x, y)` of the display buffer. A
    /// coordinate outside the matrix is silently ignored.
    pub fn set_led(&mut self, x: u8, y: u8, on: bool)
        ensures
            x <= 7 && y <= 7 ==> {
                &&& forall|c: u8|
                    c < 8 ==> px(final(self).buf@[y as int], c) == (if c == x {
                        on
                    } else {
                        px(old(self).buf@[y as int], c)
                    })
                &&& forall|i: int|
                    0 <= i < 8 && i != y as int ==> final(self).buf@[i] == old(self).buf@[i]
            },
            !(x <= 7 && y <= 7) ==> final(self).buf == old(self).buf,
            final(self).buf_work == old(self).buf_work,
            final(self).gd == old(self).gd,
    {
        if x > 7 || y > 7 {
            return ;
        }
        let yi = y as usize;
        if on {
            let row = self.buf[yi] | (1u8 << (7 - x));
            proof {
                lemma_px_masks(self.buf@[y as int], x);
            }
            self.buf[yi] = row;
        } else {
            let row = self.buf[yi] & (!(1u8 << (7 - x)));
            proof {
                lemma_px_masks(self.buf@[y as int], x);
            }
            self.buf[yi] = row;
        }
    }

    /// Whether the pixel at `(x, y)` of an externally supplied snapshot is
    /// lit; a coordinate outside the matrix reads as unlit. Used for
    /// pixel-level interaction queries.
    pub fn get_led_state_work(&self, x: u8, y: u8, view: [u8; 8]) -> (r: bool)
        ensures
            r == (x <= 7 && y <= 7 && px(view@[y as int], x)),
    {
        if x <= 7 && y <= 7 {
            let state = view[y as usize] & (1u8 << (7 - x));
            proof {
                lemma_px_probe(view@[y as int], x);
            }
            state > 0
        } else {
            false
        }
    }

    /// Bulk-copy eight rows into the staging buffer verbatim.
    pub fn bitmap_work(&mut self, rows: [u8; 8])
        ensures
            final(self).buf_work == rows,
            final(self).buf == old(self).buf,
            final(self).gd == old(self).gd,
    {
        self.buf_work = rows;
    }

    /// Bulk-copy eight rows into the display buffer verbatim. An
    /// orientation-compensating rotation of the incoming bitmap (so the
    /// image stays upright under device tilt) is an optional extension and
    /// is not performed here.
    pub fn bitmap(&mut self, rows: [u8; 8])
        ensures
            final(self).buf == rows,
            final(self).buf_work == old(self).buf_work,
            final(self).gd == old(self).gd,
    {
        self.buf = rows;
    }

    /// Present eight rows: copy them into the display buffer, from which
    /// the hardware write takes its data.
    pub fn upload_raw(&mut self, raw: [u8; 8])
        ensures
            final(self).buf == raw,
            final(self).buf_work == old(self).buf_work,
            final(self).gd == old(self).gd,
    {
        self.buf = raw;
    }

    /// Shift the display buffer's content by one cell in the given
    /// direction: the row or column that exits is discarded and the
    /// entering edge is zero-filled. `Gd::Idle` is a no-op.
    pub fn roll(&mut self, gd: &Gd)
        ensures
            final(self).buf_work == old(self).buf_work,
            final(self).gd == old(self).gd,
            *gd == Gd::Idle ==> final(self).buf == old(self).buf,
            *gd == Gd::Up ==> (forall|i: int| 0 <= i < 7 ==> final(self).buf@[i] == old(self).buf@[i + 1])
                && final(self).buf@[7] == 0u8,
            *gd == Gd::Down ==> (forall|i: int| 1 <= i < 8 ==> final(self).buf@[i] == old(self).buf@[i - 1])
                && final(self).buf@[0] == 0u8,
            *gd == Gd::Right ==> forall|i: int|
                0 <= i < 8 ==> final(self).buf@[i] == old(self).buf@[i] >> 1u8,
            *gd == Gd::Left ==> forall|i: int|
                0 <= i < 8 ==> final(self).buf@[i] == (old(self).buf@[i] << 1u8) as u8,
            *gd == Gd::Right ==> forall|i: int, c: u8|
                0 <= i < 8 && c < 8 ==> #[trigger] px(final(self).buf@[i], c) == (c > 0 && px(
                    old(self).buf@[i],
                    (c - 1) as u8,
                )),
            *gd == Gd::Left ==> forall|i: int, c: u8|
                0 <= i < 8 && c < 8 ==> #[trigger] px(final(self).buf@[i], c) == (c < 7 && px(
                    old(self).buf@[i],
                    (c + 1) as u8,
                )),
    {
        match gd {
            Gd::Idle => {},
            Gd::Up => {
                let mut i: usize = 0;
                while i < 7
                    invariant
                        0 <= i <= 7,
                        forall|j: int| 0 <= j < i ==> self.buf@[j] == old(self).buf@[j + 1],
                        forall|j: int| i <= j < 8 ==> self.buf@[j] == old(self).buf@[j],
                        self.buf_work == old(self).buf_work,
                        self.gd == old(self).gd,
                    decreases 7 - i,
                {
                    self.buf[i] = self.buf[i + 1];
                    i = i + 1;
                }
                self.buf[7] = 0;
            },
            Gd::Down => {
                let mut i: usize = 7;
                while i >= 1
                    invariant
                        0 <= i <= 7,
                        forall|j: int| i < j < 8 ==> self.buf@[j] == old(self).buf@[j - 1],
                        forall|j: int| 0 <= j <= i ==> self.buf@[j] == old(self).buf@[j],
                        self.buf_work == old(self).buf_work,
                        self.gd == old(self).gd,
                    decreases i,
                {
                    self.buf[i] = self.buf[i - 1];
                    i = i - 1;
                }
                self.buf[0] = 0;
            },
            Gd::Right => {
                let mut i: usize = 0;
                while i < 8
                    invariant
                        0 <= i <= 8,
                        forall|j: int| 0 <= j < i ==> self.buf@[j] == old(self).buf@[j] >> 1u8,
                        forall|j: int| i <= j < 8 ==> self.buf@[j] == old(self).buf@[j],
                        self.buf_work == old(self).buf_work,
                        self.gd == old(self).gd,
                    decreases 8 - i,
                {
                    self.buf[i] = self.buf[i] >> 1;
                    i = i + 1;
                }
                proof {
                    assert forall|j: int, c: u8| 0 <= j < 8 && c < 8 implies #[trigger] px(
                        self.buf@[j],
                        c,
                    ) == (c > 0 && px(old(self).buf@[j], (c - 1) as u8)) by {
                        lemma_px_shr(old(self).buf@[j]);
                    }
                }
            },
            Gd::Left => {
                let mut i: usize = 0;
                while i < 8
                    invariant
                        0 <= i <= 8,
                        forall|j: int| 0 <= j < i ==> self.buf@[j] == (old(self).buf@[j] << 1u8) as u8,
                        forall|j: int| i <= j < 8 ==> self.buf@[j] == old(self).buf@[j],
                        self.buf_work == old(self).buf_work,
                        self.gd == old(self).gd,
                    decreases 8 - i,
                {
                    self.buf[i] = self.buf[i] << 1;
                    i = i + 1;
                }
                proof {
                    assert forall|j: int, c: u8| 0 <= j < 8 && c < 8 implies #[trigger] px(
                        self.buf@[j],
                        c,
                    ) == (c < 7 && px(old(self).buf@[j], (c + 1) as u8)) by {
                        lemma_px_shl(old(self).buf@[j]);
                    }
                }
            },
        }
    }
}

/// In a row with the bit for column `x` set (cleared), column `x` reads
/// lit (unlit) and every other column reads as before.
pub proof fn lemma_px_masks(row: u8, x: u8)
    by (bit_vector)
    requires
        x < 8,
    ensures
        forall|c: u8|
            c < 8 ==> #[trigger] px(row | (1u8 << ((7 - x) as u8)), c) == (c == x || px(row, c)),
        forall|c: u8|
            c < 8 ==> #[trigger] px(row & (!(1u8 << ((7 - x) as u8))), c) == (c != x && px(
                row,
                c,
            )),
{
}

/// A masked probe of the bit for column `x` is positive exactly when that
/// column reads lit.
proof fn lemma_px_probe(row: u8, x: u8)
    by (bit_vector)
    requires
        x < 8,
    ensures
        (row & (1u8 << ((7 - x) as u8)) > 0) == px(row, x),
{
}

/// No column of a zero row reads lit.
pub proof fn lemma_px_zero()
    by (bit_vector)
    ensures
        forall|c: u8| c < 8 ==> !#[trigger] px(0u8, c),
{
}

/// Shifting a row right moves every pixel one column rightward; the
/// leftmost column empties.
pub proof fn lemma_px_shr(row: u8)
    by (bit_vector)
    ensures
        forall|c: u8| 0 < c < 8 ==> #[trigger] px(row >> 1u8, c) == px(row, (c - 1) as u8),
        !px(row >> 1u8, 0u8),
{
}

/// Shifting a row left moves every pixel one column leftward; the
/// rightmost column empties.
pub proof fn lemma_px_shl(row: u8)
    by (bit_vector)
    ensures
        forall|c: u8| c < 7 ==> #[trigger] px((row << 1u8) as u8, c) == px(row, (c + 1) as u8),
        !px((row << 1u8) as u8, 7u8),
{
}

} // verus!
