//! Sprite drawing on the 32-row display.
//!
//! A sprite is up to 15 bytes, one per row, eight pixels wide. It is drawn by
//! XOR onto the display from a start column and a start row. Rows below the
//! last display row and columns right of the last display column are cut
//! off; nothing wraps around.

use vstd::prelude::*;
use crate::machine::Machine;

verus! {

/// The row word that covers the pixels of sprite byte `byte` when its
/// leftmost pixel stands in column `x0`: the byte at the most significant
/// end of the word, moved right by `x0` columns.
pub open spec fn sprite_mask(byte: u8, x0: u8) -> u64 {
    ((byte as u64) << 56) >> (x0 as u64)
}

/// Whether display row `row` receives a row of an `n`-row sprite whose first
/// row is drawn on row `y0`.
pub open spec fn row_drawn(y0: int, n: int, row: int) -> bool {
    y0 <= row < y0 + n && row < 32
}

/// The row word that is XORed onto display row `row` when `sprite` is drawn
/// at `(x0, y0)`.
pub open spec fn row_mask(sprite: Seq<u8>, x0: u8, y0: u8, row: int) -> u64 {
    sprite_mask(sprite[row - y0], x0)
}

/// Whether drawing `sprite` at `(x0, y0)` turns off a lit pixel of display
/// row `row`.
pub open spec fn row_collides(
    display: Seq<u64>,
    sprite: Seq<u8>,
    x0: u8,
    y0: u8,
    row: int,
) -> bool {
    display[row] & row_mask(sprite, x0, y0, row) != 0
}

/// Whether drawing `sprite` at `(x0, y0)` lights a dark pixel of display row
/// `row`.
pub open spec fn row_lights(
    display: Seq<u64>,
    sprite: Seq<u8>,
    x0: u8,
    y0: u8,
    row: int,
) -> bool {
    !display[row] & row_mask(sprite, x0, y0, row) != 0
}

/// Whether drawing `sprite` at `(x0, y0)` turns any lit pixel off.
pub open spec fn collides(display: Seq<u64>, sprite: Seq<u8>, x0: u8, y0: u8) -> bool {
    exists|row: int|
        row_drawn(y0 as int, sprite.len() as int, row) && #[trigger] row_collides(
            display,
            sprite,
            x0,
            y0,
            row,
        )
}

/// Whether drawing `sprite` at `(x0, y0)` lights any dark pixel.
pub open spec fn lights(display: Seq<u64>, sprite: Seq<u8>, x0: u8, y0: u8) -> bool {
    exists|row: int|
        row_drawn(y0 as int, sprite.len() as int, row) && #[trigger] row_lights(
            display,
            sprite,
            x0,
            y0,
            row,
        )
}

/// The display after drawing `sprite` at `(x0, y0)`.
pub open spec fn blit(display: Seq<u64>, sprite: Seq<u8>, x0: u8, y0: u8) -> Seq<u64> {
    Seq::new(
        32,
        |row: int|
            if row_drawn(y0 as int, sprite.len() as int, row) {
                display[row] ^ row_mask(sprite, x0, y0, row)
            } else {
                display[row]
            },
    )
}

/// The `n` bytes of the sprite at `idx`.
pub open spec fn sprite_at_idx(m: Machine, n: u8) -> Seq<u8> {
    Seq::new(n as nat, |i: int| m.read(m.idx + i))
}

/// The state after `DXYN`: the `n`-row sprite at `idx` is drawn with its top
/// left corner at column `regs[x] mod 64`, row `regs[y] mod 32`. The flag
/// becomes 1 if a lit pixel was turned off and 0 otherwise.
pub open spec fn draw(m: Machine, x: u8, y: u8, n: u8) -> Machine {
    let x0 = m.regs[x as int] % 64;
    let y0 = m.regs[y as int] % 32;
    let sprite = sprite_at_idx(m, n);
    Machine {
        display: blit(m.display, sprite, x0, y0),
        regs: m.regs.update(
            15,
            if collides(m.display, sprite, x0, y0) {
                1u8
            } else {
                0u8
            },
        ),
        ..m
    }
}

/// Whether `sprite`, drawn at `(x0, y0)`, has a set pixel at column `px`,
/// row `py` of the display: the sprite row for `py` is on screen, `px` is one
/// of its eight columns, and the bit for that column is set in its byte.
pub open spec fn sprite_pixel(sprite: Seq<u8>, x0: u8, y0: u8, px: int, py: int) -> bool {
    &&& row_drawn(y0 as int, sprite.len() as int, py)
    &&& x0 <= px < x0 + 8
    &&& px < 64
    &&& (sprite[py - y0] >> ((7 - (px - x0)) as u8)) & 1 == 1
}

} // verus!
