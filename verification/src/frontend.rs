//! What a frontend needs besides the machine: the keyboard layout and the
//! place of each display cell in the window.

use vstd::prelude::*;
use crate::machine::{
    NUM_KEYS, SCREEN_HEIGHT, SCREEN_SIZE, SCREEN_WIDTH,
};

verus! {

/// Side of one display cell in the window, in pixels.
pub const SCALE: u32 = 15;

/// The keyboard layout: for each keypad key, from 0 to F, the code of the
/// keyboard key that stands for it. A code is that of the unshifted
/// character on the key. The keypad's four rows `123C`, `456D`, `789E`,
/// `A0BF` lie on the keyboard's rows `1234`, `qwer`, `asdf`, `zxcv`.
pub open spec fn key_codes() -> Seq<int> {
    seq![
        120, 49, 50, 51,
        113, 119, 101, 97,
        115, 100, 122, 99,
        52, 114, 102, 118,
    ]
}

/// The keypad key that the keyboard key with code `code` stands for, if any.
pub fn key2btn(code: i32) -> (btn: Option<usize>)
    ensures
        match btn {
            Some(k) => k < NUM_KEYS && key_codes()[k as int] == code,
            None => forall|k: int| 0 <= k < NUM_KEYS ==> key_codes()[k] != code,
        },
{
    match code {
        49 => Some(0x1),
        50 => Some(0x2),
        51 => Some(0x3),
        52 => Some(0xC),
        113 => Some(0x4),
        119 => Some(0x5),
        101 => Some(0x6),
        114 => Some(0xD),
        97 => Some(0x7),
        115 => Some(0x8),
        100 => Some(0x9),
        102 => Some(0xE),
        122 => Some(0xA),
        120 => Some(0x0),
        99 => Some(0xB),
        118 => Some(0xF),
        _ => None,
    }
}

/// No keyboard key stands for two keypad keys.
pub proof fn law_layout_is_injective(j: int, k: int)
    requires
        0 <= j < NUM_KEYS,
        0 <= k < NUM_KEYS,
        key_codes()[j] == key_codes()[k],
    ensures
        j == k,
{
}

/// A rectangle of the window, by its top left corner and its size in pixels.
#[derive(Clone, Copy, Debug, PartialEq, Eq, Structural)]
pub struct CellRect {
    pub x: i32,
    pub y: i32,
    pub width: u32,
    pub height: u32,
}

/// The square of the window that shows display cell `i` of the row-major plane.
pub fn cell_rect(i: usize) -> (rect: CellRect)
    requires
        i < SCREEN_SIZE,
    ensures
        rect.x == (i % SCREEN_WIDTH) * SCALE,
        rect.y == (i / SCREEN_WIDTH) * SCALE,
        rect.width == SCALE,
        rect.height == SCALE,
{
    let x: u32 = (i % SCREEN_WIDTH) as u32;
    let y: u32 = (i / SCREEN_WIDTH) as u32;
    CellRect { x: (x * SCALE) as i32, y: (y * SCALE) as i32, width: SCALE, height: SCALE }
}

/// The squares of two different cells do not overlap, and every square lies
/// inside a window of `SCREEN_WIDTH * SCALE` by `SCREEN_HEIGHT * SCALE` pixels.
pub proof fn law_cells_tile_the_window(i: int, j: int)
    requires
        0 <= i < SCREEN_SIZE,
        0 <= j < SCREEN_SIZE,
        i != j,
    ensures
        (i % 64) * SCALE + SCALE <= SCREEN_WIDTH * SCALE,
        (i / 64) * SCALE + SCALE <= SCREEN_HEIGHT * SCALE,
        (i % 64) * SCALE + SCALE <= (j % 64) * SCALE || (j % 64) * SCALE + SCALE <= (i % 64)
            * SCALE || (i / 64) * SCALE + SCALE <= (j / 64) * SCALE || (j / 64) * SCALE + SCALE
            <= (i / 64) * SCALE,
{
}

} // verus!
