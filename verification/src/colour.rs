//! Colours of the blocks: 15-bit RGB555 values and the palette of each kind.
use vstd::prelude::*;

use crate::piece::Tetromino;

verus! {

/// Red channel (bits 0..5) of an RGB555 colour.
pub open spec fn red(c: u16) -> u16 {
    c & 31
}

/// Green channel (bits 5..10) of an RGB555 colour.
pub open spec fn green(c: u16) -> u16 {
    (c >> 5u16) & 31
}

/// Blue channel (bits 10..15) of an RGB555 colour.
pub open spec fn blue(c: u16) -> u16 {
    (c >> 10u16) & 31
}

/// Builds an RGB555 colour `(b << 10) | (g << 5) | r` from 5-bit channels.
/// Channels of 32 and more spill into the neighbouring bits, as the shifts
/// and the or do.
pub fn rgb555(r: u16, g: u16, b: u16) -> (c: u16)
    ensures
        c == (b << 10u16) | (g << 5u16) | r,
        r < 32 && g < 32 && b < 32 ==> c == r + 32 * g + 1024 * b && red(c) == r && green(c) == g && blue(c)
            == b && c < 32768,
{
    let c = (b << 10u16) | (g << 5u16) | r;
    assert(r < 32 && g < 32 && b < 32 ==> c == r + 32 * g + 1024 * b && c & 31 == r && (c >> 5u16) & 31 == g
        && (c >> 10u16) & 31 == b && c < 32768) by (bit_vector)
        requires
            c == (b << 10u16) | (g << 5u16) | r,
    ;
    c
}

/// Halfway from `v` towards 31.
pub open spec fn lighter(v: u16) -> int {
    v + (31 - v) / 2
}

/// The highlight shade: every channel moved halfway towards white.
pub fn lighten(colour: u16) -> (c: u16)
    ensures
        red(c) == lighter(red(colour)),
        green(c) == lighter(green(colour)),
        blue(c) == lighter(blue(colour)),
        c < 32768,
{
    let r = colour & 31;
    let g = (colour >> 5u16) & 31;
    let b = (colour >> 10u16) & 31;
    assert(r < 32 && g < 32 && b < 32) by (bit_vector)
        requires
            r == colour & 31,
            g == (colour >> 5u16) & 31,
            b == (colour >> 10u16) & 31,
    ;
    rgb555(r + (31 - r) / 2, g + (31 - g) / 2, b + (31 - b) / 2)
}

/// The shadow shade: every channel halved.
pub fn darken(colour: u16) -> (c: u16)
    ensures
        red(c) == red(colour) / 2,
        green(c) == green(colour) / 2,
        blue(c) == blue(colour) / 2,
        c < 32768,
{
    let r = (colour & 31) / 2;
    let g = ((colour >> 5u16) & 31) / 2;
    let b = ((colour >> 10u16) & 31) / 2;
    assert(colour & 31 < 32 && (colour >> 5u16) & 31 < 32 && (colour >> 10u16) & 31 < 32) by (bit_vector);
    rgb555(r, g, b)
}

/// The RGB555 colour of each kind: I cyan, O yellow, T purple, S green,
/// Z red, J blue, L orange.
pub open spec fn kind_colour(kind: Tetromino) -> u16 {
    match kind {
        Tetromino::I => 0x7FE0,
        Tetromino::O => 0x03FF,
        Tetromino::T => 0x4010,
        Tetromino::S => 0x03E0,
        Tetromino::Z => 0x001F,
        Tetromino::J => 0x7C00,
        Tetromino::L => 0x029F,
    }
}

/// The RGB555 colour of a kind's blocks.
pub fn piece_colour(kind: Tetromino) -> (c: u16)
    ensures
        c == kind_colour(kind),
{
    match kind {
        Tetromino::I => 0x7FE0,
        Tetromino::O => 0x03FF,
        Tetromino::T => 0x4010,
        Tetromino::S => 0x03E0,
        Tetromino::Z => 0x001F,
        Tetromino::J => 0x7C00,
        Tetromino::L => 0x029F,
    }
}

/// Background palette of a kind: 1 to 7 in the order I, O, T, S, Z, J, L
/// (palette 0 holds the interface colours).
pub open spec fn kind_palette(kind: Tetromino) -> u8 {
    match kind {
        Tetromino::I => 1,
        Tetromino::O => 2,
        Tetromino::T => 3,
        Tetromino::S => 4,
        Tetromino::Z => 5,
        Tetromino::J => 6,
        Tetromino::L => 7,
    }
}

/// The background palette that draws a kind's blocks.
pub fn palette_of(kind: Tetromino) -> (p: u8)
    ensures
        p == kind_palette(kind),
        1 <= p <= 7,
{
    match kind {
        Tetromino::I => 1,
        Tetromino::O => 2,
        Tetromino::T => 3,
        Tetromino::S => 4,
        Tetromino::Z => 5,
        Tetromino::J => 6,
        Tetromino::L => 7,
    }
}

/// Every kind has a palette of its own.
pub proof fn lemma_palettes_distinct(a: Tetromino, b: Tetromino)
    ensures
        kind_palette(a) == kind_palette(b) <==> a == b,
{
}

} // verus!
