//! Classification of one RGBA pixel into a terminal color class, and the
//! braille glyph drawn for each class.

use vstd::prelude::*;

verus! {

/// One picture element: red, green, blue and alpha channels, each 0..=255.
#[derive(Clone, Copy, Debug, PartialEq, Eq)]
pub struct Pixel {
    pub r: u8,
    pub g: u8,
    pub b: u8,
    pub a: u8,
}

/// The terminal color a pixel is mapped to: skipped entirely, one of the
/// eight named ANSI colors, or an entry of the 6x6x6 color cube.
#[derive(Clone, Copy, Debug, PartialEq, Eq)]
pub enum ColorClass {
    /// Alpha is zero: the cell is left untouched.
    Transparent,
    /// All three color channels are zero.
    Black,
    /// Red saturated, green and blue zero.
    Red,
    /// Green saturated, red and blue zero.
    Green,
    /// Blue saturated, red and green zero.
    Blue,
    /// Red and green saturated, blue zero.
    Yellow,
    /// Green and blue saturated, red zero.
    Cyan,
    /// Red and blue saturated, green zero.
    Magenta,
    /// All three channels saturated.
    White,
    /// An index into the 216-entry color cube of the 256-color palette.
    Indexed(u8),
}

/// A channel counts as saturated at or above this value.
pub const SATURATION_THRESHOLD: u8 = 0xFF;

/// First palette index of the 6x6x6 color cube: the 16 slots below it are
/// reserved for the named colors.
pub const CUBE_BASE: u8 = 16;

/// Whether a channel counts as fully saturated.
pub open spec fn saturated(c: u8) -> bool {
    c >= SATURATION_THRESHOLD
}

/// The cube level of one channel: `c / 51` rounded to the nearest integer.
/// An exact half never occurs for an integer channel value, so no tie-break
/// is needed.
pub open spec fn quantize_spec(c: u8) -> int {
    (2 * c + 51) / 102
}

/// The quantized level lies in 0..=5, and 51 times it is the multiple of 51
/// nearest to the channel value: never more than 25 away.
pub proof fn lemma_quantize_nearest(c: u8)
    ensures
        0 <= quantize_spec(c) <= 5,
        -25 <= 51 * quantize_spec(c) - c <= 25,
{
}

/// The palette index of a pixel that matches no named color: each channel
/// quantized to its cube level, the three levels combined inside the cube.
pub open spec fn cube_index_spec(p: Pixel) -> int {
    CUBE_BASE + 36 * quantize_spec(p.r) + 6 * quantize_spec(p.g) + quantize_spec(p.b)
}

/// What `classify` returns for every pixel: transparent on zero alpha, else
/// the first matching named color (saturation threshold on the high channels,
/// exact zero on the others), else the color-cube entry.
pub open spec fn classify_spec(p: Pixel) -> ColorClass {
    if p.a == 0 {
        ColorClass::Transparent
    } else if p.r == 0 && p.g == 0 && p.b == 0 {
        ColorClass::Black
    } else if saturated(p.r) && p.g == 0 && p.b == 0 {
        ColorClass::Red
    } else if p.r == 0 && saturated(p.g) && p.b == 0 {
        ColorClass::Green
    } else if p.r == 0 && p.g == 0 && saturated(p.b) {
        ColorClass::Blue
    } else if saturated(p.r) && saturated(p.g) && p.b == 0 {
        ColorClass::Yellow
    } else if p.r == 0 && saturated(p.g) && saturated(p.b) {
        ColorClass::Cyan
    } else if saturated(p.r) && p.g == 0 && saturated(p.b) {
        ColorClass::Magenta
    } else if saturated(p.r) && saturated(p.g) && saturated(p.b) {
        ColorClass::White
    } else {
        ColorClass::Indexed(cube_index_spec(p) as u8)
    }
}

/// The cube level of one channel, computed exactly in integer arithmetic.
pub fn quantize(c: u8) -> (q: u8)
    ensures
        q == quantize_spec(c),
        q <= 5,
{
    proof {
        lemma_quantize_nearest(c);
    }
    ((2 * (c as u16) + 51) / 102) as u8
}

/// Maps one pixel to its terminal color class. Pure and total: every RGBA
/// value yields exactly one class, and a fully transparent pixel is always
/// mapped to `Transparent`, whatever its color channels hold.
pub fn classify(p: Pixel) -> (c: ColorClass)
    ensures
        c == classify_spec(p),
        p.a == 0 ==> c is Transparent,
{
    if p.a == 0 {
        ColorClass::Transparent
    } else if p.r == 0 && p.g == 0 && p.b == 0 {
        ColorClass::Black
    } else if p.r >= SATURATION_THRESHOLD && p.g == 0 && p.b == 0 {
        ColorClass::Red
    } else if p.r == 0 && p.g >= SATURATION_THRESHOLD && p.b == 0 {
        ColorClass::Green
    } else if p.r == 0 && p.g == 0 && p.b >= SATURATION_THRESHOLD {
        ColorClass::Blue
    } else if p.r >= SATURATION_THRESHOLD && p.g >= SATURATION_THRESHOLD && p.b == 0 {
        ColorClass::Yellow
    } else if p.r == 0 && p.g >= SATURATION_THRESHOLD && p.b >= SATURATION_THRESHOLD {
        ColorClass::Cyan
    } else if p.r >= SATURATION_THRESHOLD && p.g == 0 && p.b >= SATURATION_THRESHOLD {
        ColorClass::Magenta
    } else if p.r >= SATURATION_THRESHOLD && p.g >= SATURATION_THRESHOLD && p.b >= SATURATION_THRESHOLD {
        ColorClass::White
    } else {
        let qr = quantize(p.r);
        let qg = quantize(p.g);
        let qb = quantize(p.b);
        ColorClass::Indexed(CUBE_BASE + 36 * qr + 6 * qg + qb)
    }
}

/// The braille glyph with every dot raised: a fully filled cell.
pub const BRAILLE_FULL: char = '\u{28FF}';

/// The braille glyph with every dot lowered: a visually blank but painted
/// cell, distinct from an untouched background cell.
pub const BRAILLE_BLANK: char = '\u{2800}';

/// The glyph drawn for an opaque color class: blank braille for black, full
/// braille for every other class.
pub open spec fn opaque_glyph(c: ColorClass) -> char {
    if c is Black {
        BRAILLE_BLANK
    } else {
        BRAILLE_FULL
    }
}

/// What `glyph_for` returns: no glyph at all for a transparent pixel (the
/// cell is skipped), else the glyph of the opaque class.
pub open spec fn glyph_spec(c: ColorClass) -> Option<char> {
    if c is Transparent {
        None
    } else {
        Some(opaque_glyph(c))
    }
}

/// Chooses the glyph for a color class; `None` means the caller must skip
/// the cell entirely, leaving the terminal untouched.
pub fn glyph_for(c: ColorClass) -> (g: Option<char>)
    ensures
        g == glyph_spec(c),
{
    match c {
        ColorClass::Transparent => None,
        ColorClass::Black => Some(BRAILLE_BLANK),
        _ => Some(BRAILLE_FULL),
    }
}

/// A fully transparent pixel is always classified transparent, regardless of
/// its red, green and blue channels.
pub proof fn lemma_transparent_skipped(p: Pixel)
    requires
        p.a == 0,
    ensures
        classify_spec(p) is Transparent,
{
}

/// Classification is a pure function of the pixel: equal pixels are
/// classified alike, so classifying the same pixel twice yields the same
/// result.
pub proof fn lemma_classify_deterministic(p: Pixel, q: Pixel)
    requires
        p == q,
    ensures
        classify_spec(p) == classify_spec(q),
{
}

/// A channel exactly at the saturation threshold counts as saturated; one
/// just below it does not.
pub proof fn lemma_saturation_boundary()
    ensures
        saturated(SATURATION_THRESHOLD),
        !saturated((SATURATION_THRESHOLD - 1) as u8),
{
}

} // verus!
