//! Colors with four eight-bit channels, and the cosmetic operations on them.

use vstd::prelude::*;
use crate::fixed::{clamp_spec, div_floor, lemma_product_bound, ONE};

verus! {

/// A color: red, green, blue and opacity.
#[derive(Clone, Copy, Debug, PartialEq, Eq, Structural)]
pub struct Color {
    pub r: u8,
    pub g: u8,
    pub b: u8,
    pub a: u8,
}

/// The color with the given channels.
pub open spec fn rgba(r: u8, g: u8, b: u8, a: u8) -> Color {
    Color { r, g, b, a }
}

/// One channel multiplied by the gain `f`, rounded down and limited to the
/// range of a channel.
pub open spec fn scale_channel_spec(c: u8, f: int) -> u8 {
    clamp_spec((c as int * f) / (ONE as int), 0, 255) as u8
}

/// The color `c` with red, green and blue multiplied by the gain `f`; the
/// opacity stays.
pub open spec fn scale_color_spec(c: Color, f: int) -> Color {
    Color {
        r: scale_channel_spec(c.r, f),
        g: scale_channel_spec(c.g, f),
        b: scale_channel_spec(c.b, f),
        a: c.a,
    }
}

/// Four tenths of the channel `c` and six tenths of the channel `t`.
pub open spec fn tint_channel_spec(c: u8, t: u8) -> u8 {
    ((c as int * 4_000 + t as int * 6_000) / (ONE as int)) as u8
}

/// The color `c` drawn toward the goal color: each of red, green and blue is
/// four tenths of `c` and six tenths of orange `(255, 140, 0)`; the result is
/// opaque.
pub open spec fn goal_tint_spec(c: Color) -> Color {
    Color {
        r: tint_channel_spec(c.r, 255),
        g: tint_channel_spec(c.g, 140),
        b: tint_channel_spec(c.b, 0),
        a: 255,
    }
}

/// The color of a cell in the overlay map: cyan for the wall symbols `+`, `|`
/// and `-`, orange for the goal, a pale blue for any other symbol.
pub open spec fn tron_wall_color_spec(cell: char) -> Color {
    if cell == '+' || cell == '|' || cell == '-' {
        rgba(0, 255, 255, 255)
    } else if cell == 'g' {
        rgba(255, 140, 0, 255)
    } else {
        rgba(180, 180, 255, 255)
    }
}

/// The color of a cell in the top-down view: a soft cyan for the wall symbols
/// `+`, `|` and `-`, a warm orange for the goal, a dark blue for any other
/// symbol.
pub open spec fn cell_to_color_spec(cell: char) -> Color {
    if cell == '+' || cell == '|' || cell == '-' {
        rgba(0, 210, 255, 255)
    } else if cell == 'g' {
        rgba(255, 130, 20, 255)
    } else {
        rgba(16, 20, 32, 255)
    }
}

impl Color {
    /// The color with the given channels.
    pub fn new(r: u8, g: u8, b: u8, a: u8) -> (c: Color)
        ensures
            c == rgba(r, g, b, a),
    {
        Color { r, g, b, a }
    }
}

fn scale_channel(c: u8, f: i64) -> (r: u8)
    ensures
        r == scale_channel_spec(c, f as int),
{
    proof {
        lemma_product_bound(c as int, f as int, 255, 0x8000_0000_0000_0000);
    }
    let p: i128 = (c as i128) * (f as i128);
    let q: i128 = div_floor(p, ONE as i128);
    if q < 0 {
        0
    } else if q > 255 {
        255
    } else {
        q as u8
    }
}

/// Multiplies red, green and blue of `c` by the gain `f`, each limited to the
/// range of a channel. The opacity stays.
pub fn scale_color(c: Color, f: i64) -> (scaled: Color)
    ensures
        scaled == scale_color_spec(c, f as int),
{
    Color { r: scale_channel(c.r, f), g: scale_channel(c.g, f), b: scale_channel(c.b, f), a: c.a }
}

fn tint_channel(c: u8, t: u8) -> (r: u8)
    ensures
        r == tint_channel_spec(c, t),
{
    let v: u32 = (c as u32 * 4_000 + t as u32 * 6_000) / 10_000;
    v as u8
}

/// Draws `c` toward the goal color and makes it opaque.
pub fn goal_tint(c: Color) -> (tinted: Color)
    ensures
        tinted == goal_tint_spec(c),
{
    Color { r: tint_channel(c.r, 255), g: tint_channel(c.g, 140), b: tint_channel(c.b, 0), a: 255 }
}

/// The color of a cell in the overlay map.
pub fn tron_wall_color(cell: char) -> (c: Color)
    ensures
        c == tron_wall_color_spec(cell),
{
    match cell {
        '+' | '|' | '-' => Color::new(0, 255, 255, 255),
        'g' => Color::new(255, 140, 0, 255),
        _ => Color::new(180, 180, 255, 255),
    }
}

/// The color of a cell in the top-down view.
pub fn cell_to_color(cell: char) -> (c: Color)
    ensures
        c == cell_to_color_spec(cell),
{
    match cell {
        '+' | '|' | '-' => Color::new(0, 210, 255, 255),
        'g' => Color::new(255, 130, 20, 255),
        _ => Color::new(16, 20, 32, 255),
    }
}

} // verus!
