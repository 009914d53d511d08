//! The terminal color model and the xterm 256-color palette.
use vstd::prelude::*;
use crate::text::{decimal, hex2, push_decimal, push_hex2};

verus! {

/// A terminal color: one of the 256 palette entries, or a true color.
#[derive(Clone, Copy, Debug, PartialEq, Eq, Structural)]
pub enum Color {
    Indexed(u8),
    Rgb(u8, u8, u8),
}

/// The sixteen base ANSI colors of the palette.
pub open spec fn ansi16_rgb(i: u8) -> (u8, u8, u8) {
    if i == 0 { (0, 0, 0) }
    else if i == 1 { (205, 49, 49) }
    else if i == 2 { (13, 188, 121) }
    else if i == 3 { (229, 229, 16) }
    else if i == 4 { (36, 114, 200) }
    else if i == 5 { (188, 63, 188) }
    else if i == 6 { (17, 168, 205) }
    else if i == 7 { (229, 229, 229) }
    else if i == 8 { (102, 102, 102) }
    else if i == 9 { (241, 76, 76) }
    else if i == 10 { (35, 209, 139) }
    else if i == 11 { (245, 245, 67) }
    else if i == 12 { (59, 142, 234) }
    else if i == 13 { (214, 112, 214) }
    else if i == 14 { (41, 184, 219) }
    else { (229, 229, 229) }
}

/// Intensity of one axis of the 6x6x6 color cube.
pub open spec fn cube_level(v: int) -> int {
    if v == 0 { 0 } else { 55 + v * 40 }
}

/// RGB value of a palette entry: base colors, the 6x6x6 cube at 16..232,
/// and the grayscale ramp at 232..=255.
pub open spec fn spec_indexed_color_rgb(i: u8) -> (u8, u8, u8) {
    if i < 16 {
        ansi16_rgb(i)
    } else if i < 232 {
        let idx = i - 16;
        (
            cube_level(idx / 36) as u8,
            cube_level((idx % 36) / 6) as u8,
            cube_level(idx % 6) as u8,
        )
    } else {
        let l = 8 + 10 * (i - 232);
        (l as u8, l as u8, l as u8)
    }
}

fn cube_byte(v: u8) -> (r: u8)
    requires
        v < 6,
    ensures
        r == cube_level(v as int),
{
    if v == 0 { 0 } else { 55 + v * 40 }
}

/// RGB value of palette entry `i`.
pub fn indexed_color_rgb(i: u8) -> (rgb: (u8, u8, u8))
    ensures
        rgb == spec_indexed_color_rgb(i),
{
    match i {
        0 => (0, 0, 0),
        1 => (205, 49, 49),
        2 => (13, 188, 121),
        3 => (229, 229, 16),
        4 => (36, 114, 200),
        5 => (188, 63, 188),
        6 => (17, 168, 205),
        7 => (229, 229, 229),
        8 => (102, 102, 102),
        9 => (241, 76, 76),
        10 => (35, 209, 139),
        11 => (245, 245, 67),
        12 => (59, 142, 234),
        13 => (214, 112, 214),
        14 => (41, 184, 219),
        15 => (229, 229, 229),
        _ => {
            if i < 232 {
                let idx = i - 16;
                (cube_byte(idx / 36), cube_byte((idx % 36) / 6), cube_byte(idx % 6))
            } else {
                let l = 8 + 10 * (i - 232);
                (l, l, l)
            }
        },
    }
}

} // verus!

verus! {

/// The RGB value a color stands for.
pub open spec fn color_rgb(c: Color) -> (u8, u8, u8) {
    match c {
        Color::Indexed(i) => spec_indexed_color_rgb(i),
        Color::Rgb(r, g, b) => (r, g, b),
    }
}

/// Six hexadecimal digits of an RGB triple.
pub open spec fn hex_rgb(rgb: (u8, u8, u8), upper: bool) -> Seq<char> {
    hex2(rgb.0, upper) + hex2(rgb.1, upper) + hex2(rgb.2, upper)
}

/// Upper-case `RRGGBB` of a color.
pub open spec fn spec_color_to_hex(c: Color) -> Seq<char> {
    hex_rgb(color_rgb(c), true)
}

fn push_hex_rgb(s: &mut String, rgb: (u8, u8, u8), upper: bool)
    ensures
        final(s)@ == old(s)@ + hex_rgb(rgb, upper),
{
    let ghost s0 = s@;
    push_hex2(s, rgb.0, upper);
    push_hex2(s, rgb.1, upper);
    push_hex2(s, rgb.2, upper);
    assert(s@ =~= s0 + hex_rgb(rgb, upper));
}

/// The color as upper-case `RRGGBB`, palette entries resolved to RGB.
pub fn color_to_hex(color: Color) -> (s: String)
    ensures
        s@ == spec_color_to_hex(color),
{
    let rgb = match color {
        Color::Indexed(i) => indexed_color_rgb(i),
        Color::Rgb(r, g, b) => (r, g, b),
    };
    let mut s = String::new();
    push_hex_rgb(&mut s, rgb, true);
    s
}

/// CSS value of a color: base colors refer to the theme's `--term-N`
/// variables, the others are `#rrggbb`.
pub open spec fn spec_color_to_css(c: Color) -> Seq<char> {
    match c {
        Color::Indexed(i) => if i < 16 {
            "var(--term-"@ + decimal(i as nat) + ")"@
        } else {
            "#"@ + hex_rgb(spec_indexed_color_rgb(i), false)
        },
        Color::Rgb(r, g, b) => "#"@ + hex_rgb((r, g, b), false),
    }
}

/// The CSS value of a color.
pub fn color_to_css(color: Color) -> (s: String)
    ensures
        s@ == spec_color_to_css(color),
{
    let mut s = String::new();
    match color {
        Color::Indexed(i) => {
            if i < 16 {
                s.append("var(--term-");
                push_decimal(&mut s, i as u64);
                s.append(")");
            } else {
                s.append("#");
                push_hex_rgb(&mut s, indexed_color_rgb(i), false);
            }
        },
        Color::Rgb(r, g, b) => {
            s.append("#");
            push_hex_rgb(&mut s, (r, g, b), false);
        },
    }
    s
}

} // verus!
