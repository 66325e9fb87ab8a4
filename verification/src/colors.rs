//! Color palette. Colors are GDI `COLORREF` values (0x00BBGGRR).

use vstd::prelude::*;

verus! {

/// The 16 ANSI colors (Campbell scheme, the Windows Terminal default).
pub const ANSI16: [u32; 16] = [
    0x000C_0C0C, // 0  black
    0x001F_0FC5, // 1  red
    0x000E_A113, // 2  green
    0x0000_9CC1, // 3  yellow
    0x00DA_3700, // 4  blue
    0x0098_1788, // 5  magenta
    0x00DD_963A, // 6  cyan
    0x00CC_CCCC, // 7  white
    0x0076_7676, // 8  bright black
    0x0056_48E7, // 9  bright red
    0x000C_C616, // 10 bright green
    0x00A5_F1F9, // 11 bright yellow
    0x00FF_783B, // 12 bright blue
    0x009E_00B4, // 13 bright magenta
    0x00D6_D661, // 14 bright cyan
    0x00F2_F2F2, // 15 bright white
];

/// Default foreground of a fresh cell: ANSI white.
pub const DEFAULT_FG: u32 = 0x00CC_CCCC;

/// Default background of a fresh cell: `rgb(18, 18, 18)`.
pub const DEFAULT_BG: u32 = 0x0012_1212;

/// Selection highlight background: `rgb(38, 79, 120)`.
pub const SEL_BG: u32 = 0x0078_4F26;

/// Selection highlight foreground: `rgb(255, 255, 255)`.
pub const SEL_FG: u32 = 0x00FF_FFFF;

/// The `COLORREF` of three components: red in the low byte, blue in the third.
pub open spec fn colorref(r: int, g: int, b: int) -> int {
    b * 0x1_0000 + g * 0x100 + r
}

/// Intensity of level `v` (0..6) of the 6x6x6 color cube.
pub open spec fn cube_level(v: int) -> int {
    if v == 0 {
        0
    } else {
        55 + v * 40
    }
}

/// The 256-color palette: the ANSI colors, a 6x6x6 cube in red-major order, and
/// a ramp of 24 grays.
pub open spec fn palette(idx: int) -> int {
    if idx < 16 {
        ANSI16@[idx] as int
    } else if idx < 232 {
        colorref(
            cube_level((idx - 16) / 36),
            cube_level((idx - 16) / 6 % 6),
            cube_level((idx - 16) % 6),
        )
    } else {
        colorref(8 + (idx - 232) * 10, 8 + (idx - 232) * 10, 8 + (idx - 232) * 10)
    }
}

/// Build a `COLORREF` (0x00BBGGRR) from RGB components.
pub fn rgb(r: u8, g: u8, b: u8) -> (c: u32)
    ensures
        c == colorref(r as int, g as int, b as int),
{
    (b as u32) * 0x1_0000 + (g as u32) * 0x100 + r as u32
}

fn level(v: u8) -> (l: u8)
    requires
        v < 6,
    ensures
        l == cube_level(v as int),
{
    if v == 0 {
        0
    } else {
        55 + v * 40
    }
}

/// Resolve a 256-color palette index to a `COLORREF`.
#[verifier::rlimit(60)]
pub fn xterm256(idx: u8) -> (c: u32)
    ensures
        c == palette(idx as int),
{
    if idx < 16 {
        ANSI16[idx as usize]
    } else if idx < 232 {
        let i: u8 = idx - 16;
        let r: u8 = i / 36;
        let g: u8 = (i % 36) / 6;
        let b: u8 = i % 6;
        rgb(level(r), level(g), level(b))
    } else {
        let v: u8 = 8 + (idx - 232) * 10;
        rgb(v, v, v)
    }
}

/// A `COLORREF` determines the three components it was built from.
pub proof fn law_colorref_components(r: u8, g: u8, b: u8)
    ensures
        colorref(r as int, g as int, b as int) % 0x100 == r,
        colorref(r as int, g as int, b as int) / 0x100 % 0x100 == g,
        colorref(r as int, g as int, b as int) / 0x1_0000 == b,
{
}

/// Every palette entry is a 24-bit color: the top byte is clear.
pub proof fn law_palette_is_24_bit(idx: u8)
    ensures
        0 <= palette(idx as int) < 0x100_0000,
{
}

} // verus!
