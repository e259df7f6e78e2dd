//! Visually distinct per-net colors from a golden-ratio hue sequence.
//!
//! Color components are counts of millionths: `1_000_000` stands for a
//! full channel.  For index `i` the hue is the fractional part of
//! `i * 0.618034` (the golden-ratio conjugate, in millionths), turned
//! into a color at saturation `0.8` and value `0.75`, so consecutive
//! indices land far apart on the color circle.

use vstd::prelude::*;

verus! {

/// An RGB color; each channel is a count of millionths in
/// `[0, 1_000_000]`.
#[derive(Debug, Clone, Copy, PartialEq, Eq, Structural)]
pub struct ColorFloat3 {
    pub r: u32,
    pub g: u32,
    pub b: u32,
}

/// The golden-ratio conjugate, in millionths.
pub const GOLDEN_RATIO_CONJUGATE_MICROS: u64 = 618_034;

/// Saturation of every generated color, in millionths.
pub const COLOR_SATURATION_MICROS: u64 = 800_000;

/// Value (brightness) of every generated color, in millionths.
pub const COLOR_VALUE_MICROS: u64 = 750_000;

/// The hue for index `i`: the fractional part of the golden-ratio walk.
pub open spec fn hue_micros(i: int) -> int {
    (i * (GOLDEN_RATIO_CONJUGATE_MICROS as int)) % 1_000_000
}

/// Standard conversion from a hue at fixed saturation and value to RGB,
/// in millionths.
pub open spec fn hsv_color(h: int) -> ColorFloat3 {
    let h6 = h * 6;
    let sector = h6 / 1_000_000;
    let f = h6 % 1_000_000;
    let v = 750_000int;
    let p = 150_000int;
    let q = v - (600_000 * f) / 1_000_000;
    let t = v - (600_000 * (1_000_000 - f)) / 1_000_000;
    if sector == 0 {
        ColorFloat3 { r: v as u32, g: t as u32, b: p as u32 }
    } else if sector == 1 {
        ColorFloat3 { r: q as u32, g: v as u32, b: p as u32 }
    } else if sector == 2 {
        ColorFloat3 { r: p as u32, g: v as u32, b: t as u32 }
    } else if sector == 3 {
        ColorFloat3 { r: p as u32, g: q as u32, b: v as u32 }
    } else if sector == 4 {
        ColorFloat3 { r: t as u32, g: p as u32, b: v as u32 }
    } else {
        ColorFloat3 { r: v as u32, g: p as u32, b: q as u32 }
    }
}

/// The color assigned to index `i`.
pub open spec fn color_for(i: int) -> ColorFloat3 {
    hsv_color(hue_micros(i))
}

/// Converts a hue in millionths to RGB at the fixed saturation and
/// value.
fn hsv_to_rgb(h: u64) -> (c: ColorFloat3)
    requires
        h < 1_000_000,
    ensures
        c == hsv_color(h as int),
{
    proof {
        vstd::arithmetic::div_mod::lemma_mod_bound(h as int * 6, 1_000_000);
        vstd::arithmetic::div_mod::lemma_div_pos_is_pos((h as int * 6) % 1_000_000, 1);
    }
    let h6 = h * 6;
    let sector = h6 / 1_000_000;
    let f = h6 % 1_000_000;
    let v: u64 = 750_000;
    let p: u64 = 150_000;
    proof {
        vstd::arithmetic::div_mod::lemma_div_is_ordered(600_000 * (f as int), 600_000_000_000, 1_000_000);
        vstd::arithmetic::div_mod::lemma_div_is_ordered(
            600_000 * (1_000_000 - f as int),
            600_000_000_000,
            1_000_000,
        );
        vstd::arithmetic::div_mod::lemma_div_pos_is_pos(600_000 * (f as int), 1_000_000);
        vstd::arithmetic::div_mod::lemma_div_pos_is_pos(
            600_000 * (1_000_000 - f as int),
            1_000_000,
        );
    }
    let q = v - (600_000 * f) / 1_000_000;
    let t = v - (600_000 * (1_000_000 - f)) / 1_000_000;
    if sector == 0 {
        ColorFloat3 { r: v as u32, g: t as u32, b: p as u32 }
    } else if sector == 1 {
        ColorFloat3 { r: q as u32, g: v as u32, b: p as u32 }
    } else if sector == 2 {
        ColorFloat3 { r: p as u32, g: v as u32, b: t as u32 }
    } else if sector == 3 {
        ColorFloat3 { r: p as u32, g: q as u32, b: v as u32 }
    } else if sector == 4 {
        ColorFloat3 { r: t as u32, g: p as u32, b: v as u32 }
    } else {
        ColorFloat3 { r: v as u32, g: p as u32, b: q as u32 }
    }
}

/// The color assigned to index `i`: a pure function of the index.
pub fn color_for_index(i: usize) -> (c: ColorFloat3)
    ensures
        c == color_for(i as int),
{
    proof {
        vstd::arithmetic::div_mod::lemma_mod_bound(i as int, 1_000_000);
        vstd::arithmetic::div_mod::lemma_mul_mod_noop_left(
            i as int,
            GOLDEN_RATIO_CONJUGATE_MICROS as int,
            1_000_000,
        );
        vstd::arithmetic::div_mod::lemma_mod_bound(
            (i as int % 1_000_000) * (GOLDEN_RATIO_CONJUGATE_MICROS as int),
            1_000_000,
        );
    }
    let reduced = (i % 1_000_000) as u64;
    let hue = (reduced * GOLDEN_RATIO_CONJUGATE_MICROS) % 1_000_000;
    hsv_to_rgb(hue)
}

/// A stateful walk along the color sequence, one color per call.
pub struct DistinctColorGenerator {
    pub index: usize,
}

impl DistinctColorGenerator {
    /// Starts the sequence at index zero.
    pub fn new() -> (r: Self)
        ensures
            r.index == 0,
    {
        DistinctColorGenerator { index: 0 }
    }

    /// The next color of the sequence.
    pub fn next(&mut self) -> (c: ColorFloat3)
        requires
            old(self).index < usize::MAX,
        ensures
            c == color_for(old(self).index as int),
            final(self).index == old(self).index + 1,
    {
        let c = color_for_index(self.index);
        self.index = self.index + 1;
        c
    }
}

} // verus!
