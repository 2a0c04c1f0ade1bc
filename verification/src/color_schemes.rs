//! Terminal color schemes.

use vstd::prelude::*;

pub mod light;

verus! {

/// A 24-bit color.
#[derive(Copy, Clone, PartialEq, Eq, Structural, Debug, Default)]
pub struct Rgb {
    pub r: u8,
    pub g: u8,
    pub b: u8,
}

/// The eight ANSI colors.
#[derive(Copy, Clone, PartialEq, Eq, Structural, Debug, Default)]
pub struct AnsiColors {
    pub black: Rgb,
    pub red: Rgb,
    pub green: Rgb,
    pub yellow: Rgb,
    pub blue: Rgb,
    pub magenta: Rgb,
    pub cyan: Rgb,
    pub white: Rgb,
}

#[derive(Copy, Clone, PartialEq, Eq, Structural, Debug)]
pub struct Primary {
    pub background: Rgb,
    pub foreground: Rgb,
}

#[derive(Copy, Clone, PartialEq, Eq, Structural, Debug)]
pub struct Scheme {
    pub primary: Primary,
    pub normal: AnsiColors,
    pub bright: AnsiColors,
}

/// The color `0xRRGGBB`; bits above the lowest 24 are ignored.
pub open spec fn spec_rgb(x: u32) -> Rgb {
    Rgb {
        r: ((x / 0x10000) % 0x100) as u8,
        g: ((x / 0x100) % 0x100) as u8,
        b: (x % 0x100) as u8,
    }
}

/// The ANSI colors black, red, green, yellow, blue, magenta, cyan, white, in
/// that order, from `0xRRGGBB` values.
pub open spec fn spec_ac(colors: [u32; 8]) -> AnsiColors {
    AnsiColors {
        black: spec_rgb(colors[0]),
        red: spec_rgb(colors[1]),
        green: spec_rgb(colors[2]),
        yellow: spec_rgb(colors[3]),
        blue: spec_rgb(colors[4]),
        magenta: spec_rgb(colors[5]),
        cyan: spec_rgb(colors[6]),
        white: spec_rgb(colors[7]),
    }
}

/// The scheme with the given `0xRRGGBB` colors.
pub open spec fn spec_scheme(background: u32, foreground: u32, normal: [u32; 8], bright: [u32; 8]) -> Scheme {
    Scheme {
        primary: Primary { background: spec_rgb(background), foreground: spec_rgb(foreground) },
        normal: spec_ac(normal),
        bright: spec_ac(bright),
    }
}

pub fn rgb(x: u32) -> (color: Rgb)
    ensures
        color == spec_rgb(x),
{
    proof {
        assert((x >> 16) as u8 == ((x / 0x10000) % 0x100) as u8) by (bit_vector);
        assert((x >> 8) as u8 == ((x / 0x100) % 0x100) as u8) by (bit_vector);
        assert(x as u8 == (x % 0x100) as u8) by (bit_vector);
    }
    Rgb { r: (x >> 16) as u8, g: (x >> 8) as u8, b: x as u8 }
}

pub fn ac(colors: [u32; 8]) -> (ansi: AnsiColors)
    ensures
        ansi == spec_ac(colors),
{
    AnsiColors {
        black: rgb(colors[0]),
        red: rgb(colors[1]),
        green: rgb(colors[2]),
        yellow: rgb(colors[3]),
        blue: rgb(colors[4]),
        magenta: rgb(colors[5]),
        cyan: rgb(colors[6]),
        white: rgb(colors[7]),
    }
}

fn scheme(background: u32, foreground: u32, normal: [u32; 8], bright: [u32; 8]) -> (s: Scheme)
    ensures
        s == spec_scheme(background, foreground, normal, bright),
{
    Scheme {
        primary: Primary { background: rgb(background), foreground: rgb(foreground) },
        normal: ac(normal),
        bright: ac(bright),
    }
}

} // verus!
