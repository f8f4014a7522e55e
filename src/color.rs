use vstd::prelude::*;

verus! {

/// Colors are 15-bit: five bits each of red, green and blue, red lowest.
pub open spec fn rgb15(r: int, g: int, b: int) -> int {
    r + g * 32 + b * 1024
}

/// The color with channels `r`, `g` and `b`, each below 32.
pub fn make_color(r: u16, g: u16, b: u16) -> (c: u16)
    requires
        r < 32,
        g < 32,
        b < 32,
    ensures
        c == rgb15(r as int, g as int, b as int),
{
    proof {
        assert(r | (g << 5u16) | (b << 10u16) == r + g * 32 + b * 1024) by (bit_vector)
            requires
                r < 32,
                g < 32,
                b < 32,
        ;
    }
    r | (g << 5) | (b << 10)
}

/// `color` with each channel scaled by `factor / 256`, rounded down.
pub fn darken_rgb15(color: u16, factor: i32) -> (c: u16)
    requires
        0 <= factor <= 256,
    ensures
        c == rgb15(
            (color % 32) * factor / 256,
            (color / 32 % 32) * factor / 256,
            (color / 1024 % 32) * factor / 256,
        ),
{
    proof {
        assert(color & 0x1F == color % 32) by (bit_vector);
        assert((color >> 5u16) & 0x1F == color / 32 % 32) by (bit_vector);
        assert((color >> 10u16) & 0x1F == color / 1024 % 32) by (bit_vector);
    }
    let r = (color & 0x1F) as i32;
    let g = ((color >> 5) & 0x1F) as i32;
    let b = ((color >> 10) & 0x1F) as i32;
    proof {
        assert(r * factor <= 31 * 256 && g * factor <= 31 * 256 && b * factor <= 31 * 256)
            by (nonlinear_arith)
            requires
                0 <= r < 32,
                0 <= g < 32,
                0 <= b < 32,
                0 <= factor <= 256,
        ;
        assert(r * factor / 256 < 32 && g * factor / 256 < 32 && b * factor / 256 < 32)
            by (nonlinear_arith)
            requires
                0 <= r * factor <= 31 * 256,
                0 <= g * factor <= 31 * 256,
                0 <= b * factor <= 31 * 256,
        ;
    }
    let rd = (r * factor / 256) as u16;
    let gd = (g * factor / 256) as u16;
    let bd = (b * factor / 256) as u16;
    make_color(rd, gd, bd)
}

/// The colors of the text palette, by index.
#[derive(Clone, Copy, PartialEq, Eq, Structural, Debug)]
pub enum PaletteColor {
    Transparent,
    White,
    Red,
    Green,
    Blue,
    Yellow,
    Cyan,
    Magenta,
    Orange,
    Purple,
    Pink,
    Brown,
    Gray,
    LightGray,
    DarkGreen,
    Black,
}

} // verus!
