//! A small tile-graphics demo core: a bit-packed tile atlas decoder, a
//! tile-to-pixel blitter, a grid of coloured tiles mutated by per-tick
//! animation effects, and a compositor that renders the grid into a
//! pixel framebuffer.

use vstd::prelude::*;

pub mod compositor;
pub mod effects;
pub mod scene;
pub mod tileset;
pub mod util;

verus! {

/// Width of the tile grid, in cells.
pub const WIDTH: usize = 32;
/// Height of the tile grid, in cells.
pub const HEIGHT: usize = 32;
/// Number of cells in the tile grid: WIDTH times HEIGHT.
pub const GRID_CELLS: usize = 1024;

/// Width of the pixel framebuffer: one 8-pixel tile per grid column.
pub const FB_WIDTH: usize = 256;
/// Height of the pixel framebuffer: one 8-pixel tile per grid row.
pub const FB_HEIGHT: usize = 256;
/// Number of pixels in the framebuffer.
pub const FB_PIXELS: usize = 65536;

/// A colour packed as 0x00RRGGBB.
pub open spec fn spec_rgb(r: u8, g: u8, b: u8) -> u32 {
    (r as u32 * 0x10000 + g as u32 * 0x100 + b as u32) as u32
}

/// Packs a red, green and blue channel into a single 0x00RRGGBB word.
pub fn rgb(r: u8, g: u8, b: u8) -> (c: u32)
    ensures
        c == spec_rgb(r, g, b),
{
    let r32: u32 = r as u32;
    let g32: u32 = g as u32;
    let b32: u32 = b as u32;
    proof {
        assert(r32 << 16 | g32 << 8 | b32 == r32 * 0x10000 + g32 * 0x100 + b32)
            by (bit_vector)
            requires
                r32 < 0x100,
                g32 < 0x100,
                b32 < 0x100,
        ;
    }
    r32 << 16 | g32 << 8 | b32
}

/// One cell of the scene: a tile index into the atlas plus the foreground
/// and background colours that recolour the tile's mask when blitted.
#[derive(Copy, Clone, Debug, PartialEq, Eq, Structural)]
pub struct ColouredTile {
    pub index: u8,
    pub fg: u32,
    pub bg: u32,
}

} // verus!
