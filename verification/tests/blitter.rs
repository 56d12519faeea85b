//! Tests for the tile blitter and the packed-colour helper.

use minidemo::rgb;
use minidemo::tileset::{show_tile, Tile};

#[test]
fn rgb_packs_channels() {
    assert_eq!(rgb(0, 0, 0), 0x0000_0000);
    assert_eq!(rgb(255, 255, 255), 0x00FF_FFFF);
    assert_eq!(rgb(255, 0, 0), 0x00FF_0000);
    assert_eq!(rgb(0, 255, 0), 0x0000_FF00);
    assert_eq!(rgb(0, 0, 255), 0x0000_00FF);
    assert_eq!(rgb(0x12, 0x34, 0x56), 0x0012_3456);
}

#[test]
fn blit_writes_only_the_target_rectangle() {
    // A diagonal mask: bit set exactly where tx == ty.
    let mut pixels = vec![false; 64];
    for d in 0..8 {
        pixels[d + d * 8] = true;
    }
    let tile = Tile { pixels };
    let fg = rgb(10, 20, 30);
    let bg = rgb(1, 2, 3);
    let sentinel = 0u32;
    let mut fb = vec![sentinel; 65536];
    show_tile(&mut fb, 2, 3, &tile, fg, bg);
    for py in 0..256 {
        for px in 0..256 {
            let v = fb[px + py * 256];
            let inside = (16..24).contains(&px) && (24..32).contains(&py);
            if inside {
                let expected = if px - 16 == py - 24 { fg } else { bg };
                assert_eq!(v, expected, "pixel ({}, {})", px, py);
            } else {
                assert_eq!(v, sentinel, "pixel ({}, {}) was touched", px, py);
            }
        }
    }
}

#[test]
fn blit_overwrites_previous_contents() {
    let tile = Tile { pixels: vec![true; 64] };
    let mut fb = vec![0xDEAD_BEEFu32; 65536];
    show_tile(&mut fb, 0, 0, &tile, 7, 9);
    for ty in 0..8 {
        for tx in 0..8 {
            assert_eq!(fb[tx + ty * 256], 7);
        }
    }
    assert_eq!(fb[8], 0xDEAD_BEEF);
}
