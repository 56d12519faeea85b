//! Tests for the frame compositor and the texture store.

use minidemo::compositor::render;
use minidemo::rgb;
use minidemo::scene::TileBuffer;
use minidemo::tileset::{gen_tileset, RAW_TILE_BYTES};
use minidemo::util::Texture;
use minidemo::ColouredTile;

/// An atlas whose tile 1 is solid foreground and whose other tiles are
/// solid background.
fn solid_tile_atlas_raw() -> Vec<u8> {
    let mut raw = vec![0u8; RAW_TILE_BYTES];
    // Tile 1 covers sheet columns 8..16 of rows 0..8: byte 1 of each row.
    for y in 0..8 {
        raw[1 + y * 16] = 0xFF;
    }
    raw
}

#[test]
fn renders_deterministically() {
    let raw = solid_tile_atlas_raw();
    let atlas = gen_tileset(&raw).unwrap();
    let mut scene = TileBuffer::new(ColouredTile { index: 0, fg: 1, bg: 2 });
    for i in 0..32 {
        scene.set(i, i, ColouredTile { index: 1, fg: rgb(9, 9, 9), bg: 4 });
    }
    let first = render(&scene, &atlas);
    let second = render(&scene, &atlas);
    assert_eq!(first, second);
}

#[test]
fn renders_cells_with_their_colours() {
    let raw = solid_tile_atlas_raw();
    let atlas = gen_tileset(&raw).unwrap();
    let bg_cell = ColouredTile { index: 0, fg: rgb(1, 1, 1), bg: rgb(2, 2, 2) };
    let fg_cell = ColouredTile { index: 1, fg: rgb(200, 100, 50), bg: rgb(5, 5, 5) };
    let mut scene = TileBuffer::new(bg_cell);
    scene.set(3, 2, fg_cell);
    let fb = render(&scene, &atlas);
    assert_eq!(fb.len(), 65536);
    for py in 0..256 {
        for px in 0..256 {
            let v = fb[px + py * 256];
            let in_cell = (24..32).contains(&px) && (16..24).contains(&py);
            if in_cell {
                // Tile 1 is solid foreground.
                assert_eq!(v, fg_cell.fg, "pixel ({}, {})", px, py);
            } else {
                // Tile 0 is solid background.
                assert_eq!(v, bg_cell.bg, "pixel ({}, {})", px, py);
            }
        }
    }
}

#[test]
fn texture_stores_row_major() {
    let data = vec![10u32, 11, 12, 20, 21, 22];
    let tex = Texture::new(data, 3, 2);
    assert_eq!(tex.width(), 3);
    assert_eq!(tex.height(), 2);
    assert_eq!(*tex.at(0, 0), 10);
    assert_eq!(*tex.at(2, 0), 12);
    assert_eq!(*tex.at(0, 1), 20);
    assert_eq!(*tex.at(2, 1), 22);
}
