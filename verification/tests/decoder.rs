//! Tests for the packed-sheet decoder and the offline pack conversion.

use minidemo::tileset::{gen_tileset, pack_pixels, tile_pixel, RAW_TILE_BYTES};

/// A raw sheet whose first tile is a checkerboard: even sheet rows hold
/// 0xAA (10101010), odd rows hold 0x55 (01010101) in their first byte.
fn checkerboard_raw() -> Vec<u8> {
    let mut raw = vec![0u8; RAW_TILE_BYTES];
    for y in 0..8 {
        raw[y * 16] = if y % 2 == 0 { 0xAA } else { 0x55 };
    }
    raw
}

#[test]
fn decodes_checkerboard_tile() {
    let raw = checkerboard_raw();
    let ts = gen_tileset(&raw).unwrap();
    let tile = &ts.tiles[0];
    for y in 0..8 {
        for x in 0..8 {
            // A set bit is MSB-first, and a set bit means foreground.
            let expected = (x + y) % 2 == 0;
            assert_eq!(tile.pixels[x + y * 8], expected, "pixel ({}, {})", x, y);
        }
    }
    // Every other tile of this sheet is fully background.
    for t in 1..256 {
        for p in 0..64 {
            assert!(!ts.tiles[t].pixels[p]);
        }
    }
}

#[test]
fn tile_pixel_reads_msb_first() {
    let mut raw = vec![0u8; RAW_TILE_BYTES];
    raw[0] = 0x80;
    assert!(tile_pixel(&raw, 0, 0));
    for x in 1..8 {
        assert!(!tile_pixel(&raw, x, 0));
    }
    raw[0] = 0x01;
    assert!(!tile_pixel(&raw, 0, 0));
    assert!(tile_pixel(&raw, 7, 0));
}

#[test]
fn rejects_wrong_length() {
    assert!(gen_tileset(&vec![0u8; RAW_TILE_BYTES - 1]).is_none());
    assert!(gen_tileset(&vec![0u8; RAW_TILE_BYTES + 1]).is_none());
    assert!(gen_tileset(&Vec::new()).is_none());
    assert!(gen_tileset(&vec![0u8; RAW_TILE_BYTES]).is_some());
}

#[test]
fn pack_packs_eight_pixels_per_byte() {
    // Threshold is strict: 127 is background, 128 is foreground.
    let luma = vec![200u8, 0, 255, 127, 128, 1, 99, 254];
    let packed = pack_pixels(&luma);
    assert_eq!(packed.len(), 1);
    assert_eq!(packed[0], 0b1010_1001);
}

#[test]
fn pack_discards_trailing_pixels() {
    let luma = vec![255u8; 19];
    let packed = pack_pixels(&luma);
    assert_eq!(packed.len(), 2);
    assert_eq!(packed, vec![0xFF, 0xFF]);
    assert_eq!(pack_pixels(&vec![255u8; 7]).len(), 0);
}

#[test]
fn round_trips_synthetic_sheet() {
    // A synthetic 128x128 grayscale image with structure at several scales.
    let mut luma = vec![0u8; 128 * 128];
    for y in 0..128 {
        for x in 0..128 {
            luma[x + y * 128] = ((x * 37 + y * 101 + (x / 8) * 3) % 256) as u8;
        }
    }
    let packed = pack_pixels(&luma);
    assert_eq!(packed.len(), RAW_TILE_BYTES);
    let ts = gen_tileset(&packed).unwrap();
    for y in 0..128 {
        for x in 0..128 {
            let tile = &ts.tiles[x / 8 + (y / 8) * 16];
            let bit = tile.pixels[x % 8 + (y % 8) * 8];
            assert_eq!(bit, luma[x + y * 128] > 127, "pixel ({}, {})", x, y);
        }
    }
}
