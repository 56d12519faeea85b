//! Tests for the animation effects and the sequencer.

use minidemo::effects::{Fire, Flower, Sequencer, FIRE_GREEN, FIRE_TILE};
use minidemo::rgb;
use minidemo::scene::TileBuffer;
use minidemo::{ColouredTile, HEIGHT, WIDTH};

fn default_cell() -> ColouredTile {
    ColouredTile { index: 32, fg: rgb(255, 255, 255), bg: rgb(0, 0, 0) }
}

fn snapshot(buffer: &TileBuffer) -> Vec<ColouredTile> {
    let mut cells = Vec::new();
    for y in 0..HEIGHT {
        for x in 0..WIDTH {
            cells.push(buffer.get(x, y));
        }
    }
    cells
}

#[test]
fn static_layout_runs_once() {
    let mut flower = Flower::new();
    let mut buffer = TileBuffer::new(default_cell());
    flower.step(&mut buffer, 0);
    let first = snapshot(&buffer);
    flower.step(&mut buffer, 1);
    let second = snapshot(&buffer);
    assert_eq!(first, second);
    // Even a tampered scene stays untouched once the layout has run.
    buffer.set(5, 5, ColouredTile { index: 7, fg: 1, bg: 2 });
    flower.step(&mut buffer, 2);
    assert_eq!(buffer.get(5, 5), ColouredTile { index: 7, fg: 1, bg: 2 });
}

#[test]
fn static_layout_quadrants() {
    let mut sequencer = Sequencer::new();
    let mut buffer = TileBuffer::new(default_cell());
    sequencer.step(&mut buffer, 0);
    assert_eq!(buffer.get(0, 0).index, 2);
    assert_eq!(buffer.get(15, 15).index, 2);
    assert_eq!(buffer.get(16, 0).index, 3);
    assert_eq!(buffer.get(31, 15).index, 3);
    assert_eq!(buffer.get(0, 16).index, 18);
    assert_eq!(buffer.get(15, 31).index, 18);
    assert_eq!(buffer.get(16, 16).index, 19);
    assert_eq!(buffer.get(31, 31).index, 19);
}

#[test]
fn static_layout_checkerboard() {
    let mut sequencer = Sequencer::new();
    let mut buffer = TileBuffer::new(default_cell());
    sequencer.step(&mut buffer, 0);
    let white = rgb(255, 255, 255);
    let black = rgb(0, 0, 0);
    for y in 0..WIDTH {
        for x in 0..HEIGHT {
            let swapped = ((x ^ y ^ (x >> 4) ^ (y >> 4)) & 1) != 0;
            let cell = buffer.get(x, y);
            if swapped {
                assert_eq!((cell.fg, cell.bg), (black, white), "cell ({}, {})", x, y);
            } else {
                assert_eq!((cell.fg, cell.bg), (white, black), "cell ({}, {})", x, y);
            }
            // Cells whose parity differs are in opposite swap state.
            if x + 1 < WIDTH {
                let right = buffer.get(x + 1, y);
                let right_swapped =
                    (((x + 1) ^ y ^ ((x + 1) >> 4) ^ (y >> 4)) & 1) != 0;
                if swapped != right_swapped {
                    assert_eq!(cell.fg, right.bg);
                    assert_eq!(cell.bg, right.fg);
                }
            }
        }
    }
}

#[test]
fn heat_advance_uses_given_bottom_row() {
    // Deterministic prior heat: a gradient across the whole grid.
    let mut heat: Vec<u8> = (0..1024u32).map(|i| (i % 251) as u8).collect();
    let prior = heat.clone();
    let fresh: Vec<u8> = (0..32u32).map(|x| (x * 8) as u8).collect();
    Fire::advance_heat(&mut heat, &fresh);
    // The bottom row holds exactly the given values.
    for x in 0..32 {
        assert_eq!(heat[992 + x], fresh[x]);
    }
    for y in 0..31 {
        for x in 0..32 {
            let i = x + y * 32;
            if x == 0 || x == 31 {
                // Edge columns never receive propagated heat.
                assert_eq!(heat[i], prior[i], "edge ({}, {})", x, y);
            } else {
                let below = (y + 1) * 32;
                let expected =
                    prior[below + x - 1] / 3 + prior[below + x] / 3 + prior[below + x + 1] / 3;
                assert_eq!(heat[i], expected, "cell ({}, {})", x, y);
            }
        }
    }
}

#[test]
fn heat_step_paints_intensities() {
    let mut sequencer = Sequencer::new_heat();
    let mut buffer = TileBuffer::new(default_cell());
    sequencer.step(&mut buffer, 0);
    sequencer.step(&mut buffer, 1);
    // Rows above the bottom two started cold and stay cold after two
    // ticks; their cells show the zero-intensity colour.
    for y in 0..30 {
        for x in 0..32 {
            let cell = buffer.get(x, y);
            assert_eq!(cell.index, FIRE_TILE);
            assert_eq!(cell.fg, rgb(0, 0, 0));
            assert_eq!(cell.bg, rgb(0, FIRE_GREEN, 0));
        }
    }
    // Every cell, bottom rows included, holds the blank glyph and a
    // colour of the documented shape.
    for y in 0..32 {
        for x in 0..32 {
            let cell = buffer.get(x, y);
            assert_eq!(cell.index, FIRE_TILE);
            assert_eq!(cell.fg, rgb(0, 0, 0));
            let bg = cell.bg;
            assert_eq!(bg & 0x0000_FFFF, (FIRE_GREEN as u32) << 8);
        }
    }
}

#[test]
fn flower_palette_has_ten_entries() {
    let flower = Flower::new();
    assert_eq!(flower.colours.len(), 10);
    assert!(!flower.init);
}
