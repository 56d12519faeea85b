//! The tile atlas: a packed 1-bit-per-pixel sheet decoded into boolean
//! tile masks, and the blitter that paints one mask into the framebuffer.
//!
//! Bit polarity convention: a set bit in the packed sheet means the pixel
//! is lit, and a lit pixel is painted with the foreground colour.

use vstd::prelude::*;

use crate::FB_PIXELS;
use crate::FB_WIDTH;
use crate::HEIGHT;
use crate::WIDTH;

verus! {

/// Width of one tile, in pixels.
pub const TILE_WIDTH: usize = 8;
/// Height of one tile, in pixels.
pub const TILE_HEIGHT: usize = 8;
/// Number of pixels in one tile mask: TILE_WIDTH times TILE_HEIGHT.
pub const TILE_PIXELS: usize = 64;

/// Width of the atlas sheet, in tiles.
pub const TILESET_WIDTH: usize = 16;
/// Height of the atlas sheet, in tiles.
pub const TILESET_HEIGHT: usize = 16;
/// Number of tiles in the atlas: TILESET_WIDTH times TILESET_HEIGHT.
pub const TILE_COUNT: usize = 256;

/// Width of the full decoded sheet, in pixels: TILESET_WIDTH tiles of TILE_WIDTH.
pub const SHEET_WIDTH: usize = 128;
/// Height of the full decoded sheet, in pixels: TILESET_HEIGHT tiles of TILE_HEIGHT.
pub const SHEET_HEIGHT: usize = 128;

/// Source pixels packed into each byte of the raw sheet.
pub const PIXELS_PER_BYTE: usize = 8;
/// Exact byte length of a raw packed sheet: the sheet pixels, eight per byte.
pub const RAW_TILE_BYTES: usize = 2048;

/// Bit `s` of byte `b`, counting from the most significant bit
/// (`s == 0` selects the MSB).
pub open spec fn byte_bit(b: u8, s: int) -> bool {
    (b >> ((7 - s) as u8)) & 1 == 1
}

/// The bit of the packed sheet `raw` at global pixel coordinate `(x, y)`:
/// each sheet row is `SHEET_WIDTH / 8` consecutive bytes, pixels packed
/// MSB-first within a byte.
pub open spec fn sheet_bit(raw: Seq<u8>, x: int, y: int) -> bool {
    byte_bit(raw[x / 8 + y * (TILESET_WIDTH as int)], x % 8)
}

/// An immutable 8x8 boolean pixel mask.
#[derive(Debug)]
pub struct Tile {
    pub pixels: Vec<bool>,
}

impl View for Tile {
    type V = Seq<bool>;

    open spec fn view(&self) -> Seq<bool> {
        self.pixels@
    }
}

impl Tile {
    /// A tile holds exactly one mask bit per pixel.
    pub open spec fn wf(&self) -> bool {
        self@.len() == TILE_PIXELS
    }

    /// The mask bit at local pixel `(x, y)`.
    pub fn get(&self, x: usize, y: usize) -> (b: bool)
        requires
            self.wf(),
            x < TILE_WIDTH,
            y < TILE_HEIGHT,
        ensures
            b == self@[x + y * TILE_WIDTH],
    {
        self.pixels[x + y * TILE_WIDTH]
    }
}

/// A fixed, ordered collection of tiles decoded once at startup.
#[derive(Debug)]
pub struct Tileset {
    pub tiles: Vec<Tile>,
}

impl View for Tileset {
    type V = Seq<Seq<bool>>;

    open spec fn view(&self) -> Seq<Seq<bool>> {
        self.tiles@.map_values(|t: Tile| t@)
    }
}

impl Tileset {
    /// The atlas holds exactly `TILE_COUNT` tiles of identical dimensions.
    pub open spec fn wf(&self) -> bool {
        &&& self@.len() == TILE_COUNT
        &&& forall|t: int| 0 <= t < TILE_COUNT ==> (#[trigger] self@[t]).len() == TILE_PIXELS
    }
}

/// The mask bit that a decoded atlas holds for global sheet pixel `(x, y)`:
/// the pixel lands in tile `(x / 8, y / 8)` at local offset `(x % 8, y % 8)`.
pub open spec fn decoded_pixel(ts: Tileset, x: int, y: int) -> bool {
    ts@[x / 8 + (y / 8) * (TILESET_WIDTH as int)][x % 8 + (y % 8) * (TILE_WIDTH as int)]
}

/// Reads one pixel of the packed sheet: pixel `(x, y)` lives in the byte at
/// `x / 8 + y * TILESET_WIDTH`, MSB-first within the byte.
pub fn tile_pixel(raw: &Vec<u8>, x: usize, y: usize) -> (b: bool)
    requires
        raw@.len() == RAW_TILE_BYTES,
        x < SHEET_WIDTH,
        y < SHEET_HEIGHT,
    ensures
        b == sheet_bit(raw@, x as int, y as int),
{
    let xlow: u8 = (x & 0x07) as u8;
    let xhigh: usize = x >> 3;
    proof {
        assert(x >> 3 == x as int / 8 && (x & 0x07) == x as int % 8 && x & 0x07 < 8)
            by (bit_vector);
    }
    let byte: u8 = raw[xhigh + y * TILESET_WIDTH];
    proof {
        assert((((byte << xlow) & 0x80) != 0) == ((byte >> ((7 - xlow) as u8)) & 1 == 1))
            by (bit_vector)
            requires
                xlow < 8,
        ;
    }
    ((byte << xlow) & 0x80) != 0
}

/// Decodes a packed 1-bit sheet into the tile atlas. Returns `None` exactly
/// when the buffer length does not match the fixed sheet dimensions - a
/// startup configuration error, not a recoverable runtime state.
pub fn gen_tileset(raw: &Vec<u8>) -> (r: Option<Tileset>)
    ensures
        r is Some <==> raw@.len() == RAW_TILE_BYTES,
        r is Some ==> r->Some_0.wf(),
        r is Some ==> forall|x: int, y: int|
            0 <= x < SHEET_WIDTH && 0 <= y < SHEET_HEIGHT
                ==> #[trigger] decoded_pixel(r->Some_0, x, y) == sheet_bit(raw@, x, y),
{
    if raw.len() != RAW_TILE_BYTES {
        return None;
    }
    let mut tiles: Vec<Tile> = Vec::new();
    let mut ty: usize = 0;
    while ty < TILESET_HEIGHT
        invariant
            raw@.len() == RAW_TILE_BYTES,
            ty <= TILESET_HEIGHT,
            tiles@.len() == ty * TILESET_WIDTH,
            forall|t: int| 0 <= t < tiles@.len() ==> (#[trigger] tiles@[t]).wf(),
            forall|t: int, p: int|
                0 <= t < tiles@.len() && 0 <= p < TILE_PIXELS
                    ==> #[trigger] tiles@[t]@[p] == sheet_bit(
                        raw@,
                        (t % 16) * 8 + p % 8,
                        (t / 16) * 8 + p / 8,
                    ),
        decreases TILESET_HEIGHT - ty,
    {
        let mut tx: usize = 0;
        while tx < TILESET_WIDTH
            invariant
                raw@.len() == RAW_TILE_BYTES,
                ty < TILESET_HEIGHT,
                tx <= TILESET_WIDTH,
                tiles@.len() == ty * TILESET_WIDTH + tx,
                forall|t: int| 0 <= t < tiles@.len() ==> (#[trigger] tiles@[t]).wf(),
                forall|t: int, p: int|
                    0 <= t < tiles@.len() && 0 <= p < TILE_PIXELS
                        ==> #[trigger] tiles@[t]@[p] == sheet_bit(
                            raw@,
                            (t % 16) * 8 + p % 8,
                            (t / 16) * 8 + p / 8,
                        ),
            decreases TILESET_WIDTH - tx,
        {
            let mut pixels: Vec<bool> = Vec::new();
            let mut py: usize = 0;
            while py < TILE_HEIGHT
                invariant
                    raw@.len() == RAW_TILE_BYTES,
                    ty < TILESET_HEIGHT,
                    tx < TILESET_WIDTH,
                    py <= TILE_HEIGHT,
                    pixels@.len() == py * TILE_WIDTH,
                    forall|p: int|
                        0 <= p < pixels@.len()
                            ==> #[trigger] pixels@[p] == sheet_bit(
                                raw@,
                                tx * 8 + p % 8,
                                ty * 8 + p / 8,
                            ),
                decreases TILE_HEIGHT - py,
            {
                let mut px: usize = 0;
                while px < TILE_WIDTH
                    invariant
                        raw@.len() == RAW_TILE_BYTES,
                        ty < TILESET_HEIGHT,
                        tx < TILESET_WIDTH,
                        py < TILE_HEIGHT,
                        px <= TILE_WIDTH,
                        pixels@.len() == py * TILE_WIDTH + px,
                        forall|p: int|
                            0 <= p < pixels@.len()
                                ==> #[trigger] pixels@[p] == sheet_bit(
                                    raw@,
                                    tx * 8 + p % 8,
                                    ty * 8 + p / 8,
                                ),
                    decreases TILE_WIDTH - px,
                {
                    let gx: usize = tx * TILE_WIDTH + px;
                    let gy: usize = ty * TILE_HEIGHT + py;
                    let b: bool = tile_pixel(raw, gx, gy);
                    pixels.push(b);
                    px = px + 1;
                }
                py = py + 1;
            }
            tiles.push(Tile { pixels });
            tx = tx + 1;
        }
        ty = ty + 1;
    }
    let ts = Tileset { tiles };
    proof {
        assert forall|x: int, y: int|
            0 <= x < SHEET_WIDTH && 0 <= y < SHEET_HEIGHT
                implies #[trigger] decoded_pixel(ts, x, y) == sheet_bit(raw@, x, y) by {
            let t = x / 8 + (y / 8) * 16;
            let p = x % 8 + (y % 8) * 8;
            assert(0 <= t < 256 && 0 <= p < 64);
            assert(t % 16 == x / 8 && t / 16 == y / 8 && p % 8 == x % 8 && p / 8 == y % 8);
            assert((t % 16) * 8 + p % 8 == x && (t / 16) * 8 + p / 8 == y);
        }
    }
    Some(ts)
}

/// Whether a grayscale source pixel is lit under the offline conversion's
/// threshold: strictly brighter than 127 becomes a set bit.
pub open spec fn luma_bit(l: u8) -> bool {
    l > 127
}

/// Byte `k` of the packed form of a grayscale image: the thresholded bits
/// of pixels `8k .. 8k + 8`, MSB-first.
pub open spec fn packed_byte(luma: Seq<u8>, k: int) -> u8 {
    ((if luma_bit(luma[8 * k]) { 128int } else { 0int })
        + (if luma_bit(luma[8 * k + 1]) { 64int } else { 0int })
        + (if luma_bit(luma[8 * k + 2]) { 32int } else { 0int })
        + (if luma_bit(luma[8 * k + 3]) { 16int } else { 0int })
        + (if luma_bit(luma[8 * k + 4]) { 8int } else { 0int })
        + (if luma_bit(luma[8 * k + 5]) { 4int } else { 0int })
        + (if luma_bit(luma[8 * k + 6]) { 2int } else { 0int })
        + (if luma_bit(luma[8 * k + 7]) { 1int } else { 0int })) as u8
}

/// The offline conversion: thresholds a grayscale image to one bit per
/// pixel and packs eight pixels into each byte, MSB-first. Any trailing
/// pixels that do not fill a final byte are discarded.
pub fn pack_pixels(luma: &Vec<u8>) -> (out: Vec<u8>)
    ensures
        out@.len() == luma@.len() / 8,
        forall|k: int| 0 <= k < out@.len() ==> out@[k] == #[trigger] packed_byte(luma@, k),
{
    let len: usize = luma.len();
    let n: usize = len / 8;
    let mut out: Vec<u8> = Vec::new();
    let mut k: usize = 0;
    while k < n
        invariant
            len == luma@.len(),
            n == luma@.len() / 8,
            k <= n,
            out@.len() == k,
            forall|j: int| 0 <= j < k ==> out@[j] == #[trigger] packed_byte(luma@, j),
        decreases n - k,
    {
        proof {
            assert(8 * k + 8 <= luma@.len()) by {
                vstd::arithmetic::div_mod::lemma_fundamental_div_mod(luma@.len() as int, 8);
            }
        }
        let base: usize = 8 * k;
        let byte: u8 = (if luma[base] > 127 { 128 } else { 0 })
            + (if luma[base + 1] > 127 { 64 } else { 0 })
            + (if luma[base + 2] > 127 { 32 } else { 0 })
            + (if luma[base + 3] > 127 { 16 } else { 0 })
            + (if luma[base + 4] > 127 { 8 } else { 0 })
            + (if luma[base + 5] > 127 { 4 } else { 0 })
            + (if luma[base + 6] > 127 { 2 } else { 0 })
            + (if luma[base + 7] > 127 { 1 } else { 0 });
        out.push(byte);
        k = k + 1;
    }
    out
}

/// Law: the offline conversion and the atlas decoder are inverse on a full
/// sheet. A 128x128 grayscale image packed by `pack_pixels` and read back
/// through `sheet_bit` reproduces the thresholded bit of every pixel.
pub proof fn lemma_pack_round_trip(luma: Seq<u8>, packed: Seq<u8>, x: int, y: int)
    requires
        luma.len() == SHEET_WIDTH * SHEET_HEIGHT,
        packed.len() == luma.len() / 8,
        forall|k: int| 0 <= k < packed.len() ==> packed[k] == #[trigger] packed_byte(luma, k),
        0 <= x < SHEET_WIDTH,
        0 <= y < SHEET_HEIGHT,
    ensures
        sheet_bit(packed, x, y) == luma_bit(luma[y * (SHEET_WIDTH as int) + x]),
{
    let k = x / 8 + y * 16;
    assert(0 <= k < 2048);
    assert(luma.len() == 16384 && packed.len() == 2048);
    let b = packed[k];
    assert(b == packed_byte(luma, k));
    let s = x % 8;
    assert(8 * k + s == y * 128 + x) by {
        assert(8 * (x / 8) + x % 8 == x) by {
            vstd::arithmetic::div_mod::lemma_fundamental_div_mod(x, 8);
        }
    }
    let a0: u8 = if luma_bit(luma[8 * k]) { 1 } else { 0 };
    let a1: u8 = if luma_bit(luma[8 * k + 1]) { 1 } else { 0 };
    let a2: u8 = if luma_bit(luma[8 * k + 2]) { 1 } else { 0 };
    let a3: u8 = if luma_bit(luma[8 * k + 3]) { 1 } else { 0 };
    let a4: u8 = if luma_bit(luma[8 * k + 4]) { 1 } else { 0 };
    let a5: u8 = if luma_bit(luma[8 * k + 5]) { 1 } else { 0 };
    let a6: u8 = if luma_bit(luma[8 * k + 6]) { 1 } else { 0 };
    let a7: u8 = if luma_bit(luma[8 * k + 7]) { 1 } else { 0 };
    let su8 = s as u8;
    assert(((b >> ((7 - su8) as u8)) & 1 == 1) == (if su8 == 0 {
        a0 == 1
    } else if su8 == 1 {
        a1 == 1
    } else if su8 == 2 {
        a2 == 1
    } else if su8 == 3 {
        a3 == 1
    } else if su8 == 4 {
        a4 == 1
    } else if su8 == 5 {
        a5 == 1
    } else {
        if su8 == 6 {
            a6 == 1
        } else {
            a7 == 1
        }
    })) by (bit_vector)
        requires
            su8 < 8,
            a0 <= 1,
            a1 <= 1,
            a2 <= 1,
            a3 <= 1,
            a4 <= 1,
            a5 <= 1,
            a6 <= 1,
            a7 <= 1,
            b == a0 * 128 + a1 * 64 + a2 * 32 + a3 * 16 + a4 * 8 + a5 * 4 + a6 * 2 + a7,
    ;
}

/// The colour a blit writes for local tile pixel `(tx, ty)`: the
/// foreground where the mask bit is set, the background elsewhere.
pub open spec fn mask_colour(mask: Seq<bool>, fg: u32, bg: u32, tx: int, ty: int) -> u32 {
    if mask[tx + ty * (TILE_WIDTH as int)] {
        fg
    } else {
        bg
    }
}

/// Whether framebuffer index `i` lies inside the 8x8 pixel rectangle of
/// grid cell `(x, y)`.
pub open spec fn in_cell_rect(x: int, y: int, i: int) -> bool {
    &&& x * 8 <= i % (FB_WIDTH as int) < x * 8 + 8
    &&& y * 8 <= i / (FB_WIDTH as int) < y * 8 + 8
}

/// Blits one tile mask into the framebuffer at the pixel rectangle of grid
/// cell `(x, y)`, painting `fg` where the mask bit is set and `bg`
/// elsewhere. Every pixel outside that rectangle is left unchanged.
pub fn show_tile(buffer: &mut Vec<u32>, x: usize, y: usize, tile: &Tile, fg: u32, bg: u32)
    requires
        old(buffer)@.len() == FB_PIXELS,
        x < WIDTH,
        y < HEIGHT,
        tile.wf(),
    ensures
        final(buffer)@.len() == FB_PIXELS,
        forall|tx: int, ty: int|
            0 <= tx < TILE_WIDTH && 0 <= ty < TILE_HEIGHT
                ==> final(buffer)@[x * 8 + tx + (y * 8 + ty) * (FB_WIDTH as int)]
                    == #[trigger] mask_colour(tile@, fg, bg, tx, ty),
        forall|i: int|
            0 <= i < FB_PIXELS && !in_cell_rect(x as int, y as int, i)
                ==> final(buffer)@[i] == old(buffer)@[i],
{
    let px: usize = x * TILE_WIDTH;
    let py: usize = y * TILE_HEIGHT;
    let mut ty: usize = 0;
    while ty < TILE_HEIGHT
        invariant
            buffer@.len() == FB_PIXELS,
            x < WIDTH,
            y < HEIGHT,
            px == x * TILE_WIDTH,
            py == y * TILE_HEIGHT,
            tile.wf(),
            ty <= TILE_HEIGHT,
            forall|tx0: int, ty0: int|
                0 <= tx0 < TILE_WIDTH && 0 <= ty0 < ty
                    ==> buffer@[px + tx0 + (py + ty0) * (FB_WIDTH as int)]
                        == #[trigger] mask_colour(tile@, fg, bg, tx0, ty0),
            forall|i: int|
                0 <= i < FB_PIXELS && !in_cell_rect(x as int, y as int, i)
                    ==> buffer@[i] == old(buffer)@[i],
        decreases TILE_HEIGHT - ty,
    {
        let mut tx: usize = 0;
        while tx < TILE_WIDTH
            invariant
                buffer@.len() == FB_PIXELS,
                x < WIDTH,
                y < HEIGHT,
                px == x * TILE_WIDTH,
                py == y * TILE_HEIGHT,
                tile.wf(),
                ty < TILE_HEIGHT,
                tx <= TILE_WIDTH,
                forall|tx0: int, ty0: int|
                    0 <= tx0 < TILE_WIDTH && 0 <= ty0 < ty
                        ==> buffer@[px + tx0 + (py + ty0) * (FB_WIDTH as int)]
                            == #[trigger] mask_colour(tile@, fg, bg, tx0, ty0),
                forall|tx0: int|
                    0 <= tx0 < tx
                        ==> buffer@[px + tx0 + (py + ty) * (FB_WIDTH as int)]
                            == #[trigger] mask_colour(tile@, fg, bg, tx0, ty as int),
                forall|i: int|
                    0 <= i < FB_PIXELS && !in_cell_rect(x as int, y as int, i)
                        ==> buffer@[i] == old(buffer)@[i],
            decreases TILE_WIDTH - tx,
        {
            let c: u32 = if tile.get(tx, ty) {
                fg
            } else {
                bg
            };
            let i: usize = px + tx + (py + ty) * FB_WIDTH;
            proof {
                assert(px + tx == i % 256 && py + ty == i / 256) by {
                    assert(i == (py + ty) * 256 + (px + tx));
                    assert(px + tx < 256);
                    vstd::arithmetic::div_mod::lemma_fundamental_div_mod_converse(
                        i as int,
                        256,
                        (py + ty) as int,
                        (px + tx) as int,
                    );
                }
                assert(in_cell_rect(x as int, y as int, i as int));
            }
            buffer.set(i, c);
            tx = tx + 1;
        }
        ty = ty + 1;
    }
}

} // verus!
