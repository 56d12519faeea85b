//! The frame compositor: walks every scene cell in row-major order and
//! blits its tile into the pixel framebuffer. Rendering is a pure
//! function of the scene and the atlas.

use vstd::prelude::*;

use crate::scene::TileBuffer;
use crate::tileset::in_cell_rect;
use crate::tileset::mask_colour;
use crate::tileset::show_tile;
use crate::tileset::Tileset;
use crate::ColouredTile;
use crate::FB_HEIGHT;
use crate::FB_PIXELS;
use crate::FB_WIDTH;
use crate::HEIGHT;
use crate::WIDTH;

verus! {

/// The colour that compositing writes at framebuffer pixel `(px, py)`:
/// the pixel belongs to the cell at `(px / 8, py / 8)`, whose tile mask
/// selects between the cell's foreground and background colour at local
/// offset `(px % 8, py % 8)`.
pub open spec fn rendered_pixel(
    cells: Seq<ColouredTile>,
    atlas: Seq<Seq<bool>>,
    px: int,
    py: int,
) -> u32 {
    let cell = cells[px / 8 + (py / 8) * (WIDTH as int)];
    mask_colour(atlas[cell.index as int], cell.fg, cell.bg, px % 8, py % 8)
}

/// Renders the scene through the atlas into a fresh framebuffer. Every
/// pixel is pinned by `rendered_pixel`, so rendering is fully
/// deterministic in the scene and atlas.
pub fn render(scene: &TileBuffer, atlas: &Tileset) -> (fb: Vec<u32>)
    requires
        scene.wf(),
        atlas.wf(),
    ensures
        fb@.len() == FB_PIXELS,
        forall|px: int, py: int|
            0 <= px < FB_WIDTH && 0 <= py < FB_HEIGHT ==> fb@[px + py * (FB_WIDTH as int)]
                == #[trigger] rendered_pixel(scene@, atlas@, px, py),
{
    let mut fb: Vec<u32> = Vec::new();
    let mut i: usize = 0;
    while i < FB_PIXELS
        invariant
            i <= FB_PIXELS,
            fb@.len() == i,
        decreases FB_PIXELS - i,
    {
        fb.push(0);
        i = i + 1;
    }
    let mut y: usize = 0;
    while y < HEIGHT
        invariant
            scene.wf(),
            atlas.wf(),
            y <= HEIGHT,
            fb@.len() == FB_PIXELS,
            forall|px: int, py: int|
                0 <= px < FB_WIDTH && 0 <= py < FB_HEIGHT && py / 8 < y ==> fb@[px + py * (
                FB_WIDTH as int)] == #[trigger] rendered_pixel(scene@, atlas@, px, py),
        decreases HEIGHT - y,
    {
        let mut x: usize = 0;
        while x < WIDTH
            invariant
                scene.wf(),
                atlas.wf(),
                y < HEIGHT,
                x <= WIDTH,
                fb@.len() == FB_PIXELS,
                forall|px: int, py: int|
                    0 <= px < FB_WIDTH && 0 <= py < FB_HEIGHT && (py / 8 < y || (py / 8 == y && px
                        / 8 < x)) ==> fb@[px + py * (FB_WIDTH as int)] == #[trigger] rendered_pixel(
                        scene@,
                        atlas@,
                        px,
                        py,
                    ),
            decreases WIDTH - x,
        {
            let cell: ColouredTile = scene.get(x, y);
            let ghost fb_pre = fb@;
            let tile = &atlas.tiles[cell.index as usize];
            proof {
                assert(tile@ == atlas@[cell.index as int]);
            }
            show_tile(&mut fb, x, y, tile, cell.fg, cell.bg);
            proof {
                assert forall|px: int, py: int|
                    0 <= px < FB_WIDTH && 0 <= py < FB_HEIGHT && (py / 8 < y || (py / 8 == y && px
                        / 8 < x + 1)) implies fb@[px + py * (FB_WIDTH as int)]
                    == #[trigger] rendered_pixel(scene@, atlas@, px, py) by {
                    let i0 = px + py * 256;
                    vstd::arithmetic::div_mod::lemma_fundamental_div_mod_converse(
                        i0,
                        256,
                        py,
                        px,
                    );
                    assert(i0 % 256 == px && i0 / 256 == py);
                    if py / 8 == y && px / 8 == x {
                        let tx = px % 8;
                        let ty = py % 8;
                        vstd::arithmetic::div_mod::lemma_fundamental_div_mod(px, 8);
                        vstd::arithmetic::div_mod::lemma_fundamental_div_mod(py, 8);
                        assert(px == x * 8 + tx && py == y * 8 + ty);
                        assert(fb@[x * 8 + tx + (y * 8 + ty) * (FB_WIDTH as int)] == mask_colour(
                            tile@,
                            cell.fg,
                            cell.bg,
                            tx,
                            ty,
                        ));
                        assert(scene@[px / 8 + (py / 8) * (WIDTH as int)] == cell);
                    } else {
                        assert(!in_cell_rect(x as int, y as int, i0));
                        assert(fb@[i0] == fb_pre[i0]);
                    }
                }
            }
            x = x + 1;
        }
        y = y + 1;
    }
    fb
}

/// Law: compositing is deterministic. Any two framebuffers whose pixels
/// satisfy `rendered_pixel` for the same scene and atlas are identical.
pub proof fn lemma_render_deterministic(
    cells: Seq<ColouredTile>,
    atlas: Seq<Seq<bool>>,
    fb1: Seq<u32>,
    fb2: Seq<u32>,
)
    requires
        fb1.len() == FB_PIXELS,
        fb2.len() == FB_PIXELS,
        forall|px: int, py: int|
            0 <= px < FB_WIDTH && 0 <= py < FB_HEIGHT ==> fb1[px + py * (FB_WIDTH as int)]
                == #[trigger] rendered_pixel(cells, atlas, px, py),
        forall|px: int, py: int|
            0 <= px < FB_WIDTH && 0 <= py < FB_HEIGHT ==> fb2[px + py * (FB_WIDTH as int)]
                == #[trigger] rendered_pixel(cells, atlas, px, py),
    ensures
        fb1 == fb2,
{
    assert forall|i: int| 0 <= i < FB_PIXELS implies fb1[i] == fb2[i] by {
        let px = i % 256;
        let py = i / 256;
        vstd::arithmetic::div_mod::lemma_fundamental_div_mod(i, 256);
        assert(i == px + py * 256);
        assert(fb1[px + py * (FB_WIDTH as int)] == rendered_pixel(cells, atlas, px, py));
        assert(fb2[px + py * (FB_WIDTH as int)] == rendered_pixel(cells, atlas, px, py));
    }
    assert(fb1 =~= fb2);
}

} // verus!
