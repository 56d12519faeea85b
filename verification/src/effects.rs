//! The animation engine: per-tick mutators of the scene state. The
//! sequencer drives exactly one effect; the variants are a run-once
//! static layout and a continuously driven heat simulation.

use vstd::prelude::*;

use crate::rgb;
use crate::scene::TileBuffer;
use crate::spec_rgb;
use crate::ColouredTile;
use crate::GRID_CELLS;
use crate::HEIGHT;
use crate::WIDTH;

verus! {

/// Relies on rand::random: draws one value from the thread-local random
/// source. Nothing is promised of the result; callers must hold for every
/// outcome.
pub assume_specification<T>[ rand::random::<T> ]() -> (r: T)
    where
        rand::distr::StandardUniform: rand::distr::Distribution<T>,
;

/// Whether the static layout swaps foreground and background at cell
/// `(x, y)`: the checkerboard parity bit of `x`, `y`, `x / 16` and
/// `y / 16` combined, giving an alternating pattern at two spatial
/// frequencies.
pub open spec fn checker_swap(x: int, y: int) -> bool {
    (x % 2 + y % 2 + (x / 16) % 2 + (y / 16) % 2) % 2 == 1
}

/// The tile index the static layout assigns to cell `(x, y)`: one fixed
/// glyph per grid quadrant.
pub open spec fn flower_index(x: int, y: int) -> u8 {
    if x < 16 {
        if y < 16 {
            2
        } else {
            18
        }
    } else {
        if y < 16 {
            3
        } else {
            19
        }
    }
}

/// The cell the static layout writes at `(x, y)`: the quadrant's glyph,
/// white on black, with foreground and background exchanged where the
/// checkerboard parity is odd.
pub open spec fn flower_cell(x: int, y: int) -> ColouredTile {
    ColouredTile {
        index: flower_index(x, y),
        fg: if checker_swap(x, y) {
            spec_rgb(0, 0, 0)
        } else {
            spec_rgb(255, 255, 255)
        },
        bg: if checker_swap(x, y) {
            spec_rgb(255, 255, 255)
        } else {
            spec_rgb(0, 0, 0)
        },
    }
}

/// Law: wherever two cells differ in checkerboard parity, they differ in
/// swap state - one is white-on-black, the other black-on-white.
pub proof fn lemma_checker_contrast(x1: int, y1: int, x2: int, y2: int)
    requires
        checker_swap(x1, y1) != checker_swap(x2, y2),
    ensures
        flower_cell(x1, y1).fg == flower_cell(x2, y2).bg,
        flower_cell(x1, y1).bg == flower_cell(x2, y2).fg,
        flower_cell(x1, y1).fg != flower_cell(x2, y2).fg,
{
}

/// The step relation of the static layout effect: the layout runs exactly
/// once; afterwards the effect and the scene are left untouched.
pub open spec fn static_step_rel(
    pre: Flower,
    post: Flower,
    buf_pre: Seq<ColouredTile>,
    buf_post: Seq<ColouredTile>,
) -> bool {
    &&& post.init
    &&& post.colours == pre.colours
    &&& pre.init ==> post == pre && buf_post == buf_pre
    &&& !pre.init ==> forall|x: int, y: int|
        0 <= x < WIDTH && 0 <= y < HEIGHT ==> buf_post[x + y * (WIDTH as int)]
            == #[trigger] flower_cell(x, y)
}

/// Law: the static layout is idempotent. A second step from the state
/// the first step produced changes neither the effect nor the scene.
pub proof fn lemma_static_idempotent(
    pre: Flower,
    mid: Flower,
    post: Flower,
    b0: Seq<ColouredTile>,
    b1: Seq<ColouredTile>,
    b2: Seq<ColouredTile>,
)
    requires
        static_step_rel(pre, mid, b0, b1),
        static_step_rel(mid, post, b1, b2),
    ensures
        post == mid,
        b2 == b1,
{
}

/// The run-once static layout effect: fixed quadrant glyphs under a
/// checkerboard colour swap, guarded by an internal initialised flag.
pub struct Flower {
    pub colours: Vec<u32>,
    pub init: bool,
}

impl Flower {
    /// The palette holds ten entries for the process lifetime.
    pub open spec fn wf(&self) -> bool {
        self.colours@.len() == 10
    }

    /// Seeds the palette from the random source; the layout has not run
    /// yet.
    pub fn new() -> (f: Flower)
        ensures
            f.wf(),
            !f.init,
    {
        let mut colours: Vec<u32> = Vec::new();
        let mut i: usize = 0;
        while i < 10
            invariant
                i <= 10,
                colours@.len() == i,
            decreases 10 - i,
        {
            let c: u32 = rand::random();
            colours.push(c);
            i = i + 1;
        }
        Flower { colours, init: false }
    }

    /// Writes the layout on the first call and nothing on any later call.
    pub fn step(&mut self, buffer: &mut TileBuffer, _time: u64)
        requires
            old(self).wf(),
            old(buffer).wf(),
        ensures
            final(self).wf(),
            final(buffer).wf(),
            static_step_rel(*old(self), *final(self), old(buffer)@, final(buffer)@),
    {
        if self.init {
            return ;
        }
        let mut y: usize = 0;
        while y < HEIGHT
            invariant
                y <= HEIGHT,
                buffer@.len() == GRID_CELLS,
                forall|xx: int, yy: int|
                    0 <= xx < WIDTH && 0 <= yy < y ==> buffer@[xx + yy * (WIDTH as int)]
                        == #[trigger] flower_cell(xx, yy),
            decreases HEIGHT - y,
        {
            let mut x: usize = 0;
            while x < WIDTH
                invariant
                    y < HEIGHT,
                    x <= WIDTH,
                    buffer@.len() == GRID_CELLS,
                    forall|xx: int, yy: int|
                        0 <= xx < WIDTH && 0 <= yy < y ==> buffer@[xx + yy * (WIDTH as int)]
                            == #[trigger] flower_cell(xx, yy),
                    forall|xx: int|
                        0 <= xx < x ==> buffer@[xx + y * (WIDTH as int)] == #[trigger] flower_cell(
                            xx,
                            y as int,
                        ),
                decreases WIDTH - x,
            {
                let index: u8 = if x < 16 {
                    if y < 16 {
                        2
                    } else {
                        18
                    }
                } else {
                    if y < 16 {
                        3
                    } else {
                        19
                    }
                };
                let white: u32 = rgb(255, 255, 255);
                let black: u32 = rgb(0, 0, 0);
                let parity: usize = (x ^ y ^ (x >> 4) ^ (y >> 4)) & 1;
                proof {
                    assert((((x ^ y ^ (x >> 4) ^ (y >> 4)) & 1) != 0) == ((x as int % 2 + y as int
                        % 2 + (x as int / 16) % 2 + (y as int / 16) % 2) % 2 == 1)) by (bit_vector)
                        requires
                            x < 32usize,
                            y < 32usize,
                    ;
                }
                let cell = if parity != 0 {
                    ColouredTile { index, fg: black, bg: white }
                } else {
                    ColouredTile { index, fg: white, bg: black }
                };
                buffer.set(x, y, cell);
                x = x + 1;
            }
            y = y + 1;
        }
        self.init = true;
    }
}

/// The glyph the heat effect paints with: a blank tile, so only the
/// background colour shows.
pub const FIRE_TILE: u8 = 32;

/// The fixed green channel of every heat colour.
pub const FIRE_GREEN: u8 = 64;

/// The cell the heat effect writes for intensity `h`: the blank glyph,
/// black foreground, background coloured by the intensity.
pub open spec fn fire_cell(h: u8) -> ColouredTile {
    ColouredTile { index: FIRE_TILE, fg: spec_rgb(0, 0, 0), bg: spec_rgb(h, FIRE_GREEN, 0) }
}

/// The intensity one propagation step writes at flat index `i` of a row
/// above the bottom: the three intensities beneath it (left neighbour,
/// same column, right neighbour), each divided by three with truncation,
/// summed. The leftmost and rightmost columns never receive propagated
/// heat and keep their stale value.
pub open spec fn heat_next(heat: Seq<u8>, i: int) -> u8 {
    let x = i % (WIDTH as int);
    let y = i / (WIDTH as int);
    if x == 0 || x == WIDTH - 1 {
        heat[i]
    } else {
        (heat[(y + 1) * (WIDTH as int) + (x - 1)] / 3 + heat[(y + 1) * (WIDTH as int) + x] / 3
            + heat[(y + 1) * (WIDTH as int) + (x + 1)] / 3) as u8
    }
}

/// The step relation of the heat effect: every row above the bottom is
/// recomputed from the previous tick's row beneath it, and every cell of
/// the scene shows the colour of its new intensity. The bottom row comes
/// from the random source, so nothing is stated of its values.
pub open spec fn heat_step_rel(pre: Fire, post: Fire, buf_post: Seq<ColouredTile>) -> bool {
    &&& post.heat@.len() == GRID_CELLS
    &&& forall|i: int|
        0 <= i < GRID_CELLS - WIDTH ==> post.heat@[i] == #[trigger] heat_next(pre.heat@, i)
    &&& forall|i: int| 0 <= i < GRID_CELLS ==> #[trigger] buf_post[i] == fire_cell(post.heat@[i])
}

/// The procedural heat effect: a persistent per-cell intensity buffer,
/// refilled at the bottom with fresh random values each tick and
/// propagated upward.
pub struct Fire {
    pub heat: Vec<u8>,
}

impl Fire {
    /// The intensity buffer holds one value per grid cell.
    pub open spec fn wf(&self) -> bool {
        self.heat@.len() == GRID_CELLS
    }

    /// A cold heat buffer: every intensity zero.
    pub fn new() -> (f: Fire)
        ensures
            f.wf(),
            forall|i: int| 0 <= i < GRID_CELLS ==> f.heat@[i] == 0,
    {
        let mut heat: Vec<u8> = Vec::new();
        let mut i: usize = 0;
        while i < GRID_CELLS
            invariant
                i <= GRID_CELLS,
                heat@.len() == i,
                forall|j: int| 0 <= j < i ==> heat@[j] == 0,
            decreases GRID_CELLS - i,
        {
            heat.push(0);
            i = i + 1;
        }
        Fire { heat }
    }

    /// One tick of the heat simulation, with the fresh bottom-row
    /// intensities passed in: rows above the bottom are recomputed from
    /// the prior values of the row beneath them (edge columns keep their
    /// stale value), then the bottom row is replaced by `fresh`.
    pub fn advance_heat(heat: &mut Vec<u8>, fresh: &Vec<u8>)
        requires
            old(heat)@.len() == GRID_CELLS,
            fresh@.len() == WIDTH,
        ensures
            final(heat)@.len() == GRID_CELLS,
            forall|i: int|
                0 <= i < GRID_CELLS - WIDTH ==> final(heat)@[i] == #[trigger] heat_next(
                    old(heat)@,
                    i,
                ),
            forall|i: int|
                GRID_CELLS - WIDTH <= i < GRID_CELLS ==> #[trigger] final(heat)@[i] == fresh@[i - (
                GRID_CELLS - WIDTH)],
    {
        let mut y: usize = 0;
        while y < HEIGHT - 1
            invariant
                y <= HEIGHT - 1,
                heat@.len() == GRID_CELLS,
                fresh@.len() == WIDTH,
                forall|i: int|
                    0 <= i < y * (WIDTH as int) ==> heat@[i] == #[trigger] heat_next(
                        old(heat)@,
                        i,
                    ),
                forall|i: int|
                    y * (WIDTH as int) <= i < GRID_CELLS ==> #[trigger] heat@[i] == old(heat)@[i],
            decreases HEIGHT - 1 - y,
        {
            let mut x: usize = 0;
            while x < WIDTH
                invariant
                    y < HEIGHT - 1,
                    x <= WIDTH,
                    heat@.len() == GRID_CELLS,
                    fresh@.len() == WIDTH,
                    forall|i: int|
                        0 <= i < y * (WIDTH as int) + x ==> heat@[i] == #[trigger] heat_next(
                            old(heat)@,
                            i,
                        ),
                    forall|i: int|
                        y * (WIDTH as int) + x <= i < GRID_CELLS ==> #[trigger] heat@[i] == old(
                            heat,
                        )@[i],
                decreases WIDTH - x,
            {
                let i: usize = y * WIDTH + x;
                proof {
                    vstd::arithmetic::div_mod::lemma_fundamental_div_mod_converse(
                        i as int,
                        WIDTH as int,
                        y as int,
                        x as int,
                    );
                }
                if x == 0 || x == WIDTH - 1 {
                    proof {
                        assert(heat@[i as int] == old(heat)@[i as int]);
                        assert(heat_next(old(heat)@, i as int) == old(heat)@[i as int]);
                    }
                } else {
                    let below: usize = (y + 1) * WIDTH;
                    let a: u8 = heat[below + x - 1] / 3;
                    let b: u8 = heat[below + x] / 3;
                    let c: u8 = heat[below + x + 1] / 3;
                    heat.set(i, a + b + c);
                }
                x = x + 1;
            }
            y = y + 1;
        }
        let mut x: usize = 0;
        while x < WIDTH
            invariant
                x <= WIDTH,
                heat@.len() == GRID_CELLS,
                fresh@.len() == WIDTH,
                forall|i: int|
                    0 <= i < GRID_CELLS - WIDTH ==> heat@[i] == #[trigger] heat_next(
                        old(heat)@,
                        i,
                    ),
                forall|i: int|
                    GRID_CELLS - WIDTH <= i < GRID_CELLS - WIDTH + x ==> #[trigger] heat@[i]
                        == fresh@[i - (GRID_CELLS - WIDTH)],
            decreases WIDTH - x,
        {
            let v: u8 = fresh[x];
            heat.set(GRID_CELLS - WIDTH + x, v);
            x = x + 1;
        }
    }

    /// One tick of the effect: draws the fresh bottom row from the random
    /// source, advances the heat buffer, and paints every cell with the
    /// colour of its new intensity.
    pub fn step(&mut self, buffer: &mut TileBuffer, _time: u64)
        requires
            old(self).wf(),
            old(buffer).wf(),
        ensures
            final(self).wf(),
            final(buffer).wf(),
            heat_step_rel(*old(self), *final(self), final(buffer)@),
    {
        let mut fresh: Vec<u8> = Vec::new();
        let mut i: usize = 0;
        while i < WIDTH
            invariant
                i <= WIDTH,
                fresh@.len() == i,
            decreases WIDTH - i,
        {
            let v: u8 = rand::random();
            fresh.push(v);
            i = i + 1;
        }
        Fire::advance_heat(&mut self.heat, &fresh);
        let mut y: usize = 0;
        while y < HEIGHT
            invariant
                y <= HEIGHT,
                buffer@.len() == GRID_CELLS,
                self.heat@.len() == GRID_CELLS,
                forall|i0: int|
                    0 <= i0 < y * (WIDTH as int) ==> #[trigger] buffer@[i0] == fire_cell(
                        self.heat@[i0],
                    ),
            decreases HEIGHT - y,
        {
            let mut x: usize = 0;
            while x < WIDTH
                invariant
                    y < HEIGHT,
                    x <= WIDTH,
                    buffer@.len() == GRID_CELLS,
                    self.heat@.len() == GRID_CELLS,
                    forall|i0: int|
                        0 <= i0 < y * (WIDTH as int) + x ==> #[trigger] buffer@[i0] == fire_cell(
                            self.heat@[i0],
                        ),
                decreases WIDTH - x,
            {
                let h: u8 = self.heat[y * WIDTH + x];
                let cell = ColouredTile { index: FIRE_TILE, fg: rgb(0, 0, 0), bg: rgb(h, FIRE_GREEN, 0) };
                buffer.set(x, y, cell);
                x = x + 1;
            }
            y = y + 1;
        }
    }
}

/// The tagged variants of the animation engine. Further effects extend
/// this enum without touching the scene state or the compositor.
pub enum Effect {
    Static(Flower),
    Heat(Fire),
}

impl Effect {
    /// An effect's internal state is well formed.
    pub open spec fn wf(&self) -> bool {
        match self {
            Effect::Static(f) => f.wf(),
            Effect::Heat(f) => f.wf(),
        }
    }
}

/// The sequencer: owns the active effect and drives exactly one effect
/// per tick.
pub struct Sequencer {
    pub effect: Effect,
}

impl Sequencer {
    /// The sequencer's effect state is well formed.
    pub open spec fn wf(&self) -> bool {
        self.effect.wf()
    }

    /// The base composition: the static flower layout, not yet run.
    pub fn new() -> (s: Sequencer)
        ensures
            s.wf(),
            s.effect is Static,
            !s.effect->Static_0.init,
    {
        Sequencer { effect: Effect::Static(Flower::new()) }
    }

    /// An alternative composition: the heat effect over a cold buffer.
    pub fn new_heat() -> (s: Sequencer)
        ensures
            s.wf(),
            s.effect is Heat,
            forall|i: int| 0 <= i < GRID_CELLS ==> s.effect->Heat_0.heat@[i] == 0,
    {
        Sequencer { effect: Effect::Heat(Fire::new()) }
    }

    /// Advances the active effect by one tick, mutating the scene in
    /// place according to that effect's step relation.
    pub fn step(&mut self, buffer: &mut TileBuffer, time: u64)
        requires
            old(self).wf(),
            old(buffer).wf(),
        ensures
            final(self).wf(),
            final(buffer).wf(),
            old(self).effect is Static ==> final(self).effect is Static && static_step_rel(
                old(self).effect->Static_0,
                final(self).effect->Static_0,
                old(buffer)@,
                final(buffer)@,
            ),
            old(self).effect is Heat ==> final(self).effect is Heat && heat_step_rel(
                old(self).effect->Heat_0,
                final(self).effect->Heat_0,
                final(buffer)@,
            ),
    {
        match &mut self.effect {
            Effect::Static(f) => f.step(buffer, time),
            Effect::Heat(f) => f.step(buffer, time),
        }
    }
}

} // verus!
