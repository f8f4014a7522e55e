use crate::fixed_bag::FixedBag;
use crate::fixed_queue::FixedQueue;
use crate::levels::{Tile, BRICK, QUESTION_BLOCK_USED};
use crate::screen::ScreenInfo;
use crate::tile_grid::{clear_tile, draw_tile, TileGrid, GRID_COLS, GRID_ROWS};
use vstd::prelude::*;

verus! {

/// First sprite tile of the coin.
pub const COIN_TILE_IDX_START: u16 = 1;

/// First sprite tile of the brick.
pub const BRICK_IDX_START: u16 = 37;

/// First sprite tile of the used block.
pub const USED_BLOCK_IDX_START: u16 = 41;

/// First sprite tile of the score digits.
pub const POINT_TILE_IDX_START: u16 = 45;

/// Largest grid column that an effect may name.
pub const MAX_EFFECT_COL: usize = 0x10_0000;

/// Capacity of the set of running effects.
pub const ACTIVE_CAPACITY: usize = 8;

/// Capacity of the queue of waiting effects.
pub const PENDING_CAPACITY: usize = 6;

/// Which block a bounce shows and leaves behind.
#[derive(Clone, Copy, PartialEq, Eq, Structural, Debug)]
pub enum BounceEffectTile {
    Brick,
    UsedBlock,
}

impl BounceEffectTile {
    pub open spec fn tile_spec(self) -> Tile {
        match self {
            BounceEffectTile::Brick => Tile(BRICK),
            BounceEffectTile::UsedBlock => Tile(QUESTION_BLOCK_USED),
        }
    }

    /// The sprite tile that shows the block while it bounces.
    pub fn obj_tile_id(&self) -> (r: u16)
        ensures
            r == match self {
                BounceEffectTile::Brick => BRICK_IDX_START * 2,
                BounceEffectTile::UsedBlock => USED_BLOCK_IDX_START * 2,
            },
    {
        match self {
            BounceEffectTile::Brick => BRICK_IDX_START * 2,
            BounceEffectTile::UsedBlock => USED_BLOCK_IDX_START * 2,
        }
    }

    /// The grid tile left behind when the bounce ends.
    pub fn tile(&self) -> (r: Tile)
        ensures
            r == self.tile_spec(),
    {
        match self {
            BounceEffectTile::Brick => Tile(BRICK),
            BounceEffectTile::UsedBlock => Tile(QUESTION_BLOCK_USED),
        }
    }
}

/// The score shown by a score popup.
#[derive(Clone, Copy, PartialEq, Eq, Structural, Debug)]
pub enum ScoreAmount {
    OneHundred,
    TwoHundred,
    FourHundred,
    FiveHundred,
    EightHundred,
    OneUp,
}

/// A block that hops up and down over 8 ticks.
#[derive(Clone, Copy, PartialEq, Eq, Structural, Debug)]
pub struct TileBounce {
    pub row: usize,
    pub col: usize,
    pub tile: BounceEffectTile,
}

impl TileBounce {
    pub fn new(row: usize, col: usize, tile: BounceEffectTile) -> (r: Self)
        ensures
            r == (TileBounce { row, col, tile }),
    {
        TileBounce { row, col, tile }
    }

    pub fn as_effect(self) -> (r: Effect)
        ensures
            r == Effect::TileBounce(self),
    {
        Effect::TileBounce(self)
    }
}

/// A coin that rises out of a block over 16 ticks.
#[derive(Clone, Copy, PartialEq, Eq, Structural, Debug)]
pub struct CoinUp {
    pub row: usize,
    pub col: usize,
}

impl CoinUp {
    pub fn new(row: usize, col: usize) -> (r: Self)
        ensures
            r == (CoinUp { row, col }),
    {
        CoinUp { row, col }
    }

    pub fn as_effect(self) -> (r: Effect)
        ensures
            r == Effect::CoinUp(self),
    {
        Effect::CoinUp(self)
    }
}

/// A score that rises over 16 ticks.
#[derive(Clone, Copy, PartialEq, Eq, Structural, Debug)]
pub struct Points {
    pub row: usize,
    pub col: usize,
    pub amount: ScoreAmount,
}

impl Points {
    pub fn new(row: usize, col: usize, amount: ScoreAmount) -> (r: Self)
        ensures
            r == (Points { row, col, amount }),
    {
        Points { row, col, amount }
    }

    pub fn as_effect(self) -> (r: Effect)
        ensures
            r == Effect::Points(self),
    {
        Effect::Points(self)
    }

    /// The left and right sprite tiles of the popup, as indices among the
    /// score digits.
    pub fn get_tiles(&self) -> (r: (u16, u16))
        ensures
            r == match self.amount {
                ScoreAmount::OneHundred => (0u16, 5u16),
                ScoreAmount::TwoHundred => (1u16, 5u16),
                ScoreAmount::FourHundred => (2u16, 5u16),
                ScoreAmount::FiveHundred => (3u16, 5u16),
                ScoreAmount::EightHundred => (4u16, 5u16),
                ScoreAmount::OneUp => (6u16, 7u16),
            },
    {
        match self.amount {
            ScoreAmount::OneHundred => (0, 5),
            ScoreAmount::TwoHundred => (1, 5),
            ScoreAmount::FourHundred => (2, 5),
            ScoreAmount::FiveHundred => (3, 5),
            ScoreAmount::EightHundred => (4, 5),
            ScoreAmount::OneUp => (6, 7),
        }
    }
}

/// A visual effect.
#[derive(Clone, Copy, PartialEq, Eq, Structural, Debug)]
pub enum Effect {
    TileBounce(TileBounce),
    CoinUp(CoinUp),
    Points(Points),
}

/// Where a sprite goes this frame.
#[derive(Clone, Copy, PartialEq, Eq, Structural, Debug)]
pub struct SpritePlacement {
    /// The hardware sprite slot.
    pub slot: usize,
    pub x: i32,
    pub y: i32,
    pub tile_id: u16,
}

impl Effect {
    /// The grid row of the effect.
    pub open spec fn row(self) -> usize {
        match self {
            Effect::TileBounce(e) => e.row,
            Effect::CoinUp(e) => e.row,
            Effect::Points(e) => e.row,
        }
    }

    /// The grid column of the effect.
    pub open spec fn col(self) -> usize {
        match self {
            Effect::TileBounce(e) => e.col,
            Effect::CoinUp(e) => e.col,
            Effect::Points(e) => e.col,
        }
    }

    /// The position lies inside the grid's rows and a bounded column.
    pub open spec fn wf(self) -> bool {
        self.row() + 1 < GRID_ROWS && self.col() <= MAX_EFFECT_COL
    }

    /// How many ticks the effect runs.
    pub open spec fn duration(self) -> u32 {
        match self {
            Effect::TileBounce(_) => 8,
            _ => 16,
        }
    }

    /// Both effects are of one kind and at one grid position.
    pub open spec fn same_spot(self, other: Effect) -> bool {
        &&& self.row() == other.row()
        &&& self.col() == other.col()
        &&& match (self, other) {
            (Effect::TileBounce(_), Effect::TileBounce(_)) => true,
            (Effect::CoinUp(_), Effect::CoinUp(_)) => true,
            (Effect::Points(_), Effect::Points(_)) => true,
            _ => false,
        }
    }

    /// The grid row and column of the effect.
    pub fn position(&self) -> (r: (usize, usize))
        ensures
            r == (self.row(), self.col()),
    {
        match self {
            Effect::TileBounce(e) => (e.row, e.col),
            Effect::CoinUp(e) => (e.row, e.col),
            Effect::Points(e) => (e.row, e.col),
        }
    }

    pub fn is_same_type_and_position(&self, other: &Effect) -> (r: bool)
        ensures
            r == self.same_spot(*other),
    {
        match (self, other) {
            (Effect::TileBounce(a), Effect::TileBounce(b)) => a.row == b.row && a.col == b.col,
            (Effect::CoinUp(a), Effect::CoinUp(b)) => a.row == b.row && a.col == b.col,
            (Effect::Points(a), Effect::Points(b)) => a.row == b.row && a.col == b.col,
            _ => false,
        }
    }

    /// Runs the effect at `animation_tick` ticks after its start; returns
    /// whether it keeps running. A bounce empties its grid cell when it
    /// starts and draws its block back when it ends.
    pub fn tick(&self, animation_tick: u32, grid: &mut TileGrid) -> (keep: bool)
        requires
            self.wf(),
            old(grid).wf(),
        ensures
            final(grid).wf(),
            keep == (animation_tick < self.duration()),
            bounce_grid(*self, animation_tick, *old(grid), *final(grid)),
    {
        match self {
            Effect::TileBounce(b) => {
                let col = b.col % GRID_COLS;
                if animation_tick >= 8 {
                    let tile = b.tile.tile();
                    draw_tile(grid, b.row, col, tile);
                    proof {
                        lemma_drawn_tile_shows(*old(grid), *grid, b.row, col, tile);
                    }
                    return false;
                }
                if animation_tick == 0 {
                    clear_tile(grid, b.row, col);
                    proof {
                        assert(grid.cells()[b.row * GRID_COLS + col] == 0);
                    }
                }
                true
            },
            Effect::CoinUp(_) => animation_tick < 16,
            Effect::Points(_) => animation_tick < 16,
        }
    }

    /// The sprites of the effect at `animation_tick` ticks after its start:
    /// a bounce rises and falls by `4 - |t - 4|` pixels, a coin and a score
    /// rise two pixels per tick.
    pub fn post_tick(&self, animation_tick: u32, screen: &ScreenInfo) -> (r: Vec<SpritePlacement>)
        requires
            self.wf(),
            screen.wf(),
            animation_tick < 16,
        ensures
            r@ == placements(*self, animation_tick, *screen),
    {
        let (row, col) = self.position();
        let (x, base_y) = tile_to_screenspace(row, col, screen);
        let mut out: Vec<SpritePlacement> = Vec::new();
        match self {
            Effect::TileBounce(b) => {
                let t = animation_tick as i64;
                let d = if t >= 4 { t - 4 } else { 4 - t };
                let offset = 4 - d;
                out.push(SpritePlacement {
                    slot: 1,
                    x: clamp_exec(x as i64, -60, 240) as i32,
                    y: clamp_exec(base_y as i64 - offset, 0, 256) as i32,
                    tile_id: b.tile.obj_tile_id(),
                });
            },
            Effect::CoinUp(_) => {
                let offset = animation_tick as i64 * 2;
                out.push(SpritePlacement {
                    slot: 2,
                    x: clamp_exec(x as i64, -60, 240) as i32,
                    y: clamp_exec(base_y as i64 - offset, 0, 256) as i32,
                    tile_id: COIN_TILE_IDX_START * 2,
                });
            },
            Effect::Points(p) => {
                let (left, right) = p.get_tiles();
                let offset = animation_tick as i64 * 2;
                let y = clamp_exec(base_y as i64 - offset, 0, 256) as i32;
                out.push(SpritePlacement {
                    slot: 3,
                    x: clamp_exec(x as i64, -60, 240) as i32,
                    y,
                    tile_id: POINT_TILE_IDX_START * 2 + left * 2,
                });
                out.push(SpritePlacement {
                    slot: 4,
                    x: clamp_exec(x as i64 + 8, -60, 240) as i32,
                    y,
                    tile_id: POINT_TILE_IDX_START * 2 + right * 2,
                });
            },
        }
        out
    }
}

/// What effect `e` does to the grid at `at` ticks after its start: a
/// bounce empties its cell when it starts and shows its block there when
/// it ends, and leaves the grid alone in between; other effects never
/// touch the grid.
pub open spec fn bounce_grid(e: Effect, at: u32, g0: TileGrid, g1: TileGrid) -> bool {
    match e {
        Effect::TileBounce(b) => {
            let c = (b.col % GRID_COLS) as int;
            &&& forall|k: int|
                0 <= k < g0.cells().len() && k != b.row * GRID_COLS + c && k != (b.row + 1) * GRID_COLS + c
                    ==> #[trigger] g1.cells()[k] == g0.cells()[k]
            &&& g1.cells().len() == g0.cells().len()
            &&& if at >= 8 {
                crate::tile_grid::shows_tile(g1.cell(b.row as int, c), g1.cell(b.row + 1, c), b.tile.tile_spec())
            } else if at == 0 {
                g1.cell(b.row as int, c) == 0 && g1.cell(b.row + 1, c) == 0
            } else {
                g1 == g0
            }
        },
        _ => g1 == g0,
    }
}

/// Running effect `a` writes grid cell `k` (counted row after row) on frame
/// `tick`: a bounce starting or ending writes its two cells.
pub open spec fn touches(a: AnimationEffect, tick: u32, k: int) -> bool {
    match a.effect {
        Effect::TileBounce(b) => {
            let c = (b.col % GRID_COLS) as int;
            &&& (a.elapsed(tick) == 0 || a.elapsed(tick) >= 8)
            &&& (k == b.row * GRID_COLS + c || k == (b.row + 1) * GRID_COLS + c)
        },
        _ => false,
    }
}

/// No running effect but the one in slot `j` writes the cells of that
/// slot's bounce on frame `tick`.
pub open spec fn cells_alone(act: Seq<Option<AnimationEffect>>, tick: u32, j: int) -> bool {
    match act[j] {
        Some(a) => match a.effect {
            Effect::TileBounce(b) => forall|j2: int|
                0 <= j2 < act.len() && j2 != j && #[trigger] act[j2] is Some ==> !touches(
                    act[j2]->Some_0,
                    tick,
                    b.row * GRID_COLS + (b.col % GRID_COLS) as int,
                ) && !touches(act[j2]->Some_0, tick, (b.row + 1) * GRID_COLS + (b.col % GRID_COLS) as int),
            _ => true,
        },
        None => true,
    }
}

/// The grid after the running effects `act` ran on frame `tick`: a cell
/// that no effect writes keeps its value, and a bounce whose cells no other
/// effect writes has emptied them when it started and shows its block when
/// it ended.
pub open spec fn effects_grid(act: Seq<Option<AnimationEffect>>, tick: u32, g0: TileGrid, g1: TileGrid) -> bool {
    &&& forall|k: int|
        0 <= k < g0.cells().len() && (forall|j: int| 0 <= j < act.len() && #[trigger] act[j] is Some ==> !touches(act[j]->Some_0, tick, k))
            ==> #[trigger] g1.cells()[k] == g0.cells()[k]
    &&& forall|j: int|
        0 <= j < act.len() && #[trigger] act[j] is Some && cells_alone(act, tick, j) ==> match act[j]->Some_0.effect {
            Effect::TileBounce(b) => {
                let c = (b.col % GRID_COLS) as int;
                let at = act[j]->Some_0.elapsed(tick);
                &&& at >= 8 ==> crate::tile_grid::shows_tile(
                    g1.cell(b.row as int, c),
                    g1.cell(b.row + 1, c),
                    b.tile.tile_spec(),
                )
                &&& at == 0 ==> g1.cell(b.row as int, c) == 0 && g1.cell(b.row + 1, c) == 0
            },
            _ => true,
        }
}

/// A running effect that does not write cell `k` on frame `tick` leaves
/// it as it was.
proof fn lemma_touch_frame(a: AnimationEffect, tick: u32, g0: TileGrid, g1: TileGrid)
    requires
        bounce_grid(a.effect, a.elapsed(tick), g0, g1),
    ensures
        g1.cells().len() == g0.cells().len(),
        forall|k: int|
            0 <= k < g0.cells().len() && !touches(a, tick, k) ==> #[trigger] g1.cells()[k] == g0.cells()[k],
{
}

/// The sprite tile of a bouncing block.
pub open spec fn bounce_tile_id(tile: BounceEffectTile) -> u16 {
    match tile {
        BounceEffectTile::Brick => (BRICK_IDX_START * 2) as u16,
        BounceEffectTile::UsedBlock => (USED_BLOCK_IDX_START * 2) as u16,
    }
}

/// The left and right digit tiles of a score popup.
pub open spec fn points_tiles(amount: ScoreAmount) -> (u16, u16) {
    match amount {
        ScoreAmount::OneHundred => (0u16, 5u16),
        ScoreAmount::TwoHundred => (1u16, 5u16),
        ScoreAmount::FourHundred => (2u16, 5u16),
        ScoreAmount::FiveHundred => (3u16, 5u16),
        ScoreAmount::EightHundred => (4u16, 5u16),
        ScoreAmount::OneUp => (6u16, 7u16),
    }
}

/// The sprites of effect `e` at `at` ticks after its start: a bounce
/// rises and falls by `4 - |at - 4|` pixels, a coin and a score rise two
/// pixels per tick; positions are held within the screen's margins.
pub open spec fn placements(e: Effect, at: u32, screen: ScreenInfo) -> Seq<SpritePlacement> {
    let (x, y) = screen_pos(e.row(), e.col(), screen);
    let rise = clamp(y - 2 * at, 0, 256) as i32;
    match e {
        Effect::TileBounce(b) => seq![
            SpritePlacement {
                slot: 1,
                x: clamp(x, -60, 240) as i32,
                y: clamp(y - (4 - abs_int(at - 4)), 0, 256) as i32,
                tile_id: bounce_tile_id(b.tile),
            },
        ],
        Effect::CoinUp(_) => seq![
            SpritePlacement {
                slot: 2,
                x: clamp(x, -60, 240) as i32,
                y: rise,
                tile_id: (COIN_TILE_IDX_START * 2) as u16,
            },
        ],
        Effect::Points(p) => seq![
            SpritePlacement {
                slot: 3,
                x: clamp(x, -60, 240) as i32,
                y: rise,
                tile_id: (POINT_TILE_IDX_START * 2 + points_tiles(p.amount).0 * 2) as u16,
            },
            SpritePlacement {
                slot: 4,
                x: clamp(x + 8, -60, 240) as i32,
                y: rise,
                tile_id: (POINT_TILE_IDX_START * 2 + points_tiles(p.amount).1 * 2) as u16,
            },
        ],
    }
}

/// The sprites of the running effects in slots below `j`, in slot order.
pub open spec fn placements_upto(
    active: Seq<Option<AnimationEffect>>,
    tick: u32,
    screen: ScreenInfo,
    j: int,
) -> Seq<SpritePlacement>
    decreases j,
{
    if j <= 0 {
        Seq::empty()
    } else {
        let before = placements_upto(active, tick, screen, j - 1);
        match active[j - 1] {
            Some(a) => if a.elapsed(tick) < 16 {
                before + placements(a.effect, a.elapsed(tick), screen)
            } else {
                before
            },
            None => before,
        }
    }
}

proof fn lemma_drawn_tile_shows(pre: TileGrid, post: TileGrid, row: usize, col: usize, tile: Tile)
    requires
        pre.wf(),
        row + 1 < GRID_ROWS,
        col < GRID_COLS,
        tile.0 <= 0xFF,
        post.cells() == pre.cells().update(
            row * GRID_COLS + col,
            crate::tile_grid::cell_value(tile.0 as int, tile.0 + 1),
        ).update(
            (row + 1) * GRID_COLS + col,
            crate::tile_grid::cell_value(tile.0 + 16, tile.0 + 17),
        ),
        tile == Tile(BRICK) || tile == Tile(QUESTION_BLOCK_USED),
    ensures
        crate::tile_grid::shows_tile(
            post.cell(row as int, col as int),
            post.cell(row + 1, col as int),
            tile,
        ),
{
}

/// The absolute value of `v`.
pub open spec fn abs_int(v: int) -> int {
    if v < 0 {
        -v
    } else {
        v
    }
}

/// `v` held within `lo` and `hi`.
pub open spec fn clamp(v: int, lo: int, hi: int) -> int {
    if v < lo {
        lo
    } else if v > hi {
        hi
    } else {
        v
    }
}

fn clamp_exec(v: i64, lo: i64, hi: i64) -> (r: i64)
    requires
        lo <= hi,
    ensures
        r == clamp(v as int, lo as int, hi as int),
{
    if v < lo {
        lo
    } else if v > hi {
        hi
    } else {
        v
    }
}

/// Where, in screen pixels, the top-left of grid cell (`row`, `col`) is
/// drawn. A grid column is two columns of 8 pixels wide; the scroll's
/// fraction is rounded to the nearest pixel horizontally.
pub open spec fn screen_pos(row: usize, col: usize, screen: ScreenInfo) -> (int, int) {
    let difference = (screen.affn_x % 2048 + 128) / 256;
    let x = (2 * col - screen.onscreen_col_start) * 8 - difference;
    let row_start = screen.affn_y / 2048;
    let y_difference = (screen.affn_y - row_start * 2048) / 256 - 1;
    let y = row * 8 - row_start * 8 - y_difference;
    (x, y)
}

/// Converts a grid position to the screen coordinates of its sprite.
pub fn tile_to_screenspace(row: usize, col: usize, screen: &ScreenInfo) -> (r: (i32, i32))
    requires
        screen.wf(),
        row < GRID_ROWS,
        col <= MAX_EFFECT_COL,
    ensures
        r.0 == screen_pos(row, col, *screen).0,
        r.1 == screen_pos(row, col, *screen).1,
{
    let ax = screen.affn_x as i64;
    let difference = (ax % 2048 + 128) / 256;
    let x = (2 * col as i64 - screen.onscreen_col_start as i64) * 8 - difference;
    let ay = screen.affn_y as i64;
    let row_start = if ay >= 0 {
        ay / 2048
    } else {
        -((-ay + 2047) / 2048)
    };
    proof {
        assert(row_start == (screen.affn_y as int) / 2048) by {
            if ay < 0 {
                let q = (-ay + 2047) / 2048;
                assert(ay as int == -q * 2048 + (q * 2048 - (-ay))) by (nonlinear_arith);
                vstd::arithmetic::div_mod::lemma_fundamental_div_mod_converse(
                    ay as int,
                    2048,
                    -q as int,
                    q * 2048 + ay,
                );
            }
        }
    }
    let y_difference = (ay - row_start * 2048) / 256 - 1;
    let y = row as i64 * 8 - row_start * 8 - y_difference;
    (x as i32, y as i32)
}

/// An effect with the tick at which it started; while it waits, the tick
/// field holds the ticks left before it may start.
#[derive(Clone, Copy, PartialEq, Eq, Structural, Debug)]
pub struct AnimationEffect {
    pub tick_start: u32,
    pub effect: Effect,
}

impl AnimationEffect {
    /// Ticks since the start, never negative.
    pub open spec fn elapsed(self, tick: u32) -> u32 {
        if tick >= self.tick_start {
            (tick - self.tick_start) as u32
        } else {
            0
        }
    }

    /// Runs the effect for frame `tick`; returns whether it keeps running.
    pub fn tick(&self, tick: u32, grid: &mut TileGrid) -> (keep: bool)
        requires
            self.effect.wf(),
            old(grid).wf(),
        ensures
            final(grid).wf(),
            keep == (self.elapsed(tick) < self.effect.duration()),
            bounce_grid(self.effect, self.elapsed(tick), *old(grid), *final(grid)),
    {
        let animation_tick = tick.saturating_sub(self.tick_start);
        self.effect.tick(animation_tick, grid)
    }

    /// The sprites of the effect for frame `tick`.
    pub fn post_tick(&self, tick: u32, screen: &ScreenInfo) -> (r: Vec<SpritePlacement>)
        requires
            self.effect.wf(),
            screen.wf(),
            self.elapsed(tick) < 16,
        ensures
            r@ == placements(self.effect, self.elapsed(tick), *screen),
    {
        let animation_tick = tick.saturating_sub(self.tick_start);
        self.effect.post_tick(animation_tick, screen)
    }
}

/// Some running effect is of the kind of `e` and at its position.
pub open spec fn has_same_spot(active: Seq<Option<AnimationEffect>>, e: Effect) -> bool {
    exists|j: int|
        0 <= j < active.len() && (#[trigger] active[j]) is Some && active[j]->Some_0.effect.same_spot(e)
}

/// `i` is the first empty slot.
pub open spec fn is_first_free(active: Seq<Option<AnimationEffect>>, i: int) -> bool {
    &&& 0 <= i < active.len()
    &&& active[i] is None
    &&& forall|j: int| 0 <= j < i ==> (#[trigger] active[j]) is Some
}

/// Running and waiting effects after `steps` waiting effects have been
/// looked at, from the front of the queue. A delayed effect goes back with
/// one tick less; a ready one is dropped when a running effect of its kind
/// holds its spot, starts at `tick` in the first free slot otherwise, and
/// when no slot is free goes back ready and ends the scan.
pub open spec fn promote_steps(
    active: Seq<Option<AnimationEffect>>,
    pending: Seq<AnimationEffect>,
    steps: nat,
    tick: u32,
) -> (Seq<Option<AnimationEffect>>, Seq<AnimationEffect>)
    decreases steps,
{
    if steps == 0 || pending.len() == 0 {
        (active, pending)
    } else {
        let e = pending[0];
        let rest = pending.drop_first();
        if e.tick_start > 0 {
            promote_steps(
                active,
                rest.push(AnimationEffect { tick_start: (e.tick_start - 1) as u32, effect: e.effect }),
                (steps - 1) as nat,
                tick,
            )
        } else if has_same_spot(active, e.effect) {
            promote_steps(active, rest, (steps - 1) as nat, tick)
        } else if exists|i: int| is_first_free(active, i) {
            let i = choose|i: int| is_first_free(active, i);
            promote_steps(
                active.update(i, Some(AnimationEffect { tick_start: tick, effect: e.effect })),
                rest,
                (steps - 1) as nat,
                tick,
            )
        } else {
            (active, rest.push(AnimationEffect { tick_start: 0, effect: e.effect }))
        }
    }
}

/// The queue after pushing `e`, the oldest leaving when it is full.
pub open spec fn pending_push(pending: Seq<AnimationEffect>, e: AnimationEffect) -> Seq<
    AnimationEffect,
> {
    if pending.len() >= PENDING_CAPACITY {
        pending.drop_first().push(e)
    } else {
        pending.push(e)
    }
}

/// The effects scheduler: a queue of waiting effects and a set of running
/// ones.
pub struct EffectsManager {
    active_effects: FixedBag<AnimationEffect, 8>,
    pending_effects: FixedQueue<AnimationEffect, 6>,
}

impl EffectsManager {
    /// The slots of running effects.
    pub closed spec fn active(&self) -> Seq<Option<AnimationEffect>> {
        self.active_effects@
    }

    /// The waiting effects, oldest first.
    pub closed spec fn pending(&self) -> Seq<AnimationEffect> {
        self.pending_effects@
    }

    pub closed spec fn wf(&self) -> bool {
        &&& self.active_effects.wf()
        &&& self.pending_effects.wf()
        &&& self.pending_effects@.len() <= PENDING_CAPACITY
        &&& forall|j: int|
            0 <= j < ACTIVE_CAPACITY && (#[trigger] self.active_effects@[j]) is Some
                ==> self.active_effects@[j]->Some_0.effect.wf()
        &&& forall|k: int|
            0 <= k < self.pending_effects@.len() ==> (#[trigger] self.pending_effects@[k]).effect.wf()
    }

    /// A consistent scheduler has one slot per running effect it can hold
    /// and at most six waiting effects.
    pub proof fn lemma_capacity(&self)
        requires
            self.wf(),
        ensures
            self.active().len() == ACTIVE_CAPACITY,
            self.pending().len() <= PENDING_CAPACITY,
    {
    }

    pub fn new() -> (m: Self)
        ensures
            m.wf(),
            m.pending().len() == 0,
            forall|j: int| 0 <= j < ACTIVE_CAPACITY ==> m.active()[j] is None,
    {
        EffectsManager { active_effects: FixedBag::new(), pending_effects: FixedQueue::new() }
    }

    /// Queues `effect` to start after `delay_ticks` ticks; when the queue
    /// is full its oldest waiting effect is dropped.
    pub fn add_effect(&mut self, effect: Effect, delay_ticks: u32)
        requires
            old(self).wf(),
            effect.wf(),
        ensures
            final(self).wf(),
            final(self).active() == old(self).active(),
            final(self).pending() == pending_push(
                old(self).pending(),
                AnimationEffect { tick_start: delay_ticks, effect },
            ),
    {
        proof {
            self.pending_effects.lemma_len_bound();
        }
        self.pending_effects.push_pop(AnimationEffect { tick_start: delay_ticks, effect });
    }

    /// Whether a running effect is of the kind of `effect` and at its spot.
    fn has_active_at(&self, effect: &Effect) -> (r: bool)
        requires
            self.wf(),
        ensures
            r == has_same_spot(self.active(), *effect),
    {
        let mut j: usize = 0;
        while j < ACTIVE_CAPACITY
            invariant
                self.wf(),
                j <= ACTIVE_CAPACITY,
                forall|k: int|
                    0 <= k < j ==> !((#[trigger] self.active_effects@[k]) is Some
                        && self.active_effects@[k]->Some_0.effect.same_spot(*effect)),
            decreases ACTIVE_CAPACITY - j,
        {
            if let Some(a) = self.active_effects.get(j) {
                if a.effect.is_same_type_and_position(effect) {
                    return true;
                }
            }
            j += 1;
        }
        false
    }

    /// Looks once at each waiting effect: counts down delays, drops
    /// duplicates of running effects, and starts the ready ones at `tick`
    /// while slots are free.
    pub fn promote_pending(&mut self, tick: u32)
        requires
            old(self).wf(),
        ensures
            final(self).wf(),
            (final(self).active(), final(self).pending()) == promote_steps(
                old(self).active(),
                old(self).pending(),
                old(self).pending().len(),
                tick,
            ),
    {
        let n = self.pending_effects.len();
        let mut k: usize = 0;
        while k < n
            invariant
                self.wf(),
                k <= n,
                n == old(self).pending().len(),
                promote_steps(self.active(), self.pending(), (n - k) as nat, tick) == promote_steps(
                    old(self).active(),
                    old(self).pending(),
                    n as nat,
                    tick,
                ),
            decreases n - k,
        {
            let ghost act = self.active();
            let ghost pend = self.pending();
            proof {
                self.pending_effects.lemma_len_bound();
            }
            let effect = match self.pending_effects.pop() {
                Some(e) => e,
                None => {
                    proof {
                        assert(pend.len() == 0);
                        assert(self.active() == act && self.pending() == pend);
                    }
                    return;
                },
            };
            proof {
                assert(effect == pend[0]);
                assert(effect.effect.wf());
                assert(self.pending() == pend.drop_first());
            }
            if effect.tick_start > 0 {
                self.pending_effects.push_pop(
                    AnimationEffect { tick_start: effect.tick_start - 1, effect: effect.effect },
                );
                k += 1;
                continue;
            }
            if self.has_active_at(&effect.effect) {
                k += 1;
                continue;
            }
            let anim_effect = AnimationEffect { tick_start: tick, effect: effect.effect };
            match self.active_effects.push(anim_effect) {
                Ok(idx) => {
                    proof {
                        assert(is_first_free(act, idx as int));
                        let c = choose|i: int| is_first_free(act, i);
                        assert(c == idx as int) by {
                            if c < idx as int {
                                assert(act[c] is Some);
                            } else if c > idx as int {
                                assert(act[idx as int] is Some);
                            }
                        }
                    }
                    k += 1;
                },
                Err(back) => {
                    proof {
                        assert(!exists|i: int| is_first_free(act, i)) by {
                            if exists|i: int| is_first_free(act, i) {
                                let i = choose|i: int| is_first_free(act, i);
                                assert(act[i] is Some);
                            }
                        }
                        assert(!has_same_spot(act, effect.effect));
                        assert(back.effect == effect.effect);
                        assert(self.active() == act);
                        assert(promote_steps(act, pend, (n - k) as nat, tick) == (
                            act,
                            pend.drop_first().push(AnimationEffect { tick_start: 0, effect: effect.effect }),
                        ));
                    }
                    self.pending_effects.push_pop(
                        AnimationEffect { tick_start: 0, effect: back.effect },
                    );
                    return;
                },
            }
        }
    }

    /// Runs every running effect for frame `tick` and removes those that
    /// ended.
    pub fn advance_active(&mut self, tick: u32, grid: &mut TileGrid)
        requires
            old(self).wf(),
            old(grid).wf(),
        ensures
            final(self).wf(),
            final(grid).wf(),
            final(self).pending() == old(self).pending(),
            effects_grid(old(self).active(), tick, *old(grid), *final(grid)),
            forall|j: int|
                0 <= j < ACTIVE_CAPACITY ==> #[trigger] final(self).active()[j] == match old(
                    self,
                ).active()[j] {
                    Some(a) => if a.elapsed(tick) < a.effect.duration() {
                        Some(a)
                    } else {
                        None
                    },
                    None => None,
                },
    {
        let ghost pre = self.active();
        let mut j: usize = 0;
        while j < ACTIVE_CAPACITY
            invariant
                self.wf(),
                grid.wf(),
                j <= ACTIVE_CAPACITY,
                self.pending() == old(self).pending(),
                pre == old(self).active(),
                pre.len() == ACTIVE_CAPACITY,
                forall|jj: int| 0 <= jj < ACTIVE_CAPACITY && #[trigger] pre[jj] is Some ==> pre[jj]->Some_0.effect.wf(),
                grid.cells().len() == old(grid).cells().len(),
                forall|k: int|
                    0 <= k < old(grid).cells().len() && (forall|jj: int|
                        0 <= jj < j && #[trigger] pre[jj] is Some ==> !touches(pre[jj]->Some_0, tick, k))
                        ==> #[trigger] grid.cells()[k] == old(grid).cells()[k],
                forall|j0: int|
                    0 <= j0 < j && #[trigger] pre[j0] is Some && cells_alone(pre, tick, j0) ==> match pre[j0]->Some_0.effect {
                        Effect::TileBounce(b) => {
                            let c = (b.col % GRID_COLS) as int;
                            let at = pre[j0]->Some_0.elapsed(tick);
                            &&& at >= 8 ==> crate::tile_grid::shows_tile(
                                grid.cell(b.row as int, c),
                                grid.cell(b.row + 1, c),
                                b.tile.tile_spec(),
                            )
                            &&& at == 0 ==> grid.cell(b.row as int, c) == 0 && grid.cell(b.row + 1, c) == 0
                        },
                        _ => true,
                    },
                forall|k: int| j <= k < ACTIVE_CAPACITY ==> self.active()[k] == pre[k],
                forall|k: int|
                    0 <= k < j ==> #[trigger] self.active()[k] == match pre[k] {
                        Some(a) => if a.elapsed(tick) < a.effect.duration() {
                            Some(a)
                        } else {
                            None
                        },
                        None => None,
                    },
            decreases ACTIVE_CAPACITY - j,
        {
            let slot = match self.active_effects.get(j) {
                Some(a) => Some(*a),
                None => None,
            };
            let ghost before = self.active();
            let ghost g_before = *grid;
            if let Some(a) = slot {
                assert(pre[j as int] == Some(a));
                let keep = a.tick(tick, grid);
                if !keep {
                    self.active_effects.remove(j);
                }
                proof {
                    lemma_touch_frame(a, tick, g_before, *grid);
                }
            }
            proof {
                assert forall|k: int|
                    0 <= k < old(grid).cells().len() && (forall|jj: int|
                        0 <= jj < j + 1 && #[trigger] pre[jj] is Some ==> !touches(pre[jj]->Some_0, tick, k))
                        implies #[trigger] grid.cells()[k] == old(grid).cells()[k] by {
                    assert(g_before.cells()[k] == old(grid).cells()[k]);
                    if pre[j as int] is Some {
                        assert(!touches(pre[j as int]->Some_0, tick, k));
                    }
                }
                assert forall|j0: int|
                    0 <= j0 < j + 1 && #[trigger] pre[j0] is Some && cells_alone(pre, tick, j0) implies match pre[j0]->Some_0.effect {
                        Effect::TileBounce(b) => {
                            let c = (b.col % GRID_COLS) as int;
                            let at = pre[j0]->Some_0.elapsed(tick);
                            &&& at >= 8 ==> crate::tile_grid::shows_tile(
                                grid.cell(b.row as int, c),
                                grid.cell(b.row + 1, c),
                                b.tile.tile_spec(),
                            )
                            &&& at == 0 ==> grid.cell(b.row as int, c) == 0 && grid.cell(b.row + 1, c) == 0
                        },
                        _ => true,
                    } by {
                    if j0 < j {
                        match pre[j0]->Some_0.effect {
                            Effect::TileBounce(b) => {
                                let c = (b.col % GRID_COLS) as int;
                                let k1 = b.row * GRID_COLS + c;
                                let k2 = (b.row + 1) * GRID_COLS + c;
                                assert(pre[j0]->Some_0.effect.wf());
                                assert(0 <= k1 < g_before.cells().len() && 0 <= k2 < g_before.cells().len());
                                if pre[j as int] is Some {
                                    assert(!touches(pre[j as int]->Some_0, tick, k1));
                                    assert(!touches(pre[j as int]->Some_0, tick, k2));
                                }
                                assert(grid.cells()[k1] == g_before.cells()[k1]);
                                assert(grid.cells()[k2] == g_before.cells()[k2]);
                            },
                            _ => {},
                        }
                    }
                }
            }
            proof {
                assert forall|k: int| 0 <= k < ACTIVE_CAPACITY && k != j implies self.active()[k]
                    == before[k] by {}
            }
            j += 1;
        }
    }

    /// Per-frame step: promotes waiting effects, then runs the running ones.
    pub fn tick(&mut self, tick: u32, grid: &mut TileGrid)
        requires
            old(self).wf(),
            old(grid).wf(),
        ensures
            final(self).wf(),
            final(grid).wf(),
            ({
                let (act, pend) = promote_steps(
                    old(self).active(),
                    old(self).pending(),
                    old(self).pending().len(),
                    tick,
                );
                &&& final(self).pending() == pend
                &&& effects_grid(act, tick, *old(grid), *final(grid))
                &&& forall|j: int|
                    0 <= j < ACTIVE_CAPACITY ==> #[trigger] final(self).active()[j] == match act[j] {
                        Some(a) => if a.elapsed(tick) < a.effect.duration() {
                            Some(a)
                        } else {
                            None
                        },
                        None => None,
                    }
            }),
    {
        self.promote_pending(tick);
        self.advance_active(tick, grid);
    }

    /// The sprites of every running effect for frame `tick`, in slot order.
    pub fn post_tick(&self, tick: u32, screen: &ScreenInfo) -> (r: Vec<SpritePlacement>)
        requires
            self.wf(),
            screen.wf(),
        ensures
            r@ == placements_upto(self.active(), tick, *screen, ACTIVE_CAPACITY as int),
    {
        let mut out: Vec<SpritePlacement> = Vec::new();
        let mut j: usize = 0;
        while j < ACTIVE_CAPACITY
            invariant
                self.wf(),
                screen.wf(),
                j <= ACTIVE_CAPACITY,
                out@ == placements_upto(self.active(), tick, *screen, j as int),
            decreases ACTIVE_CAPACITY - j,
        {
            if let Some(a) = self.active_effects.get(j) {
                let animation_tick = tick.saturating_sub(a.tick_start);
                if animation_tick < 16 {
                    let mut placed = a.post_tick(tick, screen);
                    out.append(&mut placed);
                }
            }
            j += 1;
        }
        out
    }

    /// The running effects with their slots, in slot order.
    pub fn running(&self) -> (r: Vec<(usize, AnimationEffect)>)
        requires
            self.wf(),
        ensures
            forall|k: int|
                0 <= k < r@.len() ==> (#[trigger] r@[k]).0 < ACTIVE_CAPACITY && self.active()[r@[k].0 as int]
                    == Some(r@[k].1),
            forall|i: int|
                0 <= i < ACTIVE_CAPACITY && #[trigger] self.active()[i] is Some ==> exists|k: int|
                    0 <= k < r@.len() && r@[k].0 == i,
    {
        self.active_effects.iter()
    }

    /// The waiting effects, oldest first.
    pub fn waiting(&self) -> (r: Vec<AnimationEffect>)
        requires
            self.wf(),
        ensures
            r@ == self.pending(),
    {
        let n = self.pending_effects.len();
        let mut out: Vec<AnimationEffect> = Vec::new();
        let mut k: usize = 0;
        while k < n
            invariant
                self.wf(),
                n == self.pending().len(),
                k <= n,
                out@ == self.pending().subrange(0, k as int),
            decreases n - k,
        {
            match self.pending_effects.get(k) {
                Some(e) => out.push(*e),
                None => {},
            }
            assert(out@ =~= self.pending().subrange(0, k + 1));
            k += 1;
        }
        assert(out@ =~= self.pending());
        out
    }

    /// Whether any effect is running.
    pub fn has_active(&self) -> (r: bool)
        requires
            self.wf(),
        ensures
            r == exists|j: int| 0 <= j < ACTIVE_CAPACITY && (#[trigger] self.active()[j]) is Some,
    {
        let mut j: usize = 0;
        while j < ACTIVE_CAPACITY
            invariant
                self.wf(),
                j <= ACTIVE_CAPACITY,
                forall|k: int| 0 <= k < j ==> (#[trigger] self.active()[k]) is None,
            decreases ACTIVE_CAPACITY - j,
        {
            if self.active_effects.get(j).is_some() {
                return true;
            }
            j += 1;
        }
        false
    }
}

/// The shared shear of bouncing blocks for frame `tick`: a small waveform
/// over ticks modulo 16, in fixed point; `None` on ticks that leave it.
pub fn wobble(tick: u32) -> (r: Option<i16>)
    ensures
        r == match tick % 16 {
            0 => Some(1024i16),
            2 | 14 => Some(512i16),
            4 | 12 => Some(256i16),
            6 | 10 => Some(-512i16),
            8 => Some(-1024i16),
            _ => None,
        },
{
    let mod_tick = tick % 16;
    if mod_tick == 0 {
        Some(1024)
    } else if mod_tick == 2 || mod_tick == 14 {
        Some(512)
    } else if mod_tick == 4 || mod_tick == 12 {
        Some(256)
    } else if mod_tick == 6 || mod_tick == 10 {
        Some(-512)
    } else if mod_tick == 8 {
        Some(-1024)
    } else {
        None
    }
}

/// Two bounces queued for one spot in one tick: the first starts in the
/// first free slot, the second is dropped, and no other running effect is
/// a bounce at that spot.
pub proof fn lemma_duplicate_bounce_suppressed(
    active: Seq<Option<AnimationEffect>>,
    first: TileBounce,
    second: TileBounce,
    tick: u32,
)
    requires
        active.len() == ACTIVE_CAPACITY,
        first.row == second.row,
        first.col == second.col,
        exists|i: int| 0 <= i < active.len() && active[i] is None,
        !has_same_spot(active, Effect::TileBounce(first)),
    ensures
        ({
            let (act, pend) = promote_steps(
                active,
                seq![
                    AnimationEffect { tick_start: 0, effect: Effect::TileBounce(first) },
                    AnimationEffect { tick_start: 0, effect: Effect::TileBounce(second) },
                ],
                2,
                tick,
            );
            &&& pend.len() == 0
            &&& exists|i: int|
                0 <= i < act.len() && act[i] == Some(
                    AnimationEffect { tick_start: tick, effect: Effect::TileBounce(first) },
                ) && forall|j: int|
                    0 <= j < act.len() && j != i && (#[trigger] act[j]) is Some
                        ==> !act[j]->Some_0.effect.same_spot(Effect::TileBounce(first))
        }),
{
    let e1 = AnimationEffect { tick_start: 0, effect: Effect::TileBounce(first) };
    let e2 = AnimationEffect { tick_start: 0, effect: Effect::TileBounce(second) };
    let pending = seq![e1, e2];
    let w = choose|i: int| 0 <= i < active.len() && active[i] is None;
    assert(exists|i: int| is_first_free(active, i)) by {
        lemma_first_free_exists(active, w);
    }
    let i = choose|i: int| is_first_free(active, i);
    let started = AnimationEffect { tick_start: tick, effect: Effect::TileBounce(first) };
    let act1 = active.update(i, Some(started));
    assert(pending[0] == e1);
    assert(pending.drop_first() =~= seq![e2]);
    assert(promote_steps(active, pending, 2, tick) == promote_steps(act1, seq![e2], 1, tick));
    assert(act1[i] is Some && act1[i]->Some_0.effect.same_spot(e2.effect));
    assert(has_same_spot(act1, e2.effect));
    assert(seq![e2].drop_first() =~= Seq::<AnimationEffect>::empty());
    assert(promote_steps(act1, seq![e2], 1, tick) == promote_steps(act1, Seq::empty(), 0, tick));
    assert(promote_steps(active, pending, 2, tick) == (act1, Seq::<AnimationEffect>::empty()));
    assert(act1[i] == Some(started));
    assert forall|j: int|
        0 <= j < act1.len() && j != i && (#[trigger] act1[j]) is Some implies !act1[j]->Some_0.effect.same_spot(
        Effect::TileBounce(first),
    ) by {
        assert(act1[j] == active[j]);
    }
    let (act, pend) = promote_steps(active, pending, 2, tick);
    assert(act == act1);
    assert(0 <= i < act.len() && act[i] == Some(started) && forall|j: int|
        0 <= j < act.len() && j != i && (#[trigger] act[j]) is Some
            ==> !act[j]->Some_0.effect.same_spot(Effect::TileBounce(first)));
}

proof fn lemma_first_free_exists(active: Seq<Option<AnimationEffect>>, w: int)
    requires
        0 <= w < active.len(),
        active[w] is None,
    ensures
        exists|i: int| is_first_free(active, i),
    decreases w,
{
    if forall|j: int| 0 <= j < w ==> (#[trigger] active[j]) is Some {
        assert(is_first_free(active, w));
    } else {
        let j = choose|j: int| 0 <= j < w && !((#[trigger] active[j]) is Some);
        lemma_first_free_exists(active, j);
    }
}

/// A ready effect that finds every slot full stays queued, ready, and the
/// running effects are unchanged; once a slot is free and no running effect
/// of its kind holds its spot, it starts.
pub proof fn lemma_full_slots_keep_effect_pending(
    active: Seq<Option<AnimationEffect>>,
    effect: Effect,
    tick: u32,
)
    requires
        active.len() == ACTIVE_CAPACITY,
        !has_same_spot(active, effect),
    ensures
        (forall|j: int| 0 <= j < active.len() ==> (#[trigger] active[j]) is Some) ==> promote_steps(
            active,
            seq![AnimationEffect { tick_start: 0, effect }],
            1,
            tick,
        ) == (active, seq![AnimationEffect { tick_start: 0, effect }]),
        (exists|i: int| 0 <= i < active.len() && active[i] is None) ==> ({
            let (act, pend) = promote_steps(
                active,
                seq![AnimationEffect { tick_start: 0, effect }],
                1,
                tick,
            );
            &&& pend.len() == 0
            &&& exists|i: int|
                0 <= i < act.len() && act[i] == Some(AnimationEffect { tick_start: tick, effect })
        }),
{
    let e = AnimationEffect { tick_start: 0, effect };
    let pending = seq![e];
    assert(pending.drop_first() =~= Seq::<AnimationEffect>::empty());
    assert(Seq::<AnimationEffect>::empty().push(e) =~= pending);
    if forall|j: int| 0 <= j < active.len() ==> (#[trigger] active[j]) is Some {
        assert(!exists|i: int| is_first_free(active, i));
    }
    if exists|i: int| 0 <= i < active.len() && active[i] is None {
        let w = choose|i: int| 0 <= i < active.len() && active[i] is None;
        lemma_first_free_exists(active, w);
        let i = choose|i: int| is_first_free(active, i);
        let act1 = active.update(i, Some(AnimationEffect { tick_start: tick, effect }));
        assert(promote_steps(active, pending, 1, tick) == promote_steps(act1, Seq::empty(), 0, tick));
        assert(promote_steps(active, pending, 1, tick) == (act1, Seq::<AnimationEffect>::empty()));
        assert(act1[i] == Some(AnimationEffect { tick_start: tick, effect }));
        let (act, pend) = promote_steps(active, pending, 1, tick);
        assert(act == act1);
        assert(0 <= i < act.len() && act[i] == Some(AnimationEffect { tick_start: tick, effect }));
    }
}

} // verus!
