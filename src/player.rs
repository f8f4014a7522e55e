use crate::effects::{
    pending_push, AnimationEffect, BounceEffectTile, CoinUp, Effect, EffectsManager, Points,
    ScoreAmount, TileBounce, MAX_EFFECT_COL,
};
use crate::keys::{KeysResponse, KEY_A, KEY_B, KEY_LEFT, KEY_RIGHT};
use crate::level_manager::LevelManager;
use crate::levels::{Tile, BRICK, QUESTION_BLOCK_UNUSED, QUESTION_BLOCK_USED};
use crate::screen::{ScreenInfo, ScreenManager, CAMERA_X_LIMIT, CAMERA_Y_LIMIT};
use crate::stand_window::window_mask;
use crate::tile_grid::{is_tile, shows_tile, TileGrid, GRID_COLS, GRID_ROWS};
use vstd::arithmetic::power2::lemma2_to64;
use vstd::prelude::*;

verus! {

/// First sprite tile of the player.
pub const MARIO_TILE_IDX_START: u16 = 5;

/// Spawn position, in fixed point (32 pixels).
pub const SPAWN_POS: i32 = 8192;

/// Gravity while rising, in fixed point per tick.
pub const VERT_DIFF_UP: i32 = 64;

/// Gravity while falling, in fixed point per tick.
pub const VERT_DIFF_DOWN: i32 = 128;

/// Upward speed of a jump from a fast run.
pub const JUMP_FAST: i32 = -1200;

/// Upward speed of any other jump.
pub const JUMP_NORMAL: i32 = -1100;

/// Upward speed at the start of the death hop.
pub const DIE_LAUNCH: i32 = -1792;

/// Speed above which a run counts as fast (one pixel per tick).
pub const FAST_RUN_SPEED: i32 = 256;

/// Fastest vertical speed.
pub const MAX_Y_SPEED: i32 = 1600;

/// Bound on the horizontal speed.
pub const MAX_ABS_VEL_X: i32 = 800;

/// First row below the playfield.
pub const DIE_ROW: u16 = 32;

/// The player's animation frame.
#[derive(Clone, Copy, PartialEq, Eq, Structural, Debug)]
pub enum MarioAnimationTileIdx {
    Standing,
    Walking1,
    Walking2,
    Walking3,
    Stopping,
    Jumping1,
    DieState,
    SlidePole,
}

/// Offset of the frame among the player's sprite tiles: four tiles a frame.
pub open spec fn tile_offset_spec(t: MarioAnimationTileIdx) -> u16 {
    match t {
        MarioAnimationTileIdx::Standing => 0u16,
        MarioAnimationTileIdx::Walking1 => 4u16,
        MarioAnimationTileIdx::Walking2 => 8u16,
        MarioAnimationTileIdx::Walking3 => 12u16,
        MarioAnimationTileIdx::Stopping => 16u16,
        MarioAnimationTileIdx::Jumping1 => 20u16,
        MarioAnimationTileIdx::DieState => 24u16,
        MarioAnimationTileIdx::SlidePole => 28u16,
    }
}

impl MarioAnimationTileIdx {
    /// Offset of the frame among the player's sprite tiles.
    pub fn tile_offset(&self) -> (r: u16)
        ensures
            r == tile_offset_spec(*self),
    {
        match self {
            MarioAnimationTileIdx::Standing => 0,
            MarioAnimationTileIdx::Walking1 => 4,
            MarioAnimationTileIdx::Walking2 => 8,
            MarioAnimationTileIdx::Walking3 => 12,
            MarioAnimationTileIdx::Stopping => 16,
            MarioAnimationTileIdx::Jumping1 => 20,
            MarioAnimationTileIdx::DieState => 24,
            MarioAnimationTileIdx::SlidePole => 28,
        }
    }
}

/// What the player touches: ground under the feet, something above the
/// head, and walls to the left and right.
#[derive(Clone, Copy, PartialEq, Eq, Structural, Debug)]
pub struct Touch {
    pub bottom: bool,
    pub top: bool,
    pub left: bool,
    pub right: bool,
}

/// Where and how the player's sprite is drawn this frame.
#[derive(Clone, Copy, PartialEq, Eq, Structural, Debug)]
pub struct PlayerSprite {
    pub x: u16,
    pub y: u16,
    pub tile_id: u16,
    pub facing_right: bool,
}

/// `v` divided by `d`, rounded down.
fn floor_div(v: i32, d: i32) -> (r: i32)
    requires
        d > 0,
    ensures
        r == v as int / d as int,
{
    let vv = v as i64;
    let dd = d as i64;
    if vv >= 0 {
        assert(vv / dd <= vv) by (nonlinear_arith)
            requires
                vv >= 0,
                dd >= 1,
        ;
        (vv / dd) as i32
    } else {
        let q = (-vv + dd - 1) / dd;
        proof {
            let n: int = -(vv as int);
            let d: int = dd as int;
            let qi: int = q as int;
            assert(qi == (n + d - 1) / d);
            assert(qi * d >= n && qi * d < n + d) by (nonlinear_arith)
                requires
                    qi == (n + d - 1) / d,
                    d > 0,
                    n > 0,
            ;
            assert(vv as int == (-qi) * d + (vv as int + qi * d)) by (nonlinear_arith);
            assert(qi <= n) by (nonlinear_arith)
                requires
                    qi * d < n + d,
                    d >= 1,
                    n > 0,
            ;
            vstd::arithmetic::div_mod::lemma_fundamental_div_mod_converse(
                vv as int,
                d,
                -qi,
                vv as int + qi * d,
            );
        }
        (-q) as i32
    }
}

/// The grid row (of 8 pixels) of a fixed-point vertical position, as the
/// 16-bit value it wraps to.
pub open spec fn row_of(y: i32) -> u16 {
    (y as int / 2048) as u16
}

/// The column (of 8 pixels) of a fixed-point horizontal position, as the
/// 16-bit value it wraps to.
pub open spec fn col_of(x: i32) -> u16 {
    (x as int / 2048) as u16
}

/// `pattern` shifted left by `shift`, or 0 when the shift leaves the mask.
pub open spec fn mask_bit(shift: int, pattern: u32) -> u32 {
    if 0 <= shift < 32 {
        (pattern << shift as u32) as u32
    } else {
        0
    }
}

fn mask_bit_exec(shift: u16, pattern: u32) -> (r: u32)
    ensures
        r == mask_bit(shift as int, pattern),
{
    if shift < 32 {
        pattern << (shift as u32)
    } else {
        0
    }
}

/// The standability mask that the renderer gives for column `col`.
pub open spec fn col_mask(level: LevelManager, col: int, screen: ScreenInfo) -> u32 {
    window_mask(
        level.window(),
        if col < screen.onscreen_col_start {
            screen.onscreen_col_start as int
        } else if col > screen.onscreen_col_start + 30 {
            screen.onscreen_col_start + 30
        } else {
            col
        },
    )
}

/// The run button and a direction are held, the direction is not against
/// the motion, and the speed is above one pixel per tick.
pub open spec fn fast_run(keys: KeysResponse, vel_x: i32) -> bool {
    let opposite = (keys.pressed(crate::keys::KEY_LEFT) && vel_x > 0) || (keys.pressed(
        crate::keys::KEY_RIGHT,
    ) && vel_x < 0);
    &&& keys.pressed(crate::keys::KEY_B)
    &&& keys.pressed(crate::keys::KEY_LEFT) || keys.pressed(crate::keys::KEY_RIGHT)
    &&& !opposite
    &&& (if vel_x < 0 { -vel_x } else { vel_x as int }) > FAST_RUN_SPEED
}

/// The upward speed that a jump starts with.
pub open spec fn jump_velocity(keys: KeysResponse, vel_x: i32) -> i32 {
    if fast_run(keys, vel_x) {
        JUMP_FAST
    } else {
        JUMP_NORMAL
    }
}

/// A fast run gives a jump a larger upward speed than any other run.
pub proof fn lemma_fast_run_jumps_higher(fast: KeysResponse, slow: KeysResponse, vx: i32, vs: i32)
    requires
        fast_run(fast, vx),
        !fast_run(slow, vs),
    ensures
        jump_velocity(fast, vx) < jump_velocity(slow, vs) < 0,
{
}

/// Which of brick, unused and used question block the grid shows with its
/// top half at (`r`, `c`), if any.
pub open spec fn block_at(grid: TileGrid, r: int, c: int) -> Option<usize> {
    let top = grid.cell(r, c % (GRID_COLS as int));
    let bottom = grid.cell(r + 1, c % (GRID_COLS as int));
    if shows_tile(top, bottom, Tile(BRICK)) {
        Some(BRICK)
    } else if shows_tile(top, bottom, Tile(QUESTION_BLOCK_UNUSED)) {
        Some(QUESTION_BLOCK_UNUSED)
    } else if shows_tile(top, bottom, Tile(QUESTION_BLOCK_USED)) {
        Some(QUESTION_BLOCK_USED)
    } else {
        None
    }
}

/// The waiting effects after hitting `block` at (`r`, `c`): a brick
/// bounces; an unused question block bounces into a used one, a coin rises
/// above it and, 16 ticks later, a score; a used block does nothing.
pub open spec fn hit_effects(pending: Seq<AnimationEffect>, block: usize, r: usize, c: usize) -> Seq<
    AnimationEffect,
> {
    let above = if r >= 1 { (r - 1) as usize } else { 0usize };
    if block == BRICK {
        pending_push(
            pending,
            AnimationEffect {
                tick_start: 0,
                effect: Effect::TileBounce(TileBounce { row: r, col: c, tile: BounceEffectTile::Brick }),
            },
        )
    } else if block == QUESTION_BLOCK_UNUSED {
        pending_push(
            pending_push(
                pending_push(
                    pending,
                    AnimationEffect {
                        tick_start: 0,
                        effect: Effect::TileBounce(
                            TileBounce { row: r, col: c, tile: BounceEffectTile::UsedBlock },
                        ),
                    },
                ),
                AnimationEffect { tick_start: 0, effect: Effect::CoinUp(CoinUp { row: above, col: c }) },
            ),
            AnimationEffect {
                tick_start: 16,
                effect: Effect::Points(Points { row: above, col: c, amount: ScoreAmount::OneHundred }),
            },
        )
    } else {
        pending
    }
}

/// The waiting effects after the head hits the cells (`r`, `c`) and
/// (`r`, `c + 1`): the first of them that holds a block is hit.
pub open spec fn bump_pending(pending: Seq<AnimationEffect>, grid: TileGrid, r: usize, c: usize) -> Seq<
    AnimationEffect,
> {
    match block_at(grid, r as int, c as int) {
        Some(b) => hit_effects(pending, b, r, c),
        None => match block_at(grid, r as int, c + 1) {
            Some(b) => hit_effects(pending, b, r, (c + 1) as usize),
            None => pending,
        },
    }
}

/// Queues the effects of hitting `block` at (`r`, `c`).
fn hit_block(effects: &mut EffectsManager, block: Tile, r: usize, c: usize)
    requires
        old(effects).wf(),
        r + 1 < GRID_ROWS,
        c <= MAX_EFFECT_COL,
    ensures
        final(effects).wf(),
        final(effects).active() == old(effects).active(),
        final(effects).pending() == hit_effects(old(effects).pending(), block.0, r, c),
{
    let above = r.saturating_sub(1);
    if block.0 == BRICK {
        effects.add_effect(TileBounce::new(r, c, BounceEffectTile::Brick).as_effect(), 0);
    } else if block.0 == QUESTION_BLOCK_UNUSED {
        effects.add_effect(TileBounce::new(r, c, BounceEffectTile::UsedBlock).as_effect(), 0);
        effects.add_effect(CoinUp::new(above, c).as_effect(), 0);
        effects.add_effect(Points::new(above, c, ScoreAmount::OneHundred).as_effect(), 16);
    }
}

/// The first block of the three kinds at (`r`, `c`), by the grid.
fn find_block(grid: &TileGrid, r: usize, c: usize) -> (b: Option<Tile>)
    requires
        grid.wf(),
        r + 1 < GRID_ROWS,
    ensures
        match b {
            Some(t) => block_at(*grid, r as int, c as int) == Some(t.0),
            None => block_at(*grid, r as int, c as int) is None,
        },
{
    let tiles = vec![Tile(BRICK), Tile(QUESTION_BLOCK_UNUSED), Tile(QUESTION_BLOCK_USED)];
    assert(tiles@[0] == Tile(BRICK) && tiles@[1] == Tile(QUESTION_BLOCK_UNUSED) && tiles@[2] == Tile(QUESTION_BLOCK_USED));
    let found = is_tile(grid, r, c, &tiles);
    proof {
        let top = grid.cell(r as int, (c % GRID_COLS) as int);
        let bottom = grid.cell(r + 1, (c % GRID_COLS) as int);
        match found {
            Some(t) => {
                let k = choose|k: int|
                    0 <= k < tiles@.len() && tiles@[k] == t && shows_tile(top, bottom, t) && forall|j: int|
                        0 <= j < k ==> !shows_tile(top, bottom, #[trigger] tiles@[j]);
                if k >= 1 {
                    assert(!shows_tile(top, bottom, tiles@[0]));
                }
                if k >= 2 {
                    assert(!shows_tile(top, bottom, tiles@[1]));
                }
            },
            None => {
                assert(!shows_tile(top, bottom, tiles@[0]));
                assert(!shows_tile(top, bottom, tiles@[1]));
                assert(!shows_tile(top, bottom, tiles@[2]));
            },
        }
    }
    found
}

/// The head hit the cells (`r`, `c`) and (`r`, `c + 1`): hits the first of
/// them that holds a block, and queues that block's effects.
pub fn bump_block(grid: &TileGrid, effects: &mut EffectsManager, r: usize, c: usize)
    requires
        grid.wf(),
        old(effects).wf(),
        r + 1 < GRID_ROWS,
        c < MAX_EFFECT_COL,
    ensures
        final(effects).wf(),
        final(effects).active() == old(effects).active(),
        final(effects).pending() == bump_pending(old(effects).pending(), *grid, r, c),
{
    match find_block(grid, r, c) {
        Some(t) => {
            hit_block(effects, t, r, c);
        },
        None => {
            match find_block(grid, r, c + 1) {
                Some(t) => {
                    hit_block(effects, t, r, c + 1);
                },
                None => {},
            }
        },
    }
}

/// The player: fixed-point position and speed, animation frame and
/// countdown, and facing.
pub struct PlayerManager {
    pub player_x: i32,
    pub vel_x: i32,
    pub player_y: i32,
    pub vel_y: i32,
    pub next_anim_tick: u8,
    /// `true` when facing right.
    pub facing_dir: bool,
    pub tile: MarioAnimationTileIdx,
}

impl PlayerManager {
    /// The horizontal speed stays within its bound.
    pub open spec fn wf(&self) -> bool {
        -MAX_ABS_VEL_X <= self.vel_x <= MAX_ABS_VEL_X
    }

    /// The player as it spawns: at (32, 32) pixels, still, facing right.
    pub open spec fn is_spawn(&self) -> bool {
        &&& self.player_x == SPAWN_POS
        &&& self.player_y == SPAWN_POS
        &&& self.vel_x == 0
        &&& self.vel_y == 0
        &&& self.next_anim_tick == 0
        &&& self.facing_dir
        &&& self.tile == MarioAnimationTileIdx::Standing
    }

    pub fn new() -> (p: Self)
        ensures
            p.wf(),
            p.is_spawn(),
    {
        PlayerManager {
            player_x: SPAWN_POS,
            vel_x: 0,
            player_y: SPAWN_POS,
            vel_y: 0,
            next_anim_tick: 0,
            facing_dir: true,
            tile: MarioAnimationTileIdx::Standing,
        }
    }

    fn reset_internal(&mut self)
        ensures
            final(self).wf(),
            final(self).is_spawn(),
    {
        self.tile = MarioAnimationTileIdx::Standing;
        self.next_anim_tick = 0;
        self.vel_x = 0;
        self.vel_y = 0;
        self.player_x = SPAWN_POS;
        self.player_y = SPAWN_POS;
        self.facing_dir = true;
    }

    fn is_moving_left(&self) -> (r: bool)
        ensures
            r == (self.vel_x < 0),
    {
        self.vel_x < 0
    }

    fn is_moving_right(&self) -> (r: bool)
        ensures
            r == (self.vel_x > 0),
    {
        self.vel_x > 0
    }

    fn is_horizontally_stationary(&self) -> (r: bool)
        ensures
            r == (self.vel_x == 0),
    {
        self.vel_x == 0
    }

    fn is_vertically_stationary(&self) -> (r: bool)
        ensures
            r == (self.vel_y == 0),
    {
        self.vel_y == 0
    }

    fn is_moving_up(&self) -> (r: bool)
        ensures
            r == (self.vel_y < 0),
    {
        self.vel_y < 0
    }

    fn is_moving_down(&self) -> (r: bool)
        ensures
            r == (self.vel_y > 0),
    {
        self.vel_y > 0
    }

    /// The row of 8 pixels that the player's top is in.
    pub fn row(&self) -> (r: u16)
        ensures
            r == row_of(self.player_y),
    {
        floor_div(self.player_y, 2048) as u16
    }

    /// The column of 8 pixels that the player's left edge is in.
    pub fn col(&self) -> (r: u16)
        ensures
            r == col_of(self.player_x),
    {
        floor_div(self.player_x, 2048) as u16
    }

    pub fn set_tile(&mut self, tile: MarioAnimationTileIdx)
        ensures
            *final(self) == (PlayerManager { tile, ..*old(self) }),
    {
        self.tile = tile;
    }

    pub fn get_tile(&self) -> (r: MarioAnimationTileIdx)
        ensures
            r == self.tile,
    {
        self.tile
    }

    /// The player stands on something: the mask under its feet is set in
    /// its column or the next, or in the one after when it is far enough
    /// to the right within its column.
    pub open spec fn on_ground(&self, level: LevelManager, screen: ScreenInfo) -> bool {
        let row = row_of(self.player_y);
        let col = col_of(self.player_x) as int;
        let under = mask_bit(row + 2, 1);
        let sorta_right = (self.player_x as int / 256) % 8 >= 3;
        (col_mask(level, col, screen) & under != 0) || (col_mask(level, col + 1, screen) & under
            != 0) || (sorta_right && col_mask(level, col + 2, screen) & under != 0)
    }

    /// The player's head is under something.
    pub open spec fn head_blocked(&self, level: LevelManager, screen: ScreenInfo) -> bool {
        let row = row_of(self.player_y);
        let col = col_of(self.player_x) as int;
        let above = mask_bit(if row >= 1 { row - 1 } else { 0 }, 1);
        (col_mask(level, col, screen) & above != 0) || (col_mask(level, col + 1, screen) & above != 0)
    }

    /// A wall to the left: the mask beside the player's body is set in the
    /// column before its own.
    pub open spec fn wall_left(&self, level: LevelManager, screen: ScreenInfo) -> bool {
        let row = row_of(self.player_y);
        let col = col_of(self.player_x) as int;
        col_mask(level, if col >= 1 { col - 1 } else { 0 }, screen) & mask_bit(row as int, 3) != 0
    }

    /// A wall to the right: the mask beside the player's body is set two
    /// columns after its own.
    pub open spec fn wall_right(&self, level: LevelManager, screen: ScreenInfo) -> bool {
        let row = row_of(self.player_y);
        let col = col_of(self.player_x) as int;
        col_mask(level, col + 2, screen) & mask_bit(row as int, 3) != 0
    }

    /// Everything the player touches.
    pub open spec fn touch_of(&self, level: LevelManager, screen: ScreenInfo) -> Touch {
        Touch {
            bottom: self.on_ground(level, screen),
            top: self.head_blocked(level, screen),
            left: self.wall_left(level, screen),
            right: self.wall_right(level, screen),
        }
    }

    /// The death hop: the first frame launches the player upward; later
    /// frames apply gravity until the player falls below the playfield, and
    /// then the player is back at its spawn.
    pub fn die_state_handler(&mut self)
        requires
            old(self).wf(),
        ensures
            final(self).wf(),
            old(self).next_anim_tick == 0 ==> *final(self) == (PlayerManager {
                vel_y: DIE_LAUNCH,
                next_anim_tick: 1,
                ..*old(self)
            }),
            old(self).next_anim_tick != 0 ==> ({
                let vy = old(self).vel_y.wrapping_add(
                    if old(self).vel_y < 0 { VERT_DIFF_UP } else { VERT_DIFF_DOWN },
                );
                let y = old(self).player_y.wrapping_add(vy);
                if row_of(y) > DIE_ROW {
                    final(self).is_spawn()
                } else {
                    *final(self) == (PlayerManager { vel_y: vy, player_y: y, ..*old(self) })
                }
            }),
    {
        if self.next_anim_tick == 0 {
            self.vel_y = DIE_LAUNCH;
            self.next_anim_tick = 1;
            return;
        }
        let vel_adjuster = if self.is_moving_up() {
            VERT_DIFF_UP
        } else {
            VERT_DIFF_DOWN
        };
        self.vel_y = self.vel_y.wrapping_add(vel_adjuster);
        self.player_y = self.player_y.wrapping_add(self.vel_y);
        if self.row() > DIE_ROW {
            self.reset_internal();
        }
    }

    /// What the player touches this frame.
    fn sense(&self, screen: &ScreenInfo, level: &LevelManager) -> (t: Touch)
        requires
            level.wf(),
            screen.wf(),
        ensures
            t == self.touch_of(*level, *screen),
    {
        let px = floor_div(self.player_x, 256);
        let within = px - floor_div(px, 8) * 8;
        let is_player_sorta_to_the_right = within >= 3;

        let row: u16 = self.row();
        let col: u16 = self.col();
        let bottom_of_player = row.saturating_add(2);
        let mask_above = mask_bit_exec(row.saturating_sub(1), 1);
        let mask_body = mask_bit_exec(row, 3);
        let mask_under = mask_bit_exec(bottom_of_player, 1);

        let left_air = level.collision_mask(col.saturating_sub(1), screen);
        let left_collision = level.collision_mask(col, screen);
        let right_collision = level.collision_mask(col.saturating_add(1), screen);
        let right_air = level.collision_mask(col.saturating_add(2), screen);
        proof {
            assert(mask_under == mask_bit(row + 2, 1));
        }
        Touch {
            bottom: (left_collision & mask_under != 0) || (right_collision & mask_under != 0) || (
            is_player_sorta_to_the_right && (right_air & mask_under != 0)),
            top: (left_collision & mask_above != 0) || (right_collision & mask_above != 0),
            left: left_air & mask_body != 0,
            right: right_air & mask_body != 0,
        }
    }

    /// The vertical half of a frame: gravity with the variable jump, landing,
    /// head hits and jumps. The horizontal speed is left as it was.
    fn vertical_step(
        &mut self,
        keys: &KeysResponse,
        touch: Touch,
        fast: bool,
        grid: &TileGrid,
        effects: &mut EffectsManager,
    )
        requires
            old(self).wf(),
            grid.wf(),
            old(effects).wf(),
        ensures
            final(self).wf(),
            final(effects).wf(),
            final(effects).active() == old(effects).active(),
            *final(self) == vertical_result(*old(self), *keys, touch, fast),
            final(effects).pending() == if old(self).vel_y < 0 && touch.top && row_of(
                old(self).player_y,
            ) < 65 && !air_borne(*old(self), touch) {
                bump_pending(
                    old(effects).pending(),
                    *grid,
                    row_above_head(row_of(old(self).player_y)),
                    (col_of(old(self).player_x) / 2) as usize,
                )
            } else {
                old(effects).pending()
            },
    {
        let row = self.row();
        let col = self.col();
        if (!touch.bottom && !self.is_moving_up()) || (!touch.top && self.is_moving_up()) {
            let vel_adjuster = if self.is_moving_up() {
                VERT_DIFF_UP
            } else {
                VERT_DIFF_DOWN
            };
            let mut need_dec_vel_y = true;
            if keys.a() {
                let max_tick: u8 = if fast {
                    24
                } else {
                    18
                };
                if self.next_anim_tick < max_tick {
                    self.next_anim_tick += 1;
                    if self.next_anim_tick % 2 == 0 {
                        need_dec_vel_y = false;
                    }
                }
            }
            if need_dec_vel_y {
                self.vel_y = self.vel_y.wrapping_add(vel_adjuster);
            }
            self.player_y = self.player_y.wrapping_add(self.vel_y);
        } else if touch.bottom && self.is_moving_down() {
            self.player_y = snapped_y(row, 1);
            self.vel_y = 0;
        } else if touch.top && self.is_moving_up() {
            self.player_y = snapped_y(row, 0);
            self.vel_y = 0;
            if row < 65 {
                let r = row.saturating_sub(2) as usize;
                let c = (col / 2) as usize;
                bump_block(grid, effects, r, c);
            }
        } else if self.is_vertically_stationary() {
            self.player_y = snapped_y(row, 1);
            self.vel_y = 0;
            if keys.is_just_pressed(KEY_A) {
                self.next_anim_tick = 0;
                self.vel_y = if fast {
                    JUMP_FAST
                } else {
                    JUMP_NORMAL
                };
                self.player_y = self.player_y.wrapping_add(self.vel_y);
                self.set_tile(MarioAnimationTileIdx::Jumping1);
            } else if self.get_tile() == MarioAnimationTileIdx::Jumping1 {
                self.set_tile(MarioAnimationTileIdx::Standing);
                self.next_anim_tick = 0;
            }
        }
    }

    /// The horizontal half of a frame: walls stop the player, held
    /// directions accelerate up to the running or walking top speed, and
    /// with no direction held the player slows down. Returns whether the
    /// player turned around on the ground. The vertical speed is clamped.
    fn horizontal_step(&mut self, keys: &KeysResponse, touch: Touch, opposite: bool) -> (stopping: bool)
        requires
            old(self).wf(),
            opposite == ((keys.pressed(KEY_LEFT) && old(self).vel_x > 0) || (keys.pressed(KEY_RIGHT)
                && old(self).vel_x < 0)),
        ensures
            final(self).wf(),
            (*final(self), stopping) == horizontal_result(*old(self), *keys, touch),
    {
        let x_mod_on_move: i32 = if opposite {
            32
        } else {
            16
        };
        let max_x_speed: i32 = if keys.b() {
            768
        } else {
            512
        };
        let mut stopping_conditions: bool = false;
        if touch.left && (self.is_moving_left() || keys.left()) {
            self.vel_x = 0;
            self.player_x = snapped_x(self.col(), 0);
        } else if touch.right && (self.is_moving_right() || keys.right()) {
            self.vel_x = 0;
            self.player_x = snapped_x(self.col(), 2);
        } else if keys.left() {
            if self.vel_x >= -max_x_speed {
                self.vel_x = self.vel_x - x_mod_on_move;
                if self.vel_x < -max_x_speed {
                    self.vel_x = -max_x_speed;
                } else if self.is_moving_right() && self.is_vertically_stationary() {
                    self.set_tile(MarioAnimationTileIdx::Stopping);
                    stopping_conditions = true;
                }
            }
        } else if keys.right() {
            if self.vel_x <= max_x_speed {
                self.vel_x = self.vel_x + x_mod_on_move;
                if self.vel_x > max_x_speed {
                    self.vel_x = max_x_speed;
                } else if self.is_moving_left() && self.is_vertically_stationary() {
                    self.set_tile(MarioAnimationTileIdx::Stopping);
                    stopping_conditions = true;
                }
            }
        } else {
            if self.is_moving_right() {
                self.vel_x = self.vel_x - 16;
            } else if self.is_moving_left() {
                self.vel_x = self.vel_x + 16;
            }
        }
        if self.vel_x > max_x_speed {
            self.vel_x = self.vel_x - 8;
        } else if self.vel_x < -max_x_speed {
            self.vel_x = self.vel_x + 8;
        }
        if self.vel_y > MAX_Y_SPEED {
            self.vel_y = MAX_Y_SPEED;
        } else if self.vel_y < -MAX_Y_SPEED {
            self.vel_y = -MAX_Y_SPEED;
        }
        stopping_conditions
    }

    /// The walking animation: on the ground and moving, the frame advances
    /// when the countdown runs out, which is then reseeded to
    /// `max(2, 10 - 3 * speed)`; standing still on the ground shows the
    /// standing frame.
    fn animation_step(&mut self, keys: &KeysResponse, on_ground: bool, stopping: bool)
        requires
            old(self).wf(),
        ensures
            *final(self) == animation_result(*old(self), *keys, on_ground, stopping),
    {
        let is_walking_animation_valid_horizontally: bool = !self.is_horizontally_stationary() || (
        keys.left() || keys.right());
        if on_ground && is_walking_animation_valid_horizontally && self.is_vertically_stationary() {
            self.next_anim_tick = self.next_anim_tick.saturating_sub(1);
            if self.next_anim_tick == 0 {
                let abs_now = if self.vel_x < 0 {
                    -self.vel_x
                } else {
                    self.vel_x
                };
                let step = (abs_now * 3) / 256;
                self.next_anim_tick = (10 - step) as u8;
                if self.next_anim_tick < 2 {
                    self.next_anim_tick = 2;
                }
                let new_tile = match self.get_tile() {
                    MarioAnimationTileIdx::Stopping => {
                        if stopping {
                            MarioAnimationTileIdx::Stopping
                        } else {
                            MarioAnimationTileIdx::Walking1
                        }
                    },
                    MarioAnimationTileIdx::Standing => MarioAnimationTileIdx::Walking1,
                    MarioAnimationTileIdx::Walking1 => MarioAnimationTileIdx::Walking2,
                    MarioAnimationTileIdx::Walking2 => MarioAnimationTileIdx::Walking3,
                    MarioAnimationTileIdx::Walking3 => MarioAnimationTileIdx::Walking1,
                    _ => MarioAnimationTileIdx::Walking1,
                };
                self.set_tile(new_tile);
            }
        } else if on_ground && self.is_horizontally_stationary() && self.is_vertically_stationary() {
            self.set_tile(MarioAnimationTileIdx::Standing);
            self.next_anim_tick = 0;
        }
    }

    /// One frame of ordinary movement: gravity, landing, head hits, jumps,
    /// running, collisions with walls, the walking animation and falling
    /// out of the playfield.
    pub fn default_movement_handler(
        &mut self,
        keys: &KeysResponse,
        screen: &ScreenInfo,
        level: &LevelManager,
        grid: &TileGrid,
        effects: &mut EffectsManager,
    )
        requires
            old(self).wf(),
            level.wf(),
            grid.wf(),
            screen.wf(),
            old(effects).wf(),
        ensures
            final(self).wf(),
            final(effects).wf(),
            move_step(
                *old(self),
                *final(self),
                *keys,
                *level,
                *grid,
                *screen,
                old(effects).pending(),
                final(effects).pending(),
            ),
            final(effects).active() == old(effects).active(),
    {
        let ghost pre = *self;
        let touch = self.sense(screen, level);
        let is_new_direction_opposite_cur_dir = (keys.left() && self.vel_x > 0) || (keys.right()
            && self.vel_x < 0);
        let abs_vel_x = if self.vel_x < 0 {
            -self.vel_x
        } else {
            self.vel_x
        };
        let is_fast_enough_run = keys.b() && (keys.left() || keys.right())
            && !is_new_direction_opposite_cur_dir && abs_vel_x > FAST_RUN_SPEED;
        proof {
            assert(is_fast_enough_run == fast_run(*keys, self.vel_x));
        }

        self.vertical_step(keys, touch, is_fast_enough_run, grid, effects);
        let stopping = self.horizontal_step(keys, touch, is_new_direction_opposite_cur_dir);
        self.animation_step(keys, touch.bottom, stopping);

        self.finish_step(screen);
        proof {
            lemma_move_facts(pre, *keys, *level, *screen);
        }
    }

    /// The end of a frame: moves the player by its speed, keeps it right of
    /// the camera, stops a crawl, starts dying below the playfield and turns
    /// the player the way it moves.
    fn finish_step(&mut self, screen: &ScreenInfo)
        requires
            old(self).wf(),
        ensures
            *final(self) == finish_result(*old(self), *screen),
            final(self).wf(),
    {
        self.player_x = self.player_x.wrapping_add(self.vel_x);
        if self.player_x < screen.affn_x {
            self.player_x = screen.affn_x;
            self.vel_x = 0;
        }
        if self.vel_x > -16 && self.vel_x < 16 {
            self.vel_x = 0;
        }
        if self.row() >= DIE_ROW {
            self.set_tile(MarioAnimationTileIdx::DieState);
            self.next_anim_tick = 0;
        }
        let tile = self.get_tile();
        if self.is_moving_left() && tile != MarioAnimationTileIdx::Jumping1 {
            self.facing_dir = false;
        } else if self.is_moving_right() && tile != MarioAnimationTileIdx::Jumping1 {
            self.facing_dir = true;
        }
    }

    /// One frame of the player: the death hop while dying, ordinary
    /// movement otherwise; then the camera follows the player, and the
    /// player's sprite is returned.
    pub fn tick(
        &mut self,
        keys: &KeysResponse,
        camera: &mut ScreenManager,
        level: &LevelManager,
        grid: &TileGrid,
        effects: &mut EffectsManager,
    ) -> (sprite: PlayerSprite)
        requires
            old(self).wf(),
            old(camera).wf(),
            level.wf(),
            grid.wf(),
            old(effects).wf(),
        ensures
            final(self).wf(),
            final(camera).wf(),
            final(effects).wf(),
            final(effects).active() == old(effects).active(),
            old(self).tile == MarioAnimationTileIdx::DieState ==> die_step(*old(self), *final(self))
                && final(effects).pending() == old(effects).pending(),
            old(self).tile != MarioAnimationTileIdx::DieState ==> move_step(
                *old(self),
                *final(self),
                *keys,
                *level,
                *grid,
                old(camera).view_info(),
                old(effects).pending(),
                final(effects).pending(),
            ),
            final(camera).affn_x >= old(camera).affn_x,
            (final(camera).affn_x, final(camera).affn_y) == follow_camera(
                *old(camera),
                final(self).player_x,
                final(self).player_y,
            ),
            sprite.tile_id == (MARIO_TILE_IDX_START + tile_offset_spec(final(self).tile)) * 2,
            sprite.facing_right == final(self).facing_dir,
            sprite.x == (final(self).player_x.wrapping_sub(old(camera).affn_x) as int / 256) as u16,
            sprite.y == (final(self).player_y.wrapping_sub(old(camera).affn_y) as int / 256) as u16,
    {
        let screen = camera.get_screen_info();
        if self.get_tile() == MarioAnimationTileIdx::DieState {
            self.die_state_handler();
        } else {
            self.default_movement_handler(keys, &screen, level, grid, effects);
        }

        let middle_screen_px = screen.affn_x.wrapping_add(80 * 256);
        let player_min_y = screen.affn_y.wrapping_add(45 * 256);
        let player_max_y = screen.affn_y.wrapping_add(120 * 256);

        let y_diff = if self.player_y < player_min_y {
            self.player_y.wrapping_sub(player_min_y)
        } else if self.player_y > player_max_y {
            self.player_y.wrapping_sub(player_max_y)
        } else {
            0
        };

        let mut to_far = self.player_x.wrapping_sub(middle_screen_px);
        if to_far <= 0 {
            to_far = 0;
        }
        if to_far != 0 || y_diff != 0 {
            camera.translate(to_far, y_diff);
        }

        let sx = floor_div(self.player_x.wrapping_sub(screen.affn_x), 256) as u16;
        let sy = floor_div(self.player_y.wrapping_sub(screen.affn_y), 256) as u16;
        let offset = self.tile.tile_offset();
        PlayerSprite {
            x: sx,
            y: sy,
            tile_id: (MARIO_TILE_IDX_START + offset) * 2,
            facing_right: self.facing_dir,
        }
    }
}

/// The fixed-point position of the top of row `row` of 8 pixels, plus
/// `extra` pixels, with the row taken as a 16-bit count of pixels.
pub open spec fn snapped(row: u16, extra: int) -> i32 {
    ((((row as int * 8) % 0x1_0000) + extra) * 256) as i32
}

fn snapped_y(row: u16, extra: i32) -> (r: i32)
    requires
        0 <= extra <= 2,
    ensures
        r == snapped(row, extra as int),
{
    let px: u32 = (row as u32 * 8) % 0x1_0000;
    ((px as i32) + extra) * 256
}

fn snapped_x(col: u16, extra: i32) -> (r: i32)
    requires
        0 <= extra <= 2,
    ensures
        r == snapped(col, extra as int),
{
    snapped_y(col, extra)
}

/// The camera after following a player at (`px`, `py`): it scrolls right
/// (never left) until the player is at most 80 pixels from its left edge,
/// and up or down until the player is between 45 and 120 pixels from its
/// top; the scroll stops at the camera's limits.
pub open spec fn follow_camera(cam: ScreenManager, px: i32, py: i32) -> (i32, i32) {
    let ahead = px.wrapping_sub(cam.affn_x.wrapping_add(20480i32));
    let to_far: i32 = if ahead <= 0 { 0 } else { ahead };
    let min_y = cam.affn_y.wrapping_add(11520i32);
    let max_y = cam.affn_y.wrapping_add(30720i32);
    let y_diff: i32 = if py < min_y {
        py.wrapping_sub(min_y)
    } else if py > max_y {
        py.wrapping_sub(max_y)
    } else {
        0
    };
    if to_far == 0 && y_diff == 0 {
        (cam.affn_x, cam.affn_y)
    } else {
        let y = cam.affn_y.wrapping_add(y_diff);
        (
            if cam.affn_x + to_far <= CAMERA_X_LIMIT { (cam.affn_x + to_far) as i32 } else { CAMERA_X_LIMIT },
            if y > CAMERA_Y_LIMIT { CAMERA_Y_LIMIT } else { y },
        )
    }
}

/// The grid row of the block that a head in row `row` hits: two rows up,
/// or the top row.
pub open spec fn row_above_head(row: u16) -> usize {
    if row >= 2 {
        (row - 2) as usize
    } else {
        0
    }
}

/// One frame of the death hop, from `pre` to `post`.
pub open spec fn die_step(pre: PlayerManager, post: PlayerManager) -> bool {
    if pre.next_anim_tick == 0 {
        post == (PlayerManager { vel_y: DIE_LAUNCH, next_anim_tick: 1, ..pre })
    } else {
        let vy = pre.vel_y.wrapping_add(if pre.vel_y < 0 { VERT_DIFF_UP } else { VERT_DIFF_DOWN });
        let y = pre.player_y.wrapping_add(vy);
        if row_of(y) > DIE_ROW {
            post.is_spawn()
        } else {
            post == (PlayerManager { vel_y: vy, player_y: y, ..pre })
        }
    }
}

/// The player is in the air this frame: nothing under a player that is
/// not rising, or nothing above a rising one.
pub open spec fn air_borne(pre: PlayerManager, touch: Touch) -> bool {
    (!touch.bottom && pre.vel_y >= 0) || (!touch.top && pre.vel_y < 0)
}

/// In the air: the countdown counts the ticks the jump button is held, up
/// to 24 on a fast run and 18 otherwise; gravity (slower rising than
/// falling) is skipped on every second counted tick; the player moves by
/// the new speed.
pub open spec fn air_result(pre: PlayerManager, keys: KeysResponse, fast: bool) -> PlayerManager {
    let max_tick: u8 = if fast { 24 } else { 18 };
    let counting = keys.pressed(KEY_A) && pre.next_anim_tick < max_tick;
    let n: u8 = if counting { (pre.next_anim_tick + 1) as u8 } else { pre.next_anim_tick };
    let skip = counting && n % 2 == 0;
    let adj = if pre.vel_y < 0 { VERT_DIFF_UP } else { VERT_DIFF_DOWN };
    let v = if skip { pre.vel_y } else { pre.vel_y.wrapping_add(adj) };
    PlayerManager { next_anim_tick: n, vel_y: v, player_y: pre.player_y.wrapping_add(v), ..pre }
}

/// The vertical half of a frame: in the air gravity acts; landing snaps
/// to standing height and stops; a head hit snaps under the block and
/// stops; standing, a fresh press of the jump button jumps with the jump
/// speed and the jump frame, and a finished jump shows the standing frame.
pub open spec fn vertical_result(
    pre: PlayerManager,
    keys: KeysResponse,
    touch: Touch,
    fast: bool,
) -> PlayerManager {
    let row = row_of(pre.player_y);
    if air_borne(pre, touch) {
        air_result(pre, keys, fast)
    } else if pre.vel_y > 0 {
        PlayerManager { player_y: snapped(row, 1), vel_y: 0, ..pre }
    } else if pre.vel_y < 0 {
        PlayerManager { player_y: snapped(row, 0), vel_y: 0, ..pre }
    } else if keys.just_pressed(KEY_A) {
        let v = if fast { JUMP_FAST } else { JUMP_NORMAL };
        PlayerManager {
            player_y: snapped(row, 1).wrapping_add(v),
            vel_y: v,
            next_anim_tick: 0,
            tile: MarioAnimationTileIdx::Jumping1,
            ..pre
        }
    } else if pre.tile == MarioAnimationTileIdx::Jumping1 {
        PlayerManager {
            player_y: snapped(row, 1),
            vel_y: 0,
            next_anim_tick: 0,
            tile: MarioAnimationTileIdx::Standing,
            ..pre
        }
    } else {
        PlayerManager { player_y: snapped(row, 1), vel_y: 0, ..pre }
    }
}

/// `v` held within the vertical speed bound.
pub open spec fn clamp_vel_y(v: i32) -> i32 {
    if v > MAX_Y_SPEED {
        MAX_Y_SPEED
    } else if v < -MAX_Y_SPEED {
        (-MAX_Y_SPEED) as i32
    } else {
        v
    }
}

/// The horizontal half of a frame, and whether the player turned around
/// on the ground. A wall in the way stops the player and snaps it to its
/// column; a held direction changes the speed by 16 (32 when reversing)
/// toward the top speed, 512 or 768 with the run button, showing the
/// turning frame when the speed changes sign on the ground; with no
/// direction held the speed moves 16 toward 0. A speed above the top
/// speed then loses 8. The vertical speed is held to its bound.
pub open spec fn horizontal_result(pre: PlayerManager, keys: KeysResponse, touch: Touch) -> (
    PlayerManager,
    bool,
) {
    let vx = pre.vel_x;
    let left = keys.pressed(KEY_LEFT);
    let right = keys.pressed(KEY_RIGHT);
    let opposite = (left && vx > 0) || (right && vx < 0);
    let step: i32 = if opposite { 32 } else { 16 };
    let max: i32 = if keys.pressed(KEY_B) { 768 } else { 512 };
    let col = col_of(pre.player_x);
    let (v1, x, stop) = if touch.left && (vx < 0 || left) {
        (0i32, snapped(col, 0), false)
    } else if touch.right && (vx > 0 || right) {
        (0i32, snapped(col, 2), false)
    } else if left {
        if vx >= -max {
            if vx - step < -max {
                ((-max) as i32, pre.player_x, false)
            } else {
                ((vx - step) as i32, pre.player_x, vx - step > 0 && pre.vel_y == 0)
            }
        } else {
            (vx, pre.player_x, false)
        }
    } else if right {
        if vx <= max {
            if vx + step > max {
                (max, pre.player_x, false)
            } else {
                ((vx + step) as i32, pre.player_x, vx + step < 0 && pre.vel_y == 0)
            }
        } else {
            (vx, pre.player_x, false)
        }
    } else if vx > 0 {
        ((vx - 16) as i32, pre.player_x, false)
    } else if vx < 0 {
        ((vx + 16) as i32, pre.player_x, false)
    } else {
        (vx, pre.player_x, false)
    };
    let v2: i32 = if v1 > max {
        (v1 - 8) as i32
    } else if v1 < -max {
        (v1 + 8) as i32
    } else {
        v1
    };
    (
        PlayerManager {
            vel_x: v2,
            player_x: x,
            vel_y: clamp_vel_y(pre.vel_y),
            tile: if stop { MarioAnimationTileIdx::Stopping } else { pre.tile },
            ..pre
        },
        stop,
    )
}

/// The walking frame that follows `t`.
pub open spec fn next_walk(t: MarioAnimationTileIdx, stopping: bool) -> MarioAnimationTileIdx {
    match t {
        MarioAnimationTileIdx::Stopping => if stopping {
            MarioAnimationTileIdx::Stopping
        } else {
            MarioAnimationTileIdx::Walking1
        },
        MarioAnimationTileIdx::Standing => MarioAnimationTileIdx::Walking1,
        MarioAnimationTileIdx::Walking1 => MarioAnimationTileIdx::Walking2,
        MarioAnimationTileIdx::Walking2 => MarioAnimationTileIdx::Walking3,
        MarioAnimationTileIdx::Walking3 => MarioAnimationTileIdx::Walking1,
        _ => MarioAnimationTileIdx::Walking1,
    }
}

/// The walking animation: on the ground and moving (or pushing), the
/// countdown runs down and, when it runs out, the next walking frame shows
/// and the countdown restarts at `max(2, 10 - 3 * speed)`, speed in pixels;
/// standing still on the ground shows the standing frame.
pub open spec fn animation_result(
    pre: PlayerManager,
    keys: KeysResponse,
    on_ground: bool,
    stopping: bool,
) -> PlayerManager {
    let walking = pre.vel_x != 0 || keys.pressed(KEY_LEFT) || keys.pressed(KEY_RIGHT);
    if on_ground && walking && pre.vel_y == 0 {
        let n: u8 = if pre.next_anim_tick > 0 { (pre.next_anim_tick - 1) as u8 } else { 0 };
        if n == 0 {
            let speed = if pre.vel_x < 0 { -pre.vel_x } else { pre.vel_x as int };
            let seed = 10 - (speed * 3) / 256;
            PlayerManager {
                next_anim_tick: (if seed < 2 { 2 } else { seed }) as u8,
                tile: next_walk(pre.tile, stopping),
                ..pre
            }
        } else {
            PlayerManager { next_anim_tick: n, ..pre }
        }
    } else if on_ground && pre.vel_x == 0 && pre.vel_y == 0 {
        PlayerManager { tile: MarioAnimationTileIdx::Standing, next_anim_tick: 0, ..pre }
    } else {
        pre
    }
}

/// The end of a frame: the player moves by its speed but not left of the
/// camera, where it stops; a crawl below 16 stops; below the playfield the
/// player is dying; the player faces the way it moves unless jumping.
pub open spec fn finish_result(pre: PlayerManager, screen: ScreenInfo) -> PlayerManager {
    let x2 = pre.player_x.wrapping_add(pre.vel_x);
    let (x, v1) = if x2 < screen.affn_x { (screen.affn_x, 0i32) } else { (x2, pre.vel_x) };
    let v = if -16 < v1 < 16 { 0i32 } else { v1 };
    let dying = row_of(pre.player_y) >= DIE_ROW;
    let tile = if dying { MarioAnimationTileIdx::DieState } else { pre.tile };
    let next = if dying { 0u8 } else { pre.next_anim_tick };
    let facing = if v < 0 && tile != MarioAnimationTileIdx::Jumping1 {
        false
    } else if v > 0 && tile != MarioAnimationTileIdx::Jumping1 {
        true
    } else {
        pre.facing_dir
    };
    PlayerManager { player_x: x, vel_x: v, tile, next_anim_tick: next, facing_dir: facing, ..pre }
}

/// One whole frame of ordinary movement, from `pre`.
pub open spec fn move_result(
    pre: PlayerManager,
    keys: KeysResponse,
    level: LevelManager,
    screen: ScreenInfo,
) -> PlayerManager {
    let touch = pre.touch_of(level, screen);
    let v = vertical_result(pre, keys, touch, fast_run(keys, pre.vel_x));
    let (h, stopping) = horizontal_result(v, keys, touch);
    let a = animation_result(h, keys, touch.bottom, stopping);
    finish_result(a, screen)
}

/// What a frame of ordinary movement from `pre` to `post` means in
/// words: gravity in the air, landing, head hits and jumps as the vertical
/// half says, the vertical speed bound, a player below the playfield
/// dying, and the player right of the camera's left edge.
pub open spec fn move_facts(
    pre: PlayerManager,
    post: PlayerManager,
    keys: KeysResponse,
    level: LevelManager,
    screen: ScreenInfo,
) -> bool {
    let row = row_of(pre.player_y);
    let jump = jump_velocity(keys, pre.vel_x);
    &&& !pre.on_ground(level, screen) && pre.vel_y >= 0 && !keys.pressed(KEY_A) ==> post.vel_y
        == clamp_vel_y(pre.vel_y.wrapping_add(VERT_DIFF_DOWN)) && post.player_y
        == pre.player_y.wrapping_add(pre.vel_y.wrapping_add(VERT_DIFF_DOWN))
    &&& pre.on_ground(level, screen) && pre.vel_y > 0 ==> post.vel_y == 0 && post.player_y
        == snapped(row, 1)
    &&& pre.head_blocked(level, screen) && pre.vel_y < 0 ==> post.vel_y == 0 && post.player_y
        == snapped(row, 0)
    &&& pre.vel_y == 0 && pre.on_ground(level, screen) && keys.just_pressed(KEY_A) ==> {
        &&& post.vel_y == jump
        &&& post.player_y == snapped(row, 1).wrapping_add(jump)
        &&& row_of(post.player_y) < DIE_ROW ==> post.tile == MarioAnimationTileIdx::Jumping1
        &&& post.next_anim_tick == 0
    }
    &&& -MAX_Y_SPEED <= post.vel_y <= MAX_Y_SPEED
    &&& row_of(post.player_y) >= DIE_ROW ==> post.tile == MarioAnimationTileIdx::DieState
        && post.next_anim_tick == 0
    &&& post.player_x >= screen.affn_x
}

/// The frame's result has the properties spelled out by `move_facts`.
pub proof fn lemma_move_facts(pre: PlayerManager, keys: KeysResponse, level: LevelManager, screen: ScreenInfo)
    requires
        pre.wf(),
    ensures
        move_facts(pre, move_result(pre, keys, level, screen), keys, level, screen),
{
}

/// One frame of ordinary movement from `pre` to `post`: `post` is the
/// frame's result, a head hit queues the effects of the block above and
/// nothing else is queued. Spelled out: gravity in the air, landing,
/// head hits and jumps as the vertical half says, the vertical speed
/// bound, and a player below the playfield dying.
pub open spec fn move_step(
    pre: PlayerManager,
    post: PlayerManager,
    keys: KeysResponse,
    level: LevelManager,
    grid: TileGrid,
    screen: ScreenInfo,
    pending_pre: Seq<AnimationEffect>,
    pending_post: Seq<AnimationEffect>,
) -> bool {
    let row = row_of(pre.player_y);
    let col = col_of(pre.player_x);
    let jump = jump_velocity(keys, pre.vel_x);
    &&& post == move_result(pre, keys, level, screen)
    &&& pending_post == if pre.vel_y < 0 && pre.head_blocked(level, screen) && row < 65 {
        bump_pending(pending_pre, grid, row_above_head(row), (col / 2) as usize)
    } else {
        pending_pre
    }
    &&& move_facts(pre, post, keys, level, screen)
}

} // verus!
