use mario::effects::{
    AnimationEffect, BounceEffectTile, CoinUp, EffectsManager, Points, ScoreAmount, TileBounce,
};
use mario::keys::{KeysResponse, KEY_A, KEY_B, KEY_LEFT, KEY_RIGHT};
use mario::level_manager::LevelManager;
use mario::levels::level_1_1;
use mario::player::{MarioAnimationTileIdx, PlayerManager, SPAWN_POS};
use mario::screen::ScreenManager;
use mario::tile_grid::TileGrid;

struct World {
    camera: ScreenManager,
    level: LevelManager,
    grid: TileGrid,
    effects: EffectsManager,
    player: PlayerManager,
}

fn world() -> World {
    let camera = ScreenManager::new();
    let mut level = LevelManager::new(level_1_1());
    let mut grid = TileGrid::new();
    level.process_screen(&mut grid, &camera.get_screen_info());
    World { camera, level, grid, effects: EffectsManager::new(), player: PlayerManager::new() }
}

fn step(w: &mut World, keys: KeysResponse) {
    w.player.tick(&keys, &mut w.camera, &w.level, &w.grid, &mut w.effects);
}

fn standing_runner(vel_x: i32) -> World {
    let mut w = world();
    w.player.player_x = 2 * 2048;
    w.player.player_y = 28 * 2048;
    w.player.vel_x = vel_x;
    w.player.vel_y = 0;
    w
}

#[test]
fn fast_run_jump_is_higher() {
    let mut w = standing_runner(640);
    step(&mut w, KeysResponse::new(KEY_A | KEY_B | KEY_RIGHT, 0));
    assert_eq!(w.player.vel_y, -1200);
    assert_eq!(w.player.tile, MarioAnimationTileIdx::Jumping1);

    let mut w = standing_runner(640);
    step(&mut w, KeysResponse::new(KEY_A | KEY_RIGHT, 0));
    assert_eq!(w.player.vel_y, -1100);

    let mut w = standing_runner(640);
    step(&mut w, KeysResponse::new(KEY_A | KEY_B | KEY_LEFT, 0));
    assert_eq!(w.player.vel_y, -1100);

    let mut w = standing_runner(200);
    step(&mut w, KeysResponse::new(KEY_A | KEY_B | KEY_RIGHT, 0));
    assert_eq!(w.player.vel_y, -1100);
}

#[test]
fn held_jump_button_does_not_jump_again() {
    let mut w = standing_runner(0);
    step(&mut w, KeysResponse::new(KEY_A, KEY_A));
    assert_eq!(w.player.vel_y, 0);
    assert_eq!(w.player.player_y, (28 * 8 + 1) * 256);
}

#[test]
fn walking_accelerates_and_animates() {
    let mut w = standing_runner(0);
    step(&mut w, KeysResponse::new(KEY_RIGHT, 0));
    assert_eq!(w.player.vel_x, 16);
    assert_eq!(w.player.tile, MarioAnimationTileIdx::Walking1);
    assert_eq!(w.player.next_anim_tick, 10);
    assert!(w.player.facing_dir);
    for _ in 0..100 {
        step(&mut w, KeysResponse::new(KEY_RIGHT, KEY_RIGHT));
    }
    assert_eq!(w.player.vel_x, 512);
}

#[test]
fn releasing_direction_slows_down() {
    let mut w = standing_runner(100);
    step(&mut w, KeysResponse::new(0, 0));
    assert_eq!(w.player.vel_x, 84);
}

#[test]
fn head_hit_on_question_block_queues_effects() {
    let mut w = world();
    w.player.player_x = 8 * 2048;
    w.player.player_y = 24 * 2048;
    w.player.vel_y = -500;
    step(&mut w, KeysResponse::new(0, 0));
    assert_eq!(w.player.vel_y, 0);
    assert_eq!(
        w.effects.waiting(),
        vec![
            AnimationEffect {
                tick_start: 0,
                effect: TileBounce::new(22, 4, BounceEffectTile::UsedBlock).as_effect()
            },
            AnimationEffect { tick_start: 0, effect: CoinUp::new(21, 4).as_effect() },
            AnimationEffect {
                tick_start: 16,
                effect: Points::new(21, 4, ScoreAmount::OneHundred).as_effect()
            },
        ]
    );
}

#[test]
fn falling_out_dies_then_respawns() {
    let mut w = world();
    w.player.player_x = 2 * 2048;
    w.player.player_y = 33 * 2048;
    w.player.vel_x = 100;
    step(&mut w, KeysResponse::new(0, 0));
    assert_eq!(w.player.tile, MarioAnimationTileIdx::DieState);
    assert_eq!(w.player.next_anim_tick, 0);
    step(&mut w, KeysResponse::new(0, 0));
    assert_eq!(w.player.vel_y, -1792);
    let mut n = 0;
    while w.player.tile == MarioAnimationTileIdx::DieState {
        step(&mut w, KeysResponse::new(0, 0));
        n += 1;
        assert!(n < 500);
    }
    assert_eq!(w.player.player_x, SPAWN_POS);
    assert_eq!(w.player.player_y, SPAWN_POS);
    assert_eq!(w.player.vel_x, 0);
    assert_eq!(w.player.vel_y, 0);
    assert!(w.player.facing_dir);
    assert_eq!(w.player.tile, MarioAnimationTileIdx::Standing);
}

#[test]
fn camera_follows_right_only() {
    let mut w = standing_runner(0);
    w.player.player_x = 100 * 256;
    step(&mut w, KeysResponse::new(0, 0));
    assert_eq!(w.camera.affn_x, 20 * 256);
    w.player.player_x = 30 * 256;
    step(&mut w, KeysResponse::new(0, 0));
    assert_eq!(w.camera.affn_x, 20 * 256);
}

#[test]
fn sprite_shows_frame_and_position() {
    let mut w = standing_runner(0);
    let keys = KeysResponse::new(0, 0);
    let sprite = w.player.tick(&keys, &mut w.camera, &w.level, &w.grid, &mut w.effects);
    assert_eq!(sprite.tile_id, 10);
    assert_eq!(sprite.x, 16);
    assert!(sprite.facing_right);
}
