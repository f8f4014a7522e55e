use mario::effects::{
    tile_to_screenspace, wobble, AnimationEffect, BounceEffectTile, CoinUp, Effect,
    EffectsManager, Points, ScoreAmount, TileBounce,
};
use mario::levels::{Tile, BRICK, QUESTION_BLOCK_USED};
use mario::player::bump_block;
use mario::screen::ScreenManager;
use mario::tile_grid::{draw_tile, is_tile, TileGrid};
use mario::levels::QUESTION_BLOCK_UNUSED;

fn bounce(row: usize, col: usize) -> Effect {
    TileBounce::new(row, col, BounceEffectTile::Brick).as_effect()
}

#[test]
fn duplicate_bounces_start_once() {
    let mut effects = EffectsManager::new();
    let mut grid = TileGrid::new();
    effects.add_effect(bounce(5, 3), 0);
    effects.add_effect(bounce(5, 3), 0);
    effects.tick(0, &mut grid);
    let running = effects.running();
    assert_eq!(running.len(), 1);
    assert_eq!(running[0].1.effect, bounce(5, 3));
    assert!(effects.waiting().is_empty());
}

#[test]
fn same_spot_other_kind_is_not_a_duplicate() {
    let mut effects = EffectsManager::new();
    let mut grid = TileGrid::new();
    effects.add_effect(bounce(5, 3), 0);
    effects.add_effect(CoinUp::new(5, 3).as_effect(), 0);
    effects.tick(0, &mut grid);
    assert_eq!(effects.running().len(), 2);
}

#[test]
fn ninth_effect_waits_until_a_slot_frees() {
    let mut effects = EffectsManager::new();
    let mut grid = TileGrid::new();
    for c in 0..6 {
        effects.add_effect(CoinUp::new(2, c).as_effect(), 0);
    }
    effects.tick(0, &mut grid);
    effects.add_effect(CoinUp::new(2, 6).as_effect(), 0);
    effects.add_effect(CoinUp::new(2, 7).as_effect(), 0);
    effects.tick(1, &mut grid);
    assert_eq!(effects.running().len(), 8);
    effects.add_effect(CoinUp::new(2, 8).as_effect(), 0);
    effects.tick(2, &mut grid);
    assert_eq!(effects.running().len(), 8);
    let waiting = effects.waiting();
    assert_eq!(waiting.len(), 1);
    assert_eq!(waiting[0], AnimationEffect { tick_start: 0, effect: CoinUp::new(2, 8).as_effect() });
    // the first six coins end at tick 16
    let mut tick = 3;
    while effects.waiting().len() == 1 {
        effects.tick(tick, &mut grid);
        tick += 1;
        assert!(tick < 40);
    }
    assert!(effects.running().iter().any(|(_, e)| e.effect == CoinUp::new(2, 8).as_effect()));
}

#[test]
fn delayed_effect_starts_after_its_delay() {
    let mut effects = EffectsManager::new();
    let mut grid = TileGrid::new();
    effects.add_effect(Points::new(1, 1, ScoreAmount::OneHundred).as_effect(), 2);
    effects.tick(0, &mut grid);
    assert!(effects.running().is_empty());
    effects.tick(1, &mut grid);
    assert!(effects.running().is_empty());
    effects.tick(2, &mut grid);
    let running = effects.running();
    assert_eq!(running.len(), 1);
    assert_eq!(running[0].1.tick_start, 2);
}

#[test]
fn full_pending_queue_drops_oldest() {
    let mut effects = EffectsManager::new();
    for c in 0..7 {
        effects.add_effect(CoinUp::new(1, c).as_effect(), 3);
    }
    let waiting = effects.waiting();
    assert_eq!(waiting.len(), 6);
    assert_eq!(waiting[0].effect, CoinUp::new(1, 1).as_effect());
}

#[test]
fn bounce_clears_then_restores_block() {
    let mut effects = EffectsManager::new();
    let mut grid = TileGrid::new();
    draw_tile(&mut grid, 10, 4, Tile(BRICK));
    effects.add_effect(bounce(10, 4), 0);
    effects.tick(100, &mut grid);
    let tiles = vec![Tile(BRICK)];
    assert_eq!(is_tile(&grid, 10, 4, &tiles), None);
    for t in 101..108 {
        effects.tick(t, &mut grid);
        assert_eq!(effects.running().len(), 1);
    }
    effects.tick(108, &mut grid);
    assert!(effects.running().is_empty());
    assert_eq!(is_tile(&grid, 10, 4, &tiles), Some(Tile(BRICK)));
}

#[test]
fn question_block_hit_queues_three_effects_and_turns_used() {
    let mut effects = EffectsManager::new();
    let mut grid = TileGrid::new();
    draw_tile(&mut grid, 9, 4, Tile(QUESTION_BLOCK_UNUSED));
    bump_block(&grid, &mut effects, 9, 4);
    let waiting = effects.waiting();
    assert_eq!(
        waiting,
        vec![
            AnimationEffect {
                tick_start: 0,
                effect: TileBounce::new(9, 4, BounceEffectTile::UsedBlock).as_effect()
            },
            AnimationEffect { tick_start: 0, effect: CoinUp::new(8, 4).as_effect() },
            AnimationEffect {
                tick_start: 16,
                effect: Points::new(8, 4, ScoreAmount::OneHundred).as_effect()
            },
        ]
    );
    for t in 0..=8 {
        effects.tick(t, &mut grid);
    }
    let used = vec![Tile(QUESTION_BLOCK_USED)];
    assert_eq!(is_tile(&grid, 9, 4, &used), Some(Tile(QUESTION_BLOCK_USED)));
}

#[test]
fn bump_hits_the_second_cell_when_first_is_empty() {
    let mut effects = EffectsManager::new();
    let mut grid = TileGrid::new();
    draw_tile(&mut grid, 9, 5, Tile(BRICK));
    bump_block(&grid, &mut effects, 9, 4);
    let waiting = effects.waiting();
    assert_eq!(waiting.len(), 1);
    assert_eq!(waiting[0].effect, bounce(9, 5));
}

#[test]
fn used_block_hit_does_nothing() {
    let mut effects = EffectsManager::new();
    let mut grid = TileGrid::new();
    draw_tile(&mut grid, 9, 4, Tile(QUESTION_BLOCK_USED));
    draw_tile(&mut grid, 9, 5, Tile(BRICK));
    bump_block(&grid, &mut effects, 9, 4);
    assert!(effects.waiting().is_empty());
}

#[test]
fn sprite_positions() {
    let screen = ScreenManager::new().get_screen_info();
    assert_eq!(tile_to_screenspace(5, 3, &screen), (48, 41));
    let b = bounce(5, 3);
    let placed = b.post_tick(4, &screen);
    assert_eq!(placed.len(), 1);
    assert_eq!(placed[0].slot, 1);
    assert_eq!((placed[0].x, placed[0].y), (48, 37));
    let placed = b.post_tick(0, &screen);
    assert_eq!(placed[0].y, 41);
    let coin = CoinUp::new(5, 3).as_effect().post_tick(3, &screen);
    assert_eq!((coin[0].x, coin[0].y), (48, 35));
    let pts = Points::new(5, 3, ScoreAmount::OneUp).as_effect().post_tick(1, &screen);
    assert_eq!(pts.len(), 2);
    assert_eq!((pts[1].x, pts[1].y), (56, 39));
}

#[test]
fn wobble_waveform() {
    assert_eq!(wobble(0), Some(1024));
    assert_eq!(wobble(18), Some(512));
    assert_eq!(wobble(12), Some(256));
    assert_eq!(wobble(6), Some(-512));
    assert_eq!(wobble(8), Some(-1024));
    assert_eq!(wobble(1), None);
}
