use mario::assets::{AssetManager, COLOR_MAGIC_MAX};
use mario::color::{darken_rgb15, make_color};
use mario::keys::{KeysResponse, KEY_A, KEY_B};
use mario::score::ScoreManager;
use mario::topbar::TopBarManager;

#[test]
fn clock_ticks_every_22_frames_with_bonus() {
    let mut bar = TopBarManager::new();
    assert!(!bar.tick());
    assert_eq!(bar.score, 0);
    for _ in 0..21 {
        assert!(!bar.tick());
    }
    assert_eq!(bar.time, 400);
    assert!(bar.tick());
    assert_eq!(bar.time, 399);
    assert_eq!(bar.score, 50);
    assert_eq!(&bar.write_time().as_bytes(), b"399");
    assert_eq!(&bar.write_score(), b"000050");
}

#[test]
fn pending_score_accumulates() {
    let mut bar = TopBarManager::new();
    bar.tick();
    bar.update_score(100);
    bar.add_to_score(20);
    bar.tick();
    assert_eq!(bar.score, 120);
    bar.add_to_score(5);
    bar.tick();
    assert_eq!(bar.score, 125);
}

#[test]
fn score_past_limit_wraps_to_zero() {
    let mut bar = TopBarManager::new();
    bar.update_score(1_000_000);
    bar.tick();
    assert_eq!(bar.score, 0);
}

#[test]
fn reset_restarts_clock() {
    let mut bar = TopBarManager::new();
    bar.update_score(700);
    for _ in 0..30 {
        bar.tick();
    }
    bar.reset_w_score();
    assert_eq!(bar.time, 400);
    assert_eq!(bar.time_tick, 0);
    bar.reset(9);
    assert_eq!(bar.score, 9);
}

#[test]
fn score_manager_holds_at_max() {
    let mut s = ScoreManager::new();
    assert!(s.tick());
    assert!(!s.tick());
    s.update_score(5_000_000);
    s.tick();
    assert_eq!(s.score, 999_999);
    s.reset(42);
    s.add_to_score(8);
    s.tick();
    assert_eq!(s.score, 50);
    assert_eq!(&s.write_score(), b"000050");
    s.reset_w_score();
    assert_eq!(s.score, 50);
}

#[test]
fn key_edges() {
    let k = KeysResponse::new(KEY_A, 0);
    assert!(k.is_just_pressed(KEY_A));
    assert!(!k.is_held(KEY_A));
    assert!(k.is_down(KEY_A));
    assert!(k.is_up(KEY_B));
    let k = KeysResponse::new(KEY_A, KEY_A);
    assert!(!k.is_just_pressed(KEY_A));
    assert!(k.is_held(KEY_A));
    let k = KeysResponse::new(0, KEY_B);
    assert!(k.is_just_released(KEY_B));
    assert!(k.a() == false && k.b() == false);
}

#[test]
fn shimmer_cycle_and_colors() {
    assert_eq!(make_color(31, 0, 0), 31);
    assert_eq!(make_color(1, 2, 3), 1 + 64 + 3072);
    assert_eq!(darken_rgb15(make_color(31, 31, 31), 128), make_color(15, 15, 15));
    assert_eq!(darken_rgb15(COLOR_MAGIC_MAX, 256), COLOR_MAGIC_MAX);
    let mut a = AssetManager::new();
    assert_eq!(a.post_tick(), Some(COLOR_MAGIC_MAX));
    for _ in 1..8 {
        assert_eq!(a.post_tick(), None);
    }
    assert_eq!(a.post_tick(), Some(darken_rgb15(COLOR_MAGIC_MAX, 230)));
    while a.change_magic != 64 {
        a.post_tick();
    }
    a.post_tick();
    assert_eq!(a.change_magic, 1);
    a.on_start();
    assert_eq!(a.change_magic, 0);
}
