//! Runtime core of a side-scrolling platformer: fixed-capacity containers,
//! fixed-point helpers, the tile-streaming level renderer with its window of
//! collision masks, the player's physics and animation tick, the visual
//! effects scheduler and the score and clock display.

pub mod assets;
pub mod color;
pub mod effects;
pub mod fixed_bag;
pub mod fixed_queue;
pub mod fmt;
pub mod keys;
pub mod level_manager;
pub mod levels;
pub mod math;
pub mod player;
pub mod score;
pub mod screen;
pub mod screen_text;
pub mod stand_window;
pub mod tick;
pub mod tile_grid;
pub mod topbar;
