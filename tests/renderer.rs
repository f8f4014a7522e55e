use mario::level_manager::LevelManager;
use mario::levels::{
    get_tile_idx, level_1_1, Level, LevelFloor, LevelItem, Tile, BRICK, QUESTION_BLOCK_UNUSED,
    ROCK,
};
use mario::screen::{ScreenInfo, ScreenManager};
use mario::tile_grid::{is_tile, TileGrid};

fn screen_at(affn_x: i32) -> ScreenInfo {
    let mut camera = ScreenManager::new();
    camera.translate_x(affn_x);
    camera.get_screen_info()
}

fn stream_to(level: &mut LevelManager, grid: &mut TileGrid, cols: i32) {
    let mut x = 0;
    while x <= cols * 2048 {
        level.process_screen(grid, &screen_at(x));
        x += 4096;
    }
}

#[test]
fn tile_ids_follow_the_sheet() {
    assert_eq!(get_tile_idx(0, 0), BRICK);
    assert_eq!(get_tile_idx(0, 2), QUESTION_BLOCK_UNUSED);
    assert_eq!(get_tile_idx(0, 1), ROCK);
    let t = Tile::new(5);
    assert_eq!(t.id(), 5);
    assert_eq!(t.top_left(), 5);
    assert_eq!(t.top_right(), 6);
    assert_eq!(t.bottom_left(), 21);
    assert_eq!(t.bottom_right(), 22);
}

#[test]
fn cursor_lands_on_sum_of_advances() {
    let level = Level {
        floor: LevelFloor::Solid { tile: Tile(ROCK), row: 10 },
        data: vec![
            LevelItem::NextCol { advance_by: 3 },
            LevelItem::NextCol { advance_by: 2 },
            LevelItem::NextCol { advance_by: 4 },
        ],
    };
    let mut manager = LevelManager::new(level);
    let mut grid = TileGrid::new();
    manager.process_screen(&mut grid, &screen_at(0));
    assert_eq!(manager.rendered_cols(), 32);
    assert_eq!(manager.level_cursor(), 9);
    assert_eq!(manager.items_read(), 3);
}

#[test]
fn floor_bits_set_where_no_hole() {
    let level = Level {
        floor: LevelFloor::Solid { tile: Tile(ROCK), row: 10 },
        data: vec![
            LevelItem::NextCol { advance_by: 3 },
            LevelItem::HoleInFloor { len: 2 },
        ],
    };
    let floor = 0b1111u32 << 20;
    let mut manager = LevelManager::new(level);
    let mut grid = TileGrid::new();
    let screen = screen_at(0);
    manager.process_screen(&mut grid, &screen);
    for col in 0..=30u16 {
        let mask = manager.collision_mask(col, &screen);
        let in_hole = (6..10).contains(&col);
        assert_eq!(mask & floor == floor, !in_hole, "column {col}");
        if in_hole {
            assert_eq!(mask, 0);
        }
    }
}

#[test]
fn level_one_blocks_and_floor_are_solid() {
    let mut manager = LevelManager::new(level_1_1());
    let mut grid = TileGrid::new();
    let screen = screen_at(0);
    manager.process_screen(&mut grid, &screen);
    // question blocks at row 11 over level columns 4..8
    let block = 0b11u32 << 22;
    assert_eq!(manager.collision_mask(8, &screen) & block, block);
    assert_eq!(manager.collision_mask(15, &screen) & block, block);
    assert_eq!(manager.collision_mask(6, &screen) & block, 0);
    let floor = 0b1111u32 << 30;
    assert_eq!(manager.collision_mask(0, &screen) & floor, floor);
    let tiles = vec![Tile(QUESTION_BLOCK_UNUSED)];
    assert_eq!(is_tile(&grid, 22, 4, &tiles), Some(Tile(QUESTION_BLOCK_UNUSED)));
    assert_eq!(is_tile(&grid, 22, 3, &tiles), None);
}

#[test]
fn collision_query_clamps_to_visible_columns() {
    let mut manager = LevelManager::new(level_1_1());
    let mut grid = TileGrid::new();
    let screen = screen_at(0);
    manager.process_screen(&mut grid, &screen);
    assert_eq!(manager.collision_mask(500, &screen), manager.collision_mask(30, &screen));
}

#[test]
fn second_stream_step_writes_nothing() {
    let mut manager = LevelManager::new(level_1_1());
    let mut grid = TileGrid::new();
    let screen = screen_at(4096);
    manager.process_screen(&mut grid, &screen);
    let first = grid.take_writes();
    assert!(!first.is_empty());
    let rendered = manager.rendered_cols();
    manager.process_screen(&mut grid, &screen);
    assert!(grid.take_writes().is_empty());
    assert_eq!(manager.rendered_cols(), rendered);
}

#[test]
fn odd_start_column_streams_nothing() {
    let mut manager = LevelManager::new(level_1_1());
    let mut grid = TileGrid::new();
    manager.process_screen(&mut grid, &screen_at(2048));
    assert_eq!(manager.rendered_cols(), 0);
    assert!(grid.take_writes().is_empty());
}

#[test]
fn scrolling_streams_whole_level() {
    let mut manager = LevelManager::new(level_1_1());
    let mut grid = TileGrid::new();
    stream_to(&mut manager, &mut grid, 200);
    assert_eq!(manager.items_read(), 22);
    assert_eq!(manager.level_cursor(), 69);
}

#[test]
fn standable_cells_read_from_grid() {
    let mut manager = LevelManager::new(level_1_1());
    let mut grid = TileGrid::new();
    let screen = screen_at(0);
    manager.process_screen(&mut grid, &screen);
    assert!(LevelManager::is_standable(&grid, 30, 3, &screen));
    assert!(LevelManager::is_standable(&grid, 62, 3, &screen));
    assert!(!LevelManager::is_standable(&grid, 10, 3, &screen));
    assert!(!LevelManager::is_standable(&grid, 30, 31, &screen));
}

#[test]
fn overfull_column_drops_and_counts_items() {
    let mut data = Vec::new();
    for k in 0..10 {
        data.push(LevelItem::Tile { tile: Tile(BRICK), row: k, len: 3 });
    }
    let level = Level { floor: LevelFloor::Solid { tile: Tile(ROCK), row: 12 }, data };
    let mut manager = LevelManager::new(level);
    let mut grid = TileGrid::new();
    let screen = screen_at(0);
    manager.process_screen(&mut grid, &screen);
    assert_eq!(manager.dropped_items(), 2);
    let drawn = 0b11u32 << 14;
    assert_eq!(manager.collision_mask(0, &screen) & drawn, drawn);
    assert_eq!(manager.collision_mask(0, &screen) & (0b11 << 16), 0);
}

#[test]
fn pipe_covers_two_columns_down_to_floor() {
    let level = Level {
        floor: LevelFloor::Solid { tile: Tile(ROCK), row: 14 },
        data: vec![LevelItem::Pipe { row: 12 }],
    };
    let mut manager = LevelManager::new(level);
    let mut grid = TileGrid::new();
    let screen = screen_at(0);
    manager.process_screen(&mut grid, &screen);
    let pipe = 0b1111u32 << 24;
    for col in 0..4u16 {
        assert_eq!(manager.collision_mask(col, &screen) & pipe, pipe, "column {col}");
    }
    assert_eq!(manager.collision_mask(4, &screen) & pipe, 0);
}
