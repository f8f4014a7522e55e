use mario::color::PaletteColor;
use mario::screen_text::{CharBlockTicket, ScreenTextManager, TextHandle, TextPalette};

#[test]
fn blocks_lock_lowest_first_and_unlock() {
    let mut m = ScreenTextManager::new();
    let a = m.try_lock_first_zero().unwrap();
    assert_eq!(a, CharBlockTicket { idx: 0, ticket: 1 });
    let b = m.try_lock_first_zero().unwrap();
    assert_eq!(b, CharBlockTicket { idx: 1, ticket: 2 });
    m.unlock(a.ticket);
    assert_eq!(m.try_lock_first_zero().unwrap().idx, 0);
    for _ in 2..16 {
        assert!(m.try_lock_first_zero().is_some());
    }
    assert!(m.try_lock_first_zero().is_none());
    m.unlock_all();
    assert_eq!(m.try_lock_first_zero().unwrap().idx, 0);
}

#[test]
fn palette_finds_glyph_tiles() {
    let mut m = ScreenTextManager::new();
    m.try_lock_first_zero();
    let p: TextPalette<4> = m.create_palette("0123456789-Cx ", PaletteColor::White).unwrap();
    assert_eq!(p.find_tile_idx('0'), Some(33));
    assert_eq!(p.find_tile_idx('x'), Some(45));
    assert_eq!(p.find_tile_idx(' '), Some(46));
    assert_eq!(p.find_tile_idx('Z'), None);
}

#[test]
fn clearing_text_blanks_its_cells() {
    let ticket = CharBlockTicket { idx: 2, ticket: 4 };
    let mut p: TextPalette<2> = TextPalette::new("AB", ticket, PaletteColor::Cyan);
    assert!(p.clear_text(0).is_empty());
    p.set_text(1, TextHandle { screenblock_idx: 24, loc: (27, 0), len: 6 });
    assert_eq!(p.clear_text(1), vec![(27, 0), (28, 0), (29, 0)]);
    assert!(p.clear_text(1).is_empty());
    assert!(p.clear_text(9).is_empty());
    assert_eq!(p.find_tile_idx('B'), Some(66));
}
