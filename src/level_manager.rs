use crate::fixed_bag::FixedBag;
use crate::levels::{advance_sum, lemma_advance_sum_prefix, Level, LevelFloor, LevelItem, Tile, BUSH_LEFT, BUSH_MIDDLE, BUSH_RIGHT, MOUNTAIL_BUTTONS, MOUNTAIL_EMPTY, MOUNTAIL_SLOPE_DOWN, MOUNTAIL_SLOPE_UP, MOUNTAIL_TOP, PIPE_BODY_LEFT, PIPE_BODY_RIGHT, PIPE_TOP_LEFT, PIPE_TOP_RIGHT};
use crate::math::{mod_mask_u32, Powers};
use crate::screen::ScreenInfo;
use crate::stand_window::{lemma_window_after_shape, lemma_window_round_trip, window_after, window_mask, window_push, StandWindow, WindowModel};
use crate::tile_grid::{draw_tile, lemma_draw_shows, shows_tile, TileGrid, GRID_COLS};
use vstd::arithmetic::power2::lemma2_to64;
use vstd::prelude::*;

verus! {

/// A level item that is being drawn, with the column where it started.
#[derive(Clone, Copy, PartialEq, Eq, Structural, Debug)]
pub struct ManagedItem {
    pub item: LevelItem,
    pub col_start: usize,
}

/// How many level items can be drawn at once.
pub const MANAGED_CAPACITY: usize = 8;

/// Columns past the visible end that are drawn ahead.
pub const RENDER_AHEAD: u16 = 2;

/// Columns before the visible start that are kept before blanking.
pub const REAP_BEHIND: u16 = 8;

/// Highest column of 8 pixels that the camera can show.
pub const MAX_SCREEN_COL: u16 = 0x8000;

/// The collision bits of the floor: two rows of blocks from the floor row.
pub open spec fn floor_bits(row: usize) -> u32 {
    (15u32 << (2 * row) as u32) as u32
}

/// Slot `s` holds a hole in the floor that covers column `i`.
pub open spec fn is_covering_hole(s: Option<ManagedItem>, i: int) -> bool {
    match s {
        Some(m) => match m.item {
            LevelItem::HoleInFloor { len } => m.col_start <= i < m.col_start + len,
            _ => false,
        },
        None => false,
    }
}

/// Some drawn hole in the floor covers column `i`.
pub open spec fn hole_covers(slots: Seq<Option<ManagedItem>>, i: int) -> bool {
    exists|j: int| 0 <= j < slots.len() && is_covering_hole(#[trigger] slots[j], i)
}

/// Every drawn item is well formed, is not a cursor advance, and started
/// at or before column `i`.
pub open spec fn anchored(slots: Seq<Option<ManagedItem>>, i: int) -> bool {
    forall|j: int|
        0 <= j < slots.len() && (#[trigger] slots[j]) is Some ==> {
            &&& slots[j]->Some_0.item.wf()
            &&& !(slots[j]->Some_0.item is NextCol)
            &&& slots[j]->Some_0.col_start <= i
        }
}

/// The collision bits of a block at cell row `r`: its two cell rows.
pub open spec fn pair_bits(r: int) -> u32 {
    (3u32 << (r as u32)) as u32
}

/// The collision bits of `n` blocks of a pipe's body from cell row `r`
/// down.
pub open spec fn pipe_body_bits(r: int, n: nat) -> u32
    decreases n,
{
    if n == 0 {
        0
    } else {
        pipe_body_bits(r, (n - 1) as nat) | pair_bits(r + 2 * (n - 1))
    }
}

/// How many blocks of a pipe's body lie between a top at cell row `row`
/// and the floor at cell row `floor_bottom`.
pub open spec fn pipe_body_len(row: int, floor_bottom: int) -> nat {
    if floor_bottom >= row + 2 {
        ((floor_bottom - (row + 2)) / 2) as nat
    } else {
        0
    }
}

/// What drawn item `s` adds to the mask of column `i` over a floor at
/// row `fr`: a run of tiles its block while the column lies in the run, a
/// pipe its top and body down to the floor, anything else nothing.
pub open spec fn slot_bits(s: Option<ManagedItem>, i: int, fr: usize) -> u32 {
    match s {
        Some(m) => match m.item {
            LevelItem::Tile { tile, row, len } => if i - m.col_start < len {
                pair_bits(2 * row)
            } else {
                0
            },
            LevelItem::Pipe { row } => pair_bits(2 * row) | pipe_body_bits(
                2 * row + 2,
                pipe_body_len(2 * row, 2 * fr),
            ),
            _ => 0,
        },
        None => 0,
    }
}

/// The bits that the first `n` drawn items add to the mask of column `i`.
pub open spec fn items_mask(live: Seq<Option<ManagedItem>>, i: int, fr: usize, n: nat) -> u32
    decreases n,
{
    if n == 0 {
        0
    } else {
        items_mask(live, i, fr, (n - 1) as nat) | slot_bits(live[n - 1], i, fr)
    }
}

/// The mask of column `i`: what the drawn items add, and the floor's bits
/// unless a drawn hole covers the column.
pub open spec fn column_mask(live: Seq<Option<ManagedItem>>, i: int, fr: usize) -> u32 {
    items_mask(live, i, fr, MANAGED_CAPACITY as nat) | if hole_covers(live, i) {
        0u32
    } else {
        floor_bits(fr)
    }
}

/// Drawn item `s` is still drawn after column `i`: a run of tiles or a hole
/// while the column lies within it, a pipe only at its first column.
pub open spec fn keeps(s: Option<ManagedItem>, i: int) -> bool {
    match s {
        Some(m) => match m.item {
            LevelItem::Tile { len, .. } => i - m.col_start < len,
            LevelItem::HoleInFloor { len } => i - m.col_start < len,
            LevelItem::Pipe { .. } => i == m.col_start,
            LevelItem::NextCol { .. } => false,
        },
        None => false,
    }
}

/// Some hole in the floor among the level's items covers column `w`: a
/// hole read when the cursor stood at `c` covers columns `c` up to
/// `c + len`.
pub open spec fn level_hole_covers(d: Seq<LevelItem>, w: int) -> bool {
    exists|k: int|
        0 <= k < d.len() && #[trigger] hole_span(d[k], advance_sum(d.subrange(0, k)) as int, w)
}

/// Item `item`, read with the cursor at `c`, is a hole covering `w`.
pub open spec fn hole_span(item: LevelItem, c: int, w: int) -> bool {
    match item {
        LevelItem::HoleInFloor { len } => c <= w < c + len,
        _ => false,
    }
}

/// Every drawn item is one of the first `n` level items, started at the
/// column where the cursor stood when it was read.
pub open spec fn from_level(slots: Seq<Option<ManagedItem>>, d: Seq<LevelItem>, n: int) -> bool {
    forall|j: int|
        0 <= j < slots.len() && (#[trigger] slots[j]) is Some ==> exists|k: int|
            0 <= k < n && k < d.len() && d[k] == slots[j]->Some_0.item && advance_sum(d.subrange(0, k))
                == slots[j]->Some_0.col_start
}

/// Between slot sets `pre` and `post` items were only added: every item
/// of `pre` stays in its slot, and every added item is one of the level
/// items read from `from` to `to`, read with the cursor at `i`.
pub open spec fn fresh_from(
    pre: Seq<Option<ManagedItem>>,
    post: Seq<Option<ManagedItem>>,
    d: Seq<LevelItem>,
    from: int,
    to: int,
    i: int,
) -> bool {
    &&& forall|j: int| 0 <= j < post.len() && pre[j] is Some ==> #[trigger] post[j] == pre[j]
    &&& forall|j: int|
        0 <= j < post.len() && #[trigger] post[j] is Some && pre[j] is None ==> exists|kk: int|
            from <= kk < to && kk < d.len() && d[kk] == post[j]->Some_0.item && advance_sum(d.subrange(0, kk))
                == i
}

/// The mask pushed for level column `w` is the column's mask over the
/// items drawn there, and the column counts as holed exactly when a drawn
/// hole covered it.
pub open spec fn column_formula(
    history: Seq<u32>,
    holed: Seq<bool>,
    lives: Seq<Seq<Option<ManagedItem>>>,
    fr: usize,
    w: int,
) -> bool {
    &&& history[2 * w] == column_mask(lives[w], w, fr)
    &&& holed[w] == hole_covers(lives[w], w)
}

/// Level column `w` was pushed as two equal masks, which hold the floor's
/// bits unless a drawn hole covered the column, which only a hole of the
/// level does.
pub open spec fn column_recorded(
    history: Seq<u32>,
    holed: Seq<bool>,
    d: Seq<LevelItem>,
    fr: usize,
    w: int,
) -> bool {
    &&& history[2 * w] == history[2 * w + 1]
    &&& !holed[w] ==> history[2 * w] & floor_bits(fr) == floor_bits(fr)
    &&& holed[w] ==> level_hole_covers(d, w)
}

/// The level renderer: streams the level into the tile grid as the camera
/// moves and keeps the standability masks of the streamed columns.
pub struct LevelManager {
    rendered_col: u16,
    reaped_col: u16,
    level_ptr: usize,
    col_ptr: usize,
    current_level: Level,
    stack_of_renders: FixedBag<ManagedItem, 8>,
    stand_matrix: StandWindow,
    dropped_items: u32,
    /// Every mask pushed, one per column of 8 pixels.
    history: Ghost<Seq<u32>>,
    /// Per streamed level column, whether a drawn hole covered it.
    holed: Ghost<Seq<bool>>,
    /// The items being drawn when the last column was streamed, before
    /// those that ended there left.
    live: Ghost<Seq<Option<ManagedItem>>>,
    /// Per streamed level column, the items drawn there.
    lives: Ghost<Seq<Seq<Option<ManagedItem>>>>,
}

impl LevelManager {
    /// Columns of 8 pixels streamed so far.
    pub closed spec fn rendered(&self) -> u16 {
        self.rendered_col
    }

    /// How many level items could not be drawn for want of a slot.
    pub closed spec fn dropped(&self) -> u32 {
        self.dropped_items
    }

    /// The level's column cursor.
    pub closed spec fn cursor(&self) -> nat {
        self.col_ptr as nat
    }

    /// How many level items have been read.
    pub closed spec fn level_pos(&self) -> nat {
        self.level_ptr as nat
    }

    /// The level being streamed.
    pub closed spec fn level(&self) -> &Level {
        &self.current_level
    }

    /// The items being drawn.
    pub closed spec fn managed(&self) -> Seq<Option<ManagedItem>> {
        self.stack_of_renders@
    }

    /// Every mask pushed so far, one per streamed column of 8 pixels.
    pub closed spec fn history(&self) -> Seq<u32> {
        self.history@
    }

    /// Per streamed level column, whether a drawn hole in the floor covered
    /// it.
    pub closed spec fn holed(&self) -> Seq<bool> {
        self.holed@
    }

    /// The items drawn in the last streamed column, before those that ended
    /// there left.
    pub closed spec fn live(&self) -> Seq<Option<ManagedItem>> {
        self.live@
    }

    /// Per streamed level column, the items drawn there.
    pub closed spec fn lives(&self) -> Seq<Seq<Option<ManagedItem>>> {
        self.lives@
    }

    /// Columns of 8 pixels blanked so far.
    pub closed spec fn reaped(&self) -> u16 {
        self.reaped_col
    }

    /// The standability masks of the streamed columns.
    pub closed spec fn window(&self) -> WindowModel {
        self.stand_matrix@
    }

    /// The state without the relation between streamed columns and the
    /// window, which holds only between columns.
    pub closed spec fn parts_wf(&self) -> bool {
        &&& self.current_level.wf()
        &&& self.stack_of_renders.wf()
        &&& self.stand_matrix.wf()
        &&& self.level_ptr <= self.current_level.data@.len()
        &&& self.col_ptr == advance_sum(self.current_level.data@.subrange(0, self.level_ptr as int))
    }

    pub closed spec fn wf(&self) -> bool {
        let d = self.current_level.data@;
        let fr = self.current_level.floor_row();
        &&& self.parts_wf()
        &&& self.rendered_col % 2 == 0
        &&& self.rendered_col <= MAX_SCREEN_COL + 32
        &&& self.stand_matrix@ == window_after(self.history@)
        &&& self.history@.len() == self.rendered_col
        &&& self.holed@.len() == self.rendered_col / 2
        &&& self.live@.len() == MANAGED_CAPACITY
        &&& forall|w: int|
            0 <= w < self.rendered_col / 2 ==> #[trigger] column_recorded(
                self.history@,
                self.holed@,
                d,
                fr,
                w,
            )
        &&& self.lives@.len() == self.rendered_col / 2
        &&& forall|w: int|
            0 <= w < self.rendered_col / 2 ==> #[trigger] column_formula(
                self.history@,
                self.holed@,
                self.lives@,
                fr,
                w,
            )
        &&& anchored(self.stack_of_renders@, (self.rendered_col / 2) as int)
        &&& from_level(self.stack_of_renders@, d, self.level_ptr as int)
        &&& self.level_ptr == d.len() || self.col_ptr >= self.rendered_col / 2
        &&& self.level_ptr == 0 || advance_sum(d.subrange(0, self.level_ptr - 1)) < self.rendered_col
            / 2
    }

    pub fn new(level: Level) -> (m: Self)
        requires
            level.wf(),
        ensures
            m.wf(),
            m.rendered() == 0,
            m.cursor() == 0,
            m.level_pos() == 0,
            m.level() == &level,
            m.dropped() == 0,
    {
        let m = LevelManager {
            rendered_col: 0,
            reaped_col: 0,
            level_ptr: 0,
            col_ptr: 0,
            current_level: level,
            stack_of_renders: FixedBag::new(),
            stand_matrix: StandWindow::new(),
            dropped_items: 0,
            history: Ghost(Seq::empty()),
            holed: Ghost(Seq::empty()),
            live: Ghost(Seq::new(MANAGED_CAPACITY as nat, |j: int| None)),
            lives: Ghost(Seq::empty()),
        };
        proof {
            assert(m.current_level.data@.subrange(0, 0) =~= Seq::<LevelItem>::empty());
            assert(m.stand_matrix@ == (0nat, Seq::<u32>::empty()));
        }
        m
    }

    /// The standability mask of column `col`, clamped into the visible
    /// columns; 0 where the window holds no mask for it.
    pub fn collision_mask(&self, col: u16, screen: &ScreenInfo) -> (r: u32)
        requires
            self.wf(),
            screen.wf(),
        ensures
            r == window_mask(
                self.window(),
                if col < screen.onscreen_col_start {
                    screen.onscreen_col_start as int
                } else if col > screen.onscreen_col_start + 30 {
                    screen.onscreen_col_start + 30
                } else {
                    col as int
                },
            ),
    {
        let start = screen.onscreen_col_start;
        let end = screen.onscreen_col_end();
        let mut c = col;
        if c < start {
            c = start;
        } else if c > end {
            c = end;
        }
        self.stand_matrix.mask_at(c as usize)
    }

    /// Whether the grid cell at row `row` modulo 32 under visible column
    /// `col` holds a tile; a column off screen is never standable.
    pub fn is_standable(grid: &TileGrid, row: u16, col: u16, screen: &ScreenInfo) -> (r: bool)
        requires
            grid.wf(),
            screen.wf(),
        ensures
            r == (screen.onscreen_col_start <= col <= screen.onscreen_col_start + 30 && grid.cell(
                row as int % 32,
                col as int % 32,
            ) != 0),
    {
        proof {
            lemma2_to64();
        }
        let row = mod_mask_u32(row as u32, Powers::_32) as usize;
        let end = screen.onscreen_col_end();
        if col < screen.onscreen_col_start || col > end {
            return false;
        }
        let screenblock_col = mod_mask_u32(col as u32, Powers::_32) as usize;
        grid.read_cell(row, screenblock_col) != 0
    }

    /// How many level items found every drawing slot taken and were not
    /// drawn: a sign of a level that draws too much at once. The item that
    /// finds no slot is the one dropped, so the items already on screen are
    /// drawn to their end rather than cut off halfway.
    pub fn dropped_items(&self) -> (r: u32)
        ensures
            r == self.dropped(),
    {
        self.dropped_items
    }

    /// Columns of 8 pixels streamed so far.
    pub fn rendered_cols(&self) -> (r: u16)
        ensures
            r == self.rendered(),
    {
        self.rendered_col
    }

    /// The level's column cursor.
    pub fn level_cursor(&self) -> (r: usize)
        ensures
            r == self.cursor(),
    {
        self.col_ptr
    }

    /// How many level items have been read.
    pub fn items_read(&self) -> (r: usize)
        ensures
            r == self.level_pos(),
    {
        self.level_ptr
    }

    /// Reads level items while the cursor has not passed column `i`, and
    /// starts drawing each item that is not a cursor advance at `i`; an item
    /// that finds all eight slots taken is dropped and counted.
    fn drain_level(&mut self, i: usize)
        requires
            old(self).parts_wf(),
            anchored(old(self).stack_of_renders@, i as int),
            from_level(old(self).stack_of_renders@, old(self).current_level.data@, old(self).level_ptr as int),
            old(self).level_ptr == old(self).current_level.data@.len() || old(self).col_ptr >= i,
            old(self).level_ptr == 0 || advance_sum(
                old(self).current_level.data@.subrange(0, old(self).level_ptr - 1),
            ) < i,
        ensures
            final(self).parts_wf(),
            anchored(final(self).stack_of_renders@, i as int),
            from_level(final(self).stack_of_renders@, final(self).current_level.data@, final(self).level_ptr as int),
            final(self).level_ptr == final(self).current_level.data@.len() || final(self).col_ptr > i,
            final(self).level_ptr == 0 || advance_sum(
                final(self).current_level.data@.subrange(0, final(self).level_ptr - 1),
            ) <= i,
            final(self).stand_matrix == old(self).stand_matrix,
            final(self).current_level == old(self).current_level,
            final(self).rendered_col == old(self).rendered_col,
            final(self).reaped_col == old(self).reaped_col,
            final(self).history == old(self).history,
            final(self).holed == old(self).holed,
            final(self).lives == old(self).lives,
            final(self).level_ptr >= old(self).level_ptr,
            final(self).dropped_items >= old(self).dropped_items,
            fresh_from(old(self).stack_of_renders@, final(self).stack_of_renders@, final(self).current_level.data@,
                old(self).level_ptr as int, final(self).level_ptr as int, i as int),
    {
        while self.col_ptr <= i && self.level_ptr < self.current_level.data.len()
            invariant
                self.parts_wf(),
                anchored(self.stack_of_renders@, i as int),
                from_level(self.stack_of_renders@, self.current_level.data@, self.level_ptr as int),
                self.level_ptr == self.current_level.data@.len() || self.col_ptr >= i,
                self.level_ptr == 0 || advance_sum(
                    self.current_level.data@.subrange(0, self.level_ptr - 1),
                ) <= i,
                self.stand_matrix == old(self).stand_matrix,
                self.current_level == old(self).current_level,
                self.rendered_col == old(self).rendered_col,
                self.reaped_col == old(self).reaped_col,
                self.history == old(self).history,
                self.holed == old(self).holed,
                self.lives == old(self).lives,
                self.level_ptr >= old(self).level_ptr,
                self.dropped_items >= old(self).dropped_items,
                self.stack_of_renders@.len() == MANAGED_CAPACITY,
                fresh_from(old(self).stack_of_renders@, self.stack_of_renders@, self.current_level.data@,
                    old(self).level_ptr as int, self.level_ptr as int, i as int),
            decreases self.current_level.data@.len() - self.level_ptr,
        {
            let ghost data = self.current_level.data@;
            let ghost k = self.level_ptr as int;
            let item: LevelItem = self.current_level.data[self.level_ptr];
            proof {
                assert(data.subrange(0, k + 1).drop_last() =~= data.subrange(0, k));
                lemma_advance_sum_prefix(data, k + 1);
                assert(data[k].wf());
                assert(self.col_ptr == i);
            }
            self.level_ptr += 1;
            match item {
                LevelItem::NextCol { advance_by } => {
                    self.col_ptr += advance_by;
                    proof {
                        let bag = self.stack_of_renders@;
                        let ob = old(self).stack_of_renders@;
                        assert forall|j: int| 0 <= j < bag.len() && #[trigger] bag[j] is Some && ob[j] is None implies exists|kk: int|
                            old(self).level_ptr <= kk < self.level_ptr && kk < data.len() && data[kk] == bag[j]->Some_0.item
                                && advance_sum(data.subrange(0, kk)) == i by {
                            let kk = choose|kk: int|
                                old(self).level_ptr <= kk < k && kk < data.len() && data[kk] == bag[j]->Some_0.item
                                    && advance_sum(data.subrange(0, kk)) == i;
                        }
                        assert forall|j: int| 0 <= j < bag.len() && (#[trigger] bag[j]) is Some implies exists|
                            kk: int,
                        |
                            0 <= kk < self.level_ptr && kk < data.len() && data[kk] == bag[j]->Some_0.item
                                && advance_sum(data.subrange(0, kk)) == bag[j]->Some_0.col_start by {
                            let kk = choose|kk: int|
                                0 <= kk < k && kk < data.len() && data[kk] == bag[j]->Some_0.item
                                    && advance_sum(data.subrange(0, kk)) == bag[j]->Some_0.col_start;
                        }
                    }
                },
                LevelItem::Tile { .. } | LevelItem::Pipe { .. } | LevelItem::HoleInFloor { .. } => {
                    let ghost before = self.stack_of_renders@;
                    let pushed = self.stack_of_renders.push(ManagedItem { item, col_start: i });
                    if pushed.is_err() {
                        self.dropped_items = self.dropped_items.saturating_add(1);
                    }
                    proof {
                        assert(item.wf());
                        match pushed {
                            Ok(idx) => {
                                assert(self.stack_of_renders@ == before.update(
                                    idx as int,
                                    Some(ManagedItem { item, col_start: i }),
                                ));
                            },
                            Err(_) => {
                                assert(self.stack_of_renders@ == before);
                            },
                        }
                        let bag = self.stack_of_renders@;
                        assert forall|j: int|
                            0 <= j < bag.len() && (#[trigger] bag[j]) is Some implies {
                            &&& bag[j]->Some_0.item.wf()
                            &&& !(bag[j]->Some_0.item is NextCol)
                            &&& bag[j]->Some_0.col_start <= i
                        } by {
                            if bag[j] != before[j] {
                            } else {
                                assert(before[j] is Some);
                            }
                        }
                        assert forall|j: int| 0 <= j < bag.len() && (#[trigger] bag[j]) is Some implies exists|
                            kk: int,
                        |
                            0 <= kk < self.level_ptr && kk < data.len() && data[kk] == bag[j]->Some_0.item
                                && advance_sum(data.subrange(0, kk)) == bag[j]->Some_0.col_start by {
                            if bag[j] != before[j] {
                                assert(data[k] == bag[j]->Some_0.item);
                            } else {
                                assert(before[j] is Some);
                                let kk = choose|kk: int|
                                    0 <= kk < k && kk < data.len() && data[kk] == before[j]->Some_0.item
                                        && advance_sum(data.subrange(0, kk)) == before[j]->Some_0.col_start;
                            }
                        }
                        let ob = old(self).stack_of_renders@;
                        assert forall|j: int| 0 <= j < bag.len() && ob[j] is Some implies #[trigger] bag[j] == ob[j] by {
                            assert(before[j] == ob[j]);
                        }
                        assert forall|j: int| 0 <= j < bag.len() && #[trigger] bag[j] is Some && ob[j] is None implies exists|kk: int|
                            old(self).level_ptr <= kk < self.level_ptr && kk < data.len() && data[kk] == bag[j]->Some_0.item
                                && advance_sum(data.subrange(0, kk)) == i by {
                            if bag[j] != before[j] {
                                assert(data[k] == bag[j]->Some_0.item);
                            } else {
                                let kk = choose|kk: int|
                                    old(self).level_ptr <= kk < k && kk < data.len() && data[kk] == before[j]->Some_0.item
                                        && advance_sum(data.subrange(0, kk)) == i;
                            }
                        }
                    }
                },
            }
        }
    }

    /// Draws the items that cover column `i` into grid column
    /// `screenblock_col` and lets go of those that end there. Returns the
    /// bits they add to the column's mask, and whether no hole covers the
    /// column.
    fn draw_items(&mut self, grid: &mut TileGrid, i: usize, screenblock_col: usize) -> (r: (u32, bool))
        requires
            old(self).parts_wf(),
            old(grid).wf(),
            anchored(old(self).stack_of_renders@, i as int),
            from_level(old(self).stack_of_renders@, old(self).current_level.data@, old(self).level_ptr as int),
            screenblock_col < GRID_COLS,
            i <= (MAX_SCREEN_COL / 2 + 16) as usize,
        ensures
            final(self).parts_wf(),
            final(grid).wf(),
            final(self).current_level == old(self).current_level,
            final(self).stand_matrix == old(self).stand_matrix,
            final(self).level_ptr == old(self).level_ptr,
            final(self).col_ptr == old(self).col_ptr,
            final(self).rendered_col == old(self).rendered_col,
            final(self).reaped_col == old(self).reaped_col,
            final(self).history == old(self).history,
            final(self).holed == old(self).holed,
            final(self).live == old(self).live,
            final(self).lives == old(self).lives,
            final(self).dropped_items == old(self).dropped_items,
            anchored(final(self).stack_of_renders@, i as int),
            from_level(final(self).stack_of_renders@, final(self).current_level.data@, final(self).level_ptr as int),
            r.0 == items_mask(old(self).stack_of_renders@, i as int, old(self).current_level.floor_row(), MANAGED_CAPACITY as nat),
            r.1 == !hole_covers(old(self).stack_of_renders@, i as int),
            forall|j: int|
                0 <= j < MANAGED_CAPACITY ==> #[trigger] final(self).stack_of_renders@[j] == if keeps(
                    old(self).stack_of_renders@[j],
                    i as int,
                ) {
                    old(self).stack_of_renders@[j]
                } else {
                    None
                },
    {
        let ghost mid = self.stack_of_renders@;
        let floor_row = match self.current_level.floor {
            LevelFloor::Solid { tile, row } => row,
        };
        let floor_bottom_for_col = floor_row * 2;
        let mut standable_mask: u32 = 0;
        let ghost level = self.current_level;
        let ghost window = self.stand_matrix;
        let ghost lp = self.level_ptr;
        let mut should_floor_be_visible = true;
        let mut idx: usize = 0;
        while idx < MANAGED_CAPACITY
            invariant
                self.parts_wf(),
                grid.wf(),
                self.current_level == level,
                self.stand_matrix == window,
                self.level_ptr == lp,
                self.rendered_col == old(self).rendered_col,
                self.reaped_col == old(self).reaped_col,
                self.history == old(self).history,
                self.holed == old(self).holed,
                self.live == old(self).live,
                self.lives == old(self).lives,
                self.dropped_items == old(self).dropped_items,
                self.col_ptr == old(self).col_ptr,
                mid == old(self).stack_of_renders@,
                i <= (MAX_SCREEN_COL / 2 + 16) as usize,
                from_level(self.stack_of_renders@, self.current_level.data@, self.level_ptr as int),
                from_level(mid, self.current_level.data@, self.level_ptr as int),
                standable_mask == items_mask(mid, i as int, floor_row, idx as nat),
                forall|j: int|
                    0 <= j < idx ==> #[trigger] self.stack_of_renders@[j] == if keeps(mid[j], i as int) {
                        mid[j]
                    } else {
                        None
                    },
                floor_row == level.floor_row(),
                floor_bottom_for_col == 2 * floor_row,
                screenblock_col < GRID_COLS,
                anchored(self.stack_of_renders@, i as int),
                mid.len() == MANAGED_CAPACITY,
                idx <= MANAGED_CAPACITY,
                forall|j: int|
                    0 <= j < MANAGED_CAPACITY ==> is_covering_hole(
                        #[trigger] self.stack_of_renders@[j],
                        i as int,
                    ) == is_covering_hole(mid[j], i as int),
                should_floor_be_visible == forall|j: int|
                    0 <= j < idx ==> !is_covering_hole(#[trigger] mid[j], i as int),
                forall|j: int| idx <= j < MANAGED_CAPACITY ==> self.stack_of_renders@[j] == mid[j],
            decreases MANAGED_CAPACITY - idx,
        {
            let slot = match self.stack_of_renders.get(idx) {
                Some(m) => Some(*m),
                None => None,
            };
            let ghost before = self.stack_of_renders@;
            let ghost mask_before = standable_mask;
            proof {
                lemma_or_zero(mask_before);
            }
            if let Some(inner) = slot {
                assert(before[idx as int] == Some(inner));
                assert(inner.item.wf() && inner.col_start <= i);
                match inner.item {
                    LevelItem::NextCol { .. } => {
                        self.stack_of_renders.remove(idx);
                    },
                    LevelItem::Pipe { row } => {
                        let row = row * 2;
                        standable_mask = standable_mask | (3u32 << (row as u32));
                        let ghost with_top = standable_mask;
                        if i == inner.col_start {
                            draw_tile(grid, row, screenblock_col, Tile(PIPE_TOP_LEFT));
                        } else {
                            draw_tile(grid, row, screenblock_col, Tile(PIPE_TOP_RIGHT));
                        }
                        standable_mask = draw_pipe_body(
                            grid,
                            standable_mask,
                            row,
                            floor_bottom_for_col,
                            screenblock_col,
                            i == inner.col_start,
                        );
                        proof {
                            lemma_or_assoc(
                                mask_before,
                                pair_bits(row as int),
                                pipe_body_bits(row + 2, pipe_body_len(row as int, floor_bottom_for_col as int)),
                            );
                        }
                        if i != inner.col_start {
                            self.stack_of_renders.remove(idx);
                        }
                    },
                    LevelItem::Tile { len, row, tile } => {
                        let row = row * 2;
                        let col_in_item = i - inner.col_start;
                        if col_in_item < len {
                            standable_mask = standable_mask | (3u32 << (row as u32));
                            draw_tile(grid, row, screenblock_col, tile);
                        } else {
                            self.stack_of_renders.remove(idx);
                        }
                    },
                    LevelItem::HoleInFloor { len } => {
                        let col_in_item = i - inner.col_start;
                        if col_in_item >= len {
                            self.stack_of_renders.remove(idx);
                        } else {
                            should_floor_be_visible = false;
                        }
                    },
                }
            }
            proof {
                assert(standable_mask == items_mask(mid, i as int, floor_row, (idx + 1) as nat));
                assert forall|j: int|
                    0 <= j < idx + 1 implies #[trigger] self.stack_of_renders@[j] == if keeps(
                        mid[j],
                        i as int,
                    ) {
                        mid[j]
                    } else {
                        None
                    } by {
                    if j < idx {
                        assert(self.stack_of_renders@[j] == before[j]);
                    }
                }
                assert forall|j: int|
                    0 <= j < self.stack_of_renders@.len() && (#[trigger] self.stack_of_renders@[j]) is Some implies {
                    &&& self.stack_of_renders@[j]->Some_0.item.wf()
                    &&& !(self.stack_of_renders@[j]->Some_0.item is NextCol)
                    &&& self.stack_of_renders@[j]->Some_0.col_start <= i
                } by {
                    if j != idx as int {
                        assert(self.stack_of_renders@[j] == before[j]);
                    }
                }
                let d = self.current_level.data@;
                let bag = self.stack_of_renders@;
                assert forall|j: int| 0 <= j < bag.len() && (#[trigger] bag[j]) is Some implies exists|
                    kk: int,
                |
                    0 <= kk < self.level_ptr && kk < d.len() && d[kk] == bag[j]->Some_0.item
                        && advance_sum(d.subrange(0, kk)) == bag[j]->Some_0.col_start by {
                    assert(bag[j] == before[j]);
                }
                assert forall|j: int| 0 <= j < MANAGED_CAPACITY implies is_covering_hole(
                    #[trigger] self.stack_of_renders@[j],
                    i as int,
                ) == is_covering_hole(mid[j], i as int) by {
                    if j != idx {
                        assert(self.stack_of_renders@[j] == before[j]);
                    }
                }
            }
            idx += 1;
        }

        proof {
            assert(should_floor_be_visible == !hole_covers(mid, i as int)) by {
                if hole_covers(mid, i as int) {
                    let j = choose|j: int| 0 <= j < mid.len() && is_covering_hole(#[trigger] mid[j], i as int);
                    assert(!should_floor_be_visible);
                }
            }
        }
        (standable_mask, should_floor_be_visible)
    }

    /// Streams column `i` of the level: draws its background decoration,
    /// reads the level items that the cursor reaches, draws the items that
    /// cover the column and the floor where no hole covers it, and pushes
    /// the column's standability mask twice, once per column of 8 pixels.
    pub fn stream_column(&mut self, grid: &mut TileGrid)
        requires
            old(self).wf(),
            old(grid).wf(),
            old(self).rendered() + 2 <= MAX_SCREEN_COL + 32,
        ensures
            final(self).wf(),
            final(grid).wf(),
            final(self).rendered() == old(self).rendered() + 2,
            final(self).reaped() == old(self).reaped(),
            final(self).level() == old(self).level(),
            final(self).dropped() >= old(self).dropped(),
            final(self).history() == old(self).history().push(final(self).history().last()).push(
                final(self).history().last(),
            ),
            final(self).holed() == old(self).holed().push(
                hole_covers(final(self).live(), (old(self).rendered() / 2) as int),
            ),
            fresh_from(
                old(self).managed(),
                final(self).live(),
                final(self).level().data@,
                old(self).level_pos() as int,
                final(self).level_pos() as int,
                (old(self).rendered() / 2) as int,
            ),
            final(self).lives() == old(self).lives().push(final(self).live()),
            final(self).history().last() == column_mask(
                final(self).live(),
                (old(self).rendered() / 2) as int,
                final(self).level().floor_row(),
            ),
            forall|j: int|
                0 <= j < MANAGED_CAPACITY ==> #[trigger] final(self).managed()[j] == if keeps(
                    final(self).live()[j],
                    (old(self).rendered() / 2) as int,
                ) {
                    final(self).live()[j]
                } else {
                    None
                },
            !hole_covers(final(self).live(), (old(self).rendered() / 2) as int) ==> ({
                let fr = final(self).level().floor_row() as int;
                let c = ((old(self).rendered() / 2) % 32) as int;
                let t = match final(self).level().floor {
                    LevelFloor::Solid { tile, row } => tile,
                };
                &&& shows_tile(final(grid).cell(2 * fr, c), final(grid).cell(2 * fr + 1, c), t)
                &&& shows_tile(final(grid).cell(2 * fr + 2, c), final(grid).cell(2 * fr + 3, c), t)
            }),
    {
        proof {
            lemma2_to64();
        }
        let i = (self.rendered_col / 2) as usize;
        let screenblock_col: usize = mod_mask_u32(i as u32, Powers::_32) as usize;
        let (floor_tile, floor_row) = match self.current_level.floor {
            LevelFloor::Solid { tile, row } => (tile, row),
        };
        let floor_bottom_for_col = floor_row * 2;
        draw_background(grid, i % 48, floor_row, screenblock_col);

        self.drain_level(i);

        let ghost mid = self.stack_of_renders@;
        let (items_bits, should_floor_be_visible) = self.draw_items(grid, i, screenblock_col);
        let mut standable_mask: u32 = items_bits;
        proof {
            lemma_or_zero(items_bits);
        }
        let floor_mask: u32 = 15u32 << ((floor_row * 2) as u32);
        if should_floor_be_visible {
            let items_mask = standable_mask;
            standable_mask = items_mask | floor_mask;
            let ghost g0 = *grid;
            draw_tile(grid, floor_bottom_for_col, screenblock_col, floor_tile);
            let ghost g1 = *grid;
            draw_tile(grid, floor_bottom_for_col + 2, screenblock_col, floor_tile);
            proof {
                lemma_draw_shows(g0, g1, floor_bottom_for_col, screenblock_col, floor_tile);
                lemma_draw_shows(g1, *grid, (floor_bottom_for_col + 2) as usize, screenblock_col, floor_tile);
            }
            assert((items_mask | floor_mask) & floor_mask == floor_mask) by (bit_vector);
        }
        let ghost holed_now = !should_floor_be_visible;
        proof {
            if holed_now {
                let j = choose|j: int| 0 <= j < MANAGED_CAPACITY && is_covering_hole(#[trigger] mid[j], i as int);
                let d = self.current_level.data@;
                let kk = choose|kk: int|
                    0 <= kk < self.level_ptr && kk < d.len() && d[kk] == mid[j]->Some_0.item && advance_sum(
                        d.subrange(0, kk),
                    ) == mid[j]->Some_0.col_start;
                assert(hole_span(d[kk], advance_sum(d.subrange(0, kk)) as int, i as int));
                assert(level_hole_covers(d, i as int));
                assert(hole_covers(mid, i as int));
            } else {
                assert(!hole_covers(mid, i as int)) by {
                    if hole_covers(mid, i as int) {
                        let j = choose|j: int| 0 <= j < mid.len() && is_covering_hole(#[trigger] mid[j], i as int);
                        assert(!is_covering_hole(mid[j], i as int));
                    }
                }
            }
        }
        proof {
            lemma_window_after_shape(self.history@);
        }
        let ghost w0 = self.stand_matrix@;
        self.stand_matrix.push(standable_mask);
        self.stand_matrix.push(standable_mask);
        self.rendered_col = self.rendered_col + 2;
        let ghost old_history = self.history@;
        self.history = Ghost(self.history@.push(standable_mask).push(standable_mask));
        self.holed = Ghost(self.holed@.push(holed_now));
        self.live = Ghost(mid);
        let ghost old_lives = self.lives@;
        self.lives = Ghost(self.lives@.push(mid));
        proof {
            let fr0 = self.current_level.floor_row();
            assert forall|w: int| 0 <= w < self.rendered_col / 2 implies #[trigger] column_formula(
                self.history@,
                self.holed@,
                self.lives@,
                fr0,
                w,
            ) by {
                if w < i {
                    assert(column_formula(old(self).history@, old(self).holed@, old_lives, fr0, w));
                    assert(self.history@[2 * w] == old_history[2 * w]);
                    assert(self.holed@[w] == old(self).holed@[w]);
                    assert(self.lives@[w] == old_lives[w]);
                } else {
                    assert(self.lives@[w] == mid);
                }
            }
            assert(self.history@.drop_last() =~= old_history.push(standable_mask));
            assert(old_history.push(standable_mask).drop_last() =~= old_history);
            assert(w0 == window_after(old_history));
            assert(window_after(old_history.push(standable_mask)) == window_push(w0, standable_mask));
            assert(self.stand_matrix@ == window_after(self.history@));
            assert(self.history@.len() == self.rendered_col);
            assert(self.holed@.len() == self.rendered_col / 2);
            assert(self.live@.len() == MANAGED_CAPACITY);
            let d = self.current_level.data@;
            let fr = self.current_level.floor_row();
            assert forall|w: int| 0 <= w < self.rendered_col / 2 implies #[trigger] column_recorded(
                self.history@,
                self.holed@,
                d,
                fr,
                w,
            ) by {
                if w < i {
                    assert(column_recorded(old(self).history@, old(self).holed@, d, fr, w));
                    assert(self.history@[2 * w] == old_history[2 * w]);
                    assert(self.history@[2 * w + 1] == old_history[2 * w + 1]);
                    assert(self.holed@[w] == old(self).holed@[w]);
                }
            }
            assert(anchored(self.stack_of_renders@, (self.rendered_col / 2) as int));
            assert(self.parts_wf());
            assert(from_level(self.stack_of_renders@, d, self.level_ptr as int));
            assert(self.level_ptr == d.len() || self.col_ptr >= self.rendered_col / 2);
            assert(self.level_ptr == 0 || advance_sum(d.subrange(0, self.level_ptr - 1)) < self.rendered_col / 2);
        }
    }

    /// Streams the columns that the camera's view and the margin ahead of it
    /// need and that are not streamed yet, then blanks the columns that fell
    /// far enough behind. Does nothing on frames where the first visible
    /// column is odd, or when everything needed is already streamed.
    pub fn process_screen(&mut self, grid: &mut TileGrid, screen: &ScreenInfo)
        requires
            old(self).wf(),
            old(grid).wf(),
            screen.wf(),
        ensures
            final(self).wf(),
            final(grid).wf(),
            stream_step(*old(self), *final(self), *old(grid), *final(grid), *screen),
            final(self).level() == old(self).level(),
            final(self).dropped() >= old(self).dropped(),
            old(self).history().len() <= final(self).history().len(),
            final(self).history().subrange(0, old(self).history().len() as int) == old(self).history(),
            old(self).lives().len() <= final(self).lives().len(),
            final(self).lives().subrange(0, old(self).lives().len() as int) == old(self).lives(),
            !old(self).stream_settled(*screen) ==> {
                let start = screen.onscreen_col_start;
                let reap = if start >= REAP_BEHIND { start - REAP_BEHIND } else { 0 };
                &&& final(self).rendered() == start + 30 + RENDER_AHEAD
                &&& final(self).reaped() == reap
                &&& forall|c: int, row: int|
                    old(self).reaped() <= c < reap && 0 <= row <= 34 ==> #[trigger] final(grid).cell(
                        row,
                        (c / 2) % 32,
                    ) == 0
            },
    {
        proof {
            lemma2_to64();
        }
        let start = screen.onscreen_col_start;
        let end: u16 = screen.onscreen_col_end();
        let render_end = end + RENDER_AHEAD;
        let reap = start.saturating_sub(REAP_BEHIND);

        if self.rendered_col >= render_end || mod_mask_u32(start as u32, Powers::_2) != 0 {
            proof {
                assert(self.history@.subrange(0, self.history@.len() as int) =~= self.history@);
                assert(self.lives@.subrange(0, self.lives@.len() as int) =~= self.lives@);
            }
            return;
        }
        proof {
            assert(self.history@.subrange(0, self.history@.len() as int) =~= self.history@);
            assert(self.lives@.subrange(0, self.lives@.len() as int) =~= self.lives@);
        }
        while self.rendered_col < render_end
            invariant
                self.wf(),
                grid.wf(),
                render_end % 2 == 0,
                self.rendered_col <= render_end,
                render_end <= MAX_SCREEN_COL + 32,
                self.current_level == old(self).current_level,
                self.reaped_col == old(self).reaped_col,
                self.dropped_items >= old(self).dropped_items,
                old(self).history@.len() <= self.history@.len(),
                self.history@.subrange(0, old(self).history@.len() as int) == old(self).history@,
                old(self).lives@.len() <= self.lives@.len(),
                self.lives@.subrange(0, old(self).lives@.len() as int) == old(self).lives@,
            decreases render_end - self.rendered_col,
        {
            let ghost h0 = self.history@;
            let ghost l0 = self.lives@;
            self.stream_column(grid);
            proof {
                assert(self.history@.subrange(0, old(self).history@.len() as int) =~= h0.subrange(
                    0,
                    old(self).history@.len() as int,
                ));
                assert(self.lives@.subrange(0, old(self).lives@.len() as int) =~= l0.subrange(
                    0,
                    old(self).lives@.len() as int,
                ));
            }
        }

        reap_columns(grid, self.reaped_col, reap);
        self.reaped_col = reap;
    }

    /// Per-frame entry point of the renderer.
    pub fn tick(&mut self, grid: &mut TileGrid, screen: &ScreenInfo)
        requires
            old(self).wf(),
            old(grid).wf(),
            screen.wf(),
        ensures
            final(self).wf(),
            final(grid).wf(),
            stream_step(*old(self), *final(self), *old(grid), *final(grid), *screen),
            final(self).level() == old(self).level(),
            final(self).dropped() >= old(self).dropped(),
            old(self).history().len() <= final(self).history().len(),
            final(self).history().subrange(0, old(self).history().len() as int) == old(self).history(),
            old(self).lives().len() <= final(self).lives().len(),
            final(self).lives().subrange(0, old(self).lives().len() as int) == old(self).lives(),
            !old(self).stream_settled(*screen) ==> {
                let start = screen.onscreen_col_start;
                let reap = if start >= REAP_BEHIND { start - REAP_BEHIND } else { 0 };
                &&& final(self).rendered() == start + 30 + RENDER_AHEAD
                &&& final(self).reaped() == reap
                &&& forall|c: int, row: int|
                    old(self).reaped() <= c < reap && 0 <= row <= 34 ==> #[trigger] final(grid).cell(
                        row,
                        (c / 2) % 32,
                    ) == 0
            },
    {
        self.process_screen(grid, screen);
    }

    /// Everything that `screen` needs is streamed, or the frame is one on
    /// which nothing is streamed.
    pub open spec fn stream_settled(&self, screen: ScreenInfo) -> bool {
        self.rendered() >= screen.onscreen_col_start + 30 + RENDER_AHEAD || screen.onscreen_col_start
            % 2 == 1
    }
}

/// One streaming step from `pre` to `post`, and from grid `g0` to `g1`,
/// under `screen`: it leaves the renderer settled, and changes nothing
/// where it was settled already.
pub open spec fn stream_step(
    pre: LevelManager,
    post: LevelManager,
    g0: TileGrid,
    g1: TileGrid,
    screen: ScreenInfo,
) -> bool {
    &&& post.stream_settled(screen)
    &&& pre.stream_settled(screen) ==> post == pre && g1 == g0
}

/// Streaming twice with the camera unmoved: the second step writes no tile
/// and changes nothing at all.
pub proof fn lemma_stream_twice(
    a: LevelManager,
    b: LevelManager,
    c: LevelManager,
    g0: TileGrid,
    g1: TileGrid,
    g2: TileGrid,
    screen: ScreenInfo,
)
    requires
        stream_step(a, b, g0, g1, screen),
        stream_step(b, c, g1, g2, screen),
    ensures
        c == b,
        g2 == g1,
        g2.pending() == g1.pending(),
{
}

/// Streaming never skips nor repeats a level item: once the column at the
/// end of all the layout's cursor advances is streamed, every item has been
/// read and the cursor stands at that column.
pub proof fn lemma_cursor_after_streaming(m: LevelManager)
    requires
        m.wf(),
        m.rendered() / 2 > advance_sum(m.level().data@),
    ensures
        m.level_pos() == m.level().data@.len(),
        m.cursor() == advance_sum(m.level().data@),
{
    lemma_advance_sum_prefix(m.current_level.data@, m.level_ptr as int);
    assert(m.current_level.data@.subrange(0, m.current_level.data@.len() as int) =~= m.current_level.data@);
}

proof fn lemma_or_zero(a: u32)
    ensures
        a | 0u32 == a,
{
    assert(a | 0u32 == a) by (bit_vector);
}

proof fn lemma_or_assoc(a: u32, b: u32, c: u32)
    ensures
        (a | b) | c == a | (b | c),
{
    assert((a | b) | c == a | (b | c)) by (bit_vector);
}

/// What a consistent renderer holds: the window starts where the masks it
/// holds end at the streamed columns, and holds at most 32 of them; the
/// cursor is the total advance of the items read; reading stopped at the
/// first item whose cursor position lies past the last streamed column;
/// and every drawn item is a level item started where the cursor stood
/// when it was read.
pub proof fn lemma_wf_facts(m: LevelManager)
    requires
        m.wf(),
    ensures
        m.window().0 + m.window().1.len() == m.rendered(),
        m.window().1.len() <= 32,
        m.window() == window_after(m.history()),
        m.history().len() == m.rendered(),
        m.holed().len() == m.rendered() / 2,
        m.rendered() % 2 == 0,
        m.level_pos() <= m.level().data@.len(),
        m.cursor() == advance_sum(m.level().data@.subrange(0, m.level_pos() as int)),
        m.level_pos() == m.level().data@.len() || m.cursor() >= m.rendered() / 2,
        m.level_pos() == 0 || advance_sum(m.level().data@.subrange(0, m.level_pos() - 1)) < m.rendered()
            / 2,
        from_level(m.managed(), m.level().data@, m.level_pos() as int),
        anchored(m.managed(), (m.rendered() / 2) as int),
        m.lives().len() == m.rendered() / 2,
        forall|w: int|
            0 <= w < m.rendered() / 2 ==> #[trigger] column_formula(
                m.history(),
                m.holed(),
                m.lives(),
                m.level().floor_row(),
                w,
            ),
        forall|w: int|
            0 <= w < m.rendered() / 2 ==> #[trigger] column_recorded(
                m.history(),
                m.holed(),
                m.level().data@,
                m.level().floor_row(),
                w,
            ),
{
    lemma_window_after_shape(m.history@);
}

/// Once level column `w` is streamed, and while its two masks are still in
/// the window, both hold the floor's bits unless a hole of the level
/// covers the column.
pub proof fn lemma_floor_in_window(m: LevelManager, w: int)
    requires
        m.wf(),
        0 <= w,
        2 * w + 1 < m.rendered(),
        m.rendered() - 2 * w <= 32,
        !level_hole_covers(m.level().data@, w),
    ensures
        window_mask(m.window(), 2 * w) & floor_bits(m.level().floor_row()) == floor_bits(
            m.level().floor_row(),
        ),
        window_mask(m.window(), 2 * w + 1) & floor_bits(m.level().floor_row()) == floor_bits(
            m.level().floor_row(),
        ),
{
    assert(column_recorded(m.history@, m.holed@, m.current_level.data@, m.current_level.floor_row(), w));
    lemma_window_round_trip(m.history@, 2 * w);
    lemma_window_round_trip(m.history@, 2 * w + 1);
}

/// Blanks the grid columns under the columns of 8 pixels from `from` up to
/// `to`.
fn reap_columns(grid: &mut TileGrid, from: u16, to: u16)
    requires
        old(grid).wf(),
    ensures
        final(grid).wf(),
        forall|c: int, row: int|
            from <= c < to && 0 <= row <= 34 ==> #[trigger] final(grid).cell(row, (c / 2) % 32) == 0,
{
    proof {
        lemma2_to64();
    }
    let mut r: u16 = from;
    while r < to
        invariant
            grid.wf(),
            from <= r || to <= from,
            forall|c: int, row: int|
                from <= c < r && 0 <= row <= 34 ==> #[trigger] grid.cell(row, (c / 2) % 32) == 0,
        decreases to - r,
    {
        proof {
            lemma2_to64();
        }
        let screenblock_col = mod_mask_u32((r / 2) as u32, Powers::_32) as usize;
        let mut row: usize = 0;
        while row <= 34
            invariant
                grid.wf(),
                screenblock_col < GRID_COLS,
                screenblock_col == (r / 2) % 32,
                row <= 35,
                forall|c: int, rr: int|
                    from <= c < r && 0 <= rr <= 34 ==> #[trigger] grid.cell(rr, (c / 2) % 32) == 0,
                forall|rr: int| 0 <= rr < row ==> #[trigger] grid.cell(rr, screenblock_col as int) == 0,
            decreases 35 - row,
        {
            let ghost g0 = *grid;
            grid.write_cell(row, screenblock_col, 0, 0);
            proof {
                assert forall|c: int, rr: int|
                    from <= c < r && 0 <= rr <= 34 implies #[trigger] grid.cell(rr, (c / 2) % 32) == 0 by {
                    assert(g0.cell(rr, (c / 2) % 32) == 0);
                }
                assert forall|rr: int| 0 <= rr < row + 1 implies #[trigger] grid.cell(rr, screenblock_col as int) == 0 by {
                    if rr < row {
                        assert(g0.cell(rr, screenblock_col as int) == 0);
                    }
                }
            }
            row += 1;
        }
        proof {
            assert forall|c: int, rr: int|
                from <= c < r + 1 && 0 <= rr <= 34 implies #[trigger] grid.cell(rr, (c / 2) % 32) == 0 by {
                if c == r {
                    assert(grid.cell(rr, screenblock_col as int) == 0);
                }
            }
        }
        r += 1;
    }
}

/// Draws the body of a pipe whose top is at cell row `row`, down to the
/// floor at cell row `floor_bottom`, and adds its rows to `mask`.
fn draw_pipe_body(
    grid: &mut TileGrid,
    mask: u32,
    row: usize,
    floor_bottom: usize,
    col: usize,
    is_left: bool,
) -> (r: u32)
    requires
        old(grid).wf(),
        row <= 30,
        floor_bottom <= 30,
        col < GRID_COLS,
    ensures
        final(grid).wf(),
        r == mask | pipe_body_bits(row + 2, pipe_body_len(row as int, floor_bottom as int)),
{
    proof {
        lemma_or_zero(mask);
    }
    let mut standable_mask = mask;
    let diff = floor_bottom.saturating_sub(row + 2) / 2;
    let mut vert_row: usize = 0;
    while vert_row < diff
        invariant
            grid.wf(),
            vert_row <= diff,
            row + 2 + 2 * diff <= floor_bottom || diff == 0,
            floor_bottom <= 30,
            col < GRID_COLS,
            diff == pipe_body_len(row as int, floor_bottom as int),
            standable_mask == mask | pipe_body_bits(row + 2, vert_row as nat),
        decreases diff - vert_row,
    {
        let body_row = (row + 2) + vert_row * 2;
        proof {
            lemma_or_assoc(mask, pipe_body_bits(row + 2, vert_row as nat), pair_bits(body_row as int));
        }
        standable_mask = standable_mask | (3u32 << (body_row as u32));
        if is_left {
            draw_tile(grid, body_row, col, Tile(PIPE_BODY_LEFT));
        } else {
            draw_tile(grid, body_row, col, Tile(PIPE_BODY_RIGHT));
        }
        vert_row += 1;
    }
    standable_mask
}

/// The row, in cells, `up_from_floor` blocks above the block under the
/// floor row `floor_bg`.
fn background_row(floor_bg: usize, up_from_floor: usize) -> (r: usize)
    requires
        1 <= floor_bg <= 15,
    ensures
        r == 2 * (if floor_bg - 1 >= up_from_floor { floor_bg - 1 - up_from_floor } else { 0 }),
        r <= 28,
{
    (floor_bg - 1).saturating_sub(up_from_floor) * 2
}

/// Draws the decoration (hills and bushes) of a column whose place in the
/// repeating backdrop is `background_col`.
fn draw_background(grid: &mut TileGrid, background_col: usize, floor_bg: usize, col: usize)
    requires
        old(grid).wf(),
        1 <= floor_bg <= 15,
        col < GRID_COLS,
    ensures
        final(grid).wf(),
{
    if background_col == 0 {
        draw_tile(grid, background_row(floor_bg, 0), col, Tile(MOUNTAIL_SLOPE_UP));
    } else if background_col == 1 {
        draw_tile(grid, background_row(floor_bg, 1), col, Tile(MOUNTAIL_SLOPE_UP));
        draw_tile(grid, background_row(floor_bg, 0), col, Tile(MOUNTAIL_BUTTONS));
    } else if background_col == 2 {
        draw_tile(grid, background_row(floor_bg, 2), col, Tile(MOUNTAIL_TOP));
        draw_tile(grid, background_row(floor_bg, 1), col, Tile(MOUNTAIL_BUTTONS));
        draw_tile(grid, background_row(floor_bg, 0), col, Tile(MOUNTAIL_EMPTY));
    } else if background_col == 3 {
        draw_tile(grid, background_row(floor_bg, 1), col, Tile(MOUNTAIL_SLOPE_DOWN));
        draw_tile(grid, background_row(floor_bg, 0), col, Tile(MOUNTAIL_BUTTONS));
    } else if background_col == 4 {
        draw_tile(grid, background_row(floor_bg, 0), col, Tile(MOUNTAIL_SLOPE_DOWN));
    } else if background_col == 11 || background_col == 23 || background_col == 41 {
        draw_tile(grid, background_row(floor_bg, 0), col, Tile(BUSH_LEFT));
    } else if (12 <= background_col && background_col <= 14) || background_col == 24
        || background_col == 42 || background_col == 43 {
        draw_tile(grid, background_row(floor_bg, 0), col, Tile(BUSH_MIDDLE));
    } else if background_col == 15 || background_col == 25 || background_col == 44 {
        draw_tile(grid, background_row(floor_bg, 0), col, Tile(BUSH_RIGHT));
    } else if background_col == 16 {
        draw_tile(grid, background_row(floor_bg, 0), col, Tile(MOUNTAIL_SLOPE_UP));
    } else if background_col == 17 {
        draw_tile(grid, background_row(floor_bg, 1), col, Tile(MOUNTAIL_TOP));
        draw_tile(grid, background_row(floor_bg, 0), col, Tile(MOUNTAIL_BUTTONS));
    } else if background_col == 18 {
        draw_tile(grid, background_row(floor_bg, 0), col, Tile(MOUNTAIL_SLOPE_DOWN));
    }
}

} // verus!
