use vstd::prelude::*;

verus! {

/// Number of 8×8 cells per row of the background tile sheet.
pub const BACKGROUND_TILE_COLS_PER_ROW: usize = 16;

/// A 2×2 block of 8×8 cells of the background sheet, named by the index of
/// its top-left cell.
#[derive(Clone, Copy, PartialEq, Eq, Structural, Debug)]
pub struct Tile(pub usize);

/// Largest tile index whose four cells all have indices.
pub const MAX_TILE_ID: usize = 0xFFFF;

impl Tile {
    pub fn new(id: usize) -> (t: Tile)
        ensures
            t.0 == id,
    {
        Tile(id)
    }

    pub fn id(&self) -> (r: usize)
        ensures
            r == self.0,
    {
        self.0
    }

    pub fn top_left(&self) -> (r: usize)
        ensures
            r == self.0,
    {
        self.0
    }

    pub fn top_right(&self) -> (r: usize)
        requires
            self.0 <= MAX_TILE_ID,
        ensures
            r == self.0 + 1,
    {
        self.0 + 1
    }

    pub fn bottom_left(&self) -> (r: usize)
        requires
            self.0 <= MAX_TILE_ID,
        ensures
            r == self.0 + BACKGROUND_TILE_COLS_PER_ROW,
    {
        self.0 + BACKGROUND_TILE_COLS_PER_ROW
    }

    pub fn bottom_right(&self) -> (r: usize)
        requires
            self.0 <= MAX_TILE_ID,
        ensures
            r == self.0 + BACKGROUND_TILE_COLS_PER_ROW + 1,
    {
        self.0 + BACKGROUND_TILE_COLS_PER_ROW + 1
    }
}

/// Index of the tile at (`row`, `col`) of the sheet, counted in 2×2 blocks.
pub fn get_tile_idx(row: usize, col: usize) -> (r: usize)
    requires
        row <= 64,
        col <= 64,
    ensures
        r == row * 2 * BACKGROUND_TILE_COLS_PER_ROW + col * 2 + 1,
{
    row * 2 * BACKGROUND_TILE_COLS_PER_ROW + col * 2 + 1
}

/// Tile ids of the background sheet.
pub const BRICK: usize = 1;
pub const ROCK: usize = 3;
pub const QUESTION_BLOCK_UNUSED: usize = 5;
pub const QUESTION_BLOCK_USED: usize = 7;
pub const PIPE_TOP_LEFT: usize = 13;
pub const PIPE_TOP_RIGHT: usize = 15;
pub const PIPE_BODY_LEFT: usize = 45;
pub const PIPE_BODY_RIGHT: usize = 47;
pub const BUSH_LEFT: usize = 37;
pub const BUSH_MIDDLE: usize = 39;
pub const BUSH_RIGHT: usize = 111;
pub const MOUNTAIL_TOP: usize = 103;
pub const MOUNTAIL_SLOPE_UP: usize = 135;
pub const MOUNTAIL_BUTTONS: usize = 137;
pub const MOUNTAIL_EMPTY: usize = 139;
pub const MOUNTAIL_SLOPE_DOWN: usize = 143;

/// The ground of a level.
#[derive(Clone, Copy, PartialEq, Eq, Structural, Debug)]
pub enum LevelFloor {
    Solid { tile: Tile, row: usize },
}

/// One instruction of a level's layout.
#[derive(Clone, Copy, PartialEq, Eq, Structural, Debug)]
pub enum LevelItem {
    /// A run of `len` columns of `tile` at `row`.
    Tile { tile: Tile, row: usize, len: usize },
    /// `len` columns without floor.
    HoleInFloor { len: usize },
    /// A two-column pipe from `row` down to the floor.
    Pipe { row: usize },
    /// Moves the level's column cursor on by `advance_by`.
    NextCol { advance_by: usize },
}

/// Highest grid row (in 2×2 blocks) that a level may use: two cell rows per
/// block must fit in a 32-bit column mask.
pub const MAX_LEVEL_ROW: usize = 15;

/// Bound on the total advance of a level's cursor.
pub const MAX_LEVEL_COLS: usize = 0x10000;

impl LevelItem {
    /// The item fits the tile grid and the collision masks.
    pub open spec fn wf(self) -> bool {
        match self {
            LevelItem::Tile { tile, row, len } => row <= MAX_LEVEL_ROW && tile.0 <= 0xFF,
            LevelItem::HoleInFloor { len } => true,
            LevelItem::Pipe { row } => row <= MAX_LEVEL_ROW,
            LevelItem::NextCol { advance_by } => 0 < advance_by <= MAX_LEVEL_COLS,
        }
    }

    /// How far the item moves the column cursor.
    pub open spec fn advance(self) -> nat {
        match self {
            LevelItem::NextCol { advance_by } => advance_by as nat,
            _ => 0,
        }
    }
}

/// Total advance of the cursor over `items`.
pub open spec fn advance_sum(items: Seq<LevelItem>) -> nat
    decreases items.len(),
{
    if items.len() == 0 {
        0
    } else {
        advance_sum(items.drop_last()) + items.last().advance()
    }
}

/// The advance over a prefix is at most the advance over the whole.
pub proof fn lemma_advance_sum_prefix(items: Seq<LevelItem>, k: int)
    requires
        0 <= k <= items.len(),
    ensures
        advance_sum(items.subrange(0, k)) <= advance_sum(items),
    decreases items.len() - k,
{
    if k < items.len() {
        lemma_advance_sum_prefix(items, k + 1);
        assert(items.subrange(0, k + 1).drop_last() =~= items.subrange(0, k));
    } else {
        assert(items.subrange(0, k) =~= items);
    }
}

/// A level: its floor and its ordered layout.
pub struct Level {
    pub floor: LevelFloor,
    pub data: Vec<LevelItem>,
}

impl Level {
    /// The floor row of the level.
    pub open spec fn floor_row(&self) -> usize {
        match self.floor {
            LevelFloor::Solid { tile, row } => row,
        }
    }

    /// Rows and tiles fit the grid, every cursor advance is positive and the
    /// cursor stays bounded.
    pub open spec fn wf(&self) -> bool {
        &&& 1 <= self.floor_row() <= MAX_LEVEL_ROW
        &&& (match self.floor {
            LevelFloor::Solid { tile, row } => tile.0 + BACKGROUND_TILE_COLS_PER_ROW + 1 <= 0xFF,
        })
        &&& forall|k: int| 0 <= k < self.data@.len() ==> (#[trigger] self.data@[k]).wf()
        &&& advance_sum(self.data@) <= MAX_LEVEL_COLS
    }
}

/// The row `up_from_floor` blocks above the floor of the first level.
pub fn from_floor(up_from_floor: usize) -> (r: usize)
    ensures
        r == if up_from_floor <= 14 {
            14 - up_from_floor
        } else {
            0
        },
{
    let floor_minus_one: usize = 14;
    floor_minus_one.saturating_sub(up_from_floor)
}

/// The first level.
pub fn level_1_1() -> (l: Level)
    ensures
        l.wf(),
{
    let mut data: Vec<LevelItem> = Vec::new();
    data.push(LevelItem::NextCol { advance_by: 4 });
    data.push(LevelItem::Tile { tile: Tile(QUESTION_BLOCK_UNUSED), row: from_floor(3), len: 4 });
    data.push(LevelItem::NextCol { advance_by: 12 });
    data.push(LevelItem::Tile { tile: Tile(QUESTION_BLOCK_UNUSED), row: from_floor(3), len: 1 });
    data.push(LevelItem::NextCol { advance_by: 4 });
    data.push(LevelItem::Tile { tile: Tile(BRICK), row: from_floor(3), len: 5 });
    data.push(LevelItem::NextCol { advance_by: 1 });
    data.push(LevelItem::Tile { tile: Tile(QUESTION_BLOCK_UNUSED), row: from_floor(3), len: 1 });
    data.push(LevelItem::NextCol { advance_by: 1 });
    data.push(LevelItem::Tile { tile: Tile(BRICK), row: from_floor(7), len: 1 });
    data.push(LevelItem::NextCol { advance_by: 1 });
    data.push(LevelItem::Tile { tile: Tile(QUESTION_BLOCK_UNUSED), row: from_floor(3), len: 1 });
    data.push(LevelItem::NextCol { advance_by: 5 });
    data.push(LevelItem::Pipe { row: from_floor(1) });
    data.push(LevelItem::NextCol { advance_by: 10 });
    data.push(LevelItem::Pipe { row: from_floor(2) });
    data.push(LevelItem::NextCol { advance_by: 8 });
    data.push(LevelItem::Pipe { row: from_floor(3) });
    data.push(LevelItem::NextCol { advance_by: 11 });
    data.push(LevelItem::Pipe { row: from_floor(3) });
    data.push(LevelItem::NextCol { advance_by: 12 });
    data.push(LevelItem::HoleInFloor { len: 2 });
    let l = Level { floor: LevelFloor::Solid { tile: Tile(ROCK), row: 15 }, data };
    proof {
        reveal_with_fuel(advance_sum, 23);
        assert(l.data@.len() == 22);
    }
    l
}

} // verus!
