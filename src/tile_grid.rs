use crate::levels::{Tile, BACKGROUND_TILE_COLS_PER_ROW};
use vstd::prelude::*;

verus! {

/// Columns of the tile grid; each cell holds two 8×8 cells side by side.
pub const GRID_COLS: usize = 32;

/// Rows of 8×8 cells of the tile grid.
pub const GRID_ROWS: usize = 64;

/// One write of a grid cell, to be mirrored to the display.
#[derive(Clone, Copy, PartialEq, Eq, Structural, Debug)]
pub struct TileWrite {
    pub row: usize,
    pub col: usize,
    /// The left 8×8 cell's index in the low byte, the right one's in the
    /// high byte.
    pub value: u16,
}

/// The affine background's tile grid, with the log of writes that have not
/// yet reached the display.
pub struct TileGrid {
    cells: Vec<u16>,
    writes: Vec<TileWrite>,
}

/// The value of a cell that holds the 8×8 cells `low` and `high`.
pub open spec fn cell_value(low: int, high: int) -> u16 {
    ((high % 256) * 256 + (low % 256)) as u16
}

impl TileGrid {
    /// One cell per row and column.
    pub open spec fn wf(&self) -> bool {
        self.cells().len() == GRID_COLS * GRID_ROWS
    }

    /// The cells, row after row.
    pub closed spec fn cells(&self) -> Seq<u16> {
        self.cells@
    }

    /// The writes not yet taken, oldest first.
    pub closed spec fn pending(&self) -> Seq<TileWrite> {
        self.writes@
    }

    /// The cell at (`row`, `col`).
    pub open spec fn cell(&self, row: int, col: int) -> u16 {
        self.cells()[row * GRID_COLS + col]
    }

    pub fn new() -> (g: Self)
        ensures
            g.wf(),
            g.pending().len() == 0,
            forall|k: int| 0 <= k < g.cells().len() ==> g.cells()[k] == 0,
    {
        let mut cells: Vec<u16> = Vec::new();
        while cells.len() < GRID_COLS * GRID_ROWS
            invariant
                cells@.len() <= GRID_COLS * GRID_ROWS,
                forall|k: int| 0 <= k < cells@.len() ==> cells@[k] == 0,
            decreases GRID_COLS * GRID_ROWS - cells@.len(),
        {
            cells.push(0);
        }
        TileGrid { cells, writes: Vec::new() }
    }

    /// Sets the cell at (`row`, `col`) to hold `low` and `high`, and logs the
    /// write.
    pub fn write_cell(&mut self, row: usize, col: usize, low: u8, high: u8)
        requires
            old(self).wf(),
            row < GRID_ROWS,
            col < GRID_COLS,
        ensures
            final(self).wf(),
            final(self).cells() == old(self).cells().update(
                row * GRID_COLS + col,
                cell_value(low as int, high as int),
            ),
            final(self).pending() == old(self).pending().push(
                TileWrite { row, col, value: cell_value(low as int, high as int) },
            ),
    {
        let value: u16 = (high as u16) * 256 + (low as u16);
        self.cells.set(row * GRID_COLS + col, value);
        self.writes.push(TileWrite { row, col, value });
    }

    /// The cell at (`row`, `col`).
    pub fn read_cell(&self, row: usize, col: usize) -> (r: u16)
        requires
            self.wf(),
            row < GRID_ROWS,
            col < GRID_COLS,
        ensures
            r == self.cell(row as int, col as int),
    {
        self.cells[row * GRID_COLS + col]
    }

    /// Hands out the logged writes, oldest first, and empties the log.
    pub fn take_writes(&mut self) -> (r: Vec<TileWrite>)
        requires
            old(self).wf(),
        ensures
            final(self).wf(),
            r@ == old(self).pending(),
            final(self).pending().len() == 0,
            final(self).cells() == old(self).cells(),
    {
        let mut out: Vec<TileWrite> = Vec::new();
        std::mem::swap(&mut out, &mut self.writes);
        out
    }
}

proof fn lemma_byte_of(x: usize)
    ensures
        (x as u8) as int == x % 256,
{
    assert((x as u8) as usize == x % 256) by (bit_vector);
}

/// Draws `tile` with its top half at (`row`, `col`) and its bottom half
/// one row below.
pub fn draw_tile(grid: &mut TileGrid, row: usize, col: usize, tile: Tile)
    requires
        old(grid).wf(),
        row + 1 < GRID_ROWS,
        col < GRID_COLS,
        tile.0 <= 0xFF,
    ensures
        final(grid).wf(),
        final(grid).cells() == old(grid).cells().update(
            row * GRID_COLS + col,
            cell_value(tile.0 as int, tile.0 + 1),
        ).update(
            (row + 1) * GRID_COLS + col,
            cell_value(tile.0 + BACKGROUND_TILE_COLS_PER_ROW, tile.0 + BACKGROUND_TILE_COLS_PER_ROW + 1),
        ),
        final(grid).pending() == old(grid).pending().push(
            TileWrite { row, col, value: cell_value(tile.0 as int, tile.0 + 1) },
        ).push(
            TileWrite {
                row: (row + 1) as usize,
                col,
                value: cell_value(
                    tile.0 + BACKGROUND_TILE_COLS_PER_ROW,
                    tile.0 + BACKGROUND_TILE_COLS_PER_ROW + 1,
                ),
            },
        ),
{
    proof {
        lemma_byte_of(tile.0);
        lemma_byte_of((tile.0 + 1) as usize);
        lemma_byte_of((tile.0 + BACKGROUND_TILE_COLS_PER_ROW) as usize);
        lemma_byte_of((tile.0 + BACKGROUND_TILE_COLS_PER_ROW + 1) as usize);
    }
    grid.write_cell(row, col, tile.top_left() as u8, tile.top_right() as u8);
    grid.write_cell(row + 1, col, tile.bottom_left() as u8, tile.bottom_right() as u8);
}

/// After drawing `tile` at (`row`, `col`) the grid shows it there, for
/// a tile whose four cell indices fit in a byte.
pub proof fn lemma_draw_shows(pre: TileGrid, post: TileGrid, row: usize, col: usize, tile: Tile)
    requires
        pre.wf(),
        row + 1 < GRID_ROWS,
        col < GRID_COLS,
        tile.0 + BACKGROUND_TILE_COLS_PER_ROW + 1 <= 0xFF,
        post.cells() == pre.cells().update(
            row * GRID_COLS + col,
            cell_value(tile.0 as int, tile.0 + 1),
        ).update(
            (row + 1) * GRID_COLS + col,
            cell_value(tile.0 + BACKGROUND_TILE_COLS_PER_ROW, tile.0 + BACKGROUND_TILE_COLS_PER_ROW + 1),
        ),
    ensures
        shows_tile(post.cell(row as int, col as int), post.cell(row + 1, col as int), tile),
{
}

/// Empties the two cells of the tile whose top half is at (`row`, `col`).
pub fn clear_tile(grid: &mut TileGrid, row: usize, col: usize)
    requires
        old(grid).wf(),
        row + 1 < GRID_ROWS,
        col < GRID_COLS,
    ensures
        final(grid).wf(),
        final(grid).cells() == old(grid).cells().update(row * GRID_COLS + col, 0).update(
            (row + 1) * GRID_COLS + col,
            0,
        ),
        final(grid).pending() == old(grid).pending().push(TileWrite { row, col, value: 0 }).push(
            TileWrite { row: (row + 1) as usize, col, value: 0 },
        ),
{
    grid.write_cell(row, col, 0, 0);
    grid.write_cell(row + 1, col, 0, 0);
}

/// Whether the cells `top` and `bottom` show exactly `tile`.
pub open spec fn shows_tile(top: u16, bottom: u16, tile: Tile) -> bool {
    &&& top % 256 == tile.0
    &&& top / 256 == tile.0 + 1
    &&& bottom % 256 == tile.0 + BACKGROUND_TILE_COLS_PER_ROW
    &&& bottom / 256 == tile.0 + BACKGROUND_TILE_COLS_PER_ROW + 1
}

/// The first of `tiles` that the grid shows with its top half at `row`
/// and column `col` modulo the grid's width.
pub fn is_tile(grid: &TileGrid, row: usize, col: usize, tiles: &Vec<Tile>) -> (r: Option<Tile>)
    requires
        grid.wf(),
        row + 1 < GRID_ROWS,
        forall|k: int| 0 <= k < tiles@.len() ==> (#[trigger] tiles@[k]).0 <= 0xFF,
    ensures
        ({
            let top = grid.cell(row as int, (col % GRID_COLS) as int);
            let bottom = grid.cell(row + 1, (col % GRID_COLS) as int);
            match r {
                Some(t) => exists|k: int|
                    0 <= k < tiles@.len() && tiles@[k] == t && shows_tile(top, bottom, t) && forall|
                        j: int,
                    |
                        0 <= j < k ==> !shows_tile(top, bottom, #[trigger] tiles@[j]),
                None => forall|k: int|
                    0 <= k < tiles@.len() ==> !shows_tile(top, bottom, #[trigger] tiles@[k]),
            }
        }),
{
    let c = col % GRID_COLS;
    let top = grid.read_cell(row, c);
    let bottom = grid.read_cell(row + 1, c);
    let mut k: usize = 0;
    while k < tiles.len()
        invariant
            k <= tiles@.len(),
            top == grid.cell(row as int, (col % GRID_COLS) as int),
            bottom == grid.cell(row + 1, (col % GRID_COLS) as int),
            forall|j: int| 0 <= j < tiles@.len() ==> (#[trigger] tiles@[j]).0 <= 0xFF,
            forall|j: int| 0 <= j < k ==> !shows_tile(top, bottom, #[trigger] tiles@[j]),
        decreases tiles@.len() - k,
    {
        let tile = tiles[k];
        let found = (top % 256) as usize == tile.top_left() && (top / 256) as usize == tile.top_right()
            && (bottom % 256) as usize == tile.bottom_left() && (bottom / 256) as usize
            == tile.bottom_right();
        if found {
            assert(tiles@[k as int] == tile);
            assert(shows_tile(top, bottom, tile));
            assert(0 <= k < tiles@.len() && tiles@[k as int] == tile && shows_tile(top, bottom, tile)
                && forall|j: int| 0 <= j < k ==> !shows_tile(top, bottom, #[trigger] tiles@[j]));
            return Some(tile);
        }
        k += 1;
    }
    None
}

} // verus!
