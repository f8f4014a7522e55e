use crate::color::PaletteColor;
use vstd::prelude::*;
use vstd::string::*;

verus! {

/// Number of blocks of glyph tiles that palettes can lock.
pub const CHAR_BLOCKS: u16 = 16;

/// Number of glyphs in a text palette.
pub const PALETTE_CHARS: usize = 32;

/// Columns of the text layer.
pub const TEXT_COLS: usize = 30;

/// A lock on block `idx` of glyph tiles; `ticket` is its bit.
#[derive(Clone, Copy, PartialEq, Eq, Structural, Debug)]
pub struct CharBlockTicket {
    pub idx: u16,
    pub ticket: u16,
}

/// Where a text was written: its screenblock, first cell and length.
#[derive(Clone, Copy, Debug)]
pub struct TextHandle {
    pub screenblock_idx: usize,
    pub loc: (usize, usize),
    pub len: usize,
}

impl TextHandle {
    /// The cells (column, row) that clearing the text blanks: one per
    /// character, stopping at the right edge of the text layer.
    pub fn clear(&self) -> (r: Vec<(usize, usize)>)
        ensures
            r@.len() == if self.loc.0 >= TEXT_COLS {
                0
            } else if self.loc.0 + self.len > TEXT_COLS {
                (TEXT_COLS - self.loc.0) as int
            } else {
                self.len as int
            },
            forall|k: int| 0 <= k < r@.len() ==> #[trigger] r@[k] == ((self.loc.0 + k) as usize, self.loc.1),
    {
        let mut out: Vec<(usize, usize)> = Vec::new();
        let mut idx: usize = 0;
        while idx < self.len && self.loc.0 < TEXT_COLS && idx < TEXT_COLS - self.loc.0
            invariant
                idx <= self.len,
                self.loc.0 < TEXT_COLS ==> idx <= TEXT_COLS - self.loc.0,
                self.loc.0 >= TEXT_COLS ==> idx == 0,
                out@.len() == idx,
                forall|k: int| 0 <= k < idx ==> #[trigger] out@[k] == ((self.loc.0 + k) as usize, self.loc.1),
            decreases self.len - idx,
        {
            out.push((self.loc.0 + idx, self.loc.1));
            idx += 1;
        }
        out
    }
}

/// A set of up to 32 glyphs drawn into a locked block of glyph tiles,
/// with `N` slots for texts written with them.
pub struct TextPalette<const N: usize> {
    chars: Vec<char>,
    ticket: CharBlockTicket,
    color: PaletteColor,
    slots: Vec<Option<TextHandle>>,
}

impl<const N: usize> TextPalette<N> {
    /// The glyphs, by position.
    pub closed spec fn glyphs(&self) -> Seq<char> {
        self.chars@
    }

    /// The texts written, by slot.
    pub closed spec fn texts(&self) -> Seq<Option<TextHandle>> {
        self.slots@
    }

    /// The color the glyphs are drawn in.
    pub closed spec fn ink(&self) -> PaletteColor {
        self.color
    }

    /// The block of glyph tiles that the palette holds.
    pub closed spec fn block(&self) -> CharBlockTicket {
        self.ticket
    }

    pub closed spec fn wf(&self) -> bool {
        &&& self.chars@.len() == PALETTE_CHARS
        &&& self.slots@.len() == N
        &&& self.ticket.idx < CHAR_BLOCKS
    }

    /// The palette of the first 32 characters of `input`, padded with
    /// spaces, in block `ticket`, with no text written.
    pub fn new(input: &str, ticket: CharBlockTicket, color: PaletteColor) -> (p: Self)
        requires
            ticket.idx < CHAR_BLOCKS,
        ensures
            p.wf(),
            p.block() == ticket,
            p.ink() == color,
            forall|i: int|
                0 <= i < PALETTE_CHARS ==> #[trigger] p.glyphs()[i] == if i < input@.len() {
                    input@[i]
                } else {
                    ' '
                },
            forall|s: int| 0 <= s < N ==> #[trigger] p.texts()[s] is None,
    {
        let n = input.unicode_len();
        let mut chars: Vec<char> = Vec::new();
        let mut i: usize = 0;
        while i < PALETTE_CHARS
            invariant
                n == input@.len(),
                i <= PALETTE_CHARS,
                chars@.len() == i,
                forall|k: int| 0 <= k < i ==> #[trigger] chars@[k] == if k < input@.len() {
                    input@[k]
                } else {
                    ' '
                },
            decreases PALETTE_CHARS - i,
        {
            if i < n {
                chars.push(input.get_char(i));
            } else {
                chars.push(' ');
            }
            i += 1;
        }
        let mut slots: Vec<Option<TextHandle>> = Vec::new();
        while slots.len() < N
            invariant
                slots@.len() <= N,
                forall|k: int| 0 <= k < slots@.len() ==> #[trigger] slots@[k] is None,
            decreases N - slots@.len(),
        {
            slots.push(None);
        }
        TextPalette { chars, ticket, color, slots }
    }

    /// The glyph tile that shows `ch`: the first position that holds it,
    /// after the block's first tile.
    pub fn find_tile_idx(&self, ch: char) -> (r: Option<u16>)
        requires
            self.wf(),
        ensures
            match r {
                Some(t) => exists|i: int|
                    0 <= i < PALETTE_CHARS && self.glyphs()[i] == ch && t == self.block().idx * 32 + 1
                        + i && forall|j: int| 0 <= j < i ==> #[trigger] self.glyphs()[j] != ch,
                None => forall|i: int| 0 <= i < PALETTE_CHARS ==> #[trigger] self.glyphs()[i] != ch,
            },
    {
        let mut i: usize = 0;
        while i < PALETTE_CHARS
            invariant
                self.wf(),
                i <= PALETTE_CHARS,
                forall|j: int| 0 <= j < i ==> #[trigger] self.glyphs()[j] != ch,
            decreases PALETTE_CHARS - i,
        {
            if self.chars[i] == ch {
                let t = self.ticket.idx * 32 + 1 + i as u16;
                assert(0 <= i < PALETTE_CHARS && self.glyphs()[i as int] == ch && t
                    == self.block().idx * 32 + 1 + i);
                return Some(t);
            }
            i += 1;
        }
        None
    }

    /// Records that a text was written in `slot`, replacing what was there.
    pub fn set_text(&mut self, slot: usize, handle: TextHandle)
        requires
            old(self).wf(),
        ensures
            final(self).wf(),
            final(self).glyphs() == old(self).glyphs(),
            final(self).block() == old(self).block(),
            slot < N ==> final(self).texts() == old(self).texts().update(slot as int, Some(handle)),
            slot >= N ==> final(self).texts() == old(self).texts(),
    {
        if slot < N {
            self.slots.set(slot, Some(handle));
        }
    }

    /// Forgets the text in `slot` and returns the cells to blank.
    pub fn clear_text(&mut self, slot: usize) -> (r: Vec<(usize, usize)>)
        requires
            old(self).wf(),
        ensures
            final(self).wf(),
            final(self).glyphs() == old(self).glyphs(),
            final(self).block() == old(self).block(),
            slot < N ==> final(self).texts() == old(self).texts().update(slot as int, None),
            slot >= N ==> final(self).texts() == old(self).texts(),
            (slot >= N || old(self).texts()[slot as int] is None) ==> r@.len() == 0,
    {
        if slot < N {
            match self.slots[slot] {
                Some(handle) => {
                    let cells = handle.clear();
                    self.slots.set(slot, None);
                    return cells;
                },
                None => {},
            }
        }
        Vec::new()
    }
}

/// The allocator of blocks of glyph tiles: bit `i` is set while block `i`
/// is locked.
pub struct ScreenTextManager {
    char_free_bits: u16,
}

impl ScreenTextManager {
    /// The locked blocks, as bits.
    pub closed spec fn locked(&self) -> u16 {
        self.char_free_bits
    }

    pub fn new() -> (m: Self)
        ensures
            m.locked() == 0,
    {
        ScreenTextManager { char_free_bits: 0 }
    }

    /// Locks the lowest free block.
    pub fn try_lock_first_zero(&mut self) -> (r: Option<CharBlockTicket>)
        ensures
            old(self).locked() == 0xFFFF ==> r is None && final(self).locked() == old(self).locked(),
            old(self).locked() != 0xFFFF ==> (r matches Some(t) && {
                &&& t.idx < CHAR_BLOCKS
                &&& t.ticket == 1u16 << t.idx
                &&& old(self).locked() & t.ticket == 0
                &&& old(self).locked() & ((t.ticket - 1) as u16) == ((t.ticket - 1) as u16)
                &&& final(self).locked() == old(self).locked() | t.ticket
            }),
    {
        let bits = self.char_free_bits;
        let mut i: u16 = 0;
        let mut low: u16 = 0;
        assert((0u16 as u32) + 1 == (1u32 << 0u32)) by (bit_vector);
        assert(bits & 0u16 == 0u16) by (bit_vector);
        while i < CHAR_BLOCKS
            invariant
                bits == self.char_free_bits,
                bits == old(self).char_free_bits,
                i <= CHAR_BLOCKS,
                (low as u32) + 1 == (1u32 << (i as u32)),
                bits & low == low,
            decreases CHAR_BLOCKS - i,
        {
            let bit: u16 = 1u16 << i;
            if bits & bit == 0 {
                self.char_free_bits = bits | bit;
                proof {
                    assert(bit >= 1 && ((bit - 1) as u16) == low && bits != 0xFFFF) by (bit_vector)
                        requires
                            i < 16,
                            bit == 1u16 << i,
                            (low as u32) + 1 == (1u32 << (i as u32)),
                            bits & bit == 0,
                    ;
                }
                return Some(CharBlockTicket { idx: i, ticket: bit });
            }
            proof {
                assert(((low | bit) as u32) + 1 == (1u32 << ((i + 1) as u32)) && bits & (low | bit)
                    == (low | bit)) by (bit_vector)
                    requires
                        i < 16,
                        bit == 1u16 << i,
                        bits & bit != 0,
                        (low as u32) + 1 == (1u32 << (i as u32)),
                        bits & low == low,
                ;
            }
            low = low | bit;
            i += 1;
        }
        proof {
            assert(bits == 0xFFFF) by (bit_vector)
                requires
                    (low as u32) + 1 == (1u32 << 16u32),
                    bits & low == low,
            ;
        }
        None
    }

    /// Frees the blocks whose bits are set in `ticket`.
    pub fn unlock(&mut self, ticket: u16)
        ensures
            final(self).locked() == old(self).locked() & !ticket,
    {
        self.char_free_bits &= !ticket;
    }

    /// Frees every block.
    pub fn unlock_all(&mut self)
        ensures
            final(self).locked() == 0,
    {
        let bits = self.char_free_bits;
        self.unlock(0xFFFF);
        assert(bits & !0xFFFFu16 == 0) by (bit_vector);
    }

    /// A palette of the first 32 characters of `chars` in the lowest free
    /// block, or `None` when every block is locked.
    pub fn create_palette<const N: usize>(&mut self, chars: &str, color: PaletteColor) -> (r: Option<
        TextPalette<N>,
    >)
        ensures
            (old(self).locked() == 0xFFFF) == r is None,
            r is None ==> final(self).locked() == old(self).locked(),
            r matches Some(p) ==> ({
                let t = p.block();
                &&& p.wf()
                &&& p.ink() == color
                &&& t.idx < CHAR_BLOCKS
                &&& t.ticket == 1u16 << t.idx
                &&& old(self).locked() & t.ticket == 0
                &&& old(self).locked() & ((t.ticket - 1) as u16) == ((t.ticket - 1) as u16)
                &&& final(self).locked() == old(self).locked() | t.ticket
                &&& forall|i: int|
                    0 <= i < PALETTE_CHARS ==> #[trigger] p.glyphs()[i] == if i < chars@.len() {
                        chars@[i]
                    } else {
                        ' '
                    }
                &&& forall|s: int| 0 <= s < N ==> #[trigger] p.texts()[s] is None
            }),
    {
        match self.try_lock_first_zero() {
            Some(ticket) => Some(TextPalette::new(chars, ticket, color)),
            None => None,
        }
    }
}

} // verus!
