use crate::fixed_queue::FixedQueue;
use vstd::prelude::*;

verus! {

/// Number of columns that the standability window holds.
pub const WINDOW_LEN: usize = 32;

/// A window as the absolute column of its oldest mask and its masks,
/// oldest first.
pub type WindowModel = (nat, Seq<u32>);

/// The window after pushing `m`: when full, the oldest mask leaves and the
/// start moves on by one column.
pub open spec fn window_push(w: WindowModel, m: u32) -> WindowModel {
    if w.1.len() >= WINDOW_LEN {
        (w.0 + 1, w.1.drop_first().push(m))
    } else {
        (w.0, w.1.push(m))
    }
}

/// The mask of absolute column `col`, or 0 where the window does not hold
/// that column.
pub open spec fn window_mask(w: WindowModel, col: int) -> u32 {
    if w.0 <= col < w.0 + w.1.len() {
        w.1[col - w.0]
    } else {
        0
    }
}

/// The window after pushing `ms` in order onto an empty one.
pub open spec fn window_after(ms: Seq<u32>) -> WindowModel
    decreases ms.len(),
{
    if ms.len() == 0 {
        (0, Seq::empty())
    } else {
        window_push(window_after(ms.drop_last()), ms.last())
    }
}

/// The window after pushing `ms` holds the last 32 of them, starting at
/// the absolute column of the first of those.
pub proof fn lemma_window_after_shape(ms: Seq<u32>)
    ensures
        window_after(ms).1.len() <= WINDOW_LEN,
        ms.len() <= WINDOW_LEN ==> window_after(ms) == (0nat, ms),
        ms.len() > WINDOW_LEN ==> window_after(ms) == ((ms.len() - WINDOW_LEN) as nat, ms.subrange(
            ms.len() - WINDOW_LEN,
            ms.len() as int,
        )),
    decreases ms.len(),
{
    if ms.len() > 0 {
        let pre = ms.drop_last();
        lemma_window_after_shape(pre);
        if ms.len() <= WINDOW_LEN {
            assert(pre.push(ms.last()) =~= ms);
        } else if pre.len() == WINDOW_LEN {
            assert(pre.drop_first().push(ms.last()) =~= ms.subrange(
                ms.len() - WINDOW_LEN,
                ms.len() as int,
            ));
        } else {
            assert(pre.subrange(pre.len() - WINDOW_LEN, pre.len() as int).drop_first().push(
                ms.last(),
            ) =~= ms.subrange(ms.len() - WINDOW_LEN, ms.len() as int));
        }
    }
}

/// Pushing masks and reading one back: a column among the last 32 pushed
/// gives exactly its mask; an older column, or one never pushed, gives 0.
pub proof fn lemma_window_round_trip(ms: Seq<u32>, col: int)
    requires
        0 <= col,
    ensures
        window_mask(window_after(ms), col) == if col < ms.len() && ms.len() - col <= WINDOW_LEN {
            ms[col]
        } else {
            0
        },
{
    lemma_window_after_shape(ms);
}

/// The sliding window of per-column standability masks: one bit per row,
/// set where the row is solid.
pub struct StandWindow {
    masks: FixedQueue<u32, 32>,
    start: usize,
}

impl View for StandWindow {
    type V = WindowModel;

    closed spec fn view(&self) -> WindowModel {
        (self.start as nat, self.masks@)
    }
}

impl StandWindow {
    pub closed spec fn wf(&self) -> bool {
        self.masks.wf()
    }

    /// A consistent window holds at most `WINDOW_LEN` masks.
    pub proof fn lemma_bound(&self)
        requires
            self.wf(),
        ensures
            self@.1.len() <= WINDOW_LEN,
    {
        self.masks.lemma_len_bound();
    }

    pub fn new() -> (w: Self)
        ensures
            w.wf(),
            w@ == window_after(Seq::empty()),
    {
        StandWindow { masks: FixedQueue::new(), start: 0 }
    }

    /// Pushes the mask of the next column.
    pub fn push(&mut self, mask: u32)
        requires
            old(self).wf(),
            old(self)@.0 < usize::MAX,
        ensures
            final(self).wf(),
            final(self)@ == window_push(old(self)@, mask),
    {
        proof {
            self.masks.lemma_len_bound();
        }
        if self.masks.push_pop(mask).is_some() {
            self.start += 1;
        }
    }

    /// The mask of absolute column `col`, or 0 outside the window.
    pub fn mask_at(&self, col: usize) -> (r: u32)
        requires
            self.wf(),
        ensures
            r == window_mask(self@, col as int),
    {
        proof {
            self.masks.lemma_len_bound();
        }
        if col < self.start || col - self.start >= WINDOW_LEN {
            return 0;
        }
        match self.masks.get(col - self.start) {
            Some(m) => *m,
            None => 0,
        }
    }
}

} // verus!
