use vstd::prelude::*;

verus! {

/// An arena of `N` slots, each empty or holding one item, addressed by
/// their index.
pub struct FixedBag<T, const N: usize> {
    items: Vec<Option<T>>,
}

impl<T, const N: usize> View for FixedBag<T, N> {
    type V = Seq<Option<T>>;

    /// The slots, by index.
    closed spec fn view(&self) -> Seq<Option<T>> {
        self.items@
    }
}

/// The index of the first empty slot, if any.
pub open spec fn first_free<T>(slots: Seq<Option<T>>) -> Option<int> {
    if exists|i: int| 0 <= i < slots.len() && slots[i] is None {
        Some(choose|i: int| 0 <= i < slots.len() && slots[i] is None && forall|j: int| 0 <= j < i ==> slots[j] is Some)
    } else {
        None
    }
}

/// The number of occupied slots.
pub open spec fn occupied_count<T>(slots: Seq<Option<T>>) -> nat
    decreases slots.len(),
{
    if slots.len() == 0 {
        0
    } else {
        occupied_count(slots.drop_last()) + if slots.last() is Some {
            1nat
        } else {
            0nat
        }
    }
}

impl<T, const N: usize> FixedBag<T, N> {
    /// There is one slot per index below `N`.
    pub open spec fn wf(&self) -> bool {
        self@.len() == N
    }

    pub fn new() -> (b: Self)
        ensures
            b.wf(),
            forall|i: int| 0 <= i < N ==> b@[i] is None,
    {
        let mut items: Vec<Option<T>> = Vec::new();
        while items.len() < N
            invariant
                items@.len() <= N,
                forall|i: int| 0 <= i < items@.len() ==> items@[i] is None,
            decreases N - items@.len(),
        {
            items.push(None);
        }
        FixedBag { items }
    }

    /// Puts `item` into the first empty slot and returns its index; hands the
    /// item back when every slot is full.
    pub fn push(&mut self, item: T) -> (r: Result<usize, T>)
        requires
            old(self).wf(),
        ensures
            final(self).wf(),
            match r {
                Ok(i) => {
                    &&& i < N
                    &&& old(self)@[i as int] is None
                    &&& forall|j: int| 0 <= j < i ==> old(self)@[j] is Some
                    &&& final(self)@ == old(self)@.update(i as int, Some(item))
                },
                Err(back) => {
                    &&& back == item
                    &&& forall|j: int| 0 <= j < N ==> old(self)@[j] is Some
                    &&& final(self)@ == old(self)@
                },
            },
    {
        let mut idx: usize = 0;
        while idx < N
            invariant
                self.wf(),
                self@ == old(self)@,
                idx <= N,
                forall|j: int| 0 <= j < idx ==> self@[j] is Some,
            decreases N - idx,
        {
            if self.items[idx].is_none() {
                self.items.set(idx, Some(item));
                return Ok(idx);
            }
            idx += 1;
        }
        Err(item)
    }

    /// Empties slot `index`; an index past the end is ignored.
    pub fn remove(&mut self, index: usize)
        requires
            old(self).wf(),
        ensures
            final(self).wf(),
            index < N ==> final(self)@ == old(self)@.update(index as int, None),
            index >= N ==> final(self)@ == old(self)@,
    {
        if index < N {
            self.items.set(index, None);
        }
    }

    /// Empties slot `index` and returns what it held.
    pub fn take(&mut self, index: usize) -> (r: Option<T>)
        requires
            old(self).wf(),
        ensures
            final(self).wf(),
            index < N ==> r == old(self)@[index as int] && final(self)@ == old(self)@.update(
                index as int,
                None,
            ),
            index >= N ==> r is None && final(self)@ == old(self)@,
    {
        if index < N {
            let r = self.items[index].take();
            r
        } else {
            None
        }
    }

    /// Empties every slot.
    pub fn clear(&mut self)
        requires
            old(self).wf(),
        ensures
            final(self).wf(),
            forall|i: int| 0 <= i < N ==> final(self)@[i] is None,
    {
        let mut i: usize = 0;
        while i < N
            invariant
                self.items@.len() == N,
                i <= N,
                forall|j: int| 0 <= j < i ==> self.items@[j] is None,
            decreases N - i,
        {
            self.items.set(i, None);
            i += 1;
        }
    }

    /// Empties every slot whose item `keep` rejects, and leaves the others.
    pub fn iter_filter<F: Fn(&T) -> bool>(&mut self, keep: F)
        requires
            old(self).wf(),
            forall|x: &T| #[trigger] call_requires(keep, (x,)),
        ensures
            final(self).wf(),
            forall|i: int|
                0 <= i < N ==> match #[trigger] old(self)@[i] {
                    None => final(self)@[i] is None,
                    Some(x) => (final(self)@[i] == old(self)@[i] && call_ensures(keep, (&x,), true))
                        || (final(self)@[i] is None && call_ensures(keep, (&x,), false)),
                },
    {
        let ghost pre = self@;
        let mut i: usize = 0;
        while i < N
            invariant
                self.wf(),
                pre.len() == N,
                i <= N,
                forall|x: &T| #[trigger] call_requires(keep, (x,)),
                forall|j: int| i <= j < N ==> self@[j] == pre[j],
                forall|j: int|
                    0 <= j < i ==> match #[trigger] pre[j] {
                        None => self@[j] is None,
                        Some(x) => (self@[j] == pre[j] && call_ensures(keep, (&x,), true)) || (
                        self@[j] is None && call_ensures(keep, (&x,), false)),
                    },
            decreases N - i,
        {
            let drop = match &self.items[i] {
                Some(item) => !keep(item),
                None => false,
            };
            if drop {
                self.items.set(i, None);
            }
            i += 1;
        }
    }

    /// The item in slot `index`, if the slot exists and is full.
    pub fn get(&self, index: usize) -> (r: Option<&T>)
        requires
            self.wf(),
        ensures
            r is Some == (index < N && self@[index as int] is Some),
            r is Some ==> self@[index as int] == Some(*r->Some_0),
    {
        if index < N {
            self.items[index].as_ref()
        } else {
            None
        }
    }

    /// Mutable access to the item in slot `index`, if the slot exists and is
    /// full.
    pub fn get_mut(&mut self, index: usize) -> (r: Option<&mut T>)
        requires
            old(self).wf(),
        ensures
            r is Some == (index < N && old(self)@[index as int] is Some),
            r is Some ==> old(self)@[index as int] == Some(*r->Some_0) && final(self)@ == old(
                self,
            )@.update(index as int, Some(*final(r->Some_0))),
            r is None ==> final(self)@ == old(self)@,
            final(self).wf(),
    {
        if index < N {
            self.items[index].as_mut()
        } else {
            None
        }
    }
}

impl<T: Copy, const N: usize> FixedBag<T, N> {
    /// The full slots in ascending order of index, each with a copy of its
    /// item.
    pub fn iter(&self) -> (r: Vec<(usize, T)>)
        requires
            self.wf(),
        ensures
            forall|k: int|
                0 <= k < r@.len() ==> (#[trigger] r@[k]).0 < N && self@[r@[k].0 as int] == Some(
                    r@[k].1,
                ),
            forall|k: int, l: int| 0 <= k < l < r@.len() ==> r@[k].0 < r@[l].0,
            forall|i: int|
                0 <= i < N && #[trigger] self@[i] is Some ==> exists|k: int|
                    0 <= k < r@.len() && r@[k].0 == i,
    {
        let mut out: Vec<(usize, T)> = Vec::new();
        let mut i: usize = 0;
        while i < N
            invariant
                self.wf(),
                i <= N,
                forall|k: int|
                    0 <= k < out@.len() ==> (#[trigger] out@[k]).0 < i && self@[out@[k].0 as int]
                        == Some(out@[k].1),
                forall|k: int, l: int| 0 <= k < l < out@.len() ==> out@[k].0 < out@[l].0,
                forall|j: int|
                    0 <= j < i && #[trigger] self@[j] is Some ==> exists|k: int|
                        0 <= k < out@.len() && out@[k].0 == j,
            decreases N - i,
        {
            let ghost before = out@;
            if let Some(x) = self.items[i] {
                out.push((i, x));
                assert(out@[out@.len() - 1].0 == i);
            }
            proof {
                assert forall|j: int|
                    0 <= j < i + 1 && #[trigger] self@[j] is Some implies exists|k: int|
                        0 <= k < out@.len() && out@[k].0 == j by {
                    if j < i {
                        let k = choose|k: int| 0 <= k < before.len() && before[k].0 == j;
                        assert(out@[k] == before[k]);
                    } else {
                        assert(out@[out@.len() - 1].0 == i);
                    }
                }
            }
            i += 1;
        }
        out
    }
}

} // verus!
