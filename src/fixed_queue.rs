use vstd::prelude::*;

verus! {

/// A first-in first-out queue of at most `N` items, kept in a ring of `N`
/// slots. Pushing onto a full queue evicts its oldest item.
pub struct FixedQueue<T, const N: usize> {
    start_idx: usize,
    next_idx: usize,
    items: Vec<Option<T>>,
}

impl<T, const N: usize> View for FixedQueue<T, N> {
    type V = Seq<T>;

    /// The items, oldest first.
    closed spec fn view(&self) -> Seq<T> {
        Seq::new(self.len_spec(), |k: int| self.items@[self.slot(k)]->Some_0)
    }
}

impl<T, const N: usize> FixedQueue<T, N> {
    /// The ring slot that holds the item `k` places after the oldest.
    closed spec fn slot(&self, k: int) -> int {
        if self.start_idx + k < N {
            self.start_idx + k
        } else {
            self.start_idx + k - N
        }
    }

    closed spec fn len_spec(&self) -> nat {
        if self.start_idx == self.next_idx {
            if self.items@[self.start_idx as int] is Some {
                N as nat
            } else {
                0
            }
        } else if self.start_idx < self.next_idx {
            (self.next_idx - self.start_idx) as nat
        } else {
            (N - self.start_idx + self.next_idx) as nat
        }
    }

    /// The ring is consistent: the slots of the queued items are full and
    /// all other slots are empty.
    pub closed spec fn wf(&self) -> bool {
        &&& N > 0
        &&& self.items@.len() == N
        &&& self.start_idx < N
        &&& self.next_idx < N
        &&& forall|k: int|
            0 <= k < N ==> (#[trigger] self.items@[self.slot(k)] is Some) == (k < self.len_spec())
    }

    /// A consistent queue holds at most `N` items.
    pub proof fn lemma_len_bound(&self)
        requires
            self.wf(),
        ensures
            self@.len() <= N,
    {
    }

    pub fn new() -> (q: Self)
        requires
            N > 0,
        ensures
            q.wf(),
            q@.len() == 0,
    {
        let mut items: Vec<Option<T>> = Vec::new();
        while items.len() < N
            invariant
                items@.len() <= N,
                forall|i: int| 0 <= i < items@.len() ==> items@[i] is None,
            decreases N - items@.len(),
        {
            items.push(None);
        }
        let q = FixedQueue { items, start_idx: 0, next_idx: 0 };
        assert(q.len_spec() == 0);
        assert forall|k: int| 0 <= k < N implies (#[trigger] q.items@[q.slot(k)] is Some) == (k
            < q.len_spec()) by {}
        q
    }

    /// The number of queued items.
    pub fn len(&self) -> (r: usize)
        requires
            self.wf(),
        ensures
            r == self@.len(),
    {
        if self.start_idx == self.next_idx {
            if self.items[self.start_idx].is_some() {
                N
            } else {
                0
            }
        } else if self.start_idx < self.next_idx {
            self.next_idx - self.start_idx
        } else {
            N - self.start_idx + self.next_idx
        }
    }

    /// Removes and returns the oldest item.
    pub fn pop(&mut self) -> (r: Option<T>)
        requires
            old(self).wf(),
        ensures
            final(self).wf(),
            old(self)@.len() == 0 ==> r is None && final(self)@ == old(self)@,
            old(self)@.len() > 0 ==> r == Some(old(self)@[0]) && final(self)@ == old(self)@.drop_first(),
    {
        let ghost pre = *self;
        let s = self.start_idx;
        proof {
            assert(pre.slot(0) == s);
        }
        let item = self.items[s].take();
        let is_empty = self.start_idx == self.next_idx && item.is_none();
        if !is_empty {
            self.start_idx = self.start_idx + 1;
            if self.start_idx >= N {
                self.start_idx = 0;
            }
            proof {
                assert(pre.len_spec() > 0);
                assert(self.len_spec() == pre.len_spec() - 1) by {
                    if pre.start_idx == pre.next_idx {
                        if self.start_idx == self.next_idx {
                            assert(N == 1);
                        }
                    }
                    if self.start_idx == self.next_idx {
                        assert(pre.len_spec() == 1);
                        assert(pre.slot(1) == self.start_idx);
                        if N > 1 {
                            assert(pre.items@[pre.slot(1)] is None);
                        }
                    }
                }
                assert forall|k: int| 0 <= k < N implies (#[trigger] self.items@[self.slot(k)] is Some)
                    == (k < self.len_spec()) by {
                    if k + 1 < N {
                        assert(self.slot(k) == pre.slot(k + 1));
                        assert(pre.items@[pre.slot(k + 1)] is Some == (k + 1 < pre.len_spec()));
                    } else {
                        assert(self.slot(k) == s);
                    }
                }
                assert(self@ =~= pre@.drop_first()) by {
                    assert forall|k: int| 0 <= k < self@.len() implies self@[k] == pre@.drop_first()[k] by {
                        assert(self.slot(k) == pre.slot(k + 1));
                        assert(pre.items@[pre.slot(k + 1)] is Some);
                    }
                }
            }
        } else {
            proof {
                assert(pre.len_spec() == 0);
                assert(self.items@ =~= pre.items@);
                assert(self.len_spec() == 0);
                assert forall|k: int| 0 <= k < N implies (#[trigger] self.items@[self.slot(k)] is Some)
                    == (k < self.len_spec()) by {
                    assert(self.slot(k) == pre.slot(k));
                    assert(pre.items@[pre.slot(k)] is Some == (k < pre.len_spec()));
                }
                assert(self@ =~= pre@);
            }
        }
        item
    }

    /// Appends `item`, first evicting and returning the oldest item when the
    /// queue is full.
    pub fn push_pop(&mut self, item: T) -> (r: Option<T>)
        requires
            old(self).wf(),
        ensures
            final(self).wf(),
            old(self)@.len() < N ==> r is None && final(self)@ == old(self)@.push(item),
            old(self)@.len() == N ==> r == Some(old(self)@[0]) && final(self)@ == old(
                self,
            )@.drop_first().push(item),
    {
        let ghost pre = *self;
        let mut to_ret = None;
        if self.start_idx == self.next_idx {
            to_ret = self.pop();
        }
        let ghost mid = *self;
        proof {
            assert(pre@.len() == pre.len_spec());
            assert(mid@.len() == mid.len_spec());
            assert(mid.len_spec() < N);
            assert(mid.slot(mid.len_spec() as int) == mid.next_idx);
        }
        let n = self.next_idx;
        self.items.set(n, Some(item));
        self.next_idx = self.next_idx + 1;
        if self.next_idx >= N {
            self.next_idx = 0;
        }
        proof {
            assert(self.len_spec() == mid.len_spec() + 1) by {
                if mid.len_spec() > 0 {
                    assert(mid.items@[mid.slot(0)] is Some);
                    assert(mid.slot(0) == mid.start_idx);
                }
                if mid.start_idx == mid.next_idx {
                    assert(mid.len_spec() == 0);
                }
            }
            assert forall|k: int| 0 <= k < N implies (#[trigger] self.items@[self.slot(k)] is Some)
                == (k < self.len_spec()) by {
                assert(self.slot(k) == mid.slot(k));
                if k != mid.len_spec() {
                    assert(mid.items@[mid.slot(k)] is Some == (k < mid.len_spec()));
                }
            }
            assert(self@ =~= mid@.push(item)) by {
                assert forall|k: int| 0 <= k < mid@.len() implies self@[k] == mid@[k] by {
                    assert(self.slot(k) == mid.slot(k));
                    assert(mid.slot(k) != n) by {
                        assert(mid.slot(mid.len_spec() as int) == n);
                    }
                }
            }
        }
        to_ret
    }

    /// The item `idx` places after the oldest, if that many are queued.
    pub fn get(&self, idx: usize) -> (r: Option<&T>)
        requires
            self.wf(),
            idx < N,
        ensures
            r is Some == (idx < self@.len()),
            r is Some ==> *r->Some_0 == self@[idx as int],
    {
        let room = N - self.start_idx;
        let idx_to_get = if idx >= room {
            idx - room
        } else {
            self.start_idx + idx
        };
        proof {
            assert(idx_to_get == self.slot(idx as int));
        }
        self.items[idx_to_get].as_ref()
    }

    /// Empties the queue.
    pub fn clear(&mut self)
        requires
            old(self).wf(),
        ensures
            final(self).wf(),
            final(self)@.len() == 0,
    {
        let mut i: usize = 0;
        while i < N
            invariant
                self.items@.len() == N,
                N > 0,
                i <= N,
                forall|j: int| 0 <= j < i ==> self.items@[j] is None,
            decreases N - i,
        {
            self.items.set(i, None);
            i += 1;
        }
        self.start_idx = 0;
        self.next_idx = 0;
        proof {
            assert(self.len_spec() == 0);
            assert forall|k: int| 0 <= k < N implies (#[trigger] self.items@[self.slot(k)] is Some)
                == (k < self.len_spec()) by {}
        }
    }
}

} // verus!
