//! Fixed-capacity FIFO ring that overwrites its oldest element when
//! full.
//!
//! Storage of size `n` holds up to `n - 1` live elements between `tail`
//! (oldest) and `head` (next write position).

use vstd::prelude::*;

verus! {

/// Position `i` steps after `start` on a ring of `n` slots, where the
/// sum stays below `2 * n`.
pub open spec fn ring_at(start: int, i: int, n: int) -> int {
    if start + i < n {
        start + i
    } else {
        start + i - n
    }
}

/// What one push does to the live contents: append, dropping the
/// oldest element first when `cap` values are already live.
pub open spec fn push_model<T>(view: Seq<T>, value: T, cap: int) -> Seq<T> {
    if view.len() < cap {
        view.push(value)
    } else {
        view.drop_first().push(value)
    }
}

/// The contents after a whole sequence of pushes.
pub open spec fn pushes_model<T>(view: Seq<T>, values: Seq<T>, cap: int) -> Seq<T>
    decreases values.len(),
{
    if values.len() == 0 {
        view
    } else {
        pushes_model(push_model(view, values[0], cap), values.skip(1), cap)
    }
}

/// However many values are pushed, the buffer ends up holding exactly
/// the newest `cap` of everything it ever saw, oldest first.
pub proof fn lemma_pushes_keep_newest<T>(view: Seq<T>, values: Seq<T>, cap: int)
    requires
        cap >= 1,
        view.len() <= cap,
    ensures
        pushes_model(view, values, cap) == (view + values).skip(
            if view.len() + values.len() <= cap {
                0
            } else {
                view.len() + values.len() - cap
            },
        ),
    decreases values.len(),
{
    if values.len() == 0 {
        assert((view + values).skip(0) =~= view);
    } else {
        let stepped = push_model(view, values[0], cap);
        lemma_pushes_keep_newest(stepped, values.skip(1), cap);
        if view.len() < cap {
            assert(stepped + values.skip(1) =~= view + values);
        } else {
            assert(stepped + values.skip(1) =~= (view + values).skip(1));
            let rest = (view + values).skip(1);
            let k = if stepped.len() + values.skip(1).len() <= cap {
                0
            } else {
                stepped.len() + values.skip(1).len() - cap
            };
            assert(rest.skip(k) =~= (view + values).skip(1 + k));
        }
    }
}

/// A bounded FIFO buffer over `n` slots.
pub struct RingBuffer<T> {
    pub buffer: Vec<Option<T>>,
    pub head: usize,
    pub tail: usize,
}

impl<T> RingBuffer<T> {
    /// Number of live elements.
    pub open spec fn len_spec(&self) -> int {
        if self.head >= self.tail {
            self.head - self.tail
        } else {
            self.head + self.buffer@.len() - self.tail
        }
    }

    /// The live elements, oldest first.
    pub open spec fn view(&self) -> Seq<T> {
        Seq::new(
            self.len_spec() as nat,
            |i: int| self.buffer@[ring_at(self.tail as int, i, self.buffer@.len() as int)]->Some_0,
        )
    }

    /// Indices are in range and every live slot holds a value.
    pub open spec fn wf(&self) -> bool {
        &&& self.buffer@.len() >= 2
        &&& (self.head as int) < self.buffer@.len()
        &&& (self.tail as int) < self.buffer@.len()
        &&& forall|i: int|
            0 <= i < self.len_spec() ==> (#[trigger] self.buffer@[ring_at(
                self.tail as int,
                i,
                self.buffer@.len() as int,
            )]) is Some
    }

    /// An empty ring over `size` slots, able to hold `size - 1` values.
    pub fn new(size: usize) -> (r: Self)
        requires
            2 <= size,
        ensures
            r.wf(),
            r.view() == Seq::<T>::empty(),
            r.buffer@.len() == size,
    {
        let mut buffer: Vec<Option<T>> = Vec::new();
        let mut k: usize = 0;
        while k < size
            invariant
                0 <= k <= size,
                buffer@.len() == k,
            decreases size - k,
        {
            buffer.push(None);
            k = k + 1;
        }
        let r = RingBuffer { buffer, head: 0, tail: 0 };
        proof {
            assert(r.view() =~= Seq::<T>::empty());
        }
        r
    }

    /// Appends `value`; when the ring is full the oldest element is
    /// dropped first, so the newest `size - 1` values survive.
    pub fn push(&mut self, value: T)
        requires
            old(self).wf(),
        ensures
            final(self).wf(),
            final(self).buffer@.len() == old(self).buffer@.len(),
            final(self).view() == push_model(
                old(self).view(),
                value,
                old(self).buffer@.len() - 1,
            ),
    {
        let n = self.buffer.len();
        let next_head = if self.head + 1 == n {
            0
        } else {
            self.head + 1
        };
        if next_head == self.tail {
            self.tail = if self.tail + 1 == n {
                0
            } else {
                self.tail + 1
            };
        }
        let ghost mid = *self;
        self.buffer.set(self.head, Some(value));
        self.head = next_head;
        proof {
            let pre = *old(self);
            let post = *self;
            let nn = pre.buffer@.len() as int;
            assert forall|i: int|
                0 <= i < post.len_spec() implies (#[trigger] post.buffer@[ring_at(
                post.tail as int,
                i,
                nn,
            )]) is Some by {
                if i == post.len_spec() - 1 {
                    assert(ring_at(post.tail as int, i, nn) == pre.head as int);
                } else if pre.len_spec() < nn - 1 {
                    assert(ring_at(post.tail as int, i, nn) == ring_at(pre.tail as int, i, nn));
                } else {
                    assert(ring_at(post.tail as int, i, nn) == ring_at(pre.tail as int, i + 1, nn));
                }
            }
            if pre.len_spec() < pre.buffer@.len() - 1 {
                assert(post.view() =~= pre.view().push(value));
            } else {
                assert(post.view() =~= pre.view().drop_first().push(value));
            }
        }
    }

    /// Removes and returns the oldest element, if any.
    pub fn pop(&mut self) -> (r: Option<T>)
        requires
            old(self).wf(),
        ensures
            final(self).wf(),
            final(self).buffer@.len() == old(self).buffer@.len(),
            if old(self).view().len() == 0 {
                r is None && final(self).view() == old(self).view()
            } else {
                r == Some(old(self).view()[0]) && final(self).view() == old(self).view().drop_first()
            },
    {
        if self.head == self.tail {
            return None;
        }
        let n = self.buffer.len();
        let value = self.buffer.remove(self.tail);
        self.buffer.insert(self.tail, None);
        self.tail = if self.tail + 1 == n {
            0
        } else {
            self.tail + 1
        };
        proof {
            let pre = *old(self);
            let post = *self;
            let nn = pre.buffer@.len() as int;
            assert(post.buffer@ =~= pre.buffer@.update(pre.tail as int, None));
            assert(value == pre.buffer@[pre.tail as int]);
            assert(pre.buffer@[ring_at(pre.tail as int, 0, nn)] is Some);
            assert forall|i: int|
                0 <= i < post.len_spec() implies (#[trigger] post.buffer@[ring_at(
                post.tail as int,
                i,
                nn,
            )]) is Some by {
                assert(ring_at(post.tail as int, i, nn) == ring_at(pre.tail as int, i + 1, nn));
                assert(ring_at(pre.tail as int, i + 1, nn) != pre.tail as int);
            }
            assert(post.view() =~= pre.view().drop_first());
        }
        match value {
            Some(v) => Some(v),
            None => {
                proof {
                    assert(false);
                }
                None
            },
        }
    }
}

} // verus!
