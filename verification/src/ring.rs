//! Fixed-capacity circular store retaining the most recently pushed elements.

use vstd::prelude::*;

verus! {

/// Ring vector: a bounded window over an ever-growing sequence of pushed
/// elements.  Slot `i` of the backing vector holds the element whose global
/// sequence number is congruent to `i` modulo the capacity, so only the most
/// recent `size` elements are retrievable.  The full history of pushes is
/// kept as a ghost sequence, so contracts can speak about every element ever
/// pushed, including the overwritten ones.
pub struct RingVec<T> {
    size: usize,
    pos: usize,
    data: Vec<T>,
    hist: Ghost<Seq<T>>,
}

impl<T> RingVec<T> {
    /// Capacity of the ring: how many recent elements stay retrievable.
    pub closed spec fn capacity(&self) -> int {
        self.size as int
    }

    /// Number of elements ever pushed.
    pub closed spec fn total(&self) -> int {
        self.pos as int
    }

    /// History of all pushed elements, oldest first.
    pub closed spec fn history(&self) -> Seq<T> {
        self.hist@
    }

    /// Global sequence numbers still backed by a slot.
    pub open spec fn in_window(&self, i: int) -> bool {
        self.total() - self.capacity() <= i < self.total() && 0 <= i
    }

    /// Structural invariant tying the slots to the ghost history.
    pub closed spec fn wf(&self) -> bool {
        &&& self.size >= 1
        &&& self.hist@.len() == self.pos
        &&& self.data.len() == if self.pos < self.size {
            self.pos as int
        } else {
            self.size as int
        }
        &&& forall|i: int|
            self.in_window(i) ==> self.data[i % (self.size as int)] == self.hist@[i]
    }

    pub fn new(size: usize) -> (r: Self)
        requires
            size >= 1,
        ensures
            r.wf(),
            r.capacity() == size,
            r.total() == 0,
            r.history() == Seq::<T>::empty(),
    {
        RingVec { size, pos: 0, data: Vec::with_capacity(size), hist: Ghost(Seq::empty()) }
    }

    pub fn push(&mut self, elem: T)
        requires
            old(self).wf(),
            old(self).total() < usize::MAX,
        ensures
            final(self).wf(),
            final(self).capacity() == old(self).capacity(),
            final(self).total() == old(self).total() + 1,
            final(self).history() == old(self).history().push(elem),
    {
        let ghost old_self = *self;
        let idx = self.pos % self.size;
        if self.data.len() != self.size {
            self.data.push(elem);
        } else {
            self.data[idx] = elem;
        }
        self.pos = self.pos + 1;
        proof {
            self.hist@ = self.hist@.push(elem);
        }
        proof {
            let s = self.size as int;
            let t = old_self.total();
            assert(idx == t % s);
            assert forall|i: int| self.in_window(i) implies self.data[i % s]
                == self.hist@[i] by {
                vstd::arithmetic::div_mod::lemma_mod_bound(i, s);
                if old_self.data.len() < old_self.size {
                    vstd::arithmetic::div_mod::lemma_small_mod(i as nat, old_self.size as nat);
                    assert(i % s == i);
                }
                if i == t {
                    assert(self.data[i % s] == elem);
                } else {
                    assert(0 <= i < t);
                    lemma_mod_distinct(i, t, s);
                    vstd::arithmetic::div_mod::lemma_mod_bound(t, s);
                    assert(old_self.in_window(i));
                    assert(old_self.data[i % s] == old_self.hist@[i]);
                    assert(self.data[i % s] == old_self.data[i % s]);
                }
            }
        }
    }

    /// The history is as long as the count of pushes.
    pub proof fn lemma_history_len(&self)
        requires
            self.wf(),
        ensures
            self.history().len() == self.total(),
    {
    }

    /// Number of elements ever pushed.
    pub fn total_exec(&self) -> (r: usize)
        ensures
            r == self.total(),
    {
        self.pos
    }

    /// Capacity of the ring.
    pub fn capacity_exec(&self) -> (r: usize)
        ensures
            r == self.capacity(),
    {
        self.size
    }

    /// Look up the element with global sequence number `i`.  Returns `None`
    /// both for numbers not yet pushed and for numbers whose slot has been
    /// overwritten, so a stale cursor is reported instead of being answered
    /// with a newer element.
    pub fn get(&self, i: usize) -> (r: Option<&T>)
        requires
            self.wf(),
        ensures
            match r {
                Some(e) => self.in_window(i as int) && *e == self.history()[i as int],
                None => !self.in_window(i as int),
            },
    {
        if i >= self.pos {
            return None;
        }
        if self.pos - i > self.size {
            return None;
        }
        proof {
            let s = self.size as int;
            vstd::arithmetic::div_mod::lemma_mod_bound(i as int, s);
            if self.pos < self.size {
                vstd::arithmetic::div_mod::lemma_small_mod(i as nat, self.size as nat);
            }
            assert(self.in_window(i as int));
            assert(self.data[(i as int) % s] == self.hist@[i as int]);
        }
        Some(&self.data[i % self.size])
    }
}

/// Two distinct sequence numbers less than one capacity apart occupy
/// distinct slots.
proof fn lemma_mod_distinct(a: int, b: int, s: int)
    requires
        0 <= a < b,
        b - a < s,
    ensures
        a % s != b % s,
{
    let ka = a / s;
    let kb = b / s;
    vstd::arithmetic::div_mod::lemma_fundamental_div_mod(a, s);
    vstd::arithmetic::div_mod::lemma_fundamental_div_mod(b, s);
    vstd::arithmetic::div_mod::lemma_mod_bound(a, s);
    vstd::arithmetic::div_mod::lemma_mod_bound(b, s);
    if a % s == b % s {
        assert(b - a == (kb - ka) * s) by (nonlinear_arith)
            requires
                a == s * ka + a % s,
                b == s * kb + b % s,
                a % s == b % s,
        ;
        assert((kb - ka) * s >= s || (kb - ka) * s <= 0) by (nonlinear_arith)
            requires
                s > 0,
        ;
    }
}

} // verus!
