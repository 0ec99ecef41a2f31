//! A fixed-capacity circular buffer keeping the most recent values.
use vstd::prelude::*;
use vstd::pervasive::VecAdditionalExecFns;

verus! {

/// A circular buffer of capacity fixed at construction: once full, a push
/// overwrites the oldest value.
pub struct CircularBuffer<T> {
    buffer: Vec<T>,
    head: usize,
    size: usize,
    capacity: usize,
}

impl<T: Clone> CircularBuffer<T> {
    /// Internal consistency: the backing storage holds exactly `size`
    /// values, the buffer is append-only until full (`head` stays 0), and
    /// the head cursor stays within the capacity.
    pub closed spec fn wf(&self) -> bool {
        &&& self.buffer@.len() == self.size
        &&& self.size <= self.capacity
        &&& (self.size < self.capacity ==> self.head == 0)
        &&& (self.capacity > 0 ==> self.head < self.capacity)
        &&& (self.capacity == 0 ==> self.head == 0)
        &&& self.capacity <= usize::MAX / 2
    }

    /// The stored values, oldest first.
    pub closed spec fn view_spec(&self) -> Seq<T> {
        Seq::new(
            self.size as nat,
            |i: int| self.buffer@[(self.head + i) % (self.capacity as int)],
        )
    }

    /// The capacity the buffer was built with.
    pub closed spec fn capacity_spec(&self) -> nat {
        self.capacity as nat
    }

    /// An empty buffer of the given capacity.
    pub fn new(capacity: usize) -> (r: CircularBuffer<T>)
        requires
            capacity <= usize::MAX / 2,
        ensures
            r.wf(),
            r.view_spec() == Seq::<T>::empty(),
            r.capacity_spec() == capacity,
    {
        let r = CircularBuffer { buffer: Vec::new(), head: 0, size: 0, capacity };
        proof {
            assert(r.view_spec() =~= Seq::<T>::empty());
        }
        r
    }

    /// Append a value; once the buffer is full the oldest value is dropped.
    pub fn push(&mut self, item: T)
        requires
            old(self).wf(),
            old(self).capacity_spec() > 0,
        ensures
            final(self).wf(),
            final(self).capacity_spec() == old(self).capacity_spec(),
            old(self).view_spec().len() < old(self).capacity_spec() ==> final(self).view_spec()
                == old(self).view_spec().push(item),
            old(self).view_spec().len() == old(self).capacity_spec() ==> final(self).view_spec()
                == old(self).view_spec().skip(1).push(item),
    {
        if self.size < self.capacity {
            self.buffer.push(item);
            self.size = self.size + 1;
            proof {
                let c = self.capacity as int;
                assert forall|i: int| 0 <= i < self.size implies self.buffer@[(self.head + i) % c]
                    == old(self).view_spec().push(item)[i] by {
                    assert((0 + i) % c == i) by (nonlinear_arith)
                        requires
                            0 <= i < c,
                    ;
                }
                assert(self.view_spec() =~= old(self).view_spec().push(item));
            }
        } else {
            let ghost pre = *self;
            let mut value = item;
            self.buffer.set_and_swap(self.head, &mut value);
            self.head = (self.head + 1) % self.capacity;
            proof {
                let c = self.capacity as int;
                let h = pre.head as int;
                assert(self.head as int == (h + 1) % c);
                assert forall|i: int| 0 <= i < self.size implies self.view_spec()[i] == pre
                    .view_spec().skip(1).push(item)[i] by {
                    assert(0 <= (h + 1) % c < c) by (nonlinear_arith)
                        requires
                            0 <= h < c,
                    ;
                    let hh = (h + 1) % c;
                    assert((hh + i) % c == (h + 1 + i) % c) by (nonlinear_arith)
                        requires
                            0 <= h < c,
                            0 <= i < c,
                            hh == (h + 1) % c,
                    ;
                    if i < self.size - 1 {
                        assert((h + 1 + i) % c != h && (h + 1 + i) % c == (h + (i + 1)) % c)
                            by (nonlinear_arith)
                            requires
                                0 <= h < c,
                                0 <= i < c - 1,
                        ;
                    } else {
                        assert((h + 1 + i) % c == h) by (nonlinear_arith)
                            requires
                                0 <= h < c,
                                i == c - 1,
                        ;
                    }
                }
                assert(self.view_spec() =~= pre.view_spec().skip(1).push(item));
            }
        }
    }

    /// The value at logical index `index` (0 is the oldest), if present.
    pub fn get(&self, index: usize) -> (r: Option<&T>)
        requires
            self.wf(),
        ensures
            r is None <==> index >= self.view_spec().len(),
            r matches Some(x) ==> index < self.view_spec().len() && *x == self.view_spec()[
                index as int
            ],
    {
        if index >= self.size {
            None
        } else {
            let actual = (self.head + index) % self.capacity;
            proof {
                assert(0 <= (self.head + index) % (self.capacity as int) < self.capacity as int)
                    by (nonlinear_arith)
                    requires
                        0 <= self.head as int,
                        0 <= index as int,
                        0 < self.capacity as int,
                ;
                if self.size < self.capacity {
                    assert((self.head + index) % (self.capacity as int) == index as int)
                        by (nonlinear_arith)
                        requires
                            self.head as int == 0,
                            0 <= index as int,
                            (index as int) < (self.capacity as int),
                    ;
                }
            }
            Some(&self.buffer[actual])
        }
    }

    /// Number of stored values.
    pub fn len(&self) -> (r: usize)
        requires
            self.wf(),
        ensures
            r == self.view_spec().len(),
    {
        self.size
    }

    /// Whether the buffer holds no values.
    pub fn is_empty(&self) -> (r: bool)
        requires
            self.wf(),
        ensures
            r == (self.view_spec().len() == 0),
    {
        self.size == 0
    }

    /// The stored values as a fresh vector, oldest first.
    pub fn iter(&self) -> (r: Vec<T>)
        requires
            self.wf(),
        ensures
            r@.len() == self.view_spec().len(),
            forall|i: int| 0 <= i < r@.len() ==> vstd::pervasive::cloned::<T>(
                self.view_spec()[i],
                #[trigger] r@[i],
            ),
    {
        let mut out: Vec<T> = Vec::new();
        let mut i: usize = 0;
        while i < self.size
            invariant
                self.wf(),
                0 <= i <= self.size,
                out@.len() == i,
                forall|k: int| 0 <= k < i ==> vstd::pervasive::cloned::<T>(
                    self.view_spec()[k],
                    #[trigger] out@[k],
                ),
            decreases self.size - i,
        {
            let actual = (self.head + i) % self.capacity;
            proof {
                assert(self.capacity > 0);
                assert(0 <= (self.head + i) % (self.capacity as int) < self.capacity as int)
                    by (nonlinear_arith)
                    requires
                        0 <= self.head as int,
                        0 <= i as int,
                        0 < self.capacity as int,
                ;
                if self.size < self.capacity {
                    assert((self.head + i) % (self.capacity as int) == i as int)
                        by (nonlinear_arith)
                        requires
                            self.head as int == 0,
                            0 <= i as int,
                            (i as int) < (self.capacity as int),
                    ;
                }
            }
            out.push(self.buffer[actual].clone());
            i = i + 1;
        }
        out
    }
}

} // verus!
