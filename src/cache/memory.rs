use vstd::prelude::*;

verus! {

/// Tracks an allocation budget in bytes and counts the allocations it refused.
pub struct MemoryMonitor {
    allocated_bytes: usize,
    max_allocation: usize,
    allocation_warnings: usize,
}

/// Bytes in one mebibyte.
pub const BYTES_PER_MB: usize = 1048576;

impl MemoryMonitor {
    pub closed spec fn usage(&self) -> nat {
        self.allocated_bytes as nat
    }

    pub closed spec fn limit(&self) -> nat {
        self.max_allocation as nat
    }

    pub closed spec fn warnings(&self) -> nat {
        self.allocation_warnings as nat
    }

    /// The usage never exceeds the limit.
    pub closed spec fn wf(&self) -> bool {
        self.allocated_bytes <= self.max_allocation
    }

    pub fn new(max_allocation_mb: usize) -> (r: Self)
        requires
            max_allocation_mb * BYTES_PER_MB <= usize::MAX,
        ensures
            r.wf(),
            r.usage() == 0,
            r.warnings() == 0,
            r.limit() == max_allocation_mb * BYTES_PER_MB,
    {
        MemoryMonitor {
            allocated_bytes: 0,
            max_allocation: max_allocation_mb * BYTES_PER_MB,
            allocation_warnings: 0,
        }
    }

    /// Reserves `size` bytes when they fit under the limit; otherwise leaves
    /// the usage as it was and counts a warning.
    pub fn allocate(&mut self, size: usize) -> (r: bool)
        requires
            old(self).wf(),
            old(self).warnings() < usize::MAX,
        ensures
            final(self).wf(),
            final(self).limit() == old(self).limit(),
            r == (old(self).usage() + size <= old(self).limit()),
            r ==> final(self).usage() == old(self).usage() + size && final(self).warnings()
                == old(self).warnings(),
            !r ==> final(self).usage() == old(self).usage() && final(self).warnings()
                == old(self).warnings() + 1,
    {
        if size <= self.max_allocation - self.allocated_bytes {
            self.allocated_bytes = self.allocated_bytes + size;
            true
        } else {
            self.allocation_warnings = self.allocation_warnings + 1;
            false
        }
    }

    /// Releases `size` bytes; the usage does not go below zero.
    pub fn deallocate(&mut self, size: usize)
        requires
            old(self).wf(),
        ensures
            final(self).wf(),
            final(self).limit() == old(self).limit(),
            final(self).warnings() == old(self).warnings(),
            final(self).usage() == if size <= old(self).usage() {
                old(self).usage() - size
            } else {
                0
            },
    {
        if size <= self.allocated_bytes {
            self.allocated_bytes = self.allocated_bytes - size;
        } else {
            self.allocated_bytes = 0;
        }
    }

    pub fn current_usage(&self) -> (r: usize)
        ensures
            r == self.usage(),
    {
        self.allocated_bytes
    }

    pub fn warning_count(&self) -> (r: usize)
        ensures
            r == self.warnings(),
    {
        self.allocation_warnings
    }
}

/// A fixed-capacity buffer that drops its oldest item when a push finds it full.
pub struct RingBuffer<T> {
    data: Vec<Option<T>>,
    head: usize,
    tail: usize,
    size: usize,
    capacity: usize,
}

/// The slot that holds the item at `offset` places after `head`, wrapping once.
pub open spec fn wrap_index(head: int, offset: int, capacity: int) -> int {
    if head + offset < capacity {
        head + offset
    } else {
        head + offset - capacity
    }
}

impl<T> RingBuffer<T> {
    pub closed spec fn wf(&self) -> bool {
        &&& self.data.len() == self.capacity
        &&& self.size <= self.capacity
        &&& self.capacity == 0 || self.head < self.capacity
        &&& self.capacity == 0 || self.tail == wrap_index(
            self.head as int,
            self.size as int,
            self.capacity as int,
        ) || (self.size == self.capacity && self.tail == self.head)
        &&& self.capacity > 0 || (self.head == 0 && self.tail == 0)
        &&& forall|i: int|
            0 <= i < self.size ==> (#[trigger] self.data@[wrap_index(
                self.head as int,
                i,
                self.capacity as int,
            )]) is Some
    }

    pub closed spec fn cap(&self) -> nat {
        self.capacity as nat
    }

    /// The items held, oldest first.
    pub closed spec fn view(&self) -> Seq<T> {
        Seq::new(
            self.size as nat,
            |i: int| self.data@[wrap_index(self.head as int, i, self.capacity as int)]->Some_0,
        )
    }

    /// A buffer never holds more items than its capacity.
    pub proof fn lemma_len_bounded(&self)
        requires
            self.wf(),
        ensures
            self@.len() <= self.cap(),
    {
    }

    pub fn new(capacity: usize) -> (r: Self)
        ensures
            r.wf(),
            r@ == Seq::<T>::empty(),
            r.cap() == capacity,
    {
        let mut data: Vec<Option<T>> = Vec::new();
        let mut i: usize = 0;
        while i < capacity
            invariant
                i <= capacity,
                data.len() == i,
            decreases capacity - i,
        {
            data.push(None);
            i = i + 1;
        }
        let r = RingBuffer { data, head: 0, tail: 0, size: 0, capacity };
        assert(r@ =~= Seq::<T>::empty());
        r
    }

    /// Appends `item`; when the buffer is full the oldest item is dropped first.
    pub fn push(&mut self, item: T)
        requires
            old(self).wf(),
            old(self).cap() > 0,
        ensures
            final(self).wf(),
            final(self).cap() == old(self).cap(),
            old(self)@.len() < old(self).cap() ==> final(self)@ == old(self)@.push(item),
            old(self)@.len() == old(self).cap() ==> final(self)@ == old(self)@.drop_first().push(
                item,
            ),
    {
        let ghost old_view = self@;
        let ghost old_data = self.data@;
        let next_tail = if self.tail + 1 == self.capacity {
            0
        } else {
            self.tail + 1
        };
        if self.size == self.capacity {
            self.data.set(self.tail, Some(item));
            self.tail = next_tail;
            self.head = next_tail;
            proof {
                let cap = self.capacity as int;
                let oh = if next_tail == 0 { cap - 1 } else { next_tail - 1 };
                assert forall|i: int| 0 <= i < self.size implies #[trigger] self.data@[wrap_index(
                    self.head as int,
                    i,
                    cap,
                )] is Some by {
                    if i + 1 < self.size {
                        assert(wrap_index(self.head as int, i, cap) == wrap_index(oh, i + 1, cap));
                        assert(old_data[wrap_index(oh, i + 1, cap)] is Some);
                    }
                }
                assert(self@ =~= old_view.drop_first().push(item)) by {
                    assert forall|i: int| 0 <= i < self.size implies self@[i] == old_view.drop_first().push(item)[i] by {
                        if i + 1 < self.size {
                            assert(wrap_index(self.head as int, i, cap) == wrap_index(oh, i + 1, cap));
                        }
                    }
                }
            }
        } else {
            self.data.set(self.tail, Some(item));
            self.tail = next_tail;
            self.size = self.size + 1;
            proof {
                let cap = self.capacity as int;
                assert forall|i: int| 0 <= i < self.size implies #[trigger] self.data@[wrap_index(
                    self.head as int,
                    i,
                    cap,
                )] is Some by {
                    if i + 1 < self.size {
                        assert(old_data[wrap_index(self.head as int, i, cap)] is Some);
                    }
                }
                assert(self@ =~= old_view.push(item));
            }
        }
    }

    /// Walks the items from the oldest to the newest.
    pub fn iter(&self) -> (r: RingBufferIterator<'_, T>)
        requires
            self.wf(),
        ensures
            r.wf(),
            r@ == self@,
    {
        RingBufferIterator { buffer: self, current: self.head, remaining: self.size }
    }

    pub fn len(&self) -> (r: usize)
        requires
            self.wf(),
        ensures
            r == self@.len(),
    {
        self.size
    }

    pub fn is_empty(&self) -> (r: bool)
        requires
            self.wf(),
        ensures
            r == (self@.len() == 0),
    {
        self.size == 0
    }

    pub fn capacity(&self) -> (r: usize)
        ensures
            r == self.cap(),
    {
        self.capacity
    }

    /// Drops every item; the capacity stays.
    pub fn clear(&mut self)
        requires
            old(self).wf(),
        ensures
            final(self).wf(),
            final(self)@ == Seq::<T>::empty(),
            final(self).cap() == old(self).cap(),
    {
        let mut i: usize = 0;
        while i < self.data.len()
            invariant
                self.data.len() == self.capacity,
                self.capacity == old(self).capacity,
                i <= self.data.len(),
            decreases self.data.len() - i,
        {
            self.data.set(i, None);
            i = i + 1;
        }
        self.head = 0;
        self.tail = 0;
        self.size = 0;
        assert(self@ =~= Seq::<T>::empty());
    }
}

/// Reads the items of a [`RingBuffer`] in order, oldest first.
pub struct RingBufferIterator<'a, T> {
    buffer: &'a RingBuffer<T>,
    current: usize,
    remaining: usize,
}

impl<'a, T> RingBufferIterator<'a, T> {
    pub closed spec fn wf(&self) -> bool {
        &&& self.buffer.wf()
        &&& self.remaining <= self.buffer.size
        &&& self.buffer.capacity == 0 || self.current == wrap_index(
            self.buffer.head as int,
            (self.buffer.size - self.remaining) as int,
            self.buffer.capacity as int,
        ) || (self.remaining == 0)
    }

    /// The items not read yet.
    pub closed spec fn view(&self) -> Seq<T> {
        self.buffer@.subrange(self.buffer.size - self.remaining, self.buffer.size as int)
    }

    pub fn next(&mut self) -> (r: Option<&'a T>)
        requires
            old(self).wf(),
        ensures
            final(self).wf(),
            old(self)@.len() == 0 ==> r is None && final(self)@ == old(self)@,
            old(self)@.len() > 0 ==> r == Some(&old(self)@[0]) && final(self)@
                == old(self)@.drop_first(),
    {
        if self.remaining == 0 {
            return None;
        }
        let buffer = self.buffer;
        let slot = &buffer.data[self.current];
        let item = match slot {
            Some(x) => x,
            None => {
                proof {
                    let k = (buffer.size - self.remaining) as int;
                    assert(buffer.data@[wrap_index(buffer.head as int, k, buffer.capacity as int)] is Some);
                }
                return None;
            },
        };
        self.current = if self.current + 1 == buffer.capacity {
            0
        } else {
            self.current + 1
        };
        self.remaining = self.remaining - 1;
        proof {
            assert(self@ =~= old(self)@.drop_first());
        }
        Some(item)
    }
}

} // verus!
