//! A pool of byte buffers, so that sessions reuse buffers instead of
//! allocating new ones, with counters of what it has handed out and taken back.
use crate::buf;
use vstd::prelude::*;

verus! {

/// Counters of a buffer pool.
#[derive(Debug, Clone)]
pub struct PoolStats {
    /// Buffers handed out.
    pub allocated: usize,
    /// Buffers handed back (kept or not).
    pub returned: usize,
    /// Buffers made new because the pool was empty.
    pub created: usize,
    /// Buffers in the pool.
    pub available: usize,
}

impl Default for PoolStats {
    fn default() -> (s: Self)
        ensures
            s == (PoolStats { allocated: 0, returned: 0, created: 0, available: 0 }),
    {
        PoolStats { allocated: 0, returned: 0, created: 0, available: 0 }
    }
}

/// A pool of empty buffers of one capacity, keeping at most `max_pool_size`
/// of those handed back.
pub struct BufferPool {
    pool: Vec<bytes::BytesMut>,
    buffer_capacity: usize,
    max_pool_size: usize,
    stats: PoolStats,
}

/// What a pool is, as a mathematical value: how many buffers it holds, its
/// settings and its counters.
pub struct PoolView {
    pub idle: nat,
    pub buffer_capacity: usize,
    pub max_pool_size: usize,
    pub stats: PoolStats,
}

impl View for BufferPool {
    type V = PoolView;

    closed spec fn view(&self) -> PoolView {
        PoolView {
            idle: self.pool@.len(),
            buffer_capacity: self.buffer_capacity,
            max_pool_size: self.max_pool_size,
            stats: self.stats,
        }
    }
}

/// A fresh pool holding `initial_size` buffers.
pub open spec fn new_pool(buffer_capacity: usize, initial_size: usize, max_pool_size: usize) -> PoolView {
    PoolView {
        idle: initial_size as nat,
        buffer_capacity,
        max_pool_size,
        stats: PoolStats { allocated: 0, returned: 0, created: 0, available: initial_size },
    }
}

/// Whether the pool can hand out a buffer without a counter overflowing or an
/// allocation beyond `isize::MAX` bytes.
pub open spec fn can_acquire(p: PoolView) -> bool {
    &&& p.stats.allocated < usize::MAX
    &&& p.idle == 0 ==> p.stats.created < usize::MAX && p.buffer_capacity <= isize::MAX
}

/// The pool after handing out a buffer: one held buffer goes out, or, with
/// none held, a new one is made.
pub open spec fn acquire_result(p: PoolView) -> PoolView {
    if p.idle > 0 {
        PoolView {
            idle: (p.idle - 1) as nat,
            stats: PoolStats {
                allocated: (p.stats.allocated + 1) as usize,
                available: (p.idle - 1) as usize,
                ..p.stats
            },
            ..p
        }
    } else {
        PoolView {
            stats: PoolStats {
                allocated: (p.stats.allocated + 1) as usize,
                created: (p.stats.created + 1) as usize,
                available: 0,
                ..p.stats
            },
            ..p
        }
    }
}

/// The pool after a buffer is handed back. It is kept, emptied, when its
/// capacity is the pool's (`fits`) and the pool holds fewer than
/// `max_pool_size`; otherwise it is dropped. Either way it is counted.
pub open spec fn release_result(p: PoolView, fits: bool) -> PoolView {
    let counted = PoolStats { returned: (p.stats.returned + 1) as usize, ..p.stats };
    if !fits {
        PoolView { stats: counted, ..p }
    } else if p.idle < p.max_pool_size {
        PoolView {
            idle: p.idle + 1,
            stats: PoolStats { available: (p.idle + 1) as usize, ..counted },
            ..p
        }
    } else {
        PoolView { stats: PoolStats { available: p.idle as usize, ..counted }, ..p }
    }
}

impl BufferPool {
    /// Every buffer in the pool is empty, and `available` counts them.
    pub closed spec fn wf(&self) -> bool {
        &&& self.stats.available == self.pool@.len()
        &&& forall|i: int| 0 <= i < self.pool@.len() ==> buf::buf_bytes(#[trigger] self.pool@[i]) == Seq::<u8>::empty()
    }

    /// A pool of `initial_size` new buffers of capacity `buffer_capacity`,
    /// keeping at most `max_pool_size` of those handed back.
    pub fn new(buffer_capacity: usize, initial_size: usize, max_pool_size: usize) -> (p: Self)
        requires
            initial_size > 0 ==> buffer_capacity <= isize::MAX,
        ensures
            p.wf(),
            p@ == new_pool(buffer_capacity, initial_size, max_pool_size),
            p@.stats.available == p@.idle,
    {
        let mut pool: Vec<bytes::BytesMut> = Vec::with_capacity(max_pool_size);
        let mut i: usize = 0;
        while i < initial_size
            invariant
                i <= initial_size,
                initial_size > 0 ==> buffer_capacity <= isize::MAX,
                pool@.len() == i,
                forall|j: int| 0 <= j < pool@.len() ==> buf::buf_bytes(#[trigger] pool@[j]) == Seq::<u8>::empty(),
            decreases initial_size - i,
        {
            pool.push(buf::buf_with_capacity(buffer_capacity));
            i = i + 1;
        }
        Self {
            pool,
            buffer_capacity,
            max_pool_size,
            stats: PoolStats { allocated: 0, returned: 0, created: 0, available: initial_size },
        }
    }

    /// A pool of 100 buffers of 8 KiB, keeping at most 1000.
    pub fn with_defaults() -> (p: Self)
        ensures
            p.wf(),
            p@ == new_pool(8192, 100, 1000),
            p@.stats.available == p@.idle,
    {
        Self::new(8 * 1024, 100, 1000)
    }

    /// Hands out an empty buffer: one from the pool, or a new one of the
    /// pool's capacity when the pool is empty.
    pub fn acquire(&mut self) -> (b: bytes::BytesMut)
        requires
            old(self).wf(),
            can_acquire(old(self)@),
        ensures
            final(self).wf(),
            final(self)@ == acquire_result(old(self)@),
            final(self)@.stats.available == final(self)@.idle,
            buf::buf_bytes(b) == Seq::<u8>::empty(),
    {
        self.stats.allocated = self.stats.allocated + 1;
        match self.pool.pop() {
            Some(mut b) => {
                buf::buf_clear(&mut b);
                self.stats.available = self.pool.len();
                b
            },
            None => {
                self.stats.created = self.stats.created + 1;
                self.stats.available = 0;
                buf::buf_with_capacity(self.buffer_capacity)
            },
        }
    }

    /// Takes a buffer back, keeping it when its capacity is the pool's and
    /// the pool has room. Which capacity a buffer has is up to its allocation,
    /// so the contract says only that one of the two outcomes happens.
    pub fn release(&mut self, b: bytes::BytesMut)
        requires
            old(self).wf(),
            old(self)@.stats.returned < usize::MAX,
        ensures
            final(self).wf(),
            final(self)@ == release_result(old(self)@, true) || final(self)@ == release_result(
                old(self)@,
                false,
            ),
            final(self)@.stats.available == final(self)@.idle,
    {
        let capacity = buf::buf_capacity(&b);
        self.release_with_capacity(b, capacity);
    }

    /// Takes back a buffer whose capacity is `capacity`: it is kept, emptied,
    /// when that is the pool's capacity and the pool has room.
    pub fn release_with_capacity(&mut self, b: bytes::BytesMut, capacity: usize)
        requires
            old(self).wf(),
            old(self)@.stats.returned < usize::MAX,
        ensures
            final(self).wf(),
            final(self)@ == release_result(old(self)@, capacity == old(self)@.buffer_capacity),
            final(self)@.stats.available == final(self)@.idle,
    {
        let mut b = b;
        self.stats.returned = self.stats.returned + 1;
        if capacity != self.buffer_capacity {
            return;
        }
        if self.pool.len() < self.max_pool_size {
            buf::buf_clear(&mut b);
            self.pool.push(b);
            self.stats.available = self.pool.len();
        } else {
            self.stats.available = self.pool.len();
        }
    }

    /// The counters.
    pub fn stats(&self) -> (s: PoolStats)
        ensures
            s == self@.stats,
    {
        PoolStats {
            allocated: self.stats.allocated,
            returned: self.stats.returned,
            created: self.stats.created,
            available: self.stats.available,
        }
    }

    /// The capacity of the pool's buffers.
    pub fn buffer_capacity(&self) -> (n: usize)
        ensures
            n == self@.buffer_capacity,
    {
        self.buffer_capacity
    }

    /// The most buffers the pool keeps of those handed back.
    pub fn max_pool_size(&self) -> (n: usize)
        ensures
            n == self@.max_pool_size,
    {
        self.max_pool_size
    }
}

/// `available` always equals the number of buffers held: handing out and
/// taking back keep it so.
pub proof fn lemma_available_counts_idle(p: PoolView, fits: bool)
    requires
        p.stats.available == p.idle,
        p.idle < usize::MAX,
    ensures
        acquire_result(p).stats.available == acquire_result(p).idle,
        release_result(p, fits).stats.available == release_result(p, fits).idle,
{
}

/// Every hand-out and every hand-back is counted; a buffer is made new only
/// when the pool is empty, and the pool grows only by a fitting buffer while
/// below its bound.
pub proof fn lemma_counts(p: PoolView, fits: bool)
    requires
        p.stats.allocated < usize::MAX,
        p.stats.returned < usize::MAX,
        p.stats.created < usize::MAX,
    ensures
        acquire_result(p).stats.allocated == p.stats.allocated + 1,
        acquire_result(p).stats.returned == p.stats.returned,
        acquire_result(p).stats.created == p.stats.created + if p.idle == 0 { 1int } else { 0 },
        release_result(p, fits).stats.returned == p.stats.returned + 1,
        release_result(p, fits).stats.allocated == p.stats.allocated,
        release_result(p, fits).stats.created == p.stats.created,
        release_result(p, fits).idle == p.idle + if fits && p.idle < p.max_pool_size { 1int } else { 0 },
{
}

/// A buffer handed back and then asked for again is reused, not made new:
/// after a fitting release into a pool with room, an acquire creates nothing
/// and leaves the pool as it was in size.
pub proof fn lemma_release_then_acquire_reuses(p: PoolView)
    requires
        p.idle < p.max_pool_size,
        p.stats.returned < usize::MAX,
        p.stats.allocated < usize::MAX,
    ensures
        acquire_result(release_result(p, true)).stats.created == p.stats.created,
        acquire_result(release_result(p, true)).idle == p.idle,
{
}

/// The pool never holds more than it started with or its bound, whichever
/// is larger.
pub proof fn lemma_pool_bounded(p: PoolView, fits: bool, initial_size: usize)
    requires
        p.idle <= if initial_size > p.max_pool_size { initial_size as nat } else { p.max_pool_size as nat },
    ensures
        acquire_result(p).idle <= if initial_size > p.max_pool_size { initial_size as nat } else { p.max_pool_size as nat },
        release_result(p, fits).idle <= if initial_size > p.max_pool_size { initial_size as nat } else { p.max_pool_size as nat },
{
}

} // verus!
