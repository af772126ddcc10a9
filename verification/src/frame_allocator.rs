use vstd::prelude::*;

use crate::buffer_pool::{checkout_post, pool_wf, GenericBufferPool, PoolView};
use crate::buffers::{
    zeroed, BufferUsage, DeviceBuffer, DeviceBufferView, GenericBufferAllocation, HostBuffer,
    HostBufferView, MAX_BUFFER_SIZE,
};

verus! {

/// A fault raised by an operation on staging memory. Bounds and
/// freshness violations fail fast and loudly: continuing silently would
/// corrupt instance data on its way to the GPU.
#[derive(Clone, Copy, Debug, PartialEq, Eq, Hash, Structural)]
pub enum FrameError {
    /// The staging handle was issued in an earlier frame; the arena has
    /// been reset since.
    StaleHandle,
    /// The requested window does not lie inside the allocated region.
    OutOfBounds,
    /// The data handed over does not have the window's exact size.
    SizeMismatch,
}

pub ghost struct FrameAllocatorView {
    pub generation: u64,
    pub staging: Seq<u8>,
    pub pool: PoolView,
    pub held: Seq<DeviceBufferView>,
}

/// Per-frame staging allocator: a bump arena of CPU-writable bytes,
/// paired with the device-buffer pool it commits into. Staging handles
/// carry the generation they were issued in; a reset at the frame
/// boundary bumps the generation, which invalidates every outstanding
/// handle. Device buffers checked out by commits are held until the
/// reset, which releases them back to the pool.
pub struct FrameBufferAllocator {
    pub(crate) generation: u64,
    pub(crate) staging: Vec<u8>,
    pub(crate) pool: GenericBufferPool,
    pub(crate) held: Vec<DeviceBuffer>,
}

impl View for FrameBufferAllocator {
    type V = FrameAllocatorView;

    open(crate) spec fn view(&self) -> FrameAllocatorView {
        FrameAllocatorView {
            generation: self.generation,
            staging: self.staging@,
            pool: self.pool@,
            held: Seq::new(self.held@.len(), |i: int| self.held@[i]@),
        }
    }
}

/// Allocator invariant: the pool is well formed, and the buffers held
/// for the current frame are mutually distinct and disjoint from the
/// pool's idle set.
pub open spec fn fba_wf(v: FrameAllocatorView) -> bool {
    &&& pool_wf(v.pool)
    &&& forall|k: int| 0 <= k < v.held.len() ==> (#[trigger] v.held[k]).id < v.pool.next_id
    &&& forall|k1: int, k2: int|
        0 <= k1 < v.held.len() && 0 <= k2 < v.held.len() && k1 != k2 ==> (#[trigger] v.held[k1]).id
            != (#[trigger] v.held[k2]).id
    &&& forall|k: int, i: int|
        0 <= k < v.held.len() && 0 <= i < v.pool.idle.len() ==> (#[trigger] v.pool.idle[i]).buffer.id
            != (#[trigger] v.held[k]).id
}

/// A staging handle is usable only while the allocator is still in the
/// generation that issued it.
pub open spec fn handle_current(v: FrameAllocatorView, h: HostBufferView) -> bool {
    h.generation == v.generation
}

/// What a frame-boundary reset does: the generation advances, the arena
/// empties, and every held device buffer goes back to the pool's idle
/// set in order, stamped with consecutive release instants.
pub open spec fn reset_post(pre: FrameAllocatorView, post: FrameAllocatorView) -> bool {
    &&& post.generation == pre.generation + 1
    &&& post.staging.len() == 0
    &&& post.held.len() == 0
    &&& post.pool.next_id == pre.pool.next_id
    &&& post.pool.clock == pre.pool.clock + pre.held.len()
    &&& post.pool.idle.len() == pre.pool.idle.len() + pre.held.len()
    &&& forall|i: int|
        0 <= i < pre.pool.idle.len() ==> post.pool.idle[i] == (#[trigger] pre.pool.idle[i])
    &&& forall|k: int|
        0 <= k < pre.held.len() ==> (#[trigger] post.pool.idle[pre.pool.idle.len() + k]).buffer
            == pre.held[k] && post.pool.idle[pre.pool.idle.len() + k].stamp == pre.pool.clock + k
}

impl FrameBufferAllocator {
    /// A fresh allocator over the given pool, starting in generation 0
    /// with an empty arena.
    pub fn new(pool: GenericBufferPool) -> (r: Self)
        requires
            pool_wf(pool@),
        ensures
            r@.generation == 0,
            r@.staging.len() == 0,
            r@.held.len() == 0,
            r@.pool == pool@,
            fba_wf(r@),
    {
        FrameBufferAllocator { generation: 0, staging: Vec::new(), pool, held: Vec::new() }
    }

    pub fn generation(&self) -> (r: u64)
        ensures
            r == self@.generation,
    {
        self.generation
    }

    pub fn pool(&self) -> (r: &GenericBufferPool)
        ensures
            r@ == self@.pool,
    {
        &self.pool
    }

    /// A fresh CPU-writable region of exactly `size` bytes, zeroed, at
    /// the end of the arena, tagged with the current generation.
    pub fn alloc_staging_buffer(&mut self, size: usize) -> (r: HostBuffer)
        requires
            fba_wf(old(self)@),
            size <= MAX_BUFFER_SIZE,
            old(self)@.staging.len() + size <= usize::MAX,
        ensures
            fba_wf(final(self)@),
            r@.generation == old(self)@.generation,
            r@.start == old(self)@.staging.len(),
            r@.size == size,
            final(self)@.generation == old(self)@.generation,
            final(self)@.pool == old(self)@.pool,
            final(self)@.held == old(self)@.held,
            final(self)@.staging == old(self)@.staging + Seq::<u8>::new(
                size as nat,
                |j: int| 0u8,
            ),
            handle_current(final(self)@, r@),
            r@.start + r@.size == final(self)@.staging.len(),
    {
        let start = self.staging.len();
        let mut fresh = zeroed(size);
        self.staging.append(&mut fresh);
        HostBuffer { start, size, generation: self.generation }
    }

    /// Bounds-checked sub-view of a staging region: `size` bytes starting
    /// `offset` bytes into the handle's region. Fails fast on a stale
    /// handle or an out-of-range window.
    pub fn slice(&self, buffer: &HostBuffer, offset: usize, size: usize) -> (r: Result<
        GenericBufferAllocation<HostBuffer>,
        FrameError,
    >)
        ensures
            r.is_ok() <==> handle_current(self@, buffer@) && offset + size <= buffer@.size,
            match r {
                Ok(a) => a.spec_buffer()@ == buffer@ && a.spec_offset() == offset && a.spec_size()
                    == size,
                Err(e) => e == (if !handle_current(self@, buffer@) {
                    FrameError::StaleHandle
                } else {
                    FrameError::OutOfBounds
                }),
            },
    {
        if buffer.generation != self.generation {
            Err(FrameError::StaleHandle)
        } else if offset > buffer.size || size > buffer.size - offset {
            Err(FrameError::OutOfBounds)
        } else {
            Ok(
                GenericBufferAllocation {
                    buffer: HostBuffer {
                        start: buffer.start,
                        size: buffer.size,
                        generation: buffer.generation,
                    },
                    offset,
                    size,
                },
            )
        }
    }

    /// Writes `data` over the window that `allocation` describes. The
    /// write touches nothing outside the window; a stale handle, a size
    /// mismatch or a window outside the arena fails fast instead.
    pub fn copy_from_slice(
        &mut self,
        allocation: &GenericBufferAllocation<HostBuffer>,
        data: &Vec<u8>,
    ) -> (r: Result<(), FrameError>)
        ensures
            ({
                let h = allocation.spec_buffer()@;
                let lo = h.start + allocation.spec_offset();
                let hi = lo + allocation.spec_size();
                &&& r.is_ok() <==> handle_current(old(self)@, h) && data@.len()
                    == allocation.spec_size() && hi <= old(self)@.staging.len()
                &&& r.is_ok() ==> {
                    &&& final(self)@.generation == old(self)@.generation
                    &&& final(self)@.pool == old(self)@.pool
                    &&& final(self)@.held == old(self)@.held
                    &&& final(self)@.staging.len() == old(self)@.staging.len()
                    &&& final(self)@.staging.subrange(lo as int, hi as int) == data@
                    &&& forall|i: int|
                        0 <= i < old(self)@.staging.len() && !(lo <= i < hi)
                            ==> #[trigger] final(self)@.staging[i] == old(self)@.staging[i]
                }
                &&& !r.is_ok() ==> final(self)@ == old(self)@ && r == Err::<(), FrameError>(
                    if !handle_current(old(self)@, h) {
                        FrameError::StaleHandle
                    } else if data@.len() != allocation.spec_size() {
                        FrameError::SizeMismatch
                    } else {
                        FrameError::OutOfBounds
                    },
                )
            }),
    {
        if allocation.buffer.generation != self.generation {
            return Err(FrameError::StaleHandle);
        }
        if data.len() != allocation.size {
            return Err(FrameError::SizeMismatch);
        }
        let arena = self.staging.len();
        if allocation.buffer.start > arena || allocation.offset > arena - allocation.buffer.start
            || allocation.size > arena - allocation.buffer.start - allocation.offset {
            return Err(FrameError::OutOfBounds);
        }
        let lo = allocation.buffer.start + allocation.offset;
        let n = allocation.size;
        let mut i: usize = 0;
        while i < n
            invariant
                i <= n,
                n == data@.len(),
                lo + n <= arena,
                arena == self.staging@.len(),
                lo == allocation.spec_buffer()@.start + allocation.spec_offset(),
                n == allocation.spec_size(),
                self.generation == old(self).generation,
                self.pool == old(self).pool,
                self.held == old(self).held,
                self.staging@.len() == old(self).staging@.len(),
                forall|j: int| 0 <= j < i ==> self.staging@[lo + j] == data@[j],
                forall|j: int|
                    0 <= j < self.staging@.len() && !(lo <= j < lo + i) ==> self.staging@[j] == old(
                        self,
                    ).staging@[j],
            decreases n - i,
        {
            self.staging.set(lo + i, data[i]);
            i = i + 1;
        }
        proof {
            assert(self@.staging.subrange(lo as int, (lo + n) as int) =~= data@);
            assert(self@.held =~= old(self)@.held);
        }
        Ok(())
    }

    /// Copies the staging region's bytes into a device buffer obtained
    /// from the pool, consumes the staging handle, and returns the
    /// device-side allocation for the rest of the frame. The device
    /// buffer stays held by the allocator until the frame resets.
    pub fn commit_staging_buffer(&mut self, buffer: HostBuffer) -> (r: Result<
        GenericBufferAllocation<DeviceBuffer>,
        FrameError,
    >)
        requires
            fba_wf(old(self)@),
            old(self)@.pool.next_id < u64::MAX,
            handle_current(old(self)@, buffer@) ==> buffer@.size <= MAX_BUFFER_SIZE && buffer@.start
                + buffer@.size <= old(self)@.staging.len(),
        ensures
            fba_wf(final(self)@),
            r.is_ok() <==> handle_current(old(self)@, buffer@),
            !r.is_ok() ==> final(self)@ == old(self)@ && r == Err::<
                GenericBufferAllocation<DeviceBuffer>,
                FrameError,
            >(FrameError::StaleHandle),
            r.is_ok() ==> ({
                let a = r.unwrap();
                &&& final(self)@.generation == old(self)@.generation
                &&& final(self)@.staging == old(self)@.staging
                &&& a.spec_offset() == 0
                &&& a.spec_size() == buffer@.size
                &&& a.spec_buffer()@.contents.subrange(0, buffer@.size as int) == old(
                    self,
                )@.staging.subrange(buffer@.start as int, (buffer@.start + buffer@.size) as int)
                &&& a.spec_buffer()@.usage == BufferUsage::Vertex
                &&& a.spec_buffer()@.contents.len() >= buffer@.size
                &&& final(self)@.held == old(self)@.held.push(a.spec_buffer()@)
                &&& exists|b0: DeviceBufferView|
                    checkout_post(
                        old(self)@.pool,
                        BufferUsage::Vertex,
                        buffer@.size,
                        final(self)@.pool,
                        b0,
                    ) && a.spec_buffer()@.id == b0.id
            }),
    {
        if buffer.generation != self.generation {
            return Err(FrameError::StaleHandle);
        }
        let size = buffer.size;
        let start = buffer.start;
        let mut db = self.pool.checkout(BufferUsage::Vertex, size);
        let ghost mid = self@;
        let arena = self.staging.len();
        let mut data: Vec<u8> = Vec::new();
        let mut i: usize = 0;
        while i < size
            invariant
                i <= size,
                self@ == mid,
                start + size <= arena,
                arena == self.staging@.len(),
                data@ =~= self.staging@.subrange(start as int, start as int + i),
            decreases size - i,
        {
            data.push(self.staging[start + i]);
            proof {
                assert(data@ =~= self.staging@.subrange(start as int, start as int + i + 1));
            }
            i = i + 1;
        }
        db.write_prefix(&data);
        let dup = db.dup();
        self.held.push(db);
        proof {
            assert(self@.held =~= old(self)@.held.push(dup@));
        }
        Ok(GenericBufferAllocation { buffer: dup, offset: 0, size })
    }

    /// Frame-boundary reset: every held device buffer returns to the
    /// pool, the arena empties, and the generation advances, which
    /// invalidates all staging handles issued this frame.
    pub fn reset(&mut self)
        requires
            fba_wf(old(self)@),
            old(self)@.generation < u64::MAX,
            old(self)@.pool.clock + old(self)@.held.len() <= u64::MAX,
        ensures
            fba_wf(final(self)@),
            reset_post(old(self)@, final(self)@),
    {
        let ghost pre = self@;
        let mut k: usize = 0;
        let n = self.held.len();
        while k < n
            invariant
                k <= n,
                pre == old(self)@,
                fba_wf(pre),
                n == pre.held.len(),
                pre.pool.clock + n <= u64::MAX,
                fba_wf(self@),
                self.generation == old(self).generation,
                self.staging@ == pre.staging,
                self@.held == pre.held.subrange(k as int, n as int),
                self@.pool.next_id == pre.pool.next_id,
                self@.pool.clock == pre.pool.clock + k,
                self@.pool.idle.len() == pre.pool.idle.len() + k,
                forall|i: int|
                    0 <= i < pre.pool.idle.len() ==> self@.pool.idle[i] == (
                    #[trigger] pre.pool.idle[i]),
                forall|j: int|
                    0 <= j < k ==> (#[trigger] self@.pool.idle[pre.pool.idle.len() + j]).buffer
                        == pre.held[j] && self@.pool.idle[pre.pool.idle.len() + j].stamp
                        == pre.pool.clock + j,
            decreases n - k,
        {
            let ghost loop_pre = self@;
            let ghost held_vec = self.held@;
            let buffer = self.held.remove(0);
            let ghost bv = buffer@;
            proof {
                assert(loop_pre.held.len() == n - k);
                assert(held_vec.len() == n - k);
                assert(buffer == held_vec[0]);
                assert(loop_pre.held[0] == held_vec[0]@);
                assert(bv == loop_pre.held[0]);
                assert(loop_pre.held[0] == pre.held[k as int]);
                assert(self@.held =~= loop_pre.held.subrange(1, loop_pre.held.len() as int));
                assert(self@.held =~= pre.held.subrange(k as int + 1, n as int));
                assert(buffer@.id < self@.pool.next_id);
                assert forall|i: int|
                    0 <= i < self@.pool.idle.len() implies (#[trigger] self@.pool.idle[i]).buffer.id
                    != buffer@.id by {
                    if i < pre.pool.idle.len() {
                        assert(self@.pool.idle[i] == pre.pool.idle[i]);
                    } else {
                        let j: int = i - pre.pool.idle.len();
                        assert(self@.pool.idle[pre.pool.idle.len() + j].buffer == pre.held[j]);
                    }
                }
            }
            let ghost mid = self@;
            self.pool.release(buffer);
            proof {
                let post = self@;
                assert forall|k1: int, i: int|
                    0 <= k1 < post.held.len() && 0 <= i < post.pool.idle.len() implies (
                #[trigger] post.pool.idle[i]).buffer.id != (#[trigger] post.held[k1]).id by {
                    assert(post.held[k1] == pre.held[k as int + 1 + k1]);
                    if i < mid.pool.idle.len() {
                        assert(post.pool.idle[i] == mid.pool.idle[i]);
                    } else {
                        assert(post.pool.idle[i].buffer == buffer@);
                        assert(pre.held[k as int].id != pre.held[k as int + 1 + k1].id);
                    }
                }
            }
            k = k + 1;
        }
        self.staging.clear();
        self.generation = self.generation + 1;
    }
}

/// Frame isolation: once the allocator has reset for the next frame, a
/// staging handle issued in the previous frame is no longer current, so
/// every slice, write or commit through it fails fast with a stale-handle
/// fault rather than touching memory: their contracts return a result
/// only when `handle_current` holds.
pub proof fn lemma_frame_isolation(
    pre: FrameAllocatorView,
    post: FrameAllocatorView,
    h: HostBufferView,
)
    requires
        reset_post(pre, post),
        handle_current(pre, h),
    ensures
        !handle_current(post, h),
{
}

} // verus!
