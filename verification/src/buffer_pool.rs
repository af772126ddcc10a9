use vstd::prelude::*;

use crate::buffers::{zeroed, BufferUsage, DeviceBuffer, DeviceBufferView, MAX_BUFFER_SIZE};

verus! {

/// An idle device buffer waiting in the pool, stamped with the instant it
/// was released. Checkout prefers the most recently released eligible
/// buffer, so a buffer that has just been returned is the first to be
/// reused.
pub ghost struct IdleEntryView {
    pub stamp: u64,
    pub buffer: DeviceBufferView,
}

pub ghost struct PoolView {
    pub idle: Seq<IdleEntryView>,
    pub next_id: u64,
    pub clock: u64,
}

pub(crate) struct IdleEntry {
    pub(crate) stamp: u64,
    pub(crate) buffer: DeviceBuffer,
}

/// Pool of reusable device buffers. A checkout hands a buffer out under
/// exclusive ownership; a release returns it to the idle set. Idle
/// buffers are never destroyed, so the set only grows: the cost of a
/// device allocation is paid at most once per buffer.
pub struct GenericBufferPool {
    pub(crate) idle: Vec<IdleEntry>,
    pub(crate) next_id: u64,
    pub(crate) clock: u64,
}

impl View for GenericBufferPool {
    type V = PoolView;

    open(crate) spec fn view(&self) -> PoolView {
        PoolView {
            idle: Seq::new(
                self.idle@.len(),
                |i: int|
                    IdleEntryView { stamp: self.idle@[i].stamp, buffer: self.idle@[i].buffer@ },
            ),
            next_id: self.next_id,
            clock: self.clock,
        }
    }
}

/// Canonical size of a fresh allocation: the request rounded up to the
/// next power of two, so that requests of similar size share buffers.
pub open spec fn grow_class(acc: nat, size: nat) -> nat
    decreases size - acc,
{
    if acc >= size {
        acc
    } else if acc == 0 {
        0
    } else if acc * 2 >= size {
        acc * 2
    } else {
        grow_class(acc * 2, size)
    }
}

pub open spec fn spec_size_class(size: nat) -> nat {
    grow_class(1, size)
}

/// An idle buffer can satisfy a request when its usage matches and it is
/// large enough.
pub open spec fn eligible(e: IdleEntryView, usage: BufferUsage, size: usize) -> bool {
    e.buffer.usage == usage && e.buffer.contents.len() >= size
}

pub open spec fn has_eligible(idle: Seq<IdleEntryView>, usage: BufferUsage, size: usize) -> bool {
    exists|i: int| 0 <= i < idle.len() && eligible(idle[i], usage, size)
}

/// Pool invariant: release stamps all precede the clock, identities are
/// drawn from the ids handed out so far, and no buffer sits in the idle
/// set twice.
pub open spec fn pool_wf(p: PoolView) -> bool {
    &&& forall|i: int|
        0 <= i < p.idle.len() ==> (#[trigger] p.idle[i]).stamp < p.clock && p.idle[i].buffer.id
            < p.next_id
    &&& forall|i: int, j: int|
        0 <= i < p.idle.len() && 0 <= j < p.idle.len() && i != j ==> (#[trigger] p.idle[i]).buffer.id
            != (#[trigger] p.idle[j]).buffer.id
}

/// What a checkout that reuses an idle buffer does: it removes an
/// eligible entry whose stamp is maximal among eligible entries and hands
/// its buffer out.
pub open spec fn checkout_reuses(
    pre: Seq<IdleEntryView>,
    usage: BufferUsage,
    size: usize,
    post: Seq<IdleEntryView>,
    r: DeviceBufferView,
) -> bool {
    exists|i: int|
        {
            &&& 0 <= i < pre.len()
            &&& eligible(#[trigger] pre[i], usage, size)
            &&& r == pre[i].buffer
            &&& forall|j: int|
                0 <= j < pre.len() && eligible(#[trigger] pre[j], usage, size) ==> pre[j].stamp
                    <= pre[i].stamp
            &&& post == pre.remove(i)
        }
}

/// Full checkout contract, covering both the reuse and the fresh
/// allocation case.
pub open spec fn checkout_post(
    pre: PoolView,
    usage: BufferUsage,
    size: usize,
    post: PoolView,
    r: DeviceBufferView,
) -> bool {
    &&& post.clock == pre.clock
    &&& r.usage == usage
    &&& r.contents.len() >= size
    &&& if has_eligible(pre.idle, usage, size) {
        &&& checkout_reuses(pre.idle, usage, size, post.idle, r)
        &&& post.next_id == pre.next_id
    } else {
        &&& post.idle == pre.idle
        &&& post.next_id == pre.next_id + 1
        &&& r.id == pre.next_id
        &&& r.contents.len() == spec_size_class(size as nat)
        &&& r.contents == Seq::<u8>::new(spec_size_class(size as nat), |i: int| 0u8)
    }
}

/// What a release does: the buffer joins the idle set carrying the
/// current clock as its stamp, and the clock advances.
pub open spec fn release_post(pre: PoolView, b: DeviceBufferView, post: PoolView) -> bool {
    &&& post.idle == pre.idle.push(IdleEntryView { stamp: pre.clock, buffer: b })
    &&& post.next_id == pre.next_id
    &&& post.clock == pre.clock + 1
}

/// Removing an idle entry preserves the pool invariant.
proof fn lemma_wf_after_remove(pre: PoolView, post: PoolView, i: int)
    requires
        pool_wf(pre),
        0 <= i < pre.idle.len(),
        post.idle == pre.idle.remove(i),
        post.next_id == pre.next_id,
        post.clock == pre.clock,
    ensures
        pool_wf(post),
{
    assert forall|a: int| 0 <= a < post.idle.len() implies (#[trigger] post.idle[a]).stamp
        < post.clock && post.idle[a].buffer.id < post.next_id by {
        if a < i {
            assert(post.idle[a] == pre.idle[a]);
        } else {
            assert(post.idle[a] == pre.idle[a + 1]);
        }
    }
    assert forall|a: int, b: int|
        0 <= a < post.idle.len() && 0 <= b < post.idle.len() && a != b implies (
    #[trigger] post.idle[a]).buffer.id != (#[trigger] post.idle[b]).buffer.id by {
        let a0: int = if a < i {
            a
        } else {
            a + 1
        };
        let b0: int = if b < i {
            b
        } else {
            b + 1
        };
        assert(post.idle[a] == pre.idle[a0]);
        assert(post.idle[b] == pre.idle[b0]);
    }
}

impl GenericBufferPool {
    pub fn new() -> (r: Self)
        ensures
            r@.idle.len() == 0,
            r@.next_id == 0,
            r@.clock == 0,
            pool_wf(r@),
    {
        GenericBufferPool { idle: Vec::new(), next_id: 0, clock: 0 }
    }

    /// Rounds a request up to its size class.
    pub fn size_class(size: usize) -> (r: usize)
        requires
            size <= MAX_BUFFER_SIZE,
        ensures
            r == spec_size_class(size as nat),
            r >= size,
            r >= 1,
    {
        let mut c: usize = 1;
        while c < size
            invariant
                1 <= c,
                c <= 2 * MAX_BUFFER_SIZE,
                size <= MAX_BUFFER_SIZE,
                spec_size_class(size as nat) == grow_class(c as nat, size as nat),
            decreases (if c < size {
                (size - c) as int
            } else {
                0int
            }),
        {
            c = c * 2;
        }
        c
    }

    /// Takes a buffer out of the pool under exclusive ownership: the most
    /// recently released idle buffer of this usage that is large enough,
    /// or a freshly allocated one of the request's size class when no
    /// idle buffer is eligible.
    #[verifier::rlimit(80)]
    pub fn checkout(&mut self, usage: BufferUsage, size: usize) -> (r: DeviceBuffer)
        requires
            pool_wf(old(self)@),
            size <= MAX_BUFFER_SIZE,
            old(self)@.next_id < u64::MAX,
        ensures
            pool_wf(final(self)@),
            checkout_post(old(self)@, usage, size, final(self)@, r@),
            r@.id < final(self)@.next_id,
            forall|i: int|
                0 <= i < final(self)@.idle.len() ==> (#[trigger] final(self)@.idle[i]).buffer.id
                    != r@.id,
    {
        let n = self.idle.len();
        let mut best: usize = n;
        let mut k: usize = 0;
        while k < n
            invariant
                self == old(self),
                n == self@.idle.len(),
                k <= n,
                best <= n,
                best == n ==> forall|j: int|
                    0 <= j < k ==> !eligible(#[trigger] self@.idle[j], usage, size),
                best < n ==> eligible(self@.idle[best as int], usage, size),
                best < n ==> forall|j: int|
                    0 <= j < k && eligible(#[trigger] self@.idle[j], usage, size)
                        ==> self@.idle[j].stamp <= self@.idle[best as int].stamp,
            decreases n - k,
        {
            let cand = &self.idle[k];
            if cand.buffer.usage() == usage && cand.buffer.size() >= size {
                if best == n || self.idle[best].stamp < cand.stamp {
                    best = k;
                }
            }
            k = k + 1;
        }
        if best < n {
            let ghost prev = self@;
            let ghost bi = best as int;
            let entry = self.idle.remove(best);
            proof {
                assert(self@.idle =~= prev.idle.remove(bi));
                assert(0 <= bi < prev.idle.len() && eligible(prev.idle[bi], usage, size)
                    && entry.buffer@ == prev.idle[bi].buffer && self@.idle == prev.idle.remove(bi));
                assert(checkout_reuses(prev.idle, usage, size, self@.idle, entry.buffer@));
                assert(prev.idle[bi].buffer.id < prev.next_id);
                lemma_wf_after_remove(prev, self@, bi);
                assert forall|i: int| 0 <= i < self@.idle.len() implies (#[trigger] self@.idle[i]).buffer.id
                    != entry.buffer@.id by {
                    if i < bi {
                        assert(self@.idle[i] == prev.idle[i]);
                    } else {
                        assert(self@.idle[i] == prev.idle[i + 1]);
                    }
                }
            }
            entry.buffer
        } else {
            proof {
                if has_eligible(self@.idle, usage, size) {
                    let i = choose|i: int|
                        0 <= i < self@.idle.len() && eligible(self@.idle[i], usage, size);
                    assert(!eligible(self@.idle[i], usage, size));
                }
            }
            let class = Self::size_class(size);
            let contents = zeroed(class);
            proof {
                assert(contents@ =~= Seq::<u8>::new(spec_size_class(size as nat), |i: int| 0u8));
            }
            let b = DeviceBuffer { id: self.next_id, usage, contents };
            self.next_id = self.next_id + 1;
            proof {
                assert(self@.idle =~= old(self)@.idle);
            }
            b
        }
    }

    /// Returns a buffer to the idle set. The caller gives up ownership;
    /// the buffer keeps its identity and contents and becomes the newest
    /// idle entry.
    pub fn release(&mut self, buffer: DeviceBuffer)
        requires
            pool_wf(old(self)@),
            old(self)@.clock < u64::MAX,
            buffer@.id < old(self)@.next_id,
            forall|i: int|
                0 <= i < old(self)@.idle.len() ==> (#[trigger] old(self)@.idle[i]).buffer.id
                    != buffer@.id,
        ensures
            pool_wf(final(self)@),
            release_post(old(self)@, buffer@, final(self)@),
    {
        let ghost pre = self@;
        let ghost bv = buffer@;
        let stamp = self.clock;
        self.idle.push(IdleEntry { stamp, buffer });
        self.clock = self.clock + 1;
        proof {
            assert(self@.idle =~= pre.idle.push(IdleEntryView { stamp: pre.clock, buffer: bv }));
        }
    }

    pub fn idle_count(&self) -> (r: usize)
        ensures
            r == self@.idle.len(),
    {
        self.idle.len()
    }

    pub fn allocation_count(&self) -> (r: u64)
        ensures
            r == self@.next_id,
    {
        self.next_id
    }
}

/// Pool round trip: a buffer checked out and released is exactly the one
/// the next checkout of the same usage and an equal or smaller size hands
/// back, and that checkout allocates nothing new.
#[verifier::rlimit(80)]
pub proof fn lemma_pool_round_trip(
    p0: PoolView,
    p1: PoolView,
    p2: PoolView,
    p3: PoolView,
    usage: BufferUsage,
    size: usize,
    size2: usize,
    b: DeviceBufferView,
    b2: DeviceBufferView,
)
    requires
        checkout_post(p0, usage, size, p1, b),
        pool_wf(p1),
        release_post(p1, b, p2),
        checkout_post(p2, usage, size2, p3, b2),
        size2 <= size,
    ensures
        b2 == b,
        p3.next_id == p2.next_id,
{
    let released = IdleEntryView { stamp: p1.clock, buffer: b };
    let ri = p2.idle.len() - 1;
    assert(p2.idle[ri] == released);
    assert(eligible(released, usage, size2));
    assert(has_eligible(p2.idle, usage, size2));
    // every other idle entry carries a stamp from before the release
    assert forall|j: int| 0 <= j < ri implies (#[trigger] p2.idle[j]).stamp < p1.clock by {
        assert(p2.idle[j] == p1.idle[j]);
        assert(p1.idle[j].stamp < p1.clock);
    }
    let w = choose|w: int|
        {
            &&& 0 <= w < p2.idle.len()
            &&& eligible(#[trigger] p2.idle[w], usage, size2)
            &&& b2 == p2.idle[w].buffer
            &&& forall|j2: int|
                0 <= j2 < p2.idle.len() && eligible(#[trigger] p2.idle[j2], usage, size2)
                    ==> p2.idle[j2].stamp <= p2.idle[w].stamp
            &&& p3.idle == p2.idle.remove(w)
        };
    assert(p2.idle[ri].stamp <= p2.idle[w].stamp);
    if w != ri {
        assert(p2.idle[w].stamp < p1.clock);
        assert(false);
    }
    assert(b2 == b);
}

} // verus!
