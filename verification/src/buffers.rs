use vstd::prelude::*;

verus! {

/// Largest byte size this crate ever requests for a single buffer.
pub const MAX_BUFFER_SIZE: usize = 0x4000_0000;

/// A vector of `n` zero bytes, the initial contents of a fresh device
/// buffer.
pub(crate) fn zeroed(n: usize) -> (r: Vec<u8>)
    ensures
        r@ == Seq::<u8>::new(n as nat, |j: int| 0u8),
{
    let mut contents: Vec<u8> = Vec::new();
    let mut i: usize = 0;
    while i < n
        invariant
            i <= n,
            contents@ =~= Seq::<u8>::new(i as nat, |j: int| 0u8),
        decreases n - i,
    {
        contents.push(0u8);
        proof {
            assert(contents@ =~= Seq::<u8>::new(i as nat + 1, |j: int| 0u8));
        }
        i = i + 1;
    }
    proof {
        assert(contents@ =~= Seq::<u8>::new(n as nat, |j: int| 0u8));
    }
    contents
}

/// Intended use of a device buffer; part of a pool bucket's identity.
#[derive(Clone, Copy, Debug, PartialEq, Eq, Hash, Structural)]
pub enum BufferUsage {
    Vertex,
    Index,
    Uniform,
    Storage,
}

/// Model of a GPU-resident buffer. The embedding renderer maps the `id`
/// to the actual device object; `contents` models the bytes that commits
/// have placed in device memory. A `DeviceBuffer` is owned exclusively by
/// its holder from checkout until it is released back to the pool.
#[derive(Debug)]
pub struct DeviceBuffer {
    pub(crate) id: u64,
    pub(crate) usage: BufferUsage,
    pub(crate) contents: Vec<u8>,
}

pub ghost struct DeviceBufferView {
    pub id: u64,
    pub usage: BufferUsage,
    pub contents: Seq<u8>,
}

impl View for DeviceBuffer {
    type V = DeviceBufferView;

    open(crate) spec fn view(&self) -> DeviceBufferView {
        DeviceBufferView { id: self.id, usage: self.usage, contents: self.contents@ }
    }
}

impl DeviceBuffer {
    pub fn id(&self) -> (r: u64)
        ensures
            r == self@.id,
    {
        self.id
    }

    pub fn usage(&self) -> (r: BufferUsage)
        ensures
            r == self@.usage,
    {
        self.usage
    }

    pub fn size(&self) -> (r: usize)
        ensures
            r == self@.contents.len(),
    {
        self.contents.len()
    }

    /// The bytes that commits have placed in this buffer, for replay and
    /// inspection by the embedding renderer.
    pub fn contents(&self) -> (r: &Vec<u8>)
        ensures
            r@ == self@.contents,
    {
        &self.contents
    }

    /// A second value describing the same device buffer, for the
    /// non-owning allocation views that draw calls carry.
    pub(crate) fn dup(&self) -> (r: DeviceBuffer)
        ensures
            r@ == self@,
    {
        let mut contents: Vec<u8> = Vec::new();
        let mut i: usize = 0;
        let n = self.contents.len();
        while i < n
            invariant
                i <= n,
                n == self.contents@.len(),
                contents@ =~= self.contents@.subrange(0, i as int),
            decreases n - i,
        {
            contents.push(self.contents[i]);
            proof {
                assert(contents@ =~= self.contents@.subrange(0, i as int + 1));
            }
            i = i + 1;
        }
        proof {
            assert(contents@ =~= self.contents@);
        }
        DeviceBuffer { id: self.id, usage: self.usage, contents }
    }

    /// Models a device-side upload: replaces the first `data.len()` bytes.
    pub(crate) fn write_prefix(&mut self, data: &Vec<u8>)
        requires
            data@.len() <= old(self)@.contents.len(),
        ensures
            final(self)@.id == old(self)@.id,
            final(self)@.usage == old(self)@.usage,
            final(self)@.contents.len() == old(self)@.contents.len(),
            final(self)@.contents.subrange(0, data@.len() as int) == data@,
            forall|i: int|
                data@.len() <= i < old(self)@.contents.len() ==> final(self)@.contents[i]
                    == old(self)@.contents[i],
    {
        let n = data.len();
        let mut i: usize = 0;
        while i < n
            invariant
                n == data@.len() <= self.contents@.len(),
                i <= n,
                self.id == old(self).id,
                self.usage == old(self).usage,
                self.contents@.len() == old(self).contents@.len(),
                forall|j: int| 0 <= j < i ==> self.contents@[j] == data@[j],
                forall|j: int| i <= j < self.contents@.len() ==> self.contents@[j] == old(
                    self,
                ).contents@[j],
            decreases n - i,
        {
            self.contents.set(i, data[i]);
            i = i + 1;
        }
        proof {
            assert(self.contents@.subrange(0, data@.len() as int) =~= data@);
        }
    }
}

/// Handle to a staging region inside the frame allocator's arena.
/// CPU-writable, GPU-readable after commit; tagged with the frame
/// generation it was issued in, so that a handle kept across a frame
/// boundary is recognised and refused.
#[derive(Debug)]
pub struct HostBuffer {
    pub(crate) start: usize,
    pub(crate) size: usize,
    pub(crate) generation: u64,
}

pub ghost struct HostBufferView {
    pub start: usize,
    pub size: usize,
    pub generation: u64,
}

impl View for HostBuffer {
    type V = HostBufferView;

    open(crate) spec fn view(&self) -> HostBufferView {
        HostBufferView { start: self.start, size: self.size, generation: self.generation }
    }
}

impl HostBuffer {
    pub fn size(&self) -> (r: usize)
        ensures
            r == self@.size,
    {
        self.size
    }

    pub fn generation(&self) -> (r: u64)
        ensures
            r == self@.generation,
    {
        self.generation
    }
}

/// A bounded view into a backing buffer: `size` bytes starting `offset`
/// bytes into the buffer. It never owns device memory itself; the host
/// variant carries a handle into the frame arena, the device variant
/// carries the checked-out buffer for the draw that uses it.
#[derive(Debug)]
pub struct GenericBufferAllocation<B> {
    pub(crate) buffer: B,
    pub(crate) offset: usize,
    pub(crate) size: usize,
}

impl<B> GenericBufferAllocation<B> {
    pub open(crate) spec fn spec_buffer(&self) -> B {
        self.buffer
    }

    pub open(crate) spec fn spec_offset(&self) -> usize {
        self.offset
    }

    pub open(crate) spec fn spec_size(&self) -> usize {
        self.size
    }

    pub fn buffer(&self) -> (r: &B)
        ensures
            *r == self.spec_buffer(),
    {
        &self.buffer
    }

    pub fn offset(&self) -> (r: usize)
        ensures
            r == self.spec_offset(),
    {
        self.offset
    }

    pub fn size(&self) -> (r: usize)
        ensures
            r == self.spec_size(),
    {
        self.size
    }
}

impl GenericBufferAllocation<DeviceBuffer> {
    /// A second view of the same committed window: allocations never
    /// own device memory, so many draws may reference one buffer.
    pub fn share(&self) -> (r: GenericBufferAllocation<DeviceBuffer>)
        ensures
            r.spec_buffer()@ == self.spec_buffer()@,
            r.spec_offset() == self.spec_offset(),
            r.spec_size() == self.spec_size(),
    {
        GenericBufferAllocation {
            buffer: self.buffer.dup(),
            offset: self.offset,
            size: self.size,
        }
    }
}

} // verus!
