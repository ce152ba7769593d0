//! The resource allocator: the single authority for binding a memory region
//! to a buffer handle and for reclaiming that region.
//!
//! Device memory is modelled as a budget of bytes. A `Buffer` is a (handle,
//! memory-region) pair whose region holds 32-bit words; it is owned by exactly
//! one backing record and freed exactly once, which the ownership discipline
//! enforces: `Buffer` is not `Clone`, and `free_buffer` consumes it.

use vstd::prelude::*;

use crate::config::AllocatorLogConfig;
use crate::errors::AllocationError;

verus! {

/// How a buffer may be used by recorded commands.
#[derive(Debug, Clone, Copy, PartialEq, Eq, Structural)]
pub struct BufferUsage {
    pub storage_buffer: bool,
    pub transfer_src: bool,
    pub transfer_dst: bool,
}

/// Where a buffer's memory lives: device-local memory, host-visible upload
/// memory, host-visible download memory, or unspecified.
#[derive(Debug, Clone, Copy, PartialEq, Eq, Structural)]
pub enum MemoryLocation {
    Unknown,
    GpuOnly,
    CpuToGpu,
    GpuToCpu,
}

/// A buffer handle together with its bound memory region. Opaque to callers;
/// the region holds one 32-bit word for every four bytes of its size, rounded
/// up to the next word boundary.
pub struct Buffer {
    pub(crate) id: u64,
    pub(crate) size: u64,
    pub(crate) usage: BufferUsage,
    pub(crate) location: MemoryLocation,
    pub(crate) queue_family: u32,
    pub(crate) data: Vec<u32>,
}

/// The mathematical value of a `Buffer`.
pub ghost struct BufferView {
    pub id: u64,
    pub size: u64,
    pub usage: BufferUsage,
    pub location: MemoryLocation,
    pub queue_family: u32,
    pub data: Seq<u32>,
}

impl View for Buffer {
    type V = BufferView;

    closed spec fn view(&self) -> BufferView {
        BufferView {
            id: self.id,
            size: self.size,
            usage: self.usage,
            location: self.location,
            queue_family: self.queue_family,
            data: self.data@,
        }
    }
}

impl Buffer {
    /// A buffer is well formed when its region holds one word per four bytes
    /// of its size, rounded up.
    pub open spec fn wf(&self) -> bool {
        &&& self@.data.len() == (self@.size as int + 3) / 4
        &&& self@.size > 0
    }

    /// The buffer handle, as the embedder's runner needs it to key its own
    /// device objects.
    pub fn id(&self) -> (r: u64)
        ensures
            r == self@.id,
    {
        self.id
    }

    /// The size of the bound region in bytes.
    pub fn size(&self) -> (r: u64)
        ensures
            r == self@.size,
    {
        self.size
    }

    /// The words currently held by the region.
    pub fn contents(&self) -> (r: &Vec<u32>)
        ensures
            r@ == self@.data,
    {
        &self.data
    }

    /// Overwrites the region's words; handle, size and placement stay.
    pub(crate) fn write_data(&mut self, new_data: Vec<u32>)
        ensures
            final(self)@ == (BufferView { data: new_data@, ..old(self)@ }),
    {
        self.data = new_data;
    }
}

/// The sub-allocating memory manager: hands out buffers against a fixed
/// budget of device memory and reclaims them. Allocate and free take the
/// allocator exclusively (`&mut`), so all memory bookkeeping is serialized —
/// the role the allocator lock plays in a threaded embedding.
pub struct Allocator {
    pub(crate) capacity: u64,
    pub(crate) used: u64,
    pub(crate) next_buffer_id: u64,
    pub(crate) log_config: Option<AllocatorLogConfig>,
}

/// The mathematical value of an `Allocator`: its budget, the bytes currently
/// bound, and the next unissued handle.
pub ghost struct AllocatorView {
    pub capacity: u64,
    pub used: u64,
    pub next_buffer_id: u64,
}

impl View for Allocator {
    type V = AllocatorView;

    closed spec fn view(&self) -> AllocatorView {
        AllocatorView { capacity: self.capacity, used: self.used, next_buffer_id: self.next_buffer_id }
    }
}

impl Allocator {
    /// An allocator never has more bytes bound than its budget.
    pub open spec fn wf(&self) -> bool {
        self@.used <= self@.capacity
    }

    /// The memory budget in bytes.
    pub fn capacity(&self) -> (r: u64)
        ensures
            r == self@.capacity,
    {
        self.capacity
    }

    /// The bytes currently bound to buffers.
    pub fn used(&self) -> (r: u64)
        ensures
            r == self@.used,
    {
        self.used
    }

    /// The next unissued buffer handle.
    pub(crate) fn peek_next_buffer_id(&self) -> (r: u64)
        ensures
            r == self@.next_buffer_id,
    {
        self.next_buffer_id
    }

    /// Whether a request of `size` bytes can be satisfied: the memory budget
    /// has room and a fresh handle is still available.
    pub open spec fn can_allocate(&self, size: int) -> bool {
        &&& self@.next_buffer_id < u64::MAX
        &&& self@.used + size <= self@.capacity
    }

    /// Creates an allocator over `device_memory` bytes of device memory.
    /// Construction itself cannot fail in this model; the
    /// `AllocatorCreationFailure` kind is reserved for the embedder's
    /// environment.
    pub fn new(device_memory: u64, log_config: Option<AllocatorLogConfig>) -> (r: Result<Allocator, AllocationError>)
        ensures
            r matches Ok(a) && a.wf() && a@ == (AllocatorView {
                capacity: device_memory,
                used: 0,
                next_buffer_id: 0,
            }),
    {
        Ok(Allocator { capacity: device_memory, used: 0, next_buffer_id: 0, log_config })
    }

    /// Binds a fresh buffer to `size` bytes of sub-allocated memory, in one
    /// step as seen by the caller. Any positive size is served; the region
    /// rounds up to whole words and the budget is charged the exact byte
    /// size. The region starts zeroed. Every buffer in this model is linear
    /// and its placement is the given location itself, so a usage cannot
    /// conflict with a placement here; the embedder's sub-allocator enforces
    /// the driver-level tiling rules. Failure modes are distinct and
    /// non-overlapping: handle exhaustion surfaces as
    /// `BufferCreationFailure`, a request beyond the remaining budget as
    /// `MemoryAllocationError`; `MemoryBindFailure` is a driver outcome with
    /// no counterpart in this model. On failure nothing stays acquired.
    pub fn allocate_buffer(
        &mut self,
        size: u64,
        usage: BufferUsage,
        location: MemoryLocation,
        debug_name: &str,
        queue_family: u32,
    ) -> (r: Result<Buffer, AllocationError>)
        requires
            old(self).wf(),
            size > 0,
            (size as int + 3) / 4 <= usize::MAX as int,
        ensures
            final(self).wf(),
            final(self)@.capacity == old(self)@.capacity,
            r matches Ok(_) <==> old(self).can_allocate(size as int),
            r matches Ok(b) ==> {
                &&& b.wf()
                &&& b@.id == old(self)@.next_buffer_id
                &&& b@.size == size
                &&& b@.usage == usage
                &&& b@.location == location
                &&& b@.queue_family == queue_family
                &&& b@.data == Seq::new(((size as int + 3) / 4) as nat, |i: int| 0u32)
                &&& final(self)@.used == old(self)@.used + size
                &&& final(self)@.next_buffer_id == old(self)@.next_buffer_id + 1
            },
            r matches Err(e) ==> {
                &&& final(self)@ == old(self)@
                &&& e == (if old(self)@.next_buffer_id == u64::MAX {
                    AllocationError::BufferCreationFailure
                } else {
                    AllocationError::MemoryAllocationError
                })
            },
    {
        if self.next_buffer_id == u64::MAX {
            return Err(AllocationError::BufferCreationFailure);
        }
        if size > self.capacity - self.used {
            return Err(AllocationError::MemoryAllocationError);
        }

        let words64: u64 = size / 4 + if size % 4 == 0 {
            0
        } else {
            1
        };
        proof {
            assert(words64 as int == (size as int + 3) / 4);
        }
        let words: usize = words64 as usize;
        let mut data: Vec<u32> = Vec::new();
        while data.len() < words
            invariant
                data@ == Seq::new(data@.len(), |i: int| 0u32),
                data@.len() <= words,
            decreases words - data@.len(),
        {
            data.push(0u32);
            proof {
                assert(data@ =~= Seq::new(data@.len(), |i: int| 0u32));
            }
        }
        proof {
            assert(data@ =~= Seq::new(((size as int + 3) / 4) as nat, |i: int| 0u32));
        }

        let id: u64 = self.next_buffer_id;
        self.next_buffer_id = self.next_buffer_id + 1;
        self.used = self.used + size;

        Ok(Buffer { id, size, usage, location, queue_family, data })
    }

    /// Releases the buffer's memory sub-allocation and destroys the buffer
    /// object. The buffer is consumed: a second free of the same buffer is
    /// structurally impossible.
    pub fn free_buffer(&mut self, buffer: Buffer)
        requires
            old(self).wf(),
        ensures
            final(self).wf(),
            final(self)@.capacity == old(self)@.capacity,
            final(self)@.next_buffer_id == old(self)@.next_buffer_id,
            final(self)@.used == if buffer@.size <= old(self)@.used {
                old(self)@.used - buffer@.size
            } else {
                0
            },
    {
        if buffer.size <= self.used {
            self.used = self.used - buffer.size;
        } else {
            self.used = 0;
        }
    }
}

} // verus!
