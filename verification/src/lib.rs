//! Host-side orchestration model for dispatching numeric compute work onto a
//! GPU-style device: tensors, pipelines, and recorded tasks.
//!
//! The crate models the buffer/resource lifecycle and task-execution
//! subsystem: a sub-allocating resource allocator, per-tensor buffer backings
//! (device buffer, staging buffer, optional readback buffer), a task-recording
//! builder with barrier insertion, and the fence-based completion and readback
//! protocol. The device itself (instance and queue discovery, driver calls,
//! kernel execution) is the embedder's concern: it hands the library plain
//! values and performs the actions the recorded tasks describe.

use vstd::prelude::*;

pub mod allocator;
pub mod config;
pub mod device;
pub mod errors;
pub mod laws;
pub mod pipeline;
pub mod task;
pub mod tensor;

pub use allocator::Allocator;
pub use allocator::Buffer;
pub use allocator::BufferUsage;
pub use allocator::MemoryLocation;
pub use config::AllocatorLogConfig;
pub use config::LogConfig;
pub use config::ValidationLayerLogConfig;
pub use device::QueueFamilyInfo;
pub use errors::AllocationError;
pub use errors::GPUTaskRecordingError;
pub use errors::InitError;
pub use errors::PipelineCreateError;
pub use errors::ProgramCompilationError;
pub use pipeline::Pipeline;
pub use pipeline::Program;
pub use task::GPUSyncPrimitive;
pub use task::GPUTask;
pub use task::GPUTaskInProcess;
pub use tensor::Tensor;

use allocator::AllocatorView;

verus! {

/// Group counts for a recorded dispatch, one per axis.
#[derive(Debug, Clone, Copy, PartialEq, Eq, Structural)]
pub struct WorkGroupSize {
    pub x: u32,
    pub y: u32,
    pub z: u32,
}

/// The top-level facade: owns the shared allocator and issues tensors,
/// pipelines and tasks. The embedder creates one per device, handing in the
/// device's memory budget.
pub struct ComputeManager {
    pub(crate) allocator: Allocator,
    pub(crate) queue_family: u32,
    pub(crate) current_tensor_id: u32,
    pub(crate) next_object_id: u64,
    pub(crate) log_config: LogConfig,
}

/// The mathematical value of a `ComputeManager`: its allocator, the compute
/// queue family its buffers are created against, and the next tensor id.
/// Object handles (pipelines, tasks, fences) are opaque and kept out of the
/// view.
#[verifier::ext_equal]
pub ghost struct ComputeManagerView {
    pub allocator: AllocatorView,
    pub queue_family: u32,
    pub current_tensor_id: u32,
}

impl View for ComputeManager {
    type V = ComputeManagerView;

    closed spec fn view(&self) -> ComputeManagerView {
        ComputeManagerView {
            allocator: self.allocator@,
            queue_family: self.queue_family,
            current_tensor_id: self.current_tensor_id,
        }
    }
}

impl ComputeManager {
    /// The manager is well formed when its allocator is.
    pub open spec fn wf(&self) -> bool {
        self@.allocator.used <= self@.allocator.capacity
    }

    /// Hands out a fresh opaque object handle; the counter wraps.
    pub(crate) fn fresh_object_id(&mut self) -> (r: u64)
        ensures
            final(self)@ == old(self)@,
    {
        let id: u64 = self.next_object_id;
        self.next_object_id = if self.next_object_id == u64::MAX {
            0
        } else {
            self.next_object_id + 1
        };
        id
    }
}

/// Builds a compute manager over a device offering `device_memory` bytes of
/// memory and a compute queue of family `queue_family`. Instance, device and
/// queue discovery are the embedder's work and hand this function their
/// result as plain values; in this model construction itself cannot fail, and
/// the `InitError` kinds are reserved for the embedder's environment.
pub fn compute_init(log_config: LogConfig, device_memory: u64, queue_family: u32) -> (r: Result<
    ComputeManager,
    InitError,
>)
    ensures
        r matches Ok(m) && m.wf() && m@ == (ComputeManagerView {
            allocator: AllocatorView { capacity: device_memory, used: 0, next_buffer_id: 0 },
            queue_family,
            current_tensor_id: 0,
        }),
{
    let allocator = match Allocator::new(device_memory, log_config.allocator_config) {
        Ok(a) => a,
        Err(_) => {
            return Err(InitError::AllocatorCreationFailure);
        },
    };
    Ok(ComputeManager { allocator, queue_family, current_tensor_id: 0, next_object_id: 0, log_config })
}

} // verus!

verus! {

impl ComputeManager {
    /// The bytes of device memory currently bound to buffers.
    pub fn memory_used(&self) -> (r: u64)
        ensures
            r == self@.allocator.used,
    {
        self.allocator.used()
    }

    /// The device memory budget in bytes.
    pub fn memory_capacity(&self) -> (r: u64)
        ensures
            r == self@.allocator.capacity,
    {
        self.allocator.capacity()
    }

    /// The compute queue family the manager creates buffers against.
    pub fn compute_queue_family(&self) -> (r: u32)
        ensures
            r == self@.queue_family,
    {
        self.queue_family
    }
}

} // verus!
