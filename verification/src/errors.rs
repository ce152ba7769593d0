//! Error taxonomy, grouped by origin: initialization, allocation, task
//! recording, pipeline construction, and shader compilation.

use vstd::prelude::*;

verus! {

/// Failures during one-shot initialization of the compute environment.
#[derive(Debug, Clone, Copy, PartialEq, Eq, Structural)]
pub enum InitError {
    NoDevices,
    NoVulkanDevices,
    NoComputeQueue,
    LogicalDeviceCreationFailure,
    QueueCreationFailure,
    LibraryNotFound,
    InstanceCreateFailed,
    DebugMessengerCreationFailed,
    PhysicalDeviceQueryFailed,
    ComputePoolCreationFailure,
    AllocatorCreationFailure,
}

/// Failures of the resource allocator, each distinct and non-overlapping:
/// allocator construction, buffer-object creation, memory sub-allocation
/// (pool exhaustion), and memory binding.
#[derive(Debug, Clone, Copy, PartialEq, Eq, Structural)]
pub enum AllocationError {
    AllocatorCreationFailure,
    BufferCreationFailure,
    MemoryAllocationError,
    MemoryBindFailure,
}

/// Failures while recording a task. `UnknownError` is a self-check kind for
/// builder-invariant violations; the builder is a tagged state machine, so
/// that state is unreachable here.
#[derive(Debug, Clone, Copy, PartialEq, Eq, Structural)]
pub enum GPUTaskRecordingError {
    CommandBufferAllocationFailure,
    CommandBufferRecordingStartFailure,
    BufferAllocationFailure,
    DescriptorSetAllocationFailure,
    UnknownError,
}

/// Failures while building a compute pipeline.
#[derive(Debug, Clone, Copy, PartialEq, Eq, Structural)]
pub enum PipelineCreateError {
    InvalidShader,
    DescriptorSetLayoutCreationFailure,
    PipelineLayoutCreationFailure,
    PipelineCreationFailure,
    DescriptorPoolCreationFailure,
    DescriptorSetAllocationFailure,
}

/// Failures while turning shader source into a module: compilation proper is
/// distinguished from module-object creation.
#[derive(Debug, Clone, PartialEq, Eq)]
pub enum ProgramCompilationError {
    SPIRVCompilationError(String),
    ModuleCreationError(String),
}

} // verus!
