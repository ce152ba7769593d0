use gauss::{Allocator, AllocationError, BufferUsage, MemoryLocation};

fn storage_usage() -> BufferUsage {
    BufferUsage { storage_buffer: true, transfer_src: true, transfer_dst: true }
}

#[test]
fn allocate_binds_a_zeroed_region() {
    let mut allocator = Allocator::new(1024, None).unwrap();
    let buffer = allocator
        .allocate_buffer(24, storage_usage(), MemoryLocation::GpuOnly, "probe", 0)
        .unwrap();
    assert_eq!(buffer.size(), 24);
    assert_eq!(buffer.contents(), &vec![0, 0, 0, 0, 0, 0]);
    assert_eq!(allocator.used(), 24);
    assert_eq!(allocator.capacity(), 1024);
}

#[test]
fn allocate_hands_out_distinct_handles() {
    let mut allocator = Allocator::new(1024, None).unwrap();
    let a = allocator
        .allocate_buffer(8, storage_usage(), MemoryLocation::GpuOnly, "a", 0)
        .unwrap();
    let b = allocator
        .allocate_buffer(8, storage_usage(), MemoryLocation::CpuToGpu, "b", 0)
        .unwrap();
    assert_ne!(a.id(), b.id());
}

#[test]
fn exhaustion_reports_memory_allocation_error() {
    let mut allocator = Allocator::new(16, None).unwrap();
    // A request beyond the device's memory must fail, never be truncated.
    let err = match allocator.allocate_buffer(24, storage_usage(), MemoryLocation::GpuOnly, "too big", 0)
    {
        Err(e) => e,
        Ok(_) => panic!("an oversized request must not succeed"),
    };
    assert_eq!(err, AllocationError::MemoryAllocationError);
    assert_eq!(allocator.used(), 0);
}

#[test]
fn exhaustion_counts_what_is_already_bound() {
    let mut allocator = Allocator::new(32, None).unwrap();
    let first = allocator
        .allocate_buffer(24, storage_usage(), MemoryLocation::GpuOnly, "first", 0)
        .unwrap();
    let err = match allocator.allocate_buffer(16, storage_usage(), MemoryLocation::GpuOnly, "second", 0)
    {
        Err(e) => e,
        Ok(_) => panic!("the remaining budget is too small"),
    };
    assert_eq!(err, AllocationError::MemoryAllocationError);

    // Freeing gives the bytes back.
    allocator.free_buffer(first);
    assert_eq!(allocator.used(), 0);
    assert!(allocator
        .allocate_buffer(16, storage_usage(), MemoryLocation::GpuOnly, "second", 0)
        .is_ok());
}

#[test]
fn free_reclaims_exactly_the_buffer_bytes() {
    let mut allocator = Allocator::new(64, None).unwrap();
    let a = allocator
        .allocate_buffer(16, storage_usage(), MemoryLocation::GpuOnly, "a", 0)
        .unwrap();
    let b = allocator
        .allocate_buffer(32, storage_usage(), MemoryLocation::GpuOnly, "b", 0)
        .unwrap();
    assert_eq!(allocator.used(), 48);
    allocator.free_buffer(a);
    assert_eq!(allocator.used(), 32);
    allocator.free_buffer(b);
    assert_eq!(allocator.used(), 0);
}

#[test]
fn odd_sizes_round_up_to_whole_words() {
    let mut allocator = Allocator::new(64, None).unwrap();
    let buffer = allocator
        .allocate_buffer(10, storage_usage(), MemoryLocation::GpuToCpu, "odd", 0)
        .unwrap();
    // Ten bytes bind three words; the budget is charged the exact byte size.
    assert_eq!(buffer.contents(), &vec![0, 0, 0]);
    assert_eq!(buffer.size(), 10);
    assert_eq!(allocator.used(), 10);
    allocator.free_buffer(buffer);
    assert_eq!(allocator.used(), 0);
}
