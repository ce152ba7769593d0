use gauss::{compute_init, ComputeManager, GPUTaskRecordingError, LogConfig, Program, WorkGroupSize};

fn manager_with(capacity: u64) -> ComputeManager {
    compute_init(
        LogConfig { validation_config: None, allocator_config: None },
        capacity,
        3,
    )
    .unwrap()
}

#[test]
fn readback_disabled_gets_no_readback_buffer() {
    let mut manager = manager_with(1 << 16);
    let plain = manager.create_tensor(vec![1, 2, 3], false);
    let read_back = manager.create_tensor(vec![4, 5, 6], true);
    let mut pipeline = manager
        .build_pipeline(Program::new(vec![], String::from("probe")), 2)
        .unwrap();
    let task = manager
        .new_task(&mut pipeline, vec![&plain, &read_back])
        .finalize()
        .unwrap();

    assert!(task.has_backing(plain.id()));
    assert!(!task.has_readback_buffer(plain.id()));
    assert!(task.has_readback_buffer(read_back.id()));
}

#[test]
fn device_sync_records_no_copy_without_readback() {
    let mut manager = manager_with(1 << 16);
    let plain = manager.create_tensor(vec![1, 2, 3], false);
    let mut pipeline = manager
        .build_pipeline(Program::new(vec![], String::from("probe")), 1)
        .unwrap();
    let task = manager
        .new_task(&mut pipeline, vec![&plain])
        .op_device_sync_local(vec![&plain])
        .finalize()
        .unwrap();

    // Two binds from construction, one barrier from the sync — and no copy.
    assert_eq!(task.command_count(), 3);
}

#[test]
fn device_sync_records_copy_with_readback() {
    let mut manager = manager_with(1 << 16);
    let read_back = manager.create_tensor(vec![1, 2, 3], true);
    let mut pipeline = manager
        .build_pipeline(Program::new(vec![], String::from("probe")), 1)
        .unwrap();
    let task = manager
        .new_task(&mut pipeline, vec![&read_back])
        .op_device_sync_local(vec![&read_back])
        .finalize()
        .unwrap();

    // Two binds, one barrier, one device-to-readback copy.
    assert_eq!(task.command_count(), 4);
}

#[test]
fn device_sync_skips_unbound_tensor() {
    let mut manager = manager_with(1 << 16);
    let bound = manager.create_tensor(vec![1, 2], true);
    let stranger = manager.create_tensor(vec![9, 9], true);
    let mut pipeline = manager
        .build_pipeline(Program::new(vec![], String::from("probe")), 1)
        .unwrap();
    // Asking to sync a tensor the task has no backing for reports and
    // skips; it does not fail the task.
    let task = manager
        .new_task(&mut pipeline, vec![&bound])
        .op_device_sync_local(vec![&stranger])
        .finalize()
        .unwrap();
    assert!(!task.has_backing(stranger.id()));
    assert_eq!(task.command_count(), 3);
}

#[test]
fn await_leaves_unbound_tensor_untouched() {
    let mut manager = manager_with(1 << 16);
    let bound = manager.create_tensor(vec![1, 2], true);
    let stranger = manager.create_tensor(vec![9, 8], true);
    let mut pipeline = manager
        .build_pipeline(Program::new(vec![], String::from("probe")), 1)
        .unwrap();
    let mut task = manager
        .new_task(&mut pipeline, vec![&bound])
        .op_local_sync_device(vec![&bound])
        .op_device_sync_local(vec![&bound])
        .finalize()
        .unwrap();
    let sync = manager.exec_task(&mut task).unwrap();
    let mut synced = vec![bound, stranger];
    manager.await_task(sync, &mut task, &mut synced);
    assert_eq!(synced[0].data(), &vec![1, 2]);
    // No backing for this tensor: reported, data left whole.
    assert_eq!(synced[1].data(), &vec![9, 8]);
}

#[test]
fn backing_count_matches_distinct_bound_tensors() {
    let mut manager = manager_with(1 << 16);
    let a = manager.create_tensor(vec![1], false);
    let b = manager.create_tensor(vec![2, 3], true);
    let mut pipeline = manager
        .build_pipeline(Program::new(vec![], String::from("probe")), 2)
        .unwrap();
    let task = manager.new_task(&mut pipeline, vec![&a, &b]).finalize().unwrap();
    assert_eq!(task.backing_count(), 2);
    assert!(task.has_backing(a.id()));
    assert!(task.has_backing(b.id()));
}

#[test]
fn duplicate_binding_backs_the_tensor_once() {
    let mut manager = manager_with(1 << 16);
    let a = manager.create_tensor(vec![1, 2], false);
    let mut pipeline = manager
        .build_pipeline(Program::new(vec![], String::from("probe")), 2)
        .unwrap();
    let task = manager.new_task(&mut pipeline, vec![&a, &a]).finalize().unwrap();
    assert_eq!(task.backing_count(), 1);
    // Both binding slots point at the same device-local buffer.
    let writes = task.descriptor_writes();
    assert_eq!(writes.len(), 2);
    assert_eq!(writes[0].buffer, writes[1].buffer);
}

#[test]
fn descriptor_writes_follow_binding_order() {
    let mut manager = manager_with(1 << 16);
    let a = manager.create_tensor(vec![1, 2, 3], false);
    let b = manager.create_tensor(vec![4], true);
    let mut pipeline = manager
        .build_pipeline(Program::new(vec![], String::from("probe")), 2)
        .unwrap();
    let task = manager.new_task(&mut pipeline, vec![&a, &b]).finalize().unwrap();
    let writes = task.descriptor_writes();
    assert_eq!(writes.len(), 2);
    assert_eq!(writes[0].binding, 0);
    assert_eq!(writes[1].binding, 1);
    assert_eq!(writes[0].offset, 0);
    assert_eq!(writes[0].range, 12);
    assert_eq!(writes[1].range, 4);
    assert_ne!(writes[0].buffer, writes[1].buffer);
}

#[test]
fn binding_count_must_match_pipeline() {
    let mut manager = manager_with(1 << 16);
    let a = manager.create_tensor(vec![1], false);
    let mut pipeline = manager
        .build_pipeline(Program::new(vec![], String::from("probe")), 2)
        .unwrap();
    let err = match manager.new_task(&mut pipeline, vec![&a]).finalize() {
        Err(e) => e,
        Ok(_) => panic!("the recording must fail here"),
    };
    assert_eq!(err, GPUTaskRecordingError::DescriptorSetAllocationFailure);
    assert_eq!(manager.memory_used(), 0);
}

#[test]
fn empty_tensor_fails_buffer_allocation() {
    let mut manager = manager_with(1 << 16);
    let empty = manager.create_tensor(vec![], false);
    let mut pipeline = manager
        .build_pipeline(Program::new(vec![], String::from("probe")), 1)
        .unwrap();
    let err = match manager.new_task(&mut pipeline, vec![&empty]).finalize() {
        Err(e) => e,
        Ok(_) => panic!("the recording must fail here"),
    };
    assert_eq!(err, GPUTaskRecordingError::BufferAllocationFailure);
}

#[test]
fn failed_builder_swallows_chained_calls() {
    let mut manager = manager_with(1 << 16);
    let a = manager.create_tensor(vec![1], false);
    let mut pipeline = manager
        .build_pipeline(Program::new(vec![], String::from("probe")), 2)
        .unwrap();
    // The caller may chain blindly and check only the final result.
    let err = manager
        .new_task(&mut pipeline, vec![&a])
        .op_local_sync_device(vec![&a])
        .op_pipeline_dispatch(WorkGroupSize { x: 1, y: 1, z: 1 })
        .op_device_sync_local(vec![&a])
        .finalize();
    let err = match err {
        Err(e) => e,
        Ok(_) => panic!("the failed builder must stay failed"),
    };
    assert_eq!(err, GPUTaskRecordingError::DescriptorSetAllocationFailure);
}

#[test]
fn upload_skips_resized_tensor() {
    let mut manager = manager_with(1 << 16);
    let mut a = manager.create_tensor(vec![1, 2], true);
    let mut pipeline = manager
        .build_pipeline(Program::new(vec![], String::from("probe")), 1)
        .unwrap();
    let builder = manager.new_task(&mut pipeline, vec![&a]);
    // The backing was sized for two words; growing the tensor afterwards
    // makes its upload a reported skip, not an out-of-bounds write.
    a.data_mut().push(3);
    let task = builder.op_local_sync_device(vec![&a]).finalize().unwrap();
    // Two binds and the barrier; no copy was recorded.
    assert_eq!(task.command_count(), 3);
}

#[test]
fn allocation_failure_leaves_nothing_acquired() {
    let mut manager = manager_with(64);
    let big = manager.create_tensor(vec![0; 16], true);
    let mut pipeline = manager
        .build_pipeline(Program::new(vec![], String::from("probe")), 1)
        .unwrap();
    // Three buffers of 64 bytes each cannot fit in a 64-byte budget.
    let err = match manager.new_task(&mut pipeline, vec![&big]).finalize() {
        Err(e) => e,
        Ok(_) => panic!("the recording must fail here"),
    };
    assert_eq!(err, GPUTaskRecordingError::BufferAllocationFailure);
    assert_eq!(manager.memory_used(), 0);
    assert_eq!(pipeline.sets_outstanding(), 0);
}

#[test]
fn upload_skips_unbound_tensor() {
    let mut manager = manager_with(1 << 16);
    let bound = manager.create_tensor(vec![1, 2], false);
    let stranger = manager.create_tensor(vec![3, 4], false);
    let mut pipeline = manager
        .build_pipeline(Program::new(vec![], String::from("probe")), 1)
        .unwrap();
    let task = manager
        .new_task(&mut pipeline, vec![&bound])
        .op_local_sync_device(vec![&stranger])
        .finalize()
        .unwrap();
    // Two binds and the upload barrier; no copy for the unbound tensor.
    assert_eq!(task.command_count(), 3);
}

#[test]
fn device_hook_rejects_unknown_and_idle_tasks() {
    let mut manager = manager_with(1 << 16);
    let bound = manager.create_tensor(vec![1, 2], true);
    let mut pipeline = manager
        .build_pipeline(Program::new(vec![], String::from("probe")), 1)
        .unwrap();
    let mut task = manager
        .new_task(&mut pipeline, vec![&bound])
        .op_local_sync_device(vec![&bound])
        .op_pipeline_dispatch(WorkGroupSize { x: 2, y: 1, z: 1 })
        .op_device_sync_local(vec![&bound])
        .finalize()
        .unwrap();

    // Before submission the task is not in flight: no device writes land.
    assert!(!task.write_device_buffer(bound.id(), &vec![7, 7]));
    assert!(task.device_buffer_contents(99).is_none());

    let sync = manager.exec_task(&mut task).unwrap();
    // In flight: a write of the wrong length is refused, the exact one lands.
    assert!(!task.write_device_buffer(bound.id(), &vec![7]));
    assert!(task.write_device_buffer(bound.id(), &vec![7, 7]));

    let mut synced = vec![bound];
    manager.await_task(sync, &mut task, &mut synced);
    assert_eq!(synced[0].data(), &vec![7, 7]);

    // Completed: the hook is closed again.
    assert!(!task.write_device_buffer(synced[0].id(), &vec![1, 1]));
}

#[test]
fn released_task_cannot_be_submitted() {
    let mut manager = manager_with(1 << 16);
    let bound = manager.create_tensor(vec![1], false);
    let mut pipeline = manager
        .build_pipeline(Program::new(vec![], String::from("probe")), 1)
        .unwrap();
    let mut task = manager.new_task(&mut pipeline, vec![&bound]).finalize().unwrap();
    manager.teardown_task(&mut task, &mut pipeline);
    assert!(manager.exec_task(&mut task).is_none());
}
