use gauss::{compute_init, ComputeManager, LogConfig, Pipeline, Program, WorkGroupSize};

fn manager_with(capacity: u64) -> ComputeManager {
    compute_init(
        LogConfig { validation_config: None, allocator_config: None },
        capacity,
        0,
    )
    .unwrap()
}

fn square_pipeline(manager: &mut ComputeManager, n_tensors: u32) -> Pipeline {
    let program = Program::new(vec![0x0723_0203], String::from("basic_compute"));
    manager.build_pipeline(program, n_tensors).unwrap()
}

#[test]
fn squares_end_to_end() {
    let mut manager = manager_with(1 << 20);
    let tensor_in = manager.create_tensor(vec![1, 2, 3, 4, 5], false);
    let tensor_out = manager.create_tensor(vec![0, 0, 0, 0, 0], true);
    let in_id = tensor_in.id();
    let out_id = tensor_out.id();

    let mut pipeline = square_pipeline(&mut manager, 2);
    let mut task = manager
        .new_task(&mut pipeline, vec![&tensor_in, &tensor_out])
        .op_local_sync_device(vec![&tensor_in, &tensor_out])
        .op_pipeline_dispatch(WorkGroupSize { x: 5, y: 1, z: 1 })
        .op_device_sync_local(vec![&tensor_out])
        .finalize()
        .unwrap();

    let sync = manager.exec_task(&mut task).unwrap();

    // The test plays the device: out[i] = in[i] * in[i].
    let input = task.device_buffer_contents(in_id).unwrap().clone();
    assert_eq!(input, vec![1, 2, 3, 4, 5]);
    let squared: Vec<u32> = input.iter().map(|v| v * v).collect();
    assert!(task.write_device_buffer(out_id, &squared));

    let mut synced = vec![tensor_out];
    manager.await_task(sync, &mut task, &mut synced);
    assert_eq!(synced[0].data(), &vec![1, 4, 9, 16, 25]);
    assert_eq!(tensor_in.data(), &vec![1, 2, 3, 4, 5]);

    manager.teardown_task(&mut task, &mut pipeline);
    assert_eq!(manager.memory_used(), 0);
}

#[test]
fn identity_round_trip() {
    let mut manager = manager_with(1 << 20);
    let tensor = manager.create_tensor(vec![7, 8, 9], true);
    let id = tensor.id();
    let mut pipeline = square_pipeline(&mut manager, 1);
    let mut task = manager
        .new_task(&mut pipeline, vec![&tensor])
        .op_local_sync_device(vec![&tensor])
        .op_pipeline_dispatch(WorkGroupSize { x: 3, y: 1, z: 1 })
        .op_device_sync_local(vec![&tensor])
        .finalize()
        .unwrap();

    let sync = manager.exec_task(&mut task).unwrap();
    // An identity shader leaves the device buffer as uploaded.
    assert_eq!(task.device_buffer_contents(id).unwrap(), &vec![7, 8, 9]);

    let mut synced = vec![tensor];
    manager.await_task(sync, &mut task, &mut synced);
    assert_eq!(synced[0].data(), &vec![7, 8, 9]);
}

#[test]
fn teardown_is_idempotent() {
    let mut manager = manager_with(1 << 16);
    let tensor = manager.create_tensor(vec![1, 2], true);
    let mut pipeline = square_pipeline(&mut manager, 1);
    let mut task = manager.new_task(&mut pipeline, vec![&tensor]).finalize().unwrap();
    assert!(manager.memory_used() > 0);

    manager.teardown_task(&mut task, &mut pipeline);
    assert!(task.released());
    assert_eq!(manager.memory_used(), 0);
    assert_eq!(pipeline.sets_outstanding(), 0);

    // The second teardown finds nothing to free: a no-op, not a double free.
    manager.teardown_task(&mut task, &mut pipeline);
    assert_eq!(manager.memory_used(), 0);
    assert_eq!(pipeline.sets_outstanding(), 0);
}

#[test]
fn teardown_returns_descriptor_set_to_pool() {
    let mut manager = manager_with(1 << 20);
    let tensor = manager.create_tensor(vec![5], true);
    let mut pipeline = square_pipeline(&mut manager, 1);
    let mut task = manager.new_task(&mut pipeline, vec![&tensor]).finalize().unwrap();
    assert_eq!(pipeline.sets_outstanding(), 1);
    manager.teardown_task(&mut task, &mut pipeline);
    assert_eq!(pipeline.sets_outstanding(), 0);
}

#[test]
fn exec_task_rejects_resubmission() {
    let mut manager = manager_with(1 << 16);
    let tensor = manager.create_tensor(vec![4, 5], true);
    let mut pipeline = square_pipeline(&mut manager, 1);
    let mut task = manager
        .new_task(&mut pipeline, vec![&tensor])
        .op_local_sync_device(vec![&tensor])
        .op_pipeline_dispatch(WorkGroupSize { x: 2, y: 1, z: 1 })
        .op_device_sync_local(vec![&tensor])
        .finalize()
        .unwrap();

    let sync = manager.exec_task(&mut task).unwrap();
    // An in-flight task cannot be submitted again.
    assert!(manager.exec_task(&mut task).is_none());

    let mut synced = vec![tensor];
    manager.await_task(sync, &mut task, &mut synced);
    // Nor can a completed one.
    assert!(manager.exec_task(&mut task).is_none());
}

#[test]
fn await_with_foreign_handle_changes_nothing() {
    let mut manager = manager_with(1 << 16);
    let tensor_a = manager.create_tensor(vec![1], true);
    let tensor_b = manager.create_tensor(vec![2], true);
    let mut pipeline = square_pipeline(&mut manager, 1);
    let mut task_a = manager
        .new_task(&mut pipeline, vec![&tensor_a])
        .op_local_sync_device(vec![&tensor_a])
        .op_pipeline_dispatch(WorkGroupSize { x: 1, y: 1, z: 1 })
        .op_device_sync_local(vec![&tensor_a])
        .finalize()
        .unwrap();
    let mut task_b = manager
        .new_task(&mut pipeline, vec![&tensor_b])
        .op_local_sync_device(vec![&tensor_b])
        .op_pipeline_dispatch(WorkGroupSize { x: 1, y: 1, z: 1 })
        .op_device_sync_local(vec![&tensor_b])
        .finalize()
        .unwrap();

    let sync_a = manager.exec_task(&mut task_a).unwrap();
    let sync_b = manager.exec_task(&mut task_b).unwrap();
    assert_ne!(sync_a.task_id(), sync_b.task_id());
    assert_ne!(sync_a.fence(), sync_b.fence());

    // A handle for task A observes nothing about task B: B stays in
    // flight, so its device hook still accepts writes.
    let mut synced = vec![tensor_b];
    manager.await_task(sync_a, &mut task_b, &mut synced);
    assert!(task_b.write_device_buffer(synced[0].id(), &vec![9]));

    // The right handle still completes task B afterwards.
    manager.await_task(sync_b, &mut task_b, &mut synced);
    assert_eq!(synced[0].data(), &vec![9]);

    let mut synced_a = vec![tensor_a];
    let sync_a2 = manager.exec_task(&mut task_a);
    // Task A is already in flight; it cannot be submitted again, and its
    // tensor stays as it was.
    assert!(sync_a2.is_none());
    assert_eq!(synced_a[0].data(), &vec![1]);
}

#[test]
fn descriptor_pool_is_capacity_bounded() {
    let mut manager = manager_with(1 << 20);
    let tensor = manager.create_tensor(vec![1], false);
    let mut pipeline = square_pipeline(&mut manager, 1);

    let mut open_tasks = Vec::new();
    for _ in 0..10 {
        open_tasks.push(manager.new_task(&mut pipeline, vec![&tensor]).finalize().unwrap());
    }
    // The pool serves ten concurrently open tasks; the eleventh is refused.
    let err = match manager.new_task(&mut pipeline, vec![&tensor]).finalize() {
        Err(e) => e,
        Ok(_) => panic!("the exhausted pool must refuse another set"),
    };
    assert_eq!(err, gauss::GPUTaskRecordingError::DescriptorSetAllocationFailure);

    // Tearing one down frees a set for the next task.
    let mut task = open_tasks.pop().unwrap();
    manager.teardown_task(&mut task, &mut pipeline);
    assert!(manager.new_task(&mut pipeline, vec![&tensor]).finalize().is_ok());
}
