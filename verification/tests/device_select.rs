use gauss::config::{debug_message_severity, ValidationLayerLogConfig};
use gauss::device::{
    load_queue_family_info, plan_device_initialization, score_device, select_physical_device,
    PhysicalDeviceDescription, PhysicalDeviceKind, QueueFamilyDescription,
};
use gauss::InitError;

fn family(queue_count: u32, compute: bool, graphics: bool) -> QueueFamilyDescription {
    QueueFamilyDescription { queue_count, supports_compute: compute, supports_graphics: graphics }
}

#[test]
fn score_counts_kind_and_compute_families() {
    let device = PhysicalDeviceDescription {
        kind: PhysicalDeviceKind::DiscreteGpu,
        queue_families: vec![family(1, true, true), family(2, true, false), family(1, false, true)],
    };
    // Ten for discrete, five per compute-capable family.
    assert_eq!(score_device(&device), Some(20));

    let integrated = PhysicalDeviceDescription {
        kind: PhysicalDeviceKind::IntegratedGpu,
        queue_families: vec![family(1, true, true)],
    };
    assert_eq!(score_device(&integrated), Some(10));
}

#[test]
fn score_rejects_device_without_compute() {
    let device = PhysicalDeviceDescription {
        kind: PhysicalDeviceKind::DiscreteGpu,
        queue_families: vec![family(1, false, true), family(0, true, false)],
    };
    // A family with no queues does not count, so no compute is available.
    assert_eq!(score_device(&device), None);
}

#[test]
fn queue_family_choice_prefers_dedicated_compute() {
    let families = vec![family(1, true, true), family(1, true, false), family(1, false, true)];
    let info = load_queue_family_info(&families);
    assert_eq!(info.compute_queue, Some(1));
    assert!(info.complete());
}

#[test]
fn queue_family_choice_takes_the_last_among_equals() {
    let families = vec![family(1, true, false), family(1, true, false)];
    let info = load_queue_family_info(&families);
    assert_eq!(info.compute_queue, Some(1));
}

#[test]
fn queue_family_choice_needs_a_family() {
    let info = load_queue_family_info(&vec![]);
    assert_eq!(info.compute_queue, None);
    assert!(!info.complete());
}

#[test]
fn device_choice_takes_the_best_and_latest() {
    let devices = vec![
        PhysicalDeviceDescription {
            kind: PhysicalDeviceKind::IntegratedGpu,
            queue_families: vec![family(1, true, true)],
        },
        PhysicalDeviceDescription {
            kind: PhysicalDeviceKind::DiscreteGpu,
            queue_families: vec![family(1, true, true)],
        },
        PhysicalDeviceDescription {
            kind: PhysicalDeviceKind::DiscreteGpu,
            queue_families: vec![family(1, true, true)],
        },
    ];
    // Both discrete devices score alike; the later one wins.
    assert_eq!(select_physical_device(&devices), Some(2));
}

#[test]
fn device_choice_ranks_scoreless_lowest() {
    let devices = vec![
        PhysicalDeviceDescription {
            kind: PhysicalDeviceKind::Other,
            queue_families: vec![family(1, true, false)],
        },
        PhysicalDeviceDescription {
            kind: PhysicalDeviceKind::DiscreteGpu,
            queue_families: vec![family(1, false, true)],
        },
    ];
    // The discrete device has no compute family and scores nothing; the
    // modest device with compute wins.
    assert_eq!(select_physical_device(&devices), Some(0));
}

#[test]
fn initialization_plan_reports_missing_devices() {
    let plan = plan_device_initialization(&vec![]);
    assert_eq!(plan.unwrap_err(), InitError::NoDevices);
}

#[test]
fn initialization_plan_reports_missing_queue() {
    let devices = vec![PhysicalDeviceDescription {
        kind: PhysicalDeviceKind::DiscreteGpu,
        queue_families: vec![],
    }];
    let plan = plan_device_initialization(&devices);
    assert_eq!(plan.unwrap_err(), InitError::NoComputeQueue);
}

#[test]
fn initialization_plan_names_device_and_family() {
    let devices = vec![
        PhysicalDeviceDescription {
            kind: PhysicalDeviceKind::Other,
            queue_families: vec![family(1, true, true)],
        },
        PhysicalDeviceDescription {
            kind: PhysicalDeviceKind::DiscreteGpu,
            queue_families: vec![family(1, true, true), family(4, true, false)],
        },
    ];
    let plan = plan_device_initialization(&devices).unwrap();
    assert_eq!(plan.device_index, 1);
    assert_eq!(plan.queue_family_index, 1);
}

#[test]
fn severity_follows_the_configuration() {
    let none = debug_message_severity(None);
    assert!(!none.errors && !none.warnings && !none.info && !none.verbose);

    let errors_only = debug_message_severity(Some(ValidationLayerLogConfig {
        log_errors: true,
        log_warnings: false,
        log_verbose_info: false,
    }));
    assert!(errors_only.errors && !errors_only.warnings && !errors_only.info);

    let verbose = debug_message_severity(Some(ValidationLayerLogConfig {
        log_errors: true,
        log_warnings: true,
        log_verbose_info: true,
    }));
    assert!(verbose.errors && verbose.warnings && verbose.info && verbose.verbose);
}

#[test]
fn tensors_carry_sequential_ids() {
    let mut manager = gauss::compute_init(
        gauss::LogConfig { validation_config: None, allocator_config: None },
        1024,
        7,
    )
    .unwrap();
    let a = manager.create_tensor(vec![1], false);
    let b = manager.create_tensor(vec![2], true);
    let mut c = manager.create_tensor(vec![3], false);
    assert_eq!(a.id(), 0);
    assert_eq!(b.id(), 1);
    assert_eq!(c.id(), 2);
    assert!(!a.readback_enabled());
    assert!(b.readback_enabled());
    assert_eq!(manager.compute_queue_family(), 7);

    c.data_mut()[0] = 9;
    c.data_mut().push(10);
    assert_eq!(c.data(), &vec![9, 10]);
    assert_eq!(c.id(), 2);
}

#[test]
fn queue_family_choice_requires_compute() {
    // Families exist, but none supports compute: none may be chosen, so the
    // missing compute queue is detected instead of papered over.
    let families = vec![family(1, false, true), family(4, false, false)];
    let info = load_queue_family_info(&families);
    assert_eq!(info.compute_queue, None);
    assert!(!info.complete());
}

#[test]
fn initialization_plan_rejects_device_without_compute_family() {
    let devices = vec![PhysicalDeviceDescription {
        kind: PhysicalDeviceKind::DiscreteGpu,
        queue_families: vec![family(1, false, true), family(2, false, false)],
    }];
    let plan = plan_device_initialization(&devices);
    assert_eq!(plan.unwrap_err(), InitError::NoComputeQueue);
}
