use nix_vmware_fusion::disks::format::DiskFormat;
use nix_vmware_fusion::disks::plan::{PlanError, bus_from_label, plan, plan_expansion};
use nix_vmware_fusion::disks::{
    Action, AttachedDisk, BYTES_PER_GIB, ConfiguredDisk, DiskState, InspectedDisk, Snapshot,
};
use nix_vmware_fusion::schema::DiskBus;

fn inspected_disk(path: &str, bus: DiskBus) -> InspectedDisk {
    InspectedDisk {
        configured: ConfiguredDisk {
            path: path.to_owned(),
            size: 8,
            bus,
            format: DiskFormat::Sparse,
        },
        identity_path: path.to_owned(),
        current_state: Some(DiskState {
            capacity_bytes: 8 * BYTES_PER_GIB,
            format: DiskFormat::Sparse,
        }),
    }
}

fn inspected_disk_with_capacity(path: &str, size: u64, current_bytes: u64) -> InspectedDisk {
    let mut disk = inspected_disk(path, DiskBus::Nvme);
    disk.configured.size = size;
    disk.current_state = Some(DiskState {
        capacity_bytes: current_bytes,
        format: DiskFormat::Sparse,
    });

    disk
}

fn attached_disk(path: &str, label: &str) -> AttachedDisk {
    AttachedDisk {
        label: label.to_owned(),
        canonical_path: Some(path.to_owned()),
    }
}

fn plan_error(snapshot: Snapshot) -> PlanError {
    match plan(snapshot) {
        Ok(_) => panic!("the plan should be refused"),
        Err(error) => error,
    }
}

#[test]
fn disk_on_configured_bus_is_unchanged() {
    let disk_path = "/disks/system.vmdk";
    let snapshot = Snapshot {
        inspected_disks: vec![inspected_disk(disk_path, DiskBus::Nvme)],
        attached_disks: vec![attached_disk(disk_path, "nvme0:0")],
    };

    assert!(plan(snapshot).ok().unwrap().actions.is_empty());
}

#[test]
fn disk_on_another_bus_is_moved() {
    let disk_path = "/disks/system.vmdk";
    let snapshot = Snapshot {
        inspected_disks: vec![inspected_disk(disk_path, DiskBus::Sata)],
        attached_disks: vec![attached_disk(disk_path, "nvme0:0")],
    };

    let plan = plan(snapshot).ok().unwrap();

    assert!(matches!(
        plan.actions.as_slice(),
        [Action::Move {
            from,
            to: DiskBus::Sata,
        }] if from == "nvme0:0"
    ));
}

#[test]
fn unattached_configured_disk_is_attached() {
    let disk_path = "/disks/system.vmdk";
    let snapshot = Snapshot {
        inspected_disks: vec![inspected_disk(disk_path, DiskBus::Nvme)],
        attached_disks: Vec::new(),
    };

    let plan = plan(snapshot).ok().unwrap();

    assert!(matches!(
        plan.actions.as_slice(),
        [Action::Attach {
            path,
            to: DiskBus::Nvme,
        }] if path == disk_path
    ));
}

#[test]
fn missing_configured_disk_is_created_and_attached() {
    let disk_path = "/disks/system.vmdk";
    let mut inspected_disk = inspected_disk(disk_path, DiskBus::Nvme);
    inspected_disk.current_state = None;

    let snapshot = Snapshot {
        inspected_disks: vec![inspected_disk],
        attached_disks: Vec::new(),
    };

    let plan = plan(snapshot).ok().unwrap();

    assert!(matches!(
        plan.actions.as_slice(),
        [
            Action::Create {
                path: create_path,
                size,
                format: DiskFormat::Sparse,
            },
            Action::Attach {
                path: attach_path,
                to: DiskBus::Nvme,
            },
        ] if create_path == disk_path
            && *size == 8
            && attach_path == disk_path
    ));
}

#[test]
fn unconfigured_attached_disk_is_detached() {
    let snapshot = Snapshot {
        inspected_disks: Vec::new(),
        attached_disks: vec![attached_disk("/disks/system.vmdk", "nvme0:0")],
    };

    let plan = plan(snapshot).ok().unwrap();

    assert!(matches!(
        plan.actions.as_slice(),
        [Action::Detach { label }] if label == "nvme0:0"
    ));
}

#[test]
fn detachments_are_planned_before_attachments() {
    let new_path = "/disks/new.vmdk";
    let snapshot = Snapshot {
        inspected_disks: vec![inspected_disk(new_path, DiskBus::Nvme)],
        attached_disks: vec![attached_disk("/disks/old.vmdk", "nvme0:0")],
    };

    let plan = plan(snapshot).ok().unwrap();

    assert!(matches!(
        plan.actions.as_slice(),
        [
            Action::Detach { label },
            Action::Attach {
                path,
                to: DiskBus::Nvme,
            },
        ] if label == "nvme0:0" && path == new_path
    ));
}

#[test]
fn disk_aliases_are_matched_by_canonical_path() {
    let canonical_path = "/disks/system.vmdk";
    let inspected_disk = InspectedDisk {
        identity_path: canonical_path.to_owned(),
        ..inspected_disk("/aliases/system.vmdk", DiskBus::Nvme)
    };

    let snapshot = Snapshot {
        inspected_disks: vec![inspected_disk],
        attached_disks: vec![attached_disk(canonical_path, "nvme0:0")],
    };

    assert!(plan(snapshot).ok().unwrap().actions.is_empty());
}

#[test]
fn duplicate_disk_paths_are_rejected() {
    let canonical_path = "/disks/system.vmdk";
    let snapshot = Snapshot {
        inspected_disks: vec![
            inspected_disk(canonical_path, DiskBus::Nvme),
            InspectedDisk {
                identity_path: canonical_path.to_owned(),
                ..inspected_disk("/aliases/system.vmdk", DiskBus::Nvme)
            },
        ],
        attached_disks: Vec::new(),
    };

    let error = plan_error(snapshot);

    assert!(error.message().contains("disk paths must be unique"));
}

#[test]
fn disk_on_unsupported_bus_is_moved_to_configured_bus() {
    let disk_path = "/disks/system.vmdk";
    let snapshot = Snapshot {
        inspected_disks: vec![inspected_disk(disk_path, DiskBus::Nvme)],
        attached_disks: vec![attached_disk(disk_path, "scsi0:0")],
    };

    let plan = plan(snapshot).ok().unwrap();

    assert!(matches!(
        plan.actions.as_slice(),
        [Action::Move {
            from,
            to: DiskBus::Nvme,
        }] if from == "scsi0:0"
    ));
}

#[test]
fn smaller_disk_is_expanded_to_configured_capacity() {
    let disk_path = "/disks/system.vmdk";
    let snapshot = Snapshot {
        inspected_disks: vec![inspected_disk_with_capacity(disk_path, 16, 8 * BYTES_PER_GIB)],
        attached_disks: vec![attached_disk(disk_path, "nvme0:0")],
    };

    let plan = plan(snapshot).ok().unwrap();

    assert!(matches!(
        plan.actions.as_slice(),
        [Action::Expand { path, size }]
            if path == disk_path && *size == 16
    ));
}

#[test]
fn disk_at_configured_capacity_is_unchanged() {
    let disk_path = "/disks/system.vmdk";
    let snapshot = Snapshot {
        inspected_disks: vec![inspected_disk_with_capacity(disk_path, 8, 8 * BYTES_PER_GIB)],
        attached_disks: vec![attached_disk(disk_path, "nvme0:0")],
    };

    let plan = plan(snapshot).ok().unwrap();

    assert!(plan.actions.is_empty());
}

#[test]
fn disk_in_another_format_is_converted() {
    let disk_path = "/disks/system.vmdk";

    let mut inspected_disk = inspected_disk(disk_path, DiskBus::Nvme);
    inspected_disk.configured.format = DiskFormat::SplitSparse;

    let snapshot = Snapshot {
        inspected_disks: vec![inspected_disk],
        attached_disks: vec![attached_disk(disk_path, "nvme0:0")],
    };

    let plan = plan(snapshot).ok().unwrap();

    assert!(matches!(
        plan.actions.as_slice(),
        [Action::Convert { path, format: DiskFormat::SplitSparse }]
            if path == disk_path
    ));
}

#[test]
fn shrinking_disk_is_rejected() {
    let disk_path = "/disks/system.vmdk";
    let snapshot = Snapshot {
        inspected_disks: vec![inspected_disk_with_capacity(disk_path, 8, 16 * BYTES_PER_GIB)],
        attached_disks: vec![attached_disk(disk_path, "nvme0:0")],
    };

    let error = plan_error(snapshot);

    assert!(error.message().contains(&format!(
        "cannot resize disk {} below its current capacity",
        disk_path
    )));
}

// Further cases

#[test]
fn shrink_message_names_the_requested_size() {
    let disk_path = "/disks/system.vmdk";
    let snapshot = Snapshot {
        inspected_disks: vec![inspected_disk_with_capacity(disk_path, 8, 16 * BYTES_PER_GIB)],
        attached_disks: Vec::new(),
    };

    assert_eq!(
        plan_error(snapshot).message(),
        "cannot resize disk /disks/system.vmdk below its current capacity (requested: 8 GiB)"
    );
}

#[test]
fn overflowing_capacity_is_rejected() {
    let disk_path = "/disks/system.vmdk";
    let snapshot = Snapshot {
        inspected_disks: vec![inspected_disk_with_capacity(disk_path, u64::MAX / 2, 8)],
        attached_disks: Vec::new(),
    };

    let error = plan_error(snapshot);
    assert!(matches!(error, PlanError::CapacityTooLarge));
    assert_eq!(error.message(), "configured disk capacity is too large");
}

#[test]
fn largest_representable_capacity_is_accepted() {
    // 17179869183 GiB is the largest size whose byte count fits in a u64
    let largest = u64::MAX / BYTES_PER_GIB;
    let disk = inspected_disk_with_capacity("/disks/system.vmdk", largest, largest * BYTES_PER_GIB);
    assert!(matches!(plan_expansion(&disk), Ok(None)));

    let disk = inspected_disk_with_capacity("/disks/system.vmdk", largest + 1, 8);
    assert!(matches!(plan_expansion(&disk), Err(PlanError::CapacityTooLarge)));
}

#[test]
fn missing_disk_needs_no_expansion() {
    let mut disk = inspected_disk("/disks/system.vmdk", DiskBus::Nvme);
    disk.current_state = None;
    assert!(matches!(plan_expansion(&disk), Ok(None)));
}

#[test]
fn labels_name_their_bus_by_prefix() {
    assert_eq!(bus_from_label("nvme0:0"), Some(DiskBus::Nvme));
    assert_eq!(bus_from_label("sata0:1"), Some(DiskBus::Sata));
    assert_eq!(bus_from_label("scsi0:0"), None);
    assert_eq!(bus_from_label("nvm"), None);
    assert_eq!(bus_from_label(""), None);
}

#[test]
fn attached_paths_match_by_components() {
    // A trailing separator, a repeated separator and `.` name the same disk
    let snapshot = Snapshot {
        inspected_disks: vec![InspectedDisk {
            identity_path: "/disks//./system.vmdk".to_owned(),
            ..inspected_disk("/disks/system.vmdk", DiskBus::Nvme)
        }],
        attached_disks: vec![attached_disk("/disks/system.vmdk/", "nvme0:0")],
    };

    assert!(plan(snapshot).ok().unwrap().actions.is_empty());
}

#[test]
fn duplicate_paths_are_found_by_components() {
    let snapshot = Snapshot {
        inspected_disks: vec![
            inspected_disk("/disks/system.vmdk", DiskBus::Nvme),
            inspected_disk("/disks//system.vmdk", DiskBus::Nvme),
        ],
        attached_disks: Vec::new(),
    };

    assert!(matches!(plan_error(snapshot), PlanError::DuplicateDiskPaths));
}

#[test]
fn device_without_backing_file_is_detached_and_disk_attached() {
    let disk_path = "/disks/system.vmdk";
    let snapshot = Snapshot {
        inspected_disks: vec![inspected_disk(disk_path, DiskBus::Sata)],
        attached_disks: vec![AttachedDisk {
            label: "sata0:0".to_owned(),
            canonical_path: None,
        }],
    };

    let plan = plan(snapshot).ok().unwrap();
    assert!(matches!(
        plan.actions.as_slice(),
        [
            Action::Detach { label },
            Action::Attach { path, to: DiskBus::Sata },
        ] if label == "sata0:0" && path == disk_path
    ));
}

#[test]
fn first_device_of_a_disk_decides_the_move() {
    let disk_path = "/disks/system.vmdk";
    let snapshot = Snapshot {
        inspected_disks: vec![inspected_disk(disk_path, DiskBus::Nvme)],
        attached_disks: vec![
            attached_disk(disk_path, "sata0:0"),
            attached_disk(disk_path, "nvme0:0"),
        ],
    };

    let plan = plan(snapshot).ok().unwrap();
    assert!(matches!(
        plan.actions.as_slice(),
        [Action::Move { from, to: DiskBus::Nvme }] if from == "sata0:0"
    ));
}

#[test]
fn actions_come_in_kind_order() {
    // Detach, create, attach, expand, convert
    let mut missing = inspected_disk("/disks/new.vmdk", DiskBus::Nvme);
    missing.current_state = None;
    let mut grown = inspected_disk_with_capacity("/disks/grown.vmdk", 16, 8 * BYTES_PER_GIB);
    grown.configured.format = DiskFormat::Preallocated;

    let snapshot = Snapshot {
        inspected_disks: vec![missing, grown],
        attached_disks: vec![
            attached_disk("/disks/grown.vmdk", "nvme0:1"),
            attached_disk("/disks/old.vmdk", "nvme0:0"),
        ],
    };

    let plan = plan(snapshot).ok().unwrap();
    assert!(matches!(
        plan.actions.as_slice(),
        [
            Action::Detach { label },
            Action::Create { path: created, size: 8, format: DiskFormat::Sparse },
            Action::Attach { path: attached, to: DiskBus::Nvme },
            Action::Expand { path: expanded, size: 16 },
            Action::Convert { path: converted, format: DiskFormat::Preallocated },
        ] if label == "nvme0:0"
            && created == "/disks/new.vmdk"
            && attached == "/disks/new.vmdk"
            && expanded == "/disks/grown.vmdk"
            && converted == "/disks/grown.vmdk"
    ));
}

#[test]
fn first_refusal_in_disk_order_is_reported() {
    let snapshot = Snapshot {
        inspected_disks: vec![
            inspected_disk_with_capacity("/disks/a.vmdk", 8, 16 * BYTES_PER_GIB),
            inspected_disk_with_capacity("/disks/b.vmdk", u64::MAX, 8),
        ],
        attached_disks: Vec::new(),
    };

    match plan_error(snapshot) {
        PlanError::ShrinkRejected { path, size } => {
            assert_eq!(path, "/disks/a.vmdk");
            assert_eq!(size, 8);
        }
        _ => panic!("the first disk's refusal should be reported"),
    }
}

#[test]
fn converged_snapshot_has_empty_plan_and_changed_one_does_not() {
    let disk_path = "/disks/system.vmdk";
    let converged = Snapshot {
        inspected_disks: vec![inspected_disk(disk_path, DiskBus::Sata)],
        attached_disks: vec![attached_disk(disk_path, "sata0:0")],
    };
    assert!(plan(converged).ok().unwrap().actions.is_empty());

    let extra_device = Snapshot {
        inspected_disks: vec![inspected_disk(disk_path, DiskBus::Sata)],
        attached_disks: vec![
            attached_disk(disk_path, "sata0:0"),
            attached_disk("/disks/other.vmdk", "sata0:1"),
        ],
    };
    assert_eq!(plan(extra_device).ok().unwrap().actions.len(), 1);
}
