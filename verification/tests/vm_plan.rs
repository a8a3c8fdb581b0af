use nix_vmware_fusion::disks::{self, AttachedDisk};
use nix_vmware_fusion::schema::{BundlePath, VirtualMachine};
use nix_vmware_fusion::text::decimal_string;
use nix_vmware_fusion::vm::{
    CommitStep, PowerError, Snapshot, StagedChange, check_stopped, commit_steps, draft_path, plan,
    power_state,
};
use nix_vmware_fusion::vmx;

fn machine(secure_boot: bool) -> VirtualMachine {
    VirtualMachine {
        display_name: "Test VM".to_owned(),
        path: BundlePath::try_new("/vms/test.vmwarevm".to_owned()).ok().unwrap(),
        guest_os: "arm-other6xlinux-64".to_owned(),
        vcpus: 4,
        memory: 4096,
        secure_boot,
        disks: Vec::new(),
    }
}

fn snapshot(raw_contents: Option<&str>, attached: Vec<AttachedDisk>) -> Snapshot {
    Snapshot {
        vmx: vmx::Snapshot {
            target_path: "/vms/test.vmwarevm/test.vmx".to_owned(),
            raw_contents: raw_contents.map(str::to_owned),
        },
        disks: disks::Snapshot { inspected_disks: Vec::new(), attached_disks: attached },
    }
}

fn entries(plan: &vmx::Plan) -> Vec<(String, String)> {
    plan.entries.iter().map(|(k, v)| (k.to_string(), v.clone())).collect()
}

fn pairs(list: &[(&str, &str)]) -> Vec<(String, String)> {
    list.iter().map(|(k, v)| (k.to_string(), v.to_string())).collect()
}

#[test]
fn new_vmx_gets_entries_and_uefi_firmware() {
    let plan = plan(&machine(true), snapshot(None, Vec::new())).ok().unwrap();
    assert_eq!(
        entries(&plan.vmx),
        pairs(&[
            ("displayName", "Test VM"),
            ("guestOS", "arm-other6xlinux-64"),
            ("numvcpus", "4"),
            ("memsize", "4096"),
            ("uefi.secureBoot.enabled", "TRUE"),
            ("firmware", "efi"),
        ])
    );
    assert_eq!(plan.vmx.guest_os, "arm-other6xlinux-64");
    assert!(plan.disks.actions.is_empty());
}

#[test]
fn existing_vmx_keeps_its_firmware() {
    let plan = plan(&machine(false), snapshot(Some("firmware = \"efi\"\n"), Vec::new())).ok().unwrap();
    let e = entries(&plan.vmx);
    assert_eq!(e.len(), 5);
    assert_eq!(e[4], ("uefi.secureBoot.enabled".to_owned(), "FALSE".to_owned()));
}

#[test]
fn disk_plan_refusal_refuses_the_whole_plan() {
    let disk = disks::InspectedDisk {
        configured: disks::ConfiguredDisk {
            path: "/d/a.vmdk".to_owned(),
            size: 1,
            bus: nix_vmware_fusion::schema::DiskBus::Nvme,
            format: disks::format::DiskFormat::Sparse,
        },
        identity_path: "/d/a.vmdk".to_owned(),
        current_state: Some(disks::DiskState {
            capacity_bytes: 2 * disks::BYTES_PER_GIB,
            format: disks::format::DiskFormat::Sparse,
        }),
    };
    let mut snap = snapshot(None, Vec::new());
    snap.disks.inspected_disks.push(disk);
    assert!(plan(&machine(true), snap).is_err());
}

#[test]
fn unconfigured_device_is_detached_in_the_machine_plan() {
    let attached = vec![AttachedDisk { label: "nvme0:0".to_owned(), canonical_path: Some("/d/x.vmdk".to_owned()) }];
    let plan = plan(&machine(true), snapshot(Some(""), attached)).ok().unwrap();
    assert!(matches!(plan.disks.actions.as_slice(), [disks::Action::Detach { label }] if label == "nvme0:0"));
}

fn staged(raw: Option<&str>, updated: &str, disk_actions: usize) -> StagedChange {
    let mut commit_actions = Vec::new();
    for _ in 0..disk_actions {
        commit_actions.push(disks::stage::CommitAction::Expand { path: "/d/a.vmdk".to_owned(), size: 2 });
    }
    StagedChange {
        vmx: vmx::StagedChange {
            snapshot: vmx::Snapshot { target_path: "/v/t.vmx".to_owned(), raw_contents: raw.map(str::to_owned) },
            updated_contents: updated.to_owned(),
        },
        disks: disks::stage::StagedChange { commit_actions },
    }
}

#[test]
fn commit_with_no_changes_does_nothing() {
    assert!(commit_steps(&staged(Some("a"), "a", 0)).is_empty());
}

#[test]
fn commit_stops_the_machine_before_any_change() {
    assert_eq!(commit_steps(&staged(Some("a"), "b", 0)), vec![CommitStep::EnsureStopped, CommitStep::CommitVmx]);
    assert_eq!(commit_steps(&staged(Some("a"), "a", 1)), vec![CommitStep::EnsureStopped, CommitStep::CommitDisks]);
    assert_eq!(
        commit_steps(&staged(None, "", 2)),
        vec![CommitStep::EnsureStopped, CommitStep::CommitDisks, CommitStep::CommitVmx]
    );
}

#[test]
fn draft_is_named_after_the_vmx_file() {
    assert_eq!(draft_path("/tmp/stage", "/vms/t.vmwarevm/t.vmx").ok().unwrap(), "/tmp/stage/t.vmx");
    let error = draft_path("/tmp/stage", "/").err().unwrap();
    assert_eq!(error.message(), "missing VMX filename");
}

#[test]
fn power_state_is_read_from_the_first_power_line() {
    assert_eq!(power_state("PowerState: off\n").as_deref(), Some("off"));
    assert_eq!(power_state("Name: x\r\nPowerState:  on \r\nPowerState: off\n").as_deref(), Some("on"));
    assert_eq!(power_state("State: off\n"), None);
    assert_eq!(power_state(""), None);
    assert_eq!(power_state(" PowerState: off"), None);
}

#[test]
fn only_a_machine_that_is_off_may_change() {
    assert!(check_stopped("/vms/t.vmwarevm", "PowerState: off\n").is_ok());
    let error = check_stopped("/vms/t.vmwarevm", "PowerState: on\n").err().unwrap();
    assert_eq!(
        error.message(),
        "/vms/t.vmwarevm must be fully shut down before applying changes (current power state: on)"
    );
    let error = check_stopped("/vms/t.vmwarevm", "nothing").err().unwrap();
    assert!(matches!(error, PowerError::NoPowerState));
    assert_eq!(error.message(), "vmcli did not report a power state");
}

#[test]
fn decimal_notation_matches_display() {
    for n in [0u64, 7, 10, 4096, 1234567890, u64::MAX] {
        assert_eq!(decimal_string(n), n.to_string());
    }
}
