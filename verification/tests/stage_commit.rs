use nix_vmware_fusion::disks::commit::{
    ConvertNext, ConvertOutcome, ConvertStep, Workspace, convert_args, convert_first_step,
    convert_next, create_args, expand_args, move_disk_args,
};
use nix_vmware_fusion::disks::format::DiskFormat;
use nix_vmware_fusion::disks::stage::{
    CommitAction, DraftEdit, StagedChange, bus_controller, enable_controller_args,
    find_first_free_args, move_args, purge_args, set_backing_args, set_present_args, stage,
};
use nix_vmware_fusion::disks::{Action, Plan};
use nix_vmware_fusion::schema::DiskBus;

#[test]
fn disk_changes_are_staged_for_commit() {
    let disk_path = "/disks/system.vmdk";
    let size = 12;
    let format = DiskFormat::SplitSparse;

    let plan = Plan {
        actions: vec![
            Action::Create { path: disk_path.to_owned(), size, format },
            Action::Expand { path: disk_path.to_owned(), size },
            Action::Convert { path: disk_path.to_owned(), format },
        ],
    };

    let staging = stage(plan);

    assert!(staging.draft_edits.is_empty());
    assert!(matches!(
        staging.staged.commit_actions.as_slice(),
        [
            CommitAction::Create { path: p1, size: 12, format: DiskFormat::SplitSparse },
            CommitAction::Expand { path: p2, size: 12 },
            CommitAction::Convert { path: p3, format: DiskFormat::SplitSparse },
        ] if p1 == disk_path && p2 == disk_path && p3 == disk_path
    ));
}

#[test]
fn draft_edits_keep_their_order() {
    let plan = Plan {
        actions: vec![
            Action::Detach { label: "nvme0:0".to_owned() },
            Action::Create { path: "/d/a.vmdk".to_owned(), size: 1, format: DiskFormat::Sparse },
            Action::Attach { path: "/d/a.vmdk".to_owned(), to: DiskBus::Nvme },
            Action::Move { from: "sata0:0".to_owned(), to: DiskBus::Nvme },
        ],
    };

    let staging = stage(plan);
    assert!(matches!(
        staging.draft_edits.as_slice(),
        [
            DraftEdit::Detach { label },
            DraftEdit::Attach { path, to: DiskBus::Nvme },
            DraftEdit::Move { from, to: DiskBus::Nvme },
        ] if label == "nvme0:0" && path == "/d/a.vmdk" && from == "sata0:0"
    ));
    assert_eq!(staging.staged.commit_actions.len(), 1);
    assert!(!staging.staged.is_noop());
}

#[test]
fn nothing_staged_is_a_noop() {
    assert!(StagedChange { commit_actions: Vec::new() }.is_noop());
}

#[test]
fn buses_map_to_vmcli_controllers() {
    assert_eq!(bus_controller(DiskBus::Nvme), ("nvme", "nvme0"));
    assert_eq!(bus_controller(DiskBus::Sata), ("sata", "sata0"));
}

#[test]
fn vmcli_command_lines() {
    assert_eq!(enable_controller_args("d.vmx", DiskBus::Sata), vec!["d.vmx", "sata", "setpresent", "sata0", "true"]);
    assert_eq!(
        find_first_free_args("d.vmx", DiskBus::Nvme),
        vec!["d.vmx", "nvme", "findfirstfree", "nvme0", "-f", "json"]
    );
    assert_eq!(move_args("d.vmx", "nvme0:0", "sata0:1"), vec!["d.vmx", "disk", "move", "nvme0:0", "sata0:1"]);
    assert_eq!(
        set_backing_args("d.vmx", "nvme0:0", "/d/a.vmdk"),
        vec!["d.vmx", "disk", "setbackinginfo", "nvme0:0", "disk", "/d/a.vmdk", "false"]
    );
    assert_eq!(set_present_args("d.vmx", "nvme0:0"), vec!["d.vmx", "disk", "setpresent", "nvme0:0", "true"]);
    assert_eq!(purge_args("d.vmx", "nvme0:0"), vec!["d.vmx", "disk", "purge", "nvme0:0"]);
}

#[test]
fn vdiskmanager_command_lines() {
    assert_eq!(
        create_args("/d/a.vmdk", 16, DiskFormat::SplitPreallocated),
        vec!["-c", "-s", "16GB", "-a", "lsilogic", "-t", "3", "-q", "/d/a.vmdk"]
    );
    assert_eq!(expand_args("/d/a.vmdk", 1), vec!["-x", "1GB", "-q", "/d/a.vmdk"]);
    assert_eq!(
        convert_args("/d/a.vmdk", "/t/converted/a.vmdk", DiskFormat::Sparse),
        vec!["-r", "/d/a.vmdk", "-t", "0", "-q", "/t/converted/a.vmdk"]
    );
    assert_eq!(move_disk_args("/d/a.vmdk", "/t/backup/a.vmdk"), vec!["-n", "/d/a.vmdk", "-q", "/t/backup/a.vmdk"]);
}

fn finish(outcome: ConvertOutcome, workspace: Workspace) -> ConvertNext {
    ConvertNext::Finish { outcome, workspace }
}

#[test]
fn successful_conversion_replaces_disk_and_removes_backup() {
    assert_eq!(convert_first_step(), ConvertStep::CreateConverted);
    assert_eq!(convert_next(ConvertStep::CreateConverted, true), ConvertNext::Run(ConvertStep::MoveOriginalToBackup));
    assert_eq!(convert_next(ConvertStep::MoveOriginalToBackup, true), ConvertNext::Run(ConvertStep::InstallConverted));
    assert_eq!(convert_next(ConvertStep::InstallConverted, true), ConvertNext::Run(ConvertStep::RemoveWorkspace));
    assert_eq!(convert_next(ConvertStep::RemoveWorkspace, true), finish(ConvertOutcome::Converted, Workspace::Removed));
    assert_eq!(
        convert_next(ConvertStep::RemoveWorkspace, false),
        finish(ConvertOutcome::CleanupFailed, Workspace::Removed)
    );
}

#[test]
fn failed_conversion_keeps_the_original_in_place() {
    assert_eq!(
        convert_next(ConvertStep::CreateConverted, false),
        finish(ConvertOutcome::ConversionFailed, Workspace::Removed)
    );
}

#[test]
fn failed_backup_keeps_the_workspace() {
    assert_eq!(
        convert_next(ConvertStep::MoveOriginalToBackup, false),
        finish(ConvertOutcome::BackupFailed, Workspace::Kept)
    );
}

#[test]
fn failed_install_restores_or_keeps_the_original() {
    assert_eq!(convert_next(ConvertStep::InstallConverted, false), ConvertNext::Run(ConvertStep::RestoreOriginal));
    assert_eq!(
        convert_next(ConvertStep::RestoreOriginal, true),
        finish(ConvertOutcome::InstallFailedRestored, Workspace::Removed)
    );
    assert_eq!(
        convert_next(ConvertStep::RestoreOriginal, false),
        finish(ConvertOutcome::InstallFailedRollbackFailed, Workspace::Kept)
    );
}

#[test]
fn formats_have_distinct_codes_and_names() {
    let formats = [DiskFormat::Sparse, DiskFormat::SplitSparse, DiskFormat::Preallocated, DiskFormat::SplitPreallocated];
    let codes: Vec<&str> = formats.iter().map(|f| f.vdisk_type()).collect();
    assert_eq!(codes, vec!["0", "1", "2", "3"]);
    let names: Vec<&str> = formats.iter().map(|f| f.name()).collect();
    assert_eq!(names, vec!["sparse", "split sparse", "preallocated", "split preallocated"]);
    assert_eq!(DiskFormat::from_options(false, false), DiskFormat::Sparse);
    assert_eq!(DiskFormat::from_options(false, true), DiskFormat::SplitSparse);
    assert_eq!(DiskFormat::from_options(true, false), DiskFormat::Preallocated);
    assert_eq!(DiskFormat::from_options(true, true), DiskFormat::SplitPreallocated);
}
