use nix_vmware_fusion::disks::format::DiskFormat;
use nix_vmware_fusion::disks::inspect::{
    DiskFile, InspectError, QemuImgInfo, configured_disk, format_of_create_type, inspect_disk,
    inspect_disks, read_state, state_from_qemu_img_info,
};
use nix_vmware_fusion::disks::DiskState;
use nix_vmware_fusion::schema::{DiskBus, DiskPath, VirtualDisk};
use nix_vmware_fusion::vmx::inspect::{VmxError, resolve_path};

fn virtual_disk(path: &str, preallocate: bool, split: bool) -> VirtualDisk {
    VirtualDisk {
        path: DiskPath::try_new(path.to_owned()).ok().unwrap(),
        size: 4,
        bus: DiskBus::Sata,
        preallocate,
        split,
    }
}

fn qemu_json(create_type: &str, size: u64) -> String {
    format!(
        r#"{{"virtual-size": {size}, "filename": "x.vmdk", "format": "vmdk", "format-specific": {{"type": "vmdk", "data": {{"cid": 1, "create-type": "{create_type}"}}}}}}"#
    )
}

#[test]
fn reads_each_supported_create_type() {
    for (create_type, format) in [
        ("monolithicSparse", DiskFormat::Sparse),
        ("twoGbMaxExtentSparse", DiskFormat::SplitSparse),
        ("monolithicFlat", DiskFormat::Preallocated),
        ("twoGbMaxExtentFlat", DiskFormat::SplitPreallocated),
    ] {
        let state = read_state(&qemu_json(create_type, 1048576)).ok().unwrap();
        assert_eq!(state, DiskState { capacity_bytes: 1048576, format });
    }
}

#[test]
fn unsupported_create_type_is_rejected() {
    match read_state(&qemu_json("streamOptimized", 1024)) {
        Err(error) => {
            assert!(matches!(&error, InspectError::UnsupportedFormat { create_type } if create_type == "streamOptimized"));
            assert_eq!(error.message(), "unsupported VMDK format: streamOptimized");
        }
        Ok(_) => panic!("stream-optimized disks are unsupported"),
    }
}

#[test]
fn missing_or_zero_capacity_is_rejected() {
    assert!(matches!(read_state(&qemu_json("monolithicSparse", 0)), Err(InspectError::MissingCapacity)));
    let no_size = r#"{"format-specific": {"data": {"create-type": "monolithicSparse"}}}"#;
    assert!(matches!(read_state(no_size), Err(InspectError::MissingCapacity)));
}

#[test]
fn missing_create_type_and_bad_json_are_rejected() {
    assert!(matches!(read_state(r#"{"virtual-size": 5}"#), Err(InspectError::MissingCreateType)));
    assert!(matches!(read_state("not json"), Err(InspectError::QemuInfoUnparsable)));
    let error = read_state("not json").err().unwrap();
    assert_eq!(error.message(), "could not parse qemu-img disk information");
}

#[test]
fn state_follows_the_reported_facts() {
    let info = QemuImgInfo { create_type: Some("monolithicFlat".to_owned()), virtual_size: Some(7) };
    assert_eq!(
        state_from_qemu_img_info(info).ok().unwrap(),
        DiskState { capacity_bytes: 7, format: DiskFormat::Preallocated }
    );
    assert_eq!(format_of_create_type("monolithicsparse"), None);
}

#[test]
fn configured_format_follows_options() {
    assert_eq!(configured_disk(&virtual_disk("/d/a.vmdk", false, false)).format, DiskFormat::Sparse);
    assert_eq!(configured_disk(&virtual_disk("/d/a.vmdk", false, true)).format, DiskFormat::SplitSparse);
    assert_eq!(configured_disk(&virtual_disk("/d/a.vmdk", true, false)).format, DiskFormat::Preallocated);
    assert_eq!(
        configured_disk(&virtual_disk("/d/a.vmdk", true, true)).format,
        DiskFormat::SplitPreallocated
    );
}

#[test]
fn missing_disk_is_known_by_its_configured_path() {
    let disk = inspect_disk(&virtual_disk("/d/a.vmdk", false, false), DiskFile::Missing).ok().unwrap();
    assert_eq!(disk.identity_path, "/d/a.vmdk");
    assert!(disk.current_state.is_none());
    assert_eq!(disk.configured.bus, DiskBus::Sata);
    assert_eq!(disk.configured.size, 4);
}

#[test]
fn existing_disk_is_known_by_its_canonical_path() {
    let state = DiskState { capacity_bytes: 10, format: DiskFormat::Sparse };
    let file = DiskFile::Present { state, canonical_path: "/real/a.vmdk".to_owned() };
    let disk = inspect_disk(&virtual_disk("/d/a.vmdk", false, false), file).ok().unwrap();
    assert_eq!(disk.identity_path, "/real/a.vmdk");
    assert_eq!(disk.configured.path, "/d/a.vmdk");
    assert_eq!(disk.current_state, Some(state));
}

#[test]
fn something_other_than_a_file_is_rejected() {
    let error = inspect_disk(&virtual_disk("/d/a.vmdk", false, false), DiskFile::NotAFile).err().unwrap();
    assert_eq!(error.message(), "disk path is not a file: /d/a.vmdk");
}

#[test]
fn disks_are_inspected_in_order_until_the_first_refusal() {
    let disks = vec![virtual_disk("/d/a.vmdk", false, false), virtual_disk("/d/b.vmdk", false, false)];
    let inspected = inspect_disks(&disks, vec![DiskFile::Missing, DiskFile::Missing]).ok().unwrap();
    assert_eq!(inspected.len(), 2);
    assert_eq!(inspected[1].identity_path, "/d/b.vmdk");

    let error = inspect_disks(&disks, vec![DiskFile::Missing, DiskFile::NotAFile]).err().unwrap();
    assert!(matches!(error, InspectError::NotAFile { path } if path == "/d/b.vmdk"));
}

#[test]
fn empty_bundle_uses_bundle_name_for_vmx() {
    assert_eq!(
        resolve_path("/vms/test.vmwarevm", &Vec::new()).ok().unwrap(),
        "/vms/test.vmwarevm/test.vmx"
    );
}

#[test]
fn existing_vmx_path_and_contents_are_returned() {
    let entries = vec!["/tmp/x/custom.vmx".to_owned()];
    assert_eq!(resolve_path("/tmp/x", &entries).ok().unwrap(), "/tmp/x/custom.vmx");
}

#[test]
fn disk_and_backup_files_are_not_vmx_candidates() {
    let entries = vec![
        "/tmp/x/test.vmdk".to_owned(),
        "/tmp/x/test.vmx".to_owned(),
        "/tmp/x/test.vmx.bak".to_owned(),
    ];
    assert_eq!(resolve_path("/tmp/x", &entries).ok().unwrap(), "/tmp/x/test.vmx");
}

#[test]
fn bundles_with_multiple_vmx_files_are_rejected() {
    let entries = vec!["/tmp/x/first.vmx".to_owned(), "/tmp/x/second.vmx".to_owned()];
    let error = resolve_path("/tmp/x", &entries).err().unwrap();
    assert!(error.message().contains("multiple VMX files found"));
    assert_eq!(error.message(), "multiple VMX files found in /tmp/x");
}

#[test]
fn bundle_without_name_is_rejected() {
    let error = resolve_path("/", &Vec::new()).err().unwrap();
    assert!(matches!(error, VmxError::MissingName));
    assert_eq!(error.message(), "missing virtual machine name");
}
