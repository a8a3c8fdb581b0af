use nix_vmware_fusion::vmx::{Snapshot, StagedChange};
use nix_vmware_fusion::vmx::stage::{create_vm_args, set_entry_args};

fn staged_change(prev: Option<&str>, updated_contents: &str) -> StagedChange {
    StagedChange {
        snapshot: Snapshot {
            target_path: "test.vmx".into(),
            raw_contents: prev.map(str::to_owned),
        },
        updated_contents: updated_contents.to_owned(),
    }
}

#[test]
fn identical_contents_are_a_noop() {
    let staged = staged_change(Some("numvcpus = \"2\"\n"), "numvcpus = \"2\"\n");

    assert!(staged.is_noop());
}

#[test]
fn changed_contents_are_not_a_noop() {
    let staged = staged_change(Some("numvcpus = \"2\"\n"), "numvcpus = \"4\"\n");

    assert!(!staged.is_noop());
}

#[test]
fn missing_file_is_not_a_noop_even_with_empty_contents() {
    let staged = staged_change(None, "");

    assert!(!staged.is_noop());
}

#[test]
fn empty_existing_file_with_empty_update_is_a_noop() {
    assert!(staged_change(Some(""), "").is_noop());
}

#[test]
fn dict_tool_sets_key_equals_value() {
    assert_eq!(
        set_entry_args("/tmp/test.vmx", "displayName", "Test VM"),
        vec!["-q", "set", "/tmp/test.vmx", "displayName=Test VM"]
    );
}

#[test]
fn vmcli_creates_vm_by_name_directory_and_guest() {
    assert_eq!(
        create_vm_args("test", "/tmp/draft", "arm-other6xlinux-64"),
        vec!["vm", "create", "-n", "test", "-d", "/tmp/draft", "-c", "arm-other6xlinux-64"]
    );
}
