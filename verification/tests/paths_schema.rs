use std::path::Path;

use nix_vmware_fusion::paths::{extension_of, file_stem_of, join_path, paths_equal};
use nix_vmware_fusion::schema::{BundlePath, DiskPath, valid_bundle_path, valid_disk_path};

fn std_extension(path: &str) -> Option<String> {
    Path::new(path).extension().map(|e| e.to_str().unwrap().to_owned())
}

fn lib_extension(path: &str) -> Option<String> {
    extension_of(path).map(|chars| chars.into_iter().collect())
}

#[test]
fn extensions_agree_with_std_path() {
    for path in [
        "/a/b.vmdk",
        "/a/b.vmdk/",
        "/a/b.vmdk/.",
        "/a/.vmdk",
        "/a/..vmdk",
        "/a/b.",
        "/a/b",
        "/a/..",
        "/",
        "",
        "b.tar.gz",
        "./x.vmx",
        "/a//b.vmx.bak",
    ] {
        assert_eq!(lib_extension(path), std_extension(path), "extension of {path:?}");
    }
}

#[test]
fn stems_agree_with_std_path() {
    for path in ["/vms/test.vmwarevm", "/vms/.hidden", "/vms/a.b.c", "/vms/..", "/", "/vms/x/"] {
        let expected = Path::new(path).file_stem().map(|s| s.to_str().unwrap().to_owned());
        assert_eq!(file_stem_of(path), expected, "stem of {path:?}");
    }
}

#[test]
fn equality_agrees_with_std_path() {
    let paths = ["/a/b", "/a/b/", "/a//b", "/a/./b", "a/b", "./a/b", "/a/b/..", "/a", ".", ""];
    for a in paths {
        for b in paths {
            assert_eq!(paths_equal(a, b), Path::new(a) == Path::new(b), "{a:?} == {b:?}");
        }
    }
}

#[test]
fn joins_agree_with_std_path() {
    for (base, name) in [("/vms/test.vmwarevm", "test.vmx"), ("/vms/", "x.vmx"), ("", "x.vmx")] {
        let expected = Path::new(base).join(name);
        assert_eq!(join_path(base, name), expected.to_str().unwrap());
    }
}

#[test]
fn bundle_paths_are_absolute_vmwarevm_paths() {
    assert!(valid_bundle_path("/Users/me/VMs/test.vmwarevm"));
    assert!(valid_bundle_path("/Users/me/VMs/test.vmwarevm/"));
    assert!(!valid_bundle_path("VMs/test.vmwarevm"));
    assert!(!valid_bundle_path("/Users/me/VMs/test.vmx"));
    assert!(!valid_bundle_path("/Users/me/VMs/.vmwarevm"));
    assert!(BundlePath::try_new("/vms/a.vmwarevm".to_owned()).is_ok());
    assert!(BundlePath::try_new("/vms/a".to_owned()).is_err());
    assert_eq!(BundlePath::try_new("/vms/a.vmwarevm".to_owned()).ok().unwrap().as_str(), "/vms/a.vmwarevm");
}

#[test]
fn disk_paths_are_absolute_vmdk_paths() {
    assert!(valid_disk_path("/disks/system.vmdk"));
    assert!(!valid_disk_path("disks/system.vmdk"));
    assert!(!valid_disk_path("/disks/system.vmdk.bak"));
    assert!(!valid_disk_path("/disks/system"));
    assert!(DiskPath::try_new("/disks/a.vmdk".to_owned()).is_ok());
    assert!(DiskPath::try_new("/disks/a.img".to_owned()).is_err());
}
