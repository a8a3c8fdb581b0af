//! The virtual machine configuration that the tool applies.

use vstd::prelude::*;

use crate::paths::{extension, is_absolute, is_absolute_with_extension};

verus! {

/// The bus that a virtual disk is attached to.
#[derive(Debug, Clone, Copy, PartialEq, Eq, Structural)]
pub enum DiskBus {
    Nvme,
    Sata,
}

/// Whether a path may name a virtual machine bundle: absolute, with the
/// extension `vmwarevm`.
pub open spec fn is_valid_bundle_path(path: Seq<char>) -> bool {
    is_absolute(path) && extension(path) == Some(seq!['v', 'm', 'w', 'a', 'r', 'e', 'v', 'm'])
}

/// Whether a path may name a virtual disk: absolute, with the extension
/// `vmdk`.
pub open spec fn is_valid_disk_path(path: Seq<char>) -> bool {
    is_absolute(path) && extension(path) == Some(seq!['v', 'm', 'd', 'k'])
}

/// Whether a path may name a virtual machine bundle.
pub fn valid_bundle_path(path: &str) -> (valid: bool)
    ensures
        valid == is_valid_bundle_path(path@),
{
    proof {
        reveal_strlit("vmwarevm");
        assert("vmwarevm"@ =~= seq!['v', 'm', 'w', 'a', 'r', 'e', 'v', 'm']);
    }
    is_absolute_with_extension(path, "vmwarevm")
}

/// Whether a path may name a virtual disk.
pub fn valid_disk_path(path: &str) -> (valid: bool)
    ensures
        valid == is_valid_disk_path(path@),
{
    proof {
        reveal_strlit("vmdk");
        assert("vmdk"@ =~= seq!['v', 'm', 'd', 'k']);
    }
    is_absolute_with_extension(path, "vmdk")
}

/// A path that fails validation.
#[derive(Debug, Clone, Copy, PartialEq, Eq, Structural)]
pub enum PathError {
    /// The path is not absolute or has the wrong extension.
    PredicateViolated,
}

/// The path of a virtual machine bundle: absolute, ending in `.vmwarevm`.
pub struct BundlePath {
    path: String,
}

impl View for BundlePath {
    type V = Seq<char>;

    closed spec fn view(&self) -> Seq<char> {
        self.path@
    }
}

impl BundlePath {
    #[verifier::type_invariant]
    closed spec fn inv(self) -> bool {
        is_valid_bundle_path(self.path@)
    }

    /// Accepts a path that names a bundle, and refuses any other.
    pub fn try_new(path: String) -> (res: Result<BundlePath, PathError>)
        ensures
            match res {
                Ok(p) => p@ == path@,
                Err(_) => !is_valid_bundle_path(path@),
            },
            res is Ok <==> is_valid_bundle_path(path@),
    {
        if valid_bundle_path(path.as_str()) {
            Ok(BundlePath { path })
        } else {
            Err(PathError::PredicateViolated)
        }
    }

    /// The path.
    pub fn as_str(&self) -> (s: &str)
        ensures
            s@ == self@,
            is_valid_bundle_path(s@),
    {
        proof { use_type_invariant(self); }
        self.path.as_str()
    }
}

/// The path of a virtual disk: absolute, ending in `.vmdk`.
pub struct DiskPath {
    path: String,
}

impl View for DiskPath {
    type V = Seq<char>;

    closed spec fn view(&self) -> Seq<char> {
        self.path@
    }
}

impl DiskPath {
    #[verifier::type_invariant]
    closed spec fn inv(self) -> bool {
        is_valid_disk_path(self.path@)
    }

    /// Accepts a path that names a disk, and refuses any other.
    pub fn try_new(path: String) -> (res: Result<DiskPath, PathError>)
        ensures
            match res {
                Ok(p) => p@ == path@,
                Err(_) => !is_valid_disk_path(path@),
            },
            res is Ok <==> is_valid_disk_path(path@),
    {
        if valid_disk_path(path.as_str()) {
            Ok(DiskPath { path })
        } else {
            Err(PathError::PredicateViolated)
        }
    }

    /// The path.
    pub fn as_str(&self) -> (s: &str)
        ensures
            s@ == self@,
            is_valid_disk_path(s@),
    {
        proof { use_type_invariant(self); }
        self.path.as_str()
    }
}

/// A virtual disk as the configuration asks for it.
pub struct VirtualDisk {
    pub path: DiskPath,
    /// The size in GiB.
    pub size: u64,
    pub bus: DiskBus,
    pub preallocate: bool,
    pub split: bool,
}

/// A virtual machine as the configuration asks for it.
pub struct VirtualMachine {
    pub display_name: String,
    pub path: BundlePath,
    pub guest_os: String,
    pub vcpus: u64,
    /// The memory size in MiB.
    pub memory: u64,
    pub secure_boot: bool,
    /// The disks, in the order of their names.
    pub disks: Vec<VirtualDisk>,
}

} // verus!
