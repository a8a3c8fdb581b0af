//! Planning, staging and committing VMware Fusion virtual machine
//! configuration: the decisions of the `nix-vmware-fusion` tool, verified.

pub mod args;
pub mod disks;
pub mod paths;
pub mod schema;
pub mod text;
pub mod vm;
pub mod vmx;
