//! The VMX file: which one a bundle has, the entries to set in it, and
//! whether a staged edit changes it.

use vstd::prelude::*;

pub mod inspect;
pub mod plan;
pub mod stage;

verus! {

/// The VMX file of a bundle as found.
pub struct Snapshot {
    /// The VMX file to manage (it may not exist yet).
    pub target_path: String,
    /// Its contents, when it exists.
    pub raw_contents: Option<String>,
}

/// The entries to set in the VMX file.
pub struct Plan {
    pub snapshot: Snapshot,
    pub guest_os: String,
    /// Keys and values, in the order in which they are set.
    pub entries: Vec<(&'static str, String)>,
}

/// The VMX contents after every entry was set on a draft.
pub struct StagedChange {
    pub snapshot: Snapshot,
    pub updated_contents: String,
}

} // verus!
