//! Virtual disks: formats, snapshots of their state, plans and staged changes.

use vstd::prelude::*;

use crate::schema::DiskBus;
use format::DiskFormat;

pub mod commit;
pub mod format;
pub mod inspect;
pub mod plan;
pub mod stage;
pub mod plan_laws;

verus! {

/// The number of bytes in a GiB, the unit of configured disk sizes.
pub const BYTES_PER_GIB: u64 = 1073741824u64;

/// A disk as the configuration asks for it.
pub struct ConfiguredDisk {
    pub path: String,
    /// The size in GiB.
    pub size: u64,
    pub bus: DiskBus,
    pub format: DiskFormat,
}

/// What a disk file on the host holds now.
#[derive(Debug, Clone, Copy, PartialEq, Eq, Structural)]
pub struct DiskState {
    pub capacity_bytes: u64,
    pub format: DiskFormat,
}

/// A configured disk together with what was found on the host.
pub struct InspectedDisk {
    pub configured: ConfiguredDisk,
    /// The path by which the disk is recognized among attached disks: the
    /// canonical path of an existing disk, else the configured path.
    pub identity_path: String,
    /// `None` when no disk file exists yet.
    pub current_state: Option<DiskState>,
}

/// A disk that the virtual machine currently has attached.
pub struct AttachedDisk {
    /// The device label, such as `nvme0:0`.
    pub label: String,
    /// The canonical path of its backing file, when that file exists.
    pub canonical_path: Option<String>,
}

/// The disks as configured and as found.
pub struct Snapshot {
    pub inspected_disks: Vec<InspectedDisk>,
    pub attached_disks: Vec<AttachedDisk>,
}

/// A change to bring the disks in line with the configuration.
pub enum Action {
    Create { path: String, size: u64, format: DiskFormat },
    Move { from: String, to: DiskBus },
    Attach { path: String, to: DiskBus },
    Detach { label: String },
    Expand { path: String, size: u64 },
    Convert { path: String, format: DiskFormat },
}

/// The changes to make, in order.
pub struct Plan {
    pub actions: Vec<Action>,
}

pub struct ConfiguredDiskView {
    pub path: Seq<char>,
    pub size: u64,
    pub bus: DiskBus,
    pub format: DiskFormat,
}

pub struct InspectedDiskView {
    pub configured: ConfiguredDiskView,
    pub identity_path: Seq<char>,
    pub current_state: Option<DiskState>,
}

pub struct AttachedDiskView {
    pub label: Seq<char>,
    pub canonical_path: Option<Seq<char>>,
}

pub struct SnapshotView {
    pub inspected_disks: Seq<InspectedDiskView>,
    pub attached_disks: Seq<AttachedDiskView>,
}

pub enum ActionView {
    Create { path: Seq<char>, size: u64, format: DiskFormat },
    Move { from: Seq<char>, to: DiskBus },
    Attach { path: Seq<char>, to: DiskBus },
    Detach { label: Seq<char> },
    Expand { path: Seq<char>, size: u64 },
    Convert { path: Seq<char>, format: DiskFormat },
}

impl View for ConfiguredDisk {
    type V = ConfiguredDiskView;

    open spec fn view(&self) -> ConfiguredDiskView {
        ConfiguredDiskView { path: self.path@, size: self.size, bus: self.bus, format: self.format }
    }
}

impl View for InspectedDisk {
    type V = InspectedDiskView;

    open spec fn view(&self) -> InspectedDiskView {
        InspectedDiskView {
            configured: self.configured@,
            identity_path: self.identity_path@,
            current_state: self.current_state,
        }
    }
}

/// The characters of an optional string.
pub open spec fn opt_view(s: Option<String>) -> Option<Seq<char>> {
    match s {
        Some(s) => Some(s@),
        None => None,
    }
}

impl View for AttachedDisk {
    type V = AttachedDiskView;

    open spec fn view(&self) -> AttachedDiskView {
        AttachedDiskView { label: self.label@, canonical_path: opt_view(self.canonical_path) }
    }
}

/// The views of a sequence of inspected disks.
pub open spec fn inspected_views(s: Seq<InspectedDisk>) -> Seq<InspectedDiskView> {
    s.map_values(|d: InspectedDisk| d@)
}

/// The views of a sequence of attached disks.
pub open spec fn attached_views(s: Seq<AttachedDisk>) -> Seq<AttachedDiskView> {
    s.map_values(|a: AttachedDisk| a@)
}

impl View for Snapshot {
    type V = SnapshotView;

    open spec fn view(&self) -> SnapshotView {
        SnapshotView {
            inspected_disks: inspected_views(self.inspected_disks@),
            attached_disks: attached_views(self.attached_disks@),
        }
    }
}

impl View for Action {
    type V = ActionView;

    open spec fn view(&self) -> ActionView {
        match self {
            Action::Create { path, size, format } => ActionView::Create { path: path@, size: *size, format: *format },
            Action::Move { from, to } => ActionView::Move { from: from@, to: *to },
            Action::Attach { path, to } => ActionView::Attach { path: path@, to: *to },
            Action::Detach { label } => ActionView::Detach { label: label@ },
            Action::Expand { path, size } => ActionView::Expand { path: path@, size: *size },
            Action::Convert { path, format } => ActionView::Convert { path: path@, format: *format },
        }
    }
}

/// The views of a sequence of actions.
pub open spec fn action_views(s: Seq<Action>) -> Seq<ActionView> {
    s.map_values(|a: Action| a@)
}

/// The view of an optional action.
pub open spec fn opt_action_view(a: Option<Action>) -> Option<ActionView> {
    match a {
        Some(a) => Some(a@),
        None => None,
    }
}

impl View for Plan {
    type V = Seq<ActionView>;

    open spec fn view(&self) -> Seq<ActionView> {
        action_views(self.actions@)
    }
}

} // verus!
