//! Reading what the host holds: the state of disk files and the disks that
//! are attached.

use vstd::prelude::*;
use vstd::string::*;

use crate::schema::VirtualDisk;
use crate::text::str_equal;
use super::format::{is_preallocated, is_split, DiskFormat};
use super::{ConfiguredDisk, DiskState, InspectedDisk, InspectedDiskView, inspected_views};

verus! {

/// The facts that `qemu-img info --output=json` reports about a disk: the
/// VMDK create type (at `/format-specific/data/create-type`) and the virtual
/// size in bytes (at `virtual-size`), where present with the expected types.
pub struct QemuImgInfo {
    pub create_type: Option<String>,
    pub virtual_size: Option<u64>,
}

pub struct QemuImgInfoView {
    pub create_type: Option<Seq<char>>,
    pub virtual_size: Option<u64>,
}

impl View for QemuImgInfo {
    type V = QemuImgInfoView;

    open spec fn view(&self) -> QemuImgInfoView {
        QemuImgInfoView {
            create_type: match self.create_type {
                Some(t) => Some(t@),
                None => None,
            },
            virtual_size: self.virtual_size,
        }
    }
}

/// What serde_json reads from the text that qemu-img printed: `None` when
/// the text is not JSON.
pub uninterp spec fn qemu_img_info(json: Seq<char>) -> Option<QemuImgInfoView>;

/// Parses qemu-img's JSON with `serde_json::from_str` into a
/// `serde_json::Value` and picks the create type (`Value::pointer`, then
/// `Value::as_str`) and the virtual size (`Value::get`, then
/// `Value::as_u64`). The contract claims only that the result depends on the
/// text alone; what serde_json accepts as JSON is not stated.
#[verifier::external_body]
fn parse_qemu_img_info(json: &str) -> (info: Option<QemuImgInfo>)
    ensures
        match info {
            Some(i) => qemu_img_info(json@) == Some(i@),
            None => qemu_img_info(json@) is None,
        },
{
    let value = serde_json::from_str::<serde_json::Value>(json).ok()?;
    Some(QemuImgInfo {
        create_type: value
            .pointer("/format-specific/data/create-type")
            .and_then(serde_json::Value::as_str)
            .map(str::to_owned),
        virtual_size: value.get("virtual-size").and_then(serde_json::Value::as_u64),
    })
}

/// Why a disk could not be inspected.
pub enum InspectError {
    /// Something other than a file exists at the disk's path.
    NotAFile { path: String },
    /// qemu-img's output is not JSON.
    QemuInfoUnparsable,
    /// qemu-img reported no VMDK create type.
    MissingCreateType,
    /// The VMDK create type is not one of the four supported formats.
    UnsupportedFormat { create_type: String },
    /// qemu-img reported no capacity, or zero.
    MissingCapacity,
}

pub enum InspectErrorView {
    NotAFile { path: Seq<char> },
    QemuInfoUnparsable,
    MissingCreateType,
    UnsupportedFormat { create_type: Seq<char> },
    MissingCapacity,
}

impl View for InspectError {
    type V = InspectErrorView;

    open spec fn view(&self) -> InspectErrorView {
        match self {
            InspectError::NotAFile { path } => InspectErrorView::NotAFile { path: path@ },
            InspectError::QemuInfoUnparsable => InspectErrorView::QemuInfoUnparsable,
            InspectError::MissingCreateType => InspectErrorView::MissingCreateType,
            InspectError::UnsupportedFormat { create_type } => InspectErrorView::UnsupportedFormat { create_type: create_type@ },
            InspectError::MissingCapacity => InspectErrorView::MissingCapacity,
        }
    }
}

/// The message that describes an inspection error.
pub open spec fn inspect_error_message(e: InspectErrorView) -> Seq<char> {
    match e {
        InspectErrorView::NotAFile { path } => "disk path is not a file: "@ + path,
        InspectErrorView::QemuInfoUnparsable => "could not parse qemu-img disk information"@,
        InspectErrorView::MissingCreateType => "qemu-img did not report a VMDK create type"@,
        InspectErrorView::UnsupportedFormat { create_type } => "unsupported VMDK format: "@ + create_type,
        InspectErrorView::MissingCapacity => "qemu-img did not report a non-zero virtual disk capacity"@,
    }
}

impl InspectError {
    /// Describes the error.
    pub fn message(&self) -> (msg: String)
        ensures
            msg@ == inspect_error_message(self@),
    {
        match self {
            InspectError::NotAFile { path } => {
                let mut msg = String::from_str("disk path is not a file: ");
                msg.append(path.as_str());
                msg
            }
            InspectError::QemuInfoUnparsable => String::from_str("could not parse qemu-img disk information"),
            InspectError::MissingCreateType => String::from_str("qemu-img did not report a VMDK create type"),
            InspectError::UnsupportedFormat { create_type } => {
                let mut msg = String::from_str("unsupported VMDK format: ");
                msg.append(create_type.as_str());
                msg
            }
            InspectError::MissingCapacity => String::from_str("qemu-img did not report a non-zero virtual disk capacity"),
        }
    }
}

/// The format that a VMDK create type names, if it is a supported one.
pub open spec fn create_type_format(t: Seq<char>) -> Option<DiskFormat> {
    if t == "monolithicSparse"@ {
        Some(DiskFormat::Sparse)
    } else if t == "twoGbMaxExtentSparse"@ {
        Some(DiskFormat::SplitSparse)
    } else if t == "monolithicFlat"@ {
        Some(DiskFormat::Preallocated)
    } else if t == "twoGbMaxExtentFlat"@ {
        Some(DiskFormat::SplitPreallocated)
    } else {
        None
    }
}

/// The state of a disk as qemu-img describes it.
pub open spec fn state_from_info(info: QemuImgInfoView) -> Result<DiskState, InspectErrorView> {
    match info.create_type {
        None => Err(InspectErrorView::MissingCreateType),
        Some(t) => match create_type_format(t) {
            None => Err(InspectErrorView::UnsupportedFormat { create_type: t }),
            Some(format) => match info.virtual_size {
                Some(size) => if size > 0 {
                    Ok(DiskState { capacity_bytes: size, format })
                } else {
                    Err(InspectErrorView::MissingCapacity)
                },
                None => Err(InspectErrorView::MissingCapacity),
            },
        },
    }
}

/// The view of an inspection result for a disk state.
pub open spec fn state_result_view(r: Result<DiskState, InspectError>) -> Result<DiskState, InspectErrorView> {
    match r {
        Ok(s) => Ok(s),
        Err(e) => Err(e@),
    }
}

/// The format that a VMDK create type names, if supported.
pub fn format_of_create_type(t: &str) -> (format: Option<DiskFormat>)
    ensures
        format == create_type_format(t@),
{
    if str_equal(t, "monolithicSparse") {
        Some(DiskFormat::Sparse)
    } else if str_equal(t, "twoGbMaxExtentSparse") {
        Some(DiskFormat::SplitSparse)
    } else if str_equal(t, "monolithicFlat") {
        Some(DiskFormat::Preallocated)
    } else if str_equal(t, "twoGbMaxExtentFlat") {
        Some(DiskFormat::SplitPreallocated)
    } else {
        None
    }
}

/// The state of a disk from the facts that qemu-img reported.
pub fn state_from_qemu_img_info(info: QemuImgInfo) -> (res: Result<DiskState, InspectError>)
    ensures
        state_result_view(res) == state_from_info(info@),
{
    let create_type = match info.create_type {
        None => return Err(InspectError::MissingCreateType),
        Some(t) => t,
    };
    let format = match format_of_create_type(create_type.as_str()) {
        None => return Err(InspectError::UnsupportedFormat { create_type }),
        Some(f) => f,
    };
    match info.virtual_size {
        Some(size) => if size > 0 {
            Ok(DiskState { capacity_bytes: size, format })
        } else {
            Err(InspectError::MissingCapacity)
        },
        None => Err(InspectError::MissingCapacity),
    }
}

/// The state of a disk from the JSON that `qemu-img info --output=json`
/// printed for it.
pub fn read_state(json: &str) -> (res: Result<DiskState, InspectError>)
    ensures
        state_result_view(res) == match qemu_img_info(json@) {
            None => Err(InspectErrorView::QemuInfoUnparsable),
            Some(info) => state_from_info(info),
        },
{
    match parse_qemu_img_info(json) {
        None => Err(InspectError::QemuInfoUnparsable),
        Some(info) => state_from_qemu_img_info(info),
    }
}

/// What is found at a configured disk's path.
pub enum DiskFile {
    /// Nothing exists there.
    Missing,
    /// Something other than a regular file exists there.
    NotAFile,
    /// A disk file exists there, in this state, with this canonical path.
    Present { state: DiskState, canonical_path: String },
}

/// The disk that the configuration asks for.
pub fn configured_disk(disk: &VirtualDisk) -> (configured: ConfiguredDisk)
    ensures
        configured.path@ == disk.path@,
        configured.size == disk.size,
        configured.bus == disk.bus,
        is_preallocated(configured.format) == disk.preallocate,
        is_split(configured.format) == disk.split,
{
    ConfiguredDisk {
        path: String::from_str(disk.path.as_str()),
        size: disk.size,
        bus: disk.bus,
        format: DiskFormat::from_options(disk.preallocate, disk.split),
    }
}

/// Whether `inspected` records `disk` as configured, with what was found at
/// its path: a missing disk is known by its configured path, an existing one
/// by its canonical path.
pub open spec fn inspected_as(inspected: InspectedDiskView, disk: &VirtualDisk, file: &DiskFile) -> bool {
    &&& inspected.configured.path == disk.path@
    &&& inspected.configured.size == disk.size
    &&& inspected.configured.bus == disk.bus
    &&& is_preallocated(inspected.configured.format) == disk.preallocate
    &&& is_split(inspected.configured.format) == disk.split
    &&& match file {
        DiskFile::Present { state, canonical_path } => {
            &&& inspected.identity_path == canonical_path@
            &&& inspected.current_state == Some(*state)
        },
        _ => {
            &&& inspected.identity_path == disk.path@
            &&& inspected.current_state is None
        },
    }
}

/// Records a configured disk with what was found at its path; refuses a
/// path at which something other than a file exists.
pub fn inspect_disk(disk: &VirtualDisk, file: DiskFile) -> (res: Result<InspectedDisk, InspectError>)
    ensures
        match res {
            Ok(inspected) => !(file is NotAFile) && inspected_as(inspected@, disk, &file),
            Err(e) => file is NotAFile && e@ == InspectErrorView::NotAFile { path: disk.path@ },
        },
{
    let configured = configured_disk(disk);
    match file {
        DiskFile::NotAFile => Err(InspectError::NotAFile { path: String::from_str(disk.path.as_str()) }),
        DiskFile::Missing => Ok(InspectedDisk {
            identity_path: String::from_str(disk.path.as_str()),
            configured,
            current_state: None,
        }),
        DiskFile::Present { state, canonical_path } => Ok(InspectedDisk {
            configured,
            identity_path: canonical_path,
            current_state: Some(state),
        }),
    }
}

/// Records every configured disk, in order, with what was found at its path;
/// refuses at the first path at which something other than a file exists.
pub fn inspect_disks(disks: &Vec<VirtualDisk>, files: Vec<DiskFile>) -> (res: Result<Vec<InspectedDisk>, InspectError>)
    requires
        files@.len() == disks@.len(),
    ensures
        match res {
            Ok(inspected) => {
                &&& inspected@.len() == disks@.len()
                &&& forall|i: int| 0 <= i < disks@.len() ==> inspected_as(#[trigger] inspected@[i]@, &disks@[i], &files@[i])
            },
            Err(e) => exists|i: int| {
                &&& 0 <= i < disks@.len()
                &&& #[trigger] files@[i] is NotAFile
                &&& forall|j: int| 0 <= j < i ==> !(#[trigger] files@[j] is NotAFile)
                &&& e@ == InspectErrorView::NotAFile { path: disks@[i].path@ }
            },
        },
{
    let ghost original = files@;
    let mut remaining = files;
    let mut inspected: Vec<InspectedDisk> = Vec::new();
    let n = disks.len();
    assert(remaining@ =~= original.subrange(0, n as int));
    let mut i: usize = 0;
    while i < n
        invariant
            n == disks@.len(),
            original.len() == n,
            original == files@,
            i <= n,
            remaining@ =~= original.subrange(i as int, n as int),
            inspected@.len() == i,
            forall|j: int| 0 <= j < i ==> inspected_as(#[trigger] inspected@[j]@, &disks@[j], &original[j]),
            forall|j: int| 0 <= j < i ==> !(#[trigger] original[j] is NotAFile),
        decreases n - i,
    {
        let file = remaining.remove(0);
        assert(file == original[i as int]);
        assert(remaining@ =~= original.subrange(i + 1, n as int));
        match inspect_disk(&disks[i], file) {
            Ok(d) => inspected.push(d),
            Err(e) => {
                assert(original[i as int] is NotAFile);
                assert(files@[i as int] is NotAFile);
                return Err(e);
            }
        }
        i = i + 1;
    }
    Ok(inspected)
}

} // verus!
