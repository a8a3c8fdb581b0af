use vstd::prelude::*;

verus! {

/// How a VMDK stores its data.
#[derive(Debug, Clone, Copy, PartialEq, Eq, Structural)]
pub enum DiskFormat {
    Sparse,
    SplitSparse,
    Preallocated,
    SplitPreallocated,
}

/// Whether a format keeps all of its space allocated up front.
pub open spec fn is_preallocated(format: DiskFormat) -> bool {
    format is Preallocated || format is SplitPreallocated
}

/// Whether a format splits its data into extents of at most 2 GB.
pub open spec fn is_split(format: DiskFormat) -> bool {
    format is SplitSparse || format is SplitPreallocated
}

/// The numeric `-t` code by which `vmware-vdiskmanager` names a format.
pub open spec fn vdisk_type_code(format: DiskFormat) -> Seq<char> {
    match format {
        DiskFormat::Sparse => seq!['0'],
        DiskFormat::SplitSparse => seq!['1'],
        DiskFormat::Preallocated => seq!['2'],
        DiskFormat::SplitPreallocated => seq!['3'],
    }
}

/// The human-readable name of a format, as used in messages.
pub open spec fn format_name(format: DiskFormat) -> Seq<char> {
    match format {
        DiskFormat::Sparse => "sparse"@,
        DiskFormat::SplitSparse => "split sparse"@,
        DiskFormat::Preallocated => "preallocated"@,
        DiskFormat::SplitPreallocated => "split preallocated"@,
    }
}

impl DiskFormat {
    /// The format selected by the `preallocate` and `split` options of a disk.
    pub fn from_options(preallocate: bool, split: bool) -> (format: DiskFormat)
        ensures
            is_preallocated(format) == preallocate,
            is_split(format) == split,
    {
        match (preallocate, split) {
            (false, false) => DiskFormat::Sparse,
            (false, true) => DiskFormat::SplitSparse,
            (true, false) => DiskFormat::Preallocated,
            (true, true) => DiskFormat::SplitPreallocated,
        }
    }

    /// The `-t` code by which `vmware-vdiskmanager` names this format.
    pub fn vdisk_type(self) -> (code: &'static str)
        ensures
            code@ == vdisk_type_code(self),
    {
        proof {
            reveal_strlit("0");
            reveal_strlit("1");
            reveal_strlit("2");
            reveal_strlit("3");
        }
        match self {
            DiskFormat::Sparse => "0",
            DiskFormat::SplitSparse => "1",
            DiskFormat::Preallocated => "2",
            DiskFormat::SplitPreallocated => "3",
        }
    }

    /// The human-readable name of this format.
    pub fn name(self) -> (name: &'static str)
        ensures
            name@ == format_name(self),
    {
        match self {
            DiskFormat::Sparse => "sparse",
            DiskFormat::SplitSparse => "split sparse",
            DiskFormat::Preallocated => "preallocated",
            DiskFormat::SplitPreallocated => "split preallocated",
        }
    }
}

/// Each combination of the two options selects its own format, and every
/// format is selected by one: the options and the formats correspond one to
/// one, and so do the formats and their `-t` codes.
pub proof fn law_formats_correspond(a: DiskFormat, b: DiskFormat)
    ensures
        (is_preallocated(a) == is_preallocated(b) && is_split(a) == is_split(b)) ==> a == b,
        vdisk_type_code(a) == vdisk_type_code(b) ==> a == b,
{
    if vdisk_type_code(a) == vdisk_type_code(b) {
        assert(vdisk_type_code(a)[0] == vdisk_type_code(b)[0]);
    }
}

} // verus!
