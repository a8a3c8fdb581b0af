//! Committing staged disk changes: the vmware-vdiskmanager command lines,
//! and the steps of a format conversion that never loses the original disk.

use vstd::prelude::*;
use vstd::string::*;

use crate::args::{args_view, no_args, push_arg};
use crate::text::{decimal, decimal_string};
use super::format::{vdisk_type_code, DiskFormat};
use super::stage::StagedChange;

verus! {

impl StagedChange {
    /// Whether committing would change nothing.
    pub fn is_noop(&self) -> (noop: bool)
        ensures
            noop == (self@.len() == 0),
    {
        self.commit_actions.len() == 0
    }
}

/// A size in GiB as vmware-vdiskmanager reads it: `<size>GB`.
pub open spec fn size_arg(size: u64) -> Seq<char> {
    decimal(size as nat) + "GB"@
}

fn size_arg_exec(size: u64) -> (arg: String)
    ensures
        arg@ == size_arg(size),
{
    let mut arg = decimal_string(size);
    arg.append("GB");
    arg
}

/// `vmware-vdiskmanager -c -s <size>GB -a lsilogic -t <type> -q <path>`:
/// creates a disk.
pub fn create_args(path: &str, size: u64, format: DiskFormat) -> (args: Vec<String>)
    ensures
        args_view(args@) == seq!["-c"@, "-s"@, size_arg(size), "-a"@, "lsilogic"@, "-t"@,
            vdisk_type_code(format), "-q"@, path@],
{
    let size_text = size_arg_exec(size);
    let mut args = no_args();
    push_arg(&mut args, "-c");
    push_arg(&mut args, "-s");
    push_arg(&mut args, size_text.as_str());
    push_arg(&mut args, "-a");
    push_arg(&mut args, "lsilogic");
    push_arg(&mut args, "-t");
    push_arg(&mut args, format.vdisk_type());
    push_arg(&mut args, "-q");
    push_arg(&mut args, path);
    assert(args_view(args@) =~= seq!["-c"@, "-s"@, size_arg(size), "-a"@, "lsilogic"@, "-t"@,
        vdisk_type_code(format), "-q"@, path@]);
    args
}

/// `vmware-vdiskmanager -x <size>GB -q <path>`: expands a disk.
pub fn expand_args(path: &str, size: u64) -> (args: Vec<String>)
    ensures
        args_view(args@) == seq!["-x"@, size_arg(size), "-q"@, path@],
{
    let size_text = size_arg_exec(size);
    let mut args = no_args();
    push_arg(&mut args, "-x");
    push_arg(&mut args, size_text.as_str());
    push_arg(&mut args, "-q");
    push_arg(&mut args, path);
    assert(args_view(args@) =~= seq!["-x"@, size_arg(size), "-q"@, path@]);
    args
}

/// `vmware-vdiskmanager -r <from> -t <type> -q <to>`: writes a copy of a
/// disk in another format.
pub fn convert_args(from: &str, to: &str, format: DiskFormat) -> (args: Vec<String>)
    ensures
        args_view(args@) == seq!["-r"@, from@, "-t"@, vdisk_type_code(format), "-q"@, to@],
{
    let mut args = no_args();
    push_arg(&mut args, "-r");
    push_arg(&mut args, from);
    push_arg(&mut args, "-t");
    push_arg(&mut args, format.vdisk_type());
    push_arg(&mut args, "-q");
    push_arg(&mut args, to);
    assert(args_view(args@) =~= seq!["-r"@, from@, "-t"@, vdisk_type_code(format), "-q"@, to@]);
    args
}

/// `vmware-vdiskmanager -n <from> -q <to>`: moves a disk with all its
/// extents.
pub fn move_disk_args(from: &str, to: &str) -> (args: Vec<String>)
    ensures
        args_view(args@) == seq!["-n"@, from@, "-q"@, to@],
{
    let mut args = no_args();
    push_arg(&mut args, "-n");
    push_arg(&mut args, from);
    push_arg(&mut args, "-q");
    push_arg(&mut args, to);
    assert(args_view(args@) =~= seq!["-n"@, from@, "-q"@, to@]);
    args
}

// Conversion

/// A step of converting a disk in place. The conversion works in a
/// workspace directory beside the disk, with a `converted` and a `backup`
/// directory in it.
#[derive(Debug, Clone, Copy, PartialEq, Eq, Structural)]
pub enum ConvertStep {
    /// Write the disk, in the new format, to the converted path.
    CreateConverted,
    /// Move the original disk to the backup path.
    MoveOriginalToBackup,
    /// Move the converted disk to the original path.
    InstallConverted,
    /// Move the backup back to the original path.
    RestoreOriginal,
    /// Remove the workspace, with the backup in it.
    RemoveWorkspace,
}

/// What happens to the workspace when a conversion ends.
#[derive(Debug, Clone, Copy, PartialEq, Eq, Structural)]
pub enum Workspace {
    /// It is removed (or already was).
    Removed,
    /// It is kept, so that its files can be recovered by hand.
    Kept,
}

/// How a conversion ended.
#[derive(Debug, Clone, Copy, PartialEq, Eq, Structural)]
pub enum ConvertOutcome {
    /// The converted disk replaced the original, and the backup is gone.
    Converted,
    /// The conversion itself failed; the original was never moved.
    ConversionFailed,
    /// The original could not be moved to the backup path.
    BackupFailed,
    /// The converted disk could not be installed; the original is back.
    InstallFailedRestored,
    /// The converted disk could not be installed, nor the original restored.
    InstallFailedRollbackFailed,
    /// The converted disk is installed, but the backup could not be removed.
    CleanupFailed,
}

/// What to do after a step.
#[derive(Debug, Clone, Copy, PartialEq, Eq, Structural)]
pub enum ConvertNext {
    Run(ConvertStep),
    Finish { outcome: ConvertOutcome, workspace: Workspace },
}

/// The first step of a conversion.
pub open spec fn convert_first() -> ConvertStep {
    ConvertStep::CreateConverted
}

/// What follows a step that succeeded or failed.
pub open spec fn convert_next_spec(step: ConvertStep, succeeded: bool) -> ConvertNext {
    match step {
        ConvertStep::CreateConverted => if succeeded {
            ConvertNext::Run(ConvertStep::MoveOriginalToBackup)
        } else {
            ConvertNext::Finish { outcome: ConvertOutcome::ConversionFailed, workspace: Workspace::Removed }
        },
        ConvertStep::MoveOriginalToBackup => if succeeded {
            ConvertNext::Run(ConvertStep::InstallConverted)
        } else {
            ConvertNext::Finish { outcome: ConvertOutcome::BackupFailed, workspace: Workspace::Kept }
        },
        ConvertStep::InstallConverted => if succeeded {
            ConvertNext::Run(ConvertStep::RemoveWorkspace)
        } else {
            ConvertNext::Run(ConvertStep::RestoreOriginal)
        },
        ConvertStep::RestoreOriginal => if succeeded {
            ConvertNext::Finish { outcome: ConvertOutcome::InstallFailedRestored, workspace: Workspace::Removed }
        } else {
            ConvertNext::Finish { outcome: ConvertOutcome::InstallFailedRollbackFailed, workspace: Workspace::Kept }
        },
        ConvertStep::RemoveWorkspace => if succeeded {
            ConvertNext::Finish { outcome: ConvertOutcome::Converted, workspace: Workspace::Removed }
        } else {
            ConvertNext::Finish { outcome: ConvertOutcome::CleanupFailed, workspace: Workspace::Removed }
        },
    }
}

/// The first step of a conversion.
pub fn convert_first_step() -> (step: ConvertStep)
    ensures
        step == convert_first(),
{
    ConvertStep::CreateConverted
}

/// What follows a step that succeeded or failed.
pub fn convert_next(step: ConvertStep, succeeded: bool) -> (next: ConvertNext)
    ensures
        next == convert_next_spec(step, succeeded),
{
    match step {
        ConvertStep::CreateConverted => if succeeded {
            ConvertNext::Run(ConvertStep::MoveOriginalToBackup)
        } else {
            ConvertNext::Finish { outcome: ConvertOutcome::ConversionFailed, workspace: Workspace::Removed }
        },
        ConvertStep::MoveOriginalToBackup => if succeeded {
            ConvertNext::Run(ConvertStep::InstallConverted)
        } else {
            ConvertNext::Finish { outcome: ConvertOutcome::BackupFailed, workspace: Workspace::Kept }
        },
        ConvertStep::InstallConverted => if succeeded {
            ConvertNext::Run(ConvertStep::RemoveWorkspace)
        } else {
            ConvertNext::Run(ConvertStep::RestoreOriginal)
        },
        ConvertStep::RestoreOriginal => if succeeded {
            ConvertNext::Finish { outcome: ConvertOutcome::InstallFailedRestored, workspace: Workspace::Removed }
        } else {
            ConvertNext::Finish { outcome: ConvertOutcome::InstallFailedRollbackFailed, workspace: Workspace::Kept }
        },
        ConvertStep::RemoveWorkspace => if succeeded {
            ConvertNext::Finish { outcome: ConvertOutcome::Converted, workspace: Workspace::Removed }
        } else {
            ConvertNext::Finish { outcome: ConvertOutcome::CleanupFailed, workspace: Workspace::Removed }
        },
    }
}

/// Where the original disk's data is.
#[derive(Debug, Clone, Copy, PartialEq, Eq, Structural)]
pub enum OriginalAt {
    /// At its own path.
    Path,
    /// Possibly anywhere in the workspace: at the backup path, or partly
    /// moved there.
    Workspace,
    /// Replaced on purpose by the converted disk.
    Superseded,
}

/// Where the original disk is, given the steps run and whether each
/// succeeded, in order.
pub open spec fn original_after(run: Seq<(ConvertStep, bool)>) -> OriginalAt
    decreases run.len(),
{
    if run.len() == 0 {
        OriginalAt::Path
    } else {
        let before = original_after(run.drop_last());
        let (step, ok) = run.last();
        match step {
            ConvertStep::MoveOriginalToBackup => OriginalAt::Workspace,
            ConvertStep::InstallConverted => if ok { OriginalAt::Superseded } else { before },
            ConvertStep::RestoreOriginal => if ok { OriginalAt::Path } else { before },
            _ => before,
        }
    }
}

/// Whether a run follows the machine: it starts with the first step, and
/// each later step is the one that the machine ran after the step before.
pub open spec fn is_run(run: Seq<(ConvertStep, bool)>) -> bool {
    &&& run.len() > 0 ==> run[0].0 == convert_first()
    &&& forall|i: int| 0 <= i < run.len() - 1 ==> #[trigger] follows(run, i)
}

/// Whether the step after `i` in a run is the one the machine chose.
pub open spec fn follows(run: Seq<(ConvertStep, bool)>, i: int) -> bool {
    convert_next_spec(run[i].0, run[i].1) == ConvertNext::Run(run[i + 1].0)
}

proof fn lemma_run_prefix(run: Seq<(ConvertStep, bool)>)
    requires
        is_run(run),
        run.len() > 0,
    ensures
        is_run(run.drop_last()),
{
    let t = run.drop_last();
    assert forall|i: int| 0 <= i < t.len() - 1 implies #[trigger] follows(t, i) by {
        assert(follows(run, i));
        assert(t[i] == run[i]);
        assert(t[i + 1] == run[i + 1]);
    }
}

proof fn lemma_original_along_run(run: Seq<(ConvertStep, bool)>)
    requires
        is_run(run),
    ensures
        run.len() > 0 ==> match run.last().0 {
            ConvertStep::CreateConverted => original_after(run) == OriginalAt::Path,
            ConvertStep::MoveOriginalToBackup => original_after(run) == OriginalAt::Workspace,
            ConvertStep::InstallConverted => original_after(run) == (if run.last().1 { OriginalAt::Superseded } else { OriginalAt::Workspace }),
            ConvertStep::RestoreOriginal => original_after(run) == (if run.last().1 { OriginalAt::Path } else { OriginalAt::Workspace }),
            ConvertStep::RemoveWorkspace => original_after(run) == OriginalAt::Superseded,
        },
    decreases run.len(),
{
    if run.len() > 1 {
        let t = run.drop_last();
        lemma_run_prefix(run);
        lemma_original_along_run(t);
        let k = run.len() - 1;
        assert(follows(run, k - 1));
        assert(t.last() == run[k - 1]);
        assert(run.last() == run[k]);
        let prev = run[k - 1];
        match prev.0 {
            ConvertStep::CreateConverted => { assert(prev.1 && run[k].0 == ConvertStep::MoveOriginalToBackup); }
            ConvertStep::MoveOriginalToBackup => { assert(prev.1 && run[k].0 == ConvertStep::InstallConverted); }
            ConvertStep::InstallConverted => {
                if prev.1 {
                    assert(run[k].0 == ConvertStep::RemoveWorkspace);
                } else {
                    assert(run[k].0 == ConvertStep::RestoreOriginal);
                }
            }
            _ => { assert(false); }
        }
    } else if run.len() == 1 {
        assert(run.drop_last() =~= Seq::<(ConvertStep, bool)>::empty());
        assert(run.last() == run[0]);
        assert(original_after(run.drop_last()) == OriginalAt::Path);
        assert(run[0].0 == ConvertStep::CreateConverted);
    }
}

/// A conversion never loses the original disk: when a run of the machine
/// finishes, the original is still (or again) at its path, or it was
/// replaced by the converted disk, or the workspace that holds it is kept;
/// and the run reports success exactly when the converted disk replaced it
/// and the workspace is gone.
pub proof fn law_conversion_keeps_original(run: Seq<(ConvertStep, bool)>)
    requires
        is_run(run),
        run.len() > 0,
    ensures
        convert_next_spec(run.last().0, run.last().1) matches ConvertNext::Finish { outcome, workspace } ==> {
            &&& (original_after(run) == OriginalAt::Path
                || original_after(run) == OriginalAt::Superseded
                || workspace == Workspace::Kept)
            &&& (outcome == ConvertOutcome::Converted <==> (original_after(run) == OriginalAt::Superseded && run.last().1 && workspace == Workspace::Removed && run.last().0 == ConvertStep::RemoveWorkspace))
        },
{
    lemma_original_along_run(run);
}

/// A conversion ends: every run of the machine is at most four steps long
/// before it finishes, since each step leads to a later one.
pub proof fn law_conversion_terminates(run: Seq<(ConvertStep, bool)>)
    requires
        is_run(run),
    ensures
        run.len() <= 4,
{
    if run.len() > 4 {
        assert(follows(run, 0));
        assert(follows(run, 1));
        assert(follows(run, 2));
        assert(follows(run, 3));
    }
}

} // verus!
