//! Applying a virtual machine configuration: planning the VMX file and the
//! disks together, deciding what a commit does, and reading the power state
//! that vmcli reports.

use vstd::prelude::*;
use vstd::string::*;

use crate::disks;
use crate::disks::plan::{plan_spec, PlanError, PlanErrorView, plan_result_view};
use crate::paths::{file_name, file_name_of, join, join_path};
use crate::schema::VirtualMachine;
use crate::text::{chars_of, chars_have_prefix, has_prefix, string_from_chars, chars_range, str_equal};
use crate::vmx;

verus! {

/// The VMX file and the disks as found.
pub struct Snapshot {
    pub vmx: vmx::Snapshot,
    pub disks: disks::Snapshot,
}

/// The changes to the VMX file and to the disks.
pub struct Plan {
    pub vmx: vmx::Plan,
    pub disks: disks::Plan,
}

/// The staged changes to the VMX file and to the disks.
pub struct StagedChange {
    pub vmx: vmx::StagedChange,
    pub disks: disks::stage::StagedChange,
}

/// Plans the disks and the VMX file; refused when the disks cannot be
/// planned.
pub fn plan(schema: &VirtualMachine, snapshot: Snapshot) -> (res: Result<Plan, PlanError>)
    ensures
        match res {
            Ok(p) => {
                &&& plan_spec(snapshot.disks@) == Ok::<Seq<disks::ActionView>, PlanErrorView>(p.disks@)
                &&& vmx::plan::entries_view(p.vmx.entries@) == vmx::plan::planned_entries(
                    schema.display_name@,
                    schema.guest_os@,
                    schema.vcpus,
                    schema.memory,
                    schema.secure_boot,
                    snapshot.vmx.raw_contents is None,
                )
                &&& p.vmx.snapshot == snapshot.vmx
                &&& p.vmx.guest_os@ == schema.guest_os@
            },
            Err(e) => plan_spec(snapshot.disks@) == Err::<Seq<disks::ActionView>, PlanErrorView>(e@),
        },
{
    let Snapshot { vmx: vmx_snapshot, disks: disk_snapshot } = snapshot;
    let disks = disks::plan::plan(disk_snapshot)?;
    let vmx = vmx::plan::plan(schema, vmx_snapshot);
    Ok(Plan { vmx, disks })
}

/// A step of committing staged changes.
#[derive(Debug, Clone, Copy, PartialEq, Eq, Structural)]
pub enum CommitStep {
    /// Make sure the virtual machine is shut down.
    EnsureStopped,
    /// Make the staged disk file changes.
    CommitDisks,
    /// Write the updated VMX file.
    CommitVmx,
}

/// The steps of a commit: when anything changes, first make sure the
/// machine is shut down; then the disks, if they change; then the VMX file,
/// if it changes.
pub open spec fn commit_plan(vmx_changed: bool, disks_changed: bool) -> Seq<CommitStep> {
    let stop = if vmx_changed || disks_changed { seq![CommitStep::EnsureStopped] } else { Seq::empty() };
    let d = if disks_changed { seq![CommitStep::CommitDisks] } else { Seq::empty() };
    let v = if vmx_changed { seq![CommitStep::CommitVmx] } else { Seq::empty() };
    stop + d + v
}

/// The steps that committing these staged changes takes, in order.
pub fn commit_steps(staged: &StagedChange) -> (steps: Vec<CommitStep>)
    ensures
        steps@ == commit_plan(
            !(staged.vmx.snapshot.raw_contents matches Some(c) && c@ == staged.vmx.updated_contents@),
            staged.disks@.len() != 0,
        ),
{
    let vmx_changed = !staged.vmx.is_noop();
    let disks_changed = !staged.disks.is_noop();
    let mut steps: Vec<CommitStep> = Vec::new();
    if vmx_changed || disks_changed {
        steps.push(CommitStep::EnsureStopped);
    }
    if disks_changed {
        steps.push(CommitStep::CommitDisks);
    }
    if vmx_changed {
        steps.push(CommitStep::CommitVmx);
    }
    assert(steps@ =~= commit_plan(vmx_changed, disks_changed));
    steps
}

/// A commit never changes a running machine: whenever it changes the disks
/// or the VMX file, its first step makes sure the machine is shut down, and
/// the disks are changed before the VMX file that refers to them. A commit
/// with nothing to change does nothing.
pub proof fn law_commit_stops_first(vmx_changed: bool, disks_changed: bool)
    ensures
        ({
            let steps = commit_plan(vmx_changed, disks_changed);
            &&& (vmx_changed || disks_changed) ==> steps[0] == CommitStep::EnsureStopped
            &&& steps.contains(CommitStep::CommitDisks) <==> disks_changed
            &&& steps.contains(CommitStep::CommitVmx) <==> vmx_changed
            &&& (disks_changed && vmx_changed) ==> steps =~= seq![CommitStep::EnsureStopped, CommitStep::CommitDisks, CommitStep::CommitVmx]
            &&& !(vmx_changed || disks_changed) ==> steps.len() == 0
        }),
{
    let steps = commit_plan(vmx_changed, disks_changed);
    if disks_changed {
        if vmx_changed {
            assert(steps[1] == CommitStep::CommitDisks);
            assert(steps[2] == CommitStep::CommitVmx);
        } else {
            assert(steps[1] == CommitStep::CommitDisks);
        }
    } else if vmx_changed {
        assert(steps[1] == CommitStep::CommitVmx);
    }
}

// Staging

/// Why the draft of a VMX file could not be placed.
pub enum StageError {
    /// The VMX path has no file name.
    MissingVmxFilename,
}

impl StageError {
    /// Describes the error.
    pub fn message(&self) -> (msg: String)
        ensures
            msg@ == "missing VMX filename"@,
    {
        String::from_str("missing VMX filename")
    }
}

/// Where the draft of a VMX file goes: in the staging directory, under the
/// VMX file's own name.
pub fn draft_path(staging_dir: &str, target_path: &str) -> (res: Result<String, StageError>)
    ensures
        match res {
            Ok(p) => file_name(target_path@) matches Some(name) && p@ == join(staging_dir@, name),
            Err(_) => file_name(target_path@) is None,
        },
{
    let chars = chars_of(target_path);
    match file_name_of(&chars) {
        None => Err(StageError::MissingVmxFilename),
        Some(name) => {
            let name = string_from_chars(&name);
            Ok(join_path(staging_dir, name.as_str()))
        }
    }
}

// Power state

/// Whether a character is white space, as `char::is_whitespace` decides.
pub open spec fn is_white_space(c: char) -> bool {
    ||| ('\u{9}' <= c && c <= '\u{d}')
    ||| c == ' '
    ||| c == '\u{85}'
    ||| c == '\u{a0}'
    ||| c == '\u{1680}'
    ||| ('\u{2000}' <= c && c <= '\u{200a}')
    ||| c == '\u{2028}'
    ||| c == '\u{2029}'
    ||| c == '\u{202f}'
    ||| c == '\u{205f}'
    ||| c == '\u{3000}'
}

fn is_white_space_exec(c: char) -> (res: bool)
    ensures
        res == is_white_space(c),
{
    ('\u{9}' <= c && c <= '\u{d}')
        || c == ' '
        || c == '\u{85}'
        || c == '\u{a0}'
        || c == '\u{1680}'
        || ('\u{2000}' <= c && c <= '\u{200a}')
        || c == '\u{2028}'
        || c == '\u{2029}'
        || c == '\u{202f}'
        || c == '\u{205f}'
        || c == '\u{3000}'
}

/// The characters without white space at either end, as `str::trim` leaves
/// them.
pub open spec fn trim(s: Seq<char>) -> Seq<char> {
    trim_end(trim_start(s))
}

pub open spec fn trim_start(s: Seq<char>) -> Seq<char>
    decreases s.len(),
{
    if s.len() > 0 && is_white_space(s[0]) { trim_start(s.drop_first()) } else { s }
}

pub open spec fn trim_end(s: Seq<char>) -> Seq<char>
    decreases s.len(),
{
    if s.len() > 0 && is_white_space(s.last()) { trim_end(s.drop_last()) } else { s }
}

proof fn lemma_trim_start(s: Seq<char>, k: int)
    requires
        0 <= k <= s.len(),
        forall|j: int| 0 <= j < k ==> is_white_space(#[trigger] s[j]),
        k < s.len() ==> !is_white_space(s[k]),
    ensures
        trim_start(s) == s.subrange(k, s.len() as int),
    decreases k,
{
    if k == 0 {
        assert(s.subrange(0, s.len() as int) =~= s);
    } else {
        let t = s.drop_first();
        assert forall|j: int| 0 <= j < k - 1 implies is_white_space(#[trigger] t[j]) by {
            assert(t[j] == s[j + 1]);
        }
        lemma_trim_start(t, k - 1);
        assert(t.subrange(k - 1, t.len() as int) =~= s.subrange(k, s.len() as int));
    }
}

proof fn lemma_trim_end(s: Seq<char>, k: int)
    requires
        0 <= k <= s.len(),
        forall|j: int| k <= j < s.len() ==> is_white_space(#[trigger] s[j]),
        k > 0 ==> !is_white_space(s[k - 1]),
    ensures
        trim_end(s) == s.subrange(0, k),
    decreases s.len() - k,
{
    if k == s.len() {
        assert(s.subrange(0, k) =~= s);
    } else {
        let t = s.drop_last();
        assert forall|j: int| k <= j < t.len() implies is_white_space(#[trigger] t[j]) by {
            assert(t[j] == s[j]);
        }
        lemma_trim_end(t, k);
        assert(t.subrange(0, k) =~= s.subrange(0, k));
    }
}

/// The characters without white space at either end.
pub fn trim_chars(s: &Vec<char>) -> (out: Vec<char>)
    ensures
        out@ == trim(s@),
{
    let n = s.len();
    let mut start: usize = 0;
    while start < n && is_white_space_exec(s[start])
        invariant
            n == s@.len(),
            start <= n,
            forall|j: int| 0 <= j < start ==> is_white_space(#[trigger] s@[j]),
        decreases n - start,
    {
        start = start + 1;
    }
    proof { lemma_trim_start(s@, start as int); }
    let ghost rest = s@.subrange(start as int, n as int);
    let mut end: usize = n;
    while end > start && is_white_space_exec(s[end - 1])
        invariant
            n == s@.len(),
            start <= end <= n,
            rest == s@.subrange(start as int, n as int),
            forall|j: int| end <= j < n ==> is_white_space(#[trigger] s@[j]),
        decreases end - start,
    {
        end = end - 1;
    }
    proof {
        assert forall|j: int| end - start <= j < rest.len() implies is_white_space(#[trigger] rest[j]) by {
            assert(rest[j] == s@[j + start]);
        }
        if end > start {
            assert(rest[end - start - 1] == s@[end - 1]);
        }
        lemma_trim_end(rest, end - start);
        assert(rest.subrange(0, end - start) =~= s@.subrange(start as int, end as int));
    }
    chars_range(s, start, end)
}

/// The lines of a text: the pieces between `\n` characters. (A `\r` before
/// the `\n` stays at the end of its line; trimming removes it.)
pub open spec fn lines(s: Seq<char>) -> Seq<Seq<char>> {
    scan_lines(s).0.push(scan_lines(s).1)
}

/// Reading a text left to right: the lines ended so far and the line in
/// progress.
pub open spec fn scan_lines(s: Seq<char>) -> (Seq<Seq<char>>, Seq<char>)
    decreases s.len(),
{
    if s.len() == 0 {
        (Seq::empty(), Seq::empty())
    } else {
        let prev = scan_lines(s.drop_last());
        if s.last() == '\n' {
            (prev.0.push(prev.1), Seq::empty())
        } else {
            (prev.0, prev.1.push(s.last()))
        }
    }
}

/// The prefix before a power state in vmcli's output.
pub open spec fn power_prefix() -> Seq<char> {
    "PowerState:"@
}

/// The power state in the first of the lines that starts with
/// `PowerState:`, trimmed, if there is such a line.
pub open spec fn first_power_state(lines: Seq<Seq<char>>) -> Option<Seq<char>>
    decreases lines.len(),
{
    if lines.len() == 0 {
        None
    } else if has_prefix(lines[0], power_prefix()) {
        Some(trim(lines[0].skip(power_prefix().len() as int)))
    } else {
        first_power_state(lines.drop_first())
    }
}

/// The power state that `vmcli <vmx> power query` reported.
pub open spec fn reported_power_state(output: Seq<char>) -> Option<Seq<char>> {
    first_power_state(lines(output))
}

proof fn lemma_first_power_state_skip(ls: Seq<Seq<char>>, i: int)
    requires
        0 <= i <= ls.len(),
        forall|j: int| 0 <= j < i ==> !has_prefix(#[trigger] ls[j], power_prefix()),
    ensures
        first_power_state(ls) == first_power_state(ls.skip(i)),
    decreases i,
{
    if i > 0 {
        let t = ls.drop_first();
        assert forall|j: int| 0 <= j < i - 1 implies !has_prefix(#[trigger] t[j], power_prefix()) by {
            assert(t[j] == ls[j + 1]);
        }
        lemma_first_power_state_skip(t, i - 1);
        assert(t.skip(i - 1) =~= ls.skip(i));
    } else {
        assert(ls.skip(0) =~= ls);
    }
}

/// The power state that vmcli reported in its output, if any.
pub fn power_state(output: &str) -> (state: Option<String>)
    ensures
        match state {
            Some(s) => reported_power_state(output@) == Some(s@),
            None => reported_power_state(output@) is None,
        },
{
    let chars = chars_of(output);
    let prefix = chars_of("PowerState:");
    let n = chars.len();
    // Split into lines
    let mut done: Vec<Vec<char>> = Vec::new();
    let mut cur: Vec<char> = Vec::new();
    assert(chars@.take(0) =~= Seq::<char>::empty());
    assert(crate::paths::views(done@) =~= Seq::<Seq<char>>::empty());
    for i in 0..n
        invariant
            n == chars@.len(),
            crate::paths::views(done@) == scan_lines(chars@.take(i as int)).0,
            cur@ == scan_lines(chars@.take(i as int)).1,
    {
        assert(chars@.take(i + 1).drop_last() =~= chars@.take(i as int));
        assert(chars@.take(i + 1).last() == chars@[i as int]);
        if chars[i] == '\n' {
            let line = cur;
            cur = Vec::new();
            let ghost before = done@;
            done.push(line);
            assert(crate::paths::views(done@) =~= crate::paths::views(before).push(line@));
        } else {
            cur.push(chars[i]);
        }
    }
    assert(chars@.take(n as int) =~= chars@);
    let ghost before = done@;
    done.push(cur);
    assert(crate::paths::views(done@) =~= crate::paths::views(before).push(cur@));
    let ghost ls = crate::paths::views(done@);
    assert(ls == lines(output@));
    // Find the first line with the prefix
    let m = done.len();
    for i in 0..m
        invariant
            m == done@.len(),
            ls == crate::paths::views(done@),
            ls == lines(output@),
            prefix@ == power_prefix(),
            forall|j: int| 0 <= j < i ==> !has_prefix(#[trigger] ls[j], power_prefix()),
    {
        let line = &done[i];
        assert(ls[i as int] == line@);
        if chars_have_prefix(line, &prefix) {
            proof {
                lemma_first_power_state_skip(ls, i as int);
                assert(ls.skip(i as int)[0] == line@);
            }
            let rest = chars_range(line, prefix.len(), line.len());
            assert(rest@ == line@.skip(power_prefix().len() as int));
            let trimmed = trim_chars(&rest);
            return Some(string_from_chars(&trimmed));
        }
    }
    proof {
        lemma_first_power_state_skip(ls, m as int);
        assert(ls.skip(m as int) =~= Seq::<Seq<char>>::empty());
    }
    None
}

/// Why changes cannot be applied to the machine now.
pub enum PowerError {
    /// vmcli reported no power state.
    NoPowerState,
    /// The machine is in another power state than `off`.
    NotShutDown { bundle_path: String, state: String },
}

pub enum PowerErrorView {
    NoPowerState,
    NotShutDown { bundle_path: Seq<char>, state: Seq<char> },
}

impl View for PowerError {
    type V = PowerErrorView;

    open spec fn view(&self) -> PowerErrorView {
        match self {
            PowerError::NoPowerState => PowerErrorView::NoPowerState,
            PowerError::NotShutDown { bundle_path, state } => PowerErrorView::NotShutDown { bundle_path: bundle_path@, state: state@ },
        }
    }
}

/// The message that describes why changes cannot be applied now.
pub open spec fn power_error_message(e: PowerErrorView) -> Seq<char> {
    match e {
        PowerErrorView::NoPowerState => "vmcli did not report a power state"@,
        PowerErrorView::NotShutDown { bundle_path, state } => bundle_path
            + " must be fully shut down before applying changes (current power state: "@ + state + ")"@,
    }
}

impl PowerError {
    /// Describes the error.
    pub fn message(&self) -> (msg: String)
        ensures
            msg@ == power_error_message(self@),
    {
        match self {
            PowerError::NoPowerState => String::from_str("vmcli did not report a power state"),
            PowerError::NotShutDown { bundle_path, state } => {
                let mut msg = String::from_str(bundle_path.as_str());
                msg.append(" must be fully shut down before applying changes (current power state: ");
                msg.append(state.as_str());
                msg.append(")");
                msg
            }
        }
    }
}

/// Whether vmcli's output shows the machine fully shut down: it reports a
/// power state, and that state is `off`.
pub fn check_stopped(bundle_path: &str, output: &str) -> (res: Result<(), PowerError>)
    ensures
        match res {
            Ok(()) => reported_power_state(output@) == Some("off"@),
            Err(PowerError::NoPowerState) => reported_power_state(output@) is None,
            Err(PowerError::NotShutDown { bundle_path: b, state }) => {
                &&& reported_power_state(output@) == Some(state@)
                &&& state@ != "off"@
                &&& b@ == bundle_path@
            },
        },
{
    match power_state(output) {
        None => Err(PowerError::NoPowerState),
        Some(state) => if str_equal(state.as_str(), "off") {
            Ok(())
        } else {
            Err(PowerError::NotShutDown { bundle_path: String::from_str(bundle_path), state })
        },
    }
}

} // verus!
