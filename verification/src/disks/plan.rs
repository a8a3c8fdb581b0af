//! Planning the disk changes that bring the host in line with the
//! configuration.

use vstd::prelude::*;

use crate::paths::{optional_path_is, paths_equal, same_path};
use crate::schema::DiskBus;
use vstd::string::*;
use crate::text::{decimal, decimal_string, has_prefix, str_has_prefix};
use super::{
    Action, ActionView, AttachedDisk, AttachedDiskView, BYTES_PER_GIB, InspectedDisk,
    InspectedDiskView, Plan, Snapshot, SnapshotView, action_views, attached_views,
    inspected_views, opt_action_view,
};

verus! {

// Specification

/// Why no plan could be made.
pub enum PlanError {
    /// Two configured disks resolve to the same path.
    DuplicateDiskPaths,
    /// A configured size in GiB does not fit in a `u64` count of bytes.
    CapacityTooLarge,
    /// A configured size is smaller than the disk already is.
    ShrinkRejected { path: String, size: u64 },
}

pub enum PlanErrorView {
    DuplicateDiskPaths,
    CapacityTooLarge,
    ShrinkRejected { path: Seq<char>, size: u64 },
}

impl View for PlanError {
    type V = PlanErrorView;

    open spec fn view(&self) -> PlanErrorView {
        match self {
            PlanError::DuplicateDiskPaths => PlanErrorView::DuplicateDiskPaths,
            PlanError::CapacityTooLarge => PlanErrorView::CapacityTooLarge,
            PlanError::ShrinkRejected { path, size } => PlanErrorView::ShrinkRejected { path: path@, size: *size },
        }
    }
}

/// The message that describes why no plan could be made.
pub open spec fn plan_error_message(e: PlanErrorView) -> Seq<char> {
    match e {
        PlanErrorView::DuplicateDiskPaths => "disk paths must be unique"@,
        PlanErrorView::CapacityTooLarge => "configured disk capacity is too large"@,
        PlanErrorView::ShrinkRejected { path, size } => "cannot resize disk "@ + path
            + " below its current capacity (requested: "@ + decimal(size as nat) + " GiB)"@,
    }
}

impl PlanError {
    /// Describes the error.
    pub fn message(&self) -> (msg: String)
        ensures
            msg@ == plan_error_message(self@),
    {
        match self {
            PlanError::DuplicateDiskPaths => String::from_str("disk paths must be unique"),
            PlanError::CapacityTooLarge => String::from_str("configured disk capacity is too large"),
            PlanError::ShrinkRejected { path, size } => {
                let mut msg = String::from_str("cannot resize disk ");
                msg.append(path.as_str());
                msg.append(" below its current capacity (requested: ");
                msg.append(decimal_string(*size).as_str());
                msg.append(" GiB)");
                msg
            }
        }
    }
}

/// The bus that a device label names by its prefix, if it names one.
pub open spec fn bus_of_label(label: Seq<char>) -> Option<DiskBus> {
    if has_prefix(label, seq!['n', 'v', 'm', 'e']) {
        Some(DiskBus::Nvme)
    } else if has_prefix(label, seq!['s', 'a', 't', 'a']) {
        Some(DiskBus::Sata)
    } else {
        None
    }
}

/// Whether an attached disk is backed by the file of an inspected disk.
pub open spec fn backs(attached: AttachedDiskView, disk: InspectedDiskView) -> bool {
    match attached.canonical_path {
        Some(p) => same_path(p, disk.identity_path),
        None => false,
    }
}

/// Whether no two inspected disks resolve to the same path.
pub open spec fn identities_unique(disks: Seq<InspectedDiskView>) -> bool {
    forall|i: int, j: int|
        0 <= i < j < disks.len() ==> !same_path(#[trigger] disks[i].identity_path, #[trigger] disks[j].identity_path)
}

/// Whether `i` is the first attached disk that is backed by `disk`.
pub open spec fn is_first_backing(attached: Seq<AttachedDiskView>, disk: InspectedDiskView, i: int) -> bool {
    &&& 0 <= i < attached.len()
    &&& backs(attached[i], disk)
    &&& forall|j: int| 0 <= j < i ==> !backs(#[trigger] attached[j], disk)
}

/// Whether some attached disk is backed by `disk`.
pub open spec fn is_attached(attached: Seq<AttachedDiskView>, disk: InspectedDiskView) -> bool {
    exists|i: int| 0 <= i < attached.len() && backs(#[trigger] attached[i], disk)
}

/// Whether an attached disk is backed by some inspected disk.
pub open spec fn is_configured(disks: Seq<InspectedDiskView>, attached: AttachedDiskView) -> bool {
    exists|k: int| 0 <= k < disks.len() && backs(attached, #[trigger] disks[k])
}

/// The attachment change for a configured disk: move it when the first
/// device backed by it is not on the configured bus, attach it when no device
/// is backed by it.
pub open spec fn attachment_action(attached: Seq<AttachedDiskView>, disk: InspectedDiskView) -> Option<ActionView> {
    if is_attached(attached, disk) {
        let i = choose|i: int| is_first_backing(attached, disk, i);
        let label = attached[i].label;
        if bus_of_label(label) == Some(disk.configured.bus) {
            None
        } else {
            Some(ActionView::Move { from: label, to: disk.configured.bus })
        }
    } else {
        Some(ActionView::Attach { path: disk.configured.path, to: disk.configured.bus })
    }
}

/// Detach an attached disk that backs no configured disk.
pub open spec fn detach_action(disks: Seq<InspectedDiskView>, attached: AttachedDiskView) -> Option<ActionView> {
    if is_configured(disks, attached) {
        None
    } else {
        Some(ActionView::Detach { label: attached.label })
    }
}

/// Create a configured disk that does not exist yet.
pub open spec fn create_action(disk: InspectedDiskView) -> Option<ActionView> {
    if disk.current_state is None {
        Some(ActionView::Create { path: disk.configured.path, size: disk.configured.size, format: disk.configured.format })
    } else {
        None
    }
}

/// Convert an existing disk that is in another format than configured.
pub open spec fn convert_action(disk: InspectedDiskView) -> Option<ActionView> {
    match disk.current_state {
        Some(state) => if state.format != disk.configured.format {
            Some(ActionView::Convert { path: disk.configured.path, format: disk.configured.format })
        } else {
            None
        },
        None => None,
    }
}

/// The size change for an existing disk: expand it when the configured size
/// is larger, refuse when it is smaller.
pub open spec fn expansion(disk: InspectedDiskView) -> Result<Option<ActionView>, PlanErrorView> {
    match disk.current_state {
        None => Ok(None),
        Some(state) => {
            let requested = disk.configured.size as int * BYTES_PER_GIB as int;
            if requested > u64::MAX as int {
                Err(PlanErrorView::CapacityTooLarge)
            } else if requested < state.capacity_bytes as int {
                Err(PlanErrorView::ShrinkRejected { path: disk.configured.path, size: disk.configured.size })
            } else if requested > state.capacity_bytes as int {
                Ok(Some(ActionView::Expand { path: disk.configured.path, size: disk.configured.size }))
            } else {
                Ok(None)
            }
        }
    }
}

/// The actions that `f` gives for the elements of `s`, in order.
pub open spec fn collect<T>(s: Seq<T>, f: spec_fn(T) -> Option<ActionView>) -> Seq<ActionView>
    decreases s.len(),
{
    if s.len() == 0 {
        Seq::empty()
    } else {
        let prev = collect(s.drop_last(), f);
        match f(s.last()) {
            Some(a) => prev.push(a),
            None => prev,
        }
    }
}

/// The expansions of all disks, in order, or the first refusal.
pub open spec fn collect_expansions(s: Seq<InspectedDiskView>) -> Result<Seq<ActionView>, PlanErrorView>
    decreases s.len(),
{
    if s.len() == 0 {
        Ok(Seq::empty())
    } else {
        match collect_expansions(s.drop_last()) {
            Err(e) => Err(e),
            Ok(prev) => match expansion(s.last()) {
                Err(e) => Err(e),
                Ok(Some(a)) => Ok(prev.push(a)),
                Ok(None) => Ok(prev),
            },
        }
    }
}

pub open spec fn detachments(s: SnapshotView) -> Seq<ActionView> {
    collect(s.attached_disks, |a: AttachedDiskView| detach_action(s.inspected_disks, a))
}

pub open spec fn creations(s: SnapshotView) -> Seq<ActionView> {
    collect(s.inspected_disks, |d: InspectedDiskView| create_action(d))
}

pub open spec fn attachments(s: SnapshotView) -> Seq<ActionView> {
    collect(s.inspected_disks, |d: InspectedDiskView| attachment_action(s.attached_disks, d))
}

pub open spec fn conversions(s: SnapshotView) -> Seq<ActionView> {
    collect(s.inspected_disks, |d: InspectedDiskView| convert_action(d))
}

/// The plan for a snapshot: refused when two disks share a path, or when
/// some disk would have to shrink (the first such disk); otherwise the
/// detachments, creations, attachments, expansions and conversions, in that
/// order, each in the order of the disks.
pub open spec fn plan_spec(s: SnapshotView) -> Result<Seq<ActionView>, PlanErrorView> {
    if !identities_unique(s.inspected_disks) {
        Err(PlanErrorView::DuplicateDiskPaths)
    } else {
        match collect_expansions(s.inspected_disks) {
            Err(e) => Err(e),
            Ok(expansions) => Ok(
                detachments(s) + creations(s) + attachments(s) + expansions + conversions(s),
            ),
        }
    }
}

/// The view of a plan result.
pub open spec fn plan_result_view(r: Result<Plan, PlanError>) -> Result<Seq<ActionView>, PlanErrorView> {
    match r {
        Ok(p) => Ok(p@),
        Err(e) => Err(e@),
    }
}

// Proofs

proof fn lemma_collect_step<T>(s: Seq<T>, f: spec_fn(T) -> Option<ActionView>, i: int)
    requires
        0 <= i < s.len(),
    ensures
        collect(s.take(i + 1), f) == (match f(s[i]) {
            Some(a) => collect(s.take(i), f).push(a),
            None => collect(s.take(i), f),
        }),
{
    assert(s.take(i + 1).drop_last() =~= s.take(i));
    assert(s.take(i + 1).last() == s[i]);
}

proof fn lemma_collect_all<T>(s: Seq<T>, f: spec_fn(T) -> Option<ActionView>)
    ensures
        collect(s.take(s.len() as int), f) == collect(s, f),
        collect(s.take(0), f) == Seq::<ActionView>::empty(),
{
    assert(s.take(s.len() as int) =~= s);
    assert(s.take(0) =~= Seq::<T>::empty());
}

proof fn lemma_views_push(v: Seq<Action>, a: Action)
    ensures
        action_views(v.push(a)) == action_views(v).push(a@),
{
    assert(action_views(v.push(a)) =~= action_views(v).push(a@));
}

proof fn lemma_views_append(a: Seq<Action>, b: Seq<Action>)
    ensures
        action_views(a + b) == action_views(a) + action_views(b),
{
    assert(action_views(a + b) =~= action_views(a) + action_views(b));
}

// Implementation

fn clone_string(s: &String) -> (c: String)
    ensures
        c@ == s@,
{
    s.clone()
}

/// The bus that a device label names, if any.
pub fn bus_from_label(label: &str) -> (bus: Option<DiskBus>)
    ensures
        bus == bus_of_label(label@),
{
    proof {
        reveal_strlit("nvme");
        reveal_strlit("sata");
        assert("nvme"@ =~= seq!['n', 'v', 'm', 'e']);
        assert("sata"@ =~= seq!['s', 'a', 't', 'a']);
    }
    if str_has_prefix(label, "nvme") {
        Some(DiskBus::Nvme)
    } else if str_has_prefix(label, "sata") {
        Some(DiskBus::Sata)
    } else {
        None
    }
}

fn backs_exec(attached: &AttachedDisk, disk: &InspectedDisk) -> (res: bool)
    ensures
        res == backs(attached@, disk@),
{
    optional_path_is(&attached.canonical_path, &disk.identity_path)
}

/// The index of the first attached disk backed by `disk`.
fn find_backing(attached: &Vec<AttachedDisk>, disk: &InspectedDisk) -> (found: Option<usize>)
    ensures
        match found {
            Some(i) => is_first_backing(attached_views(attached@), disk@, i as int),
            None => !is_attached(attached_views(attached@), disk@),
        },
{
    let ghost views = attached_views(attached@);
    let n = attached.len();
    for i in 0..n
        invariant
            n == attached@.len(),
            views == attached_views(attached@),
            forall|j: int| 0 <= j < i ==> !backs(#[trigger] views[j], disk@),
    {
        if backs_exec(&attached[i], disk) {
            return Some(i);
        }
    }
    None
}

fn attachment_for(attached: &Vec<AttachedDisk>, disk: &InspectedDisk) -> (action: Option<Action>)
    ensures
        opt_action_view(action) == attachment_action(attached_views(attached@), disk@),
{
    let ghost views = attached_views(attached@);
    match find_backing(attached, disk) {
        Some(i) => {
            proof {
                let k = choose|k: int| is_first_backing(views, disk@, k);
                assert(is_first_backing(views, disk@, k));
                if k < i {
                    assert(!backs(views[k], disk@));
                } else if i < k {
                    assert(!backs(views[i as int], disk@));
                }
                assert(k == i);
            }
            let label = &attached[i].label;
            let bus = bus_from_label(label.as_str());
            if bus == Some(disk.configured.bus) {
                None
            } else {
                Some(Action::Move { from: clone_string(label), to: disk.configured.bus })
            }
        }
        None => Some(Action::Attach { path: clone_string(&disk.configured.path), to: disk.configured.bus }),
    }
}

fn is_configured_exec(disks: &Vec<InspectedDisk>, attached: &AttachedDisk) -> (res: bool)
    ensures
        res == is_configured(inspected_views(disks@), attached@),
{
    let ghost views = inspected_views(disks@);
    let n = disks.len();
    for k in 0..n
        invariant
            n == disks@.len(),
            views == inspected_views(disks@),
            forall|j: int| 0 <= j < k ==> !backs(attached@, #[trigger] views[j]),
    {
        if backs_exec(attached, &disks[k]) {
            assert(backs(attached@, views[k as int]));
            return true;
        }
    }
    false
}

/// The expansion that a disk needs, if any.
pub fn plan_expansion(disk: &InspectedDisk) -> (res: Result<Option<Action>, PlanError>)
    ensures
        match res {
            Ok(a) => expansion(disk@) == Ok::<Option<ActionView>, PlanErrorView>(opt_action_view(a)),
            Err(e) => expansion(disk@) == Err::<Option<ActionView>, PlanErrorView>(e@),
        },
{
    let current = match &disk.current_state {
        None => return Ok(None),
        Some(state) => *state,
    };
    let size = disk.configured.size;
    let requested = match size.checked_mul(BYTES_PER_GIB) {
        Some(bytes) => bytes,
        None => return Err(PlanError::CapacityTooLarge),
    };
    if requested < current.capacity_bytes {
        Err(PlanError::ShrinkRejected { path: clone_string(&disk.configured.path), size })
    } else if requested > current.capacity_bytes {
        Ok(Some(Action::Expand { path: clone_string(&disk.configured.path), size }))
    } else {
        Ok(None)
    }
}

fn check_unique(disks: &Vec<InspectedDisk>) -> (unique: bool)
    ensures
        unique == identities_unique(inspected_views(disks@)),
{
    let ghost views = inspected_views(disks@);
    let n = disks.len();
    for j in 0..n
        invariant
            n == disks@.len(),
            views == inspected_views(disks@),
            forall|a: int, b: int| 0 <= a < b < j ==> !same_path(#[trigger] views[a].identity_path, #[trigger] views[b].identity_path),
    {
        for i in 0..j
            invariant
                n == disks@.len(),
                j < n,
                views == inspected_views(disks@),
                forall|a: int, b: int| 0 <= a < b < j ==> !same_path(#[trigger] views[a].identity_path, #[trigger] views[b].identity_path),
                forall|a: int| 0 <= a < i ==> !same_path(#[trigger] views[a].identity_path, views[j as int].identity_path),
        {
            if paths_equal(disks[i].identity_path.as_str(), disks[j].identity_path.as_str()) {
                assert(same_path(views[i as int].identity_path, views[j as int].identity_path));
                return false;
            }
        }
    }
    true
}

/// Plans the disk changes for a snapshot, as `plan_spec` states.
pub fn plan(snapshot: Snapshot) -> (res: Result<Plan, PlanError>)
    ensures
        plan_result_view(res) == plan_spec(snapshot@),
{
    let ghost s = snapshot@;
    let disks = &snapshot.inspected_disks;
    let attached = &snapshot.attached_disks;
    let ghost dv = s.inspected_disks;
    let ghost av = s.attached_disks;

    if !check_unique(disks) {
        return Err(PlanError::DuplicateDiskPaths);
    }

    let n = disks.len();
    let m = attached.len();

    // Expansions, stopping at the first refusal
    let mut expansions: Vec<Action> = Vec::new();
    assert(dv.take(0) =~= Seq::<InspectedDiskView>::empty());
    assert(action_views(expansions@) =~= Seq::<ActionView>::empty());
    for i in 0..n
        invariant
            n == disks@.len(),
            dv == inspected_views(disks@),
            dv == s.inspected_disks,
            s == snapshot@,
            identities_unique(dv),
            collect_expansions(dv.take(i as int)) == Ok::<Seq<ActionView>, PlanErrorView>(action_views(expansions@)),
    {
        assert(dv.take(i + 1).drop_last() =~= dv.take(i as int));
        assert(dv.take(i + 1).last() == dv[i as int]);
        match plan_expansion(&disks[i]) {
            Err(e) => {
                proof {
                    assert(collect_expansions(dv.take(i + 1)) == Err::<Seq<ActionView>, PlanErrorView>(e@));
                    lemma_collect_expansions_err(dv, i as int + 1);
                    assert(collect_expansions(dv) == Err::<Seq<ActionView>, PlanErrorView>(e@));
                    assert(identities_unique(dv));
                    assert(plan_spec(s) == Err::<Seq<ActionView>, PlanErrorView>(e@));
                }
                return Err(e);
            }
            Ok(Some(a)) => {
                proof { lemma_views_push(expansions@, a); }
                expansions.push(a);
            }
            Ok(None) => {}
        }
    }
    assert(dv.take(n as int) =~= dv);

    // Detachments
    let ghost fd = |a: AttachedDiskView| detach_action(dv, a);
    let mut actions: Vec<Action> = Vec::new();
    proof { lemma_collect_all(av, fd); }
    for i in 0..m
        invariant
            m == attached@.len(),
            n == disks@.len(),
            dv == inspected_views(disks@),
            av == attached_views(attached@),
            fd == (|a: AttachedDiskView| detach_action(dv, a)),
            action_views(actions@) == collect(av.take(i as int), fd),
    {
        proof { lemma_collect_step(av, fd, i as int); }
        if !is_configured_exec(disks, &attached[i]) {
            let a = Action::Detach { label: clone_string(&attached[i].label) };
            proof { lemma_views_push(actions@, a); }
            actions.push(a);
        }
    }
    proof { lemma_collect_all(av, fd); }
    assert(action_views(actions@) == detachments(s));
    let ghost after_detach = action_views(actions@);

    // Creations
    let ghost fc = |d: InspectedDiskView| create_action(d);
    let mut creations: Vec<Action> = Vec::new();
    proof { lemma_collect_all(dv, fc); }
    for i in 0..n
        invariant
            n == disks@.len(),
            dv == inspected_views(disks@),
            fc == (|d: InspectedDiskView| create_action(d)),
            action_views(creations@) == collect(dv.take(i as int), fc),
    {
        proof { lemma_collect_step(dv, fc, i as int); }
        let disk = &disks[i];
        if disk.current_state.is_none() {
            let a = Action::Create {
                path: clone_string(&disk.configured.path),
                size: disk.configured.size,
                format: disk.configured.format,
            };
            proof { lemma_views_push(creations@, a); }
            creations.push(a);
        }
    }
    proof { lemma_collect_all(dv, fc); }

    // Attachments
    let ghost fa = |d: InspectedDiskView| attachment_action(av, d);
    let mut attachments: Vec<Action> = Vec::new();
    proof { lemma_collect_all(dv, fa); }
    for i in 0..n
        invariant
            n == disks@.len(),
            dv == inspected_views(disks@),
            av == attached_views(attached@),
            fa == (|d: InspectedDiskView| attachment_action(av, d)),
            action_views(attachments@) == collect(dv.take(i as int), fa),
    {
        proof { lemma_collect_step(dv, fa, i as int); }
        match attachment_for(attached, &disks[i]) {
            Some(a) => {
                proof { lemma_views_push(attachments@, a); }
                attachments.push(a);
            }
            None => {}
        }
    }
    proof { lemma_collect_all(dv, fa); }

    // Conversions
    let ghost fv = |d: InspectedDiskView| convert_action(d);
    let mut conversions: Vec<Action> = Vec::new();
    proof { lemma_collect_all(dv, fv); }
    for i in 0..n
        invariant
            n == disks@.len(),
            dv == inspected_views(disks@),
            fv == (|d: InspectedDiskView| convert_action(d)),
            action_views(conversions@) == collect(dv.take(i as int), fv),
    {
        proof { lemma_collect_step(dv, fv, i as int); }
        let disk = &disks[i];
        match &disk.current_state {
            Some(state) => {
                if state.format != disk.configured.format {
                    let a = Action::Convert { path: clone_string(&disk.configured.path), format: disk.configured.format };
                    proof { lemma_views_push(conversions@, a); }
                    conversions.push(a);
                }
            }
            None => {}
        }
    }
    proof { lemma_collect_all(dv, fv); }

    // Detach unconfigured disks first so moves and attachments can reuse their labels
    let ghost v1 = action_views(actions@);
    let ghost v2 = action_views(creations@);
    let ghost v3 = action_views(attachments@);
    let ghost v4 = action_views(expansions@);
    let ghost v5 = action_views(conversions@);
    proof {
        lemma_views_append(actions@, creations@);
        lemma_views_append(actions@ + creations@, attachments@);
        lemma_views_append(actions@ + creations@ + attachments@, expansions@);
        lemma_views_append(actions@ + creations@ + attachments@ + expansions@, conversions@);
    }
    actions.append(&mut creations);
    actions.append(&mut attachments);
    actions.append(&mut expansions);
    actions.append(&mut conversions);
    assert(action_views(actions@) == v1 + v2 + v3 + v4 + v5);
    Ok(Plan { actions })
}

proof fn lemma_collect_expansions_err(s: Seq<InspectedDiskView>, k: int)
    requires
        0 <= k <= s.len(),
        collect_expansions(s.take(k)) is Err,
    ensures
        collect_expansions(s) == collect_expansions(s.take(k)),
    decreases s.len() - k,
{
    if k == s.len() {
        assert(s.take(k) =~= s);
    } else {
        assert(s.take(k + 1).drop_last() =~= s.take(k));
        lemma_collect_expansions_err(s, k + 1);
    }
}

} // verus!
