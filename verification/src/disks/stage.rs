//! Staging a disk plan: edits to the draft VMX now, disk file changes for
//! the commit.

use vstd::prelude::*;

use crate::args::{args_view, no_args, push_arg};
use crate::schema::DiskBus;
use super::format::DiskFormat;
use super::{Action, ActionView, Plan, action_views};

verus! {

/// A change to a disk file, made when the staged change is committed.
pub enum CommitAction {
    Create { path: String, size: u64, format: DiskFormat },
    Expand { path: String, size: u64 },
    Convert { path: String, format: DiskFormat },
}

pub enum CommitActionView {
    Create { path: Seq<char>, size: u64, format: DiskFormat },
    Expand { path: Seq<char>, size: u64 },
    Convert { path: Seq<char>, format: DiskFormat },
}

impl View for CommitAction {
    type V = CommitActionView;

    open spec fn view(&self) -> CommitActionView {
        match self {
            CommitAction::Create { path, size, format } => CommitActionView::Create { path: path@, size: *size, format: *format },
            CommitAction::Expand { path, size } => CommitActionView::Expand { path: path@, size: *size },
            CommitAction::Convert { path, format } => CommitActionView::Convert { path: path@, format: *format },
        }
    }
}

/// A change to the draft VMX, made with vmcli while staging.
pub enum DraftEdit {
    Move { from: String, to: DiskBus },
    Attach { path: String, to: DiskBus },
    Detach { label: String },
}

pub enum DraftEditView {
    Move { from: Seq<char>, to: DiskBus },
    Attach { path: Seq<char>, to: DiskBus },
    Detach { label: Seq<char> },
}

impl View for DraftEdit {
    type V = DraftEditView;

    open spec fn view(&self) -> DraftEditView {
        match self {
            DraftEdit::Move { from, to } => DraftEditView::Move { from: from@, to: *to },
            DraftEdit::Attach { path, to } => DraftEditView::Attach { path: path@, to: *to },
            DraftEdit::Detach { label } => DraftEditView::Detach { label: label@ },
        }
    }
}

/// The disk file changes that a commit will make, in order.
pub struct StagedChange {
    pub commit_actions: Vec<CommitAction>,
}

/// The views of a sequence of commit actions.
pub open spec fn commit_views(s: Seq<CommitAction>) -> Seq<CommitActionView> {
    s.map_values(|a: CommitAction| a@)
}

/// The views of a sequence of draft edits.
pub open spec fn edit_views(s: Seq<DraftEdit>) -> Seq<DraftEditView> {
    s.map_values(|a: DraftEdit| a@)
}

impl View for StagedChange {
    type V = Seq<CommitActionView>;

    open spec fn view(&self) -> Seq<CommitActionView> {
        commit_views(self.commit_actions@)
    }
}

/// A plan split into the edits of the draft and the staged disk file changes.
pub struct Staging {
    pub draft_edits: Vec<DraftEdit>,
    pub staged: StagedChange,
}

/// The disk file change that an action makes, if it is one.
pub open spec fn commit_part(a: ActionView) -> Option<CommitActionView> {
    match a {
        ActionView::Create { path, size, format } => Some(CommitActionView::Create { path, size, format }),
        ActionView::Expand { path, size } => Some(CommitActionView::Expand { path, size }),
        ActionView::Convert { path, format } => Some(CommitActionView::Convert { path, format }),
        _ => None,
    }
}

/// The draft edit that an action makes, if it is one.
pub open spec fn draft_part(a: ActionView) -> Option<DraftEditView> {
    match a {
        ActionView::Move { from, to } => Some(DraftEditView::Move { from, to }),
        ActionView::Attach { path, to } => Some(DraftEditView::Attach { path, to }),
        ActionView::Detach { label } => Some(DraftEditView::Detach { label }),
        _ => None,
    }
}

/// The results of `f` on the elements of `s` that it gives one for, in order.
pub open spec fn filter_map<T, U>(s: Seq<T>, f: spec_fn(T) -> Option<U>) -> Seq<U>
    decreases s.len(),
{
    if s.len() == 0 {
        Seq::empty()
    } else {
        let prev = filter_map(s.drop_last(), f);
        match f(s.last()) {
            Some(u) => prev.push(u),
            None => prev,
        }
    }
}

/// Splits a plan, keeping the order of each part: the moves, attachments and
/// detachments edit the draft; the creations, expansions and conversions are
/// staged for the commit.
pub fn stage(plan: Plan) -> (staging: Staging)
    ensures
        edit_views(staging.draft_edits@) == filter_map(plan@, |a: ActionView| draft_part(a)),
        staging.staged@ == filter_map(plan@, |a: ActionView| commit_part(a)),
{
    let ghost actions = plan@;
    let ghost fe = |a: ActionView| draft_part(a);
    let ghost fc = |a: ActionView| commit_part(a);
    let mut remaining = plan.actions;
    let mut edits: Vec<DraftEdit> = Vec::new();
    let mut commits: Vec<CommitAction> = Vec::new();
    let n = remaining.len();
    assert(actions.take(0) =~= Seq::<ActionView>::empty());
    assert(edit_views(edits@) =~= Seq::<DraftEditView>::empty());
    assert(commit_views(commits@) =~= Seq::<CommitActionView>::empty());
    let mut i: usize = 0;
    while i < n
        invariant
            i <= n,
            n == actions.len(),
            action_views(remaining@) == actions.subrange(i as int, n as int),
            fe == (|a: ActionView| draft_part(a)),
            fc == (|a: ActionView| commit_part(a)),
            edit_views(edits@) == filter_map(actions.take(i as int), fe),
            commit_views(commits@) == filter_map(actions.take(i as int), fc),
        decreases n - i,
    {
        let ghost r = remaining@;
        assert(action_views(r).len() == r.len());
        assert(action_views(r)[0] == r[0]@);
        assert(action_views(r)[0] == actions[i as int]);
        let action = remaining.remove(0);
        assert(remaining@ =~= r.subrange(1, r.len() as int));
        assert(action@ == actions[i as int]);
        assert forall|k: int| 0 <= k < remaining@.len() implies #[trigger] action_views(remaining@)[k] == actions.subrange(i + 1, n as int)[k] by {
            assert(remaining@[k] == r[k + 1]);
            assert(action_views(r)[k + 1] == r[k + 1]@);
            assert(actions.subrange(i as int, n as int)[k + 1] == actions.subrange(i + 1, n as int)[k]);
        }
        assert(action_views(remaining@) =~= actions.subrange(i + 1, n as int));
        assert(actions.take(i + 1).drop_last() =~= actions.take(i as int));
        assert(actions.take(i + 1).last() == actions[i as int]);
        let ghost before_edits = edits@;
        let ghost before_commits = commits@;
        match action {
            Action::Create { path, size, format } => commits.push(CommitAction::Create { path, size, format }),
            Action::Expand { path, size } => commits.push(CommitAction::Expand { path, size }),
            Action::Convert { path, format } => commits.push(CommitAction::Convert { path, format }),
            Action::Move { from, to } => edits.push(DraftEdit::Move { from, to }),
            Action::Attach { path, to } => edits.push(DraftEdit::Attach { path, to }),
            Action::Detach { label } => edits.push(DraftEdit::Detach { label }),
        }
        proof {
            if commits@.len() > before_commits.len() {
                assert(commits@ == before_commits.push(commits@.last()));
                assert(commit_views(commits@) =~= commit_views(before_commits).push(commits@.last()@));
            } else {
                assert(commits@ == before_commits);
            }
            if edits@.len() > before_edits.len() {
                assert(edits@ == before_edits.push(edits@.last()));
                assert(edit_views(edits@) =~= edit_views(before_edits).push(edits@.last()@));
            } else {
                assert(edits@ == before_edits);
            }
        }
        i = i + 1;
    }
    assert(actions.take(n as int) =~= actions);
    Staging { draft_edits: edits, staged: StagedChange { commit_actions: commits } }
}

/// Staging loses and duplicates nothing: every action of a plan goes either
/// to the draft edits or to the staged changes, never to both.
pub proof fn law_stage_partitions(actions: Seq<ActionView>)
    ensures
        filter_map(actions, |a: ActionView| draft_part(a)).len()
            + filter_map(actions, |a: ActionView| commit_part(a)).len() == actions.len(),
    decreases actions.len(),
{
    if actions.len() > 0 {
        law_stage_partitions(actions.drop_last());
    }
}

proof fn lemma_filter_map_contains<T, U>(s: Seq<T>, f: spec_fn(T) -> Option<U>, i: int)
    requires
        0 <= i < s.len(),
        f(s[i]) is Some,
    ensures
        filter_map(s, f).contains(f(s[i])->0),
    decreases s.len(),
{
    let t = s.drop_last();
    let prev = filter_map(t, f);
    if i < s.len() - 1 {
        assert(t[i] == s[i]);
        lemma_filter_map_contains(t, f, i);
        let k = choose|k: int| 0 <= k < prev.len() && prev[k] == f(s[i])->0;
        assert(filter_map(s, f)[k] == prev[k]);
    } else {
        assert(filter_map(s, f)[prev.len() as int] == f(s[i])->0);
    }
}

proof fn lemma_filter_map_origin<T, U>(s: Seq<T>, f: spec_fn(T) -> Option<U>)
    ensures
        forall|k: int| #![trigger filter_map(s, f)[k]] 0 <= k < filter_map(s, f).len() ==>
            exists|i: int| 0 <= i < s.len() && #[trigger] f(s[i]) == Some(filter_map(s, f)[k]),
    decreases s.len(),
{
    if s.len() > 0 {
        let t = s.drop_last();
        lemma_filter_map_origin(t, f);
        let prev = filter_map(t, f);
        let c = filter_map(s, f);
        assert forall|k: int| #![trigger c[k]] 0 <= k < c.len() implies exists|i: int| 0 <= i < s.len() && #[trigger] f(s[i]) == Some(c[k]) by {
            if k < prev.len() {
                assert(c[k] == prev[k]);
                let i = choose|i: int| 0 <= i < t.len() && #[trigger] f(t[i]) == Some(prev[k]);
                assert(t[i] == s[i]);
            } else {
                assert(f(s[s.len() - 1]) == Some(c[k]));
            }
        }
    }
}

/// Staging keeps every action as it is: each move, attachment and
/// detachment of the plan becomes a draft edit with the same label, path and
/// bus, and each creation, expansion and conversion becomes a staged change
/// with the same path, size and format; and every draft edit and staged
/// change is such a copy of an action of the plan.
pub proof fn law_stage_keeps_actions(actions: Seq<ActionView>)
    ensures
        ({
            let edits = filter_map(actions, |a: ActionView| draft_part(a));
            let commits = filter_map(actions, |a: ActionView| commit_part(a));
            &&& forall|i: int| 0 <= i < actions.len() ==> match #[trigger] actions[i] {
                ActionView::Move { from, to } => edits.contains(DraftEditView::Move { from, to }),
                ActionView::Attach { path, to } => edits.contains(DraftEditView::Attach { path, to }),
                ActionView::Detach { label } => edits.contains(DraftEditView::Detach { label }),
                ActionView::Create { path, size, format } => commits.contains(CommitActionView::Create { path, size, format }),
                ActionView::Expand { path, size } => commits.contains(CommitActionView::Expand { path, size }),
                ActionView::Convert { path, format } => commits.contains(CommitActionView::Convert { path, format }),
            }
            &&& forall|k: int| 0 <= k < edits.len() ==> match #[trigger] edits[k] {
                DraftEditView::Move { from, to } => actions.contains(ActionView::Move { from, to }),
                DraftEditView::Attach { path, to } => actions.contains(ActionView::Attach { path, to }),
                DraftEditView::Detach { label } => actions.contains(ActionView::Detach { label }),
            }
            &&& forall|k: int| 0 <= k < commits.len() ==> match #[trigger] commits[k] {
                CommitActionView::Create { path, size, format } => actions.contains(ActionView::Create { path, size, format }),
                CommitActionView::Expand { path, size } => actions.contains(ActionView::Expand { path, size }),
                CommitActionView::Convert { path, format } => actions.contains(ActionView::Convert { path, format }),
            }
        }),
{
    let fe = |a: ActionView| draft_part(a);
    let fc = |a: ActionView| commit_part(a);
    let edits = filter_map(actions, fe);
    let commits = filter_map(actions, fc);
    lemma_filter_map_origin(actions, fe);
    lemma_filter_map_origin(actions, fc);
    assert forall|i: int| 0 <= i < actions.len() implies match #[trigger] actions[i] {
        ActionView::Move { from, to } => edits.contains(DraftEditView::Move { from, to }),
        ActionView::Attach { path, to } => edits.contains(DraftEditView::Attach { path, to }),
        ActionView::Detach { label } => edits.contains(DraftEditView::Detach { label }),
        ActionView::Create { path, size, format } => commits.contains(CommitActionView::Create { path, size, format }),
        ActionView::Expand { path, size } => commits.contains(CommitActionView::Expand { path, size }),
        ActionView::Convert { path, format } => commits.contains(CommitActionView::Convert { path, format }),
    } by {
        if fe(actions[i]) is Some {
            lemma_filter_map_contains(actions, fe, i);
        } else {
            lemma_filter_map_contains(actions, fc, i);
        }
    }
    assert forall|k: int| 0 <= k < edits.len() implies match #[trigger] edits[k] {
        DraftEditView::Move { from, to } => actions.contains(ActionView::Move { from, to }),
        DraftEditView::Attach { path, to } => actions.contains(ActionView::Attach { path, to }),
        DraftEditView::Detach { label } => actions.contains(ActionView::Detach { label }),
    } by {
        let i = choose|i: int| 0 <= i < actions.len() && #[trigger] fe(actions[i]) == Some(edits[k]);
        assert(actions.contains(actions[i]));
    }
    assert forall|k: int| 0 <= k < commits.len() implies match #[trigger] commits[k] {
        CommitActionView::Create { path, size, format } => actions.contains(ActionView::Create { path, size, format }),
        CommitActionView::Expand { path, size } => actions.contains(ActionView::Expand { path, size }),
        CommitActionView::Convert { path, format } => actions.contains(ActionView::Convert { path, format }),
    } by {
        let i = choose|i: int| 0 <= i < actions.len() && #[trigger] fc(actions[i]) == Some(commits[k]);
        assert(actions.contains(actions[i]));
    }
}

/// The vmcli module and controller that a bus is managed by.
pub open spec fn bus_module(bus: DiskBus) -> (Seq<char>, Seq<char>) {
    match bus {
        DiskBus::Nvme => ("nvme"@, "nvme0"@),
        DiskBus::Sata => ("sata"@, "sata0"@),
    }
}

/// The vmcli module and controller that a bus is managed by.
pub fn bus_controller(bus: DiskBus) -> (names: (&'static str, &'static str))
    ensures
        (names.0@, names.1@) == bus_module(bus),
{
    match bus {
        DiskBus::Nvme => ("nvme", "nvme0"),
        DiskBus::Sata => ("sata", "sata0"),
    }
}

/// `vmcli <draft> <module> setpresent <controller> true`: makes the bus's
/// controller present.
pub fn enable_controller_args(draft_path: &str, bus: DiskBus) -> (args: Vec<String>)
    ensures
        args_view(args@) == seq![draft_path@, bus_module(bus).0, "setpresent"@, bus_module(bus).1, "true"@],
{
    let (module, controller) = bus_controller(bus);
    let mut args = no_args();
    push_arg(&mut args, draft_path);
    push_arg(&mut args, module);
    push_arg(&mut args, "setpresent");
    push_arg(&mut args, controller);
    push_arg(&mut args, "true");
    assert(args_view(args@) =~= seq![draft_path@, bus_module(bus).0, "setpresent"@, bus_module(bus).1, "true"@]);
    args
}

/// `vmcli <draft> <module> findfirstfree <controller> -f json`: asks for the
/// first free label on the bus's controller.
pub fn find_first_free_args(draft_path: &str, bus: DiskBus) -> (args: Vec<String>)
    ensures
        args_view(args@) == seq![draft_path@, bus_module(bus).0, "findfirstfree"@, bus_module(bus).1, "-f"@, "json"@],
{
    let (module, controller) = bus_controller(bus);
    let mut args = no_args();
    push_arg(&mut args, draft_path);
    push_arg(&mut args, module);
    push_arg(&mut args, "findfirstfree");
    push_arg(&mut args, controller);
    push_arg(&mut args, "-f");
    push_arg(&mut args, "json");
    assert(args_view(args@) =~= seq![draft_path@, bus_module(bus).0, "findfirstfree"@, bus_module(bus).1, "-f"@, "json"@]);
    args
}

/// `vmcli <draft> disk move <from> <target>`.
pub fn move_args(draft_path: &str, from: &str, target: &str) -> (args: Vec<String>)
    ensures
        args_view(args@) == seq![draft_path@, "disk"@, "move"@, from@, target@],
{
    let mut args = no_args();
    push_arg(&mut args, draft_path);
    push_arg(&mut args, "disk");
    push_arg(&mut args, "move");
    push_arg(&mut args, from);
    push_arg(&mut args, target);
    assert(args_view(args@) =~= seq![draft_path@, "disk"@, "move"@, from@, target@]);
    args
}

/// `vmcli <draft> disk setbackinginfo <label> disk <path> false`: points the
/// device at its backing file, before it is made present.
pub fn set_backing_args(draft_path: &str, label: &str, path: &str) -> (args: Vec<String>)
    ensures
        args_view(args@) == seq![draft_path@, "disk"@, "setbackinginfo"@, label@, "disk"@, path@, "false"@],
{
    let mut args = no_args();
    push_arg(&mut args, draft_path);
    push_arg(&mut args, "disk");
    push_arg(&mut args, "setbackinginfo");
    push_arg(&mut args, label);
    push_arg(&mut args, "disk");
    push_arg(&mut args, path);
    push_arg(&mut args, "false");
    assert(args_view(args@) =~= seq![draft_path@, "disk"@, "setbackinginfo"@, label@, "disk"@, path@, "false"@]);
    args
}

/// `vmcli <draft> disk setpresent <label> true`.
pub fn set_present_args(draft_path: &str, label: &str) -> (args: Vec<String>)
    ensures
        args_view(args@) == seq![draft_path@, "disk"@, "setpresent"@, label@, "true"@],
{
    let mut args = no_args();
    push_arg(&mut args, draft_path);
    push_arg(&mut args, "disk");
    push_arg(&mut args, "setpresent");
    push_arg(&mut args, label);
    push_arg(&mut args, "true");
    assert(args_view(args@) =~= seq![draft_path@, "disk"@, "setpresent"@, label@, "true"@]);
    args
}

/// `vmcli <draft> disk purge <label>`.
pub fn purge_args(draft_path: &str, label: &str) -> (args: Vec<String>)
    ensures
        args_view(args@) == seq![draft_path@, "disk"@, "purge"@, label@],
{
    let mut args = no_args();
    push_arg(&mut args, draft_path);
    push_arg(&mut args, "disk");
    push_arg(&mut args, "purge");
    push_arg(&mut args, label);
    assert(args_view(args@) =~= seq![draft_path@, "disk"@, "purge"@, label@]);
    args
}

} // verus!
