//! What holds of every disk plan.

use vstd::prelude::*;

use super::{ActionView, AttachedDiskView, InspectedDiskView, SnapshotView};
use super::plan::{
    attachment_action, backs, bus_of_label, collect, collect_expansions, convert_action,
    create_action, detach_action, expansion, identities_unique, is_attached, is_configured,
    is_first_backing, plan_spec, PlanErrorView,
};
use crate::disks::BYTES_PER_GIB;

verus! {

/// Whether an action detaches a device.
pub open spec fn is_detach(a: ActionView) -> bool {
    a is Detach
}

proof fn lemma_collect_all_satisfy<T>(s: Seq<T>, f: spec_fn(T) -> Option<ActionView>, p: spec_fn(ActionView) -> bool)
    requires
        forall|i: int| 0 <= i < s.len() ==> (#[trigger] f(s[i]) matches Some(a) ==> p(a)),
    ensures
        forall|k: int| 0 <= k < collect(s, f).len() ==> p(#[trigger] collect(s, f)[k]),
    decreases s.len(),
{
    if s.len() > 0 {
        let t = s.drop_last();
        assert forall|i: int| 0 <= i < t.len() implies (#[trigger] f(t[i]) matches Some(a) ==> p(a)) by {
            assert(t[i] == s[i]);
        }
        lemma_collect_all_satisfy(t, f, p);
        assert(f(s[s.len() - 1]) matches Some(a) ==> p(a));
        let prev = collect(t, f);
        assert forall|k: int| 0 <= k < collect(s, f).len() implies p(#[trigger] collect(s, f)[k]) by {
            if k < prev.len() {
                assert(collect(s, f)[k] == prev[k]);
            }
        }
    }
}

proof fn lemma_collect_empty<T>(s: Seq<T>, f: spec_fn(T) -> Option<ActionView>)
    ensures
        collect(s, f).len() == 0 <==> forall|i: int| 0 <= i < s.len() ==> #[trigger] f(s[i]) is None,
    decreases s.len(),
{
    if s.len() > 0 {
        let t = s.drop_last();
        lemma_collect_empty(t, f);
        if collect(s, f).len() == 0 {
            assert forall|i: int| 0 <= i < s.len() implies #[trigger] f(s[i]) is None by {
                if i < s.len() - 1 {
                    assert(t[i] == s[i]);
                }
            }
        }
        if forall|i: int| 0 <= i < s.len() ==> #[trigger] f(s[i]) is None {
            assert forall|i: int| 0 <= i < t.len() implies #[trigger] f(t[i]) is None by {
                assert(t[i] == s[i]);
            }
            assert(f(s[s.len() - 1]) is None);
        }
    }
}

proof fn lemma_expansions_facts(s: Seq<InspectedDiskView>)
    ensures
        collect_expansions(s) is Err <==> exists|i: int| 0 <= i < s.len() && #[trigger] expansion(s[i]) is Err,
        collect_expansions(s) matches Ok(e) ==> forall|k: int| 0 <= k < e.len() ==> #[trigger] e[k] is Expand,
        collect_expansions(s) == Ok::<Seq<ActionView>, PlanErrorView>(Seq::empty())
            <==> forall|i: int| 0 <= i < s.len() ==> #[trigger] expansion(s[i]) == Ok::<Option<ActionView>, PlanErrorView>(None),
    decreases s.len(),
{
    if s.len() > 0 {
        let t = s.drop_last();
        let last = s.len() - 1;
        lemma_expansions_facts(t);
        assert forall|i: int| 0 <= i < t.len() implies #[trigger] t[i] == s[i] by {}
        if exists|i: int| 0 <= i < s.len() && #[trigger] expansion(s[i]) is Err {
            let i = choose|i: int| 0 <= i < s.len() && #[trigger] expansion(s[i]) is Err;
            if i < last {
                assert(expansion(t[i]) is Err);
            }
        }
        if collect_expansions(t) is Err {
            let i = choose|i: int| 0 <= i < t.len() && #[trigger] expansion(t[i]) is Err;
            assert(expansion(s[i]) is Err);
        }
        if forall|i: int| 0 <= i < s.len() ==> #[trigger] expansion(s[i]) == Ok::<Option<ActionView>, PlanErrorView>(None) {
            assert forall|i: int| 0 <= i < t.len() implies #[trigger] expansion(t[i]) == Ok::<Option<ActionView>, PlanErrorView>(None) by {
                assert(expansion(s[i]) == Ok::<Option<ActionView>, PlanErrorView>(None));
            }
            assert(expansion(s[last]) == Ok::<Option<ActionView>, PlanErrorView>(None));
        }
        if collect_expansions(s) == Ok::<Seq<ActionView>, PlanErrorView>(Seq::empty()) {
            assert(collect_expansions(t) is Ok);
            let prev = collect_expansions(t)->Ok_0;
            assert(expansion(s[last]) == Ok::<Option<ActionView>, PlanErrorView>(None)) by {
                if let Ok(Some(a)) = expansion(s[last]) {
                    assert(prev.push(a).len() > 0);
                }
            }
            assert(prev =~= Seq::<ActionView>::empty());
            assert(collect_expansions(t) == Ok::<Seq<ActionView>, PlanErrorView>(Seq::empty()));
            assert forall|i: int| 0 <= i < s.len() implies #[trigger] expansion(s[i]) == Ok::<Option<ActionView>, PlanErrorView>(None) by {
                if i < last {
                    assert(expansion(t[i]) == Ok::<Option<ActionView>, PlanErrorView>(None));
                }
            }
        }
        if collect_expansions(s) is Ok {
            let e = collect_expansions(s)->Ok_0;
            if let Ok(prev) = collect_expansions(t) {
                assert forall|k: int| 0 <= k < e.len() implies #[trigger] e[k] is Expand by {
                    if k < prev.len() {
                        assert(prev[k] is Expand);
                    }
                }
            }
        }
    }
}

/// Detachments come first: in every plan, no device is detached after an
/// action of another kind.
pub proof fn law_detachments_come_first(s: SnapshotView)
    ensures
        plan_spec(s) matches Ok(p) ==> forall|i: int, j: int|
            0 <= i < j < p.len() && #[trigger] is_detach(p[j]) ==> #[trigger] is_detach(p[i]),
{
    if let Ok(p) = plan_spec(s) {
        let ds = s.inspected_disks;
        let av = s.attached_disks;
        let fd = |a: AttachedDiskView| detach_action(ds, a);
        let fc = |d: InspectedDiskView| create_action(d);
        let fa = |d: InspectedDiskView| attachment_action(av, d);
        let fv = |d: InspectedDiskView| convert_action(d);
        let det = |a: ActionView| is_detach(a);
        let not_det = |a: ActionView| !is_detach(a);
        lemma_collect_all_satisfy(av, fd, det);
        lemma_collect_all_satisfy(ds, fc, not_det);
        lemma_collect_all_satisfy(ds, fa, not_det);
        lemma_collect_all_satisfy(ds, fv, not_det);
        lemma_expansions_facts(ds);
        let d1 = collect(av, fd);
        let c = collect(ds, fc);
        let a = collect(ds, fa);
        let e = collect_expansions(ds)->Ok_0;
        let v = collect(ds, fv);
        let rest = c + a + e + v;
        assert(p == d1 + rest) by {
            assert(p =~= d1 + rest);
        }
        assert forall|k: int| 0 <= k < rest.len() implies !is_detach(#[trigger] rest[k]) by {
            if k < c.len() {
                assert(not_det(c[k]));
            } else if k < c.len() + a.len() {
                assert(not_det(a[k - c.len()]));
            } else if k < c.len() + a.len() + e.len() {
                assert(e[k - c.len() - a.len()] is Expand);
            } else {
                assert(not_det(v[k - c.len() - a.len() - e.len()]));
            }
        }
        assert forall|i: int, j: int| 0 <= i < j < p.len() && #[trigger] is_detach(p[j]) implies #[trigger] is_detach(p[i]) by {
            if j >= d1.len() {
                assert(p[j] == rest[j - d1.len()]);
            }
            assert(j < d1.len());
            assert(p[i] == d1[i]);
            assert(det(d1[i]));
        }
    }
}

/// Whether a configured disk already matches its configuration: it exists in
/// its configured format and at exactly its configured size, and the first
/// device backed by it sits on its configured bus.
pub open spec fn disk_converged(av: Seq<AttachedDiskView>, d: InspectedDiskView) -> bool {
    &&& d.current_state is Some
    &&& d.current_state->0.format == d.configured.format
    &&& d.configured.size as int * BYTES_PER_GIB as int == d.current_state->0.capacity_bytes as int
    &&& exists|k: int| is_first_backing(av, d, k) && bus_of_label(#[trigger] av[k].label) == Some(d.configured.bus)
}

/// Whether the host already matches the configuration: the disk paths are
/// distinct, every configured disk matches its configuration, and every
/// attached device is backed by a configured disk.
pub open spec fn converged(s: SnapshotView) -> bool {
    &&& identities_unique(s.inspected_disks)
    &&& forall|i: int| 0 <= i < s.inspected_disks.len() ==> disk_converged(s.attached_disks, #[trigger] s.inspected_disks[i])
    &&& forall|j: int| 0 <= j < s.attached_disks.len() ==> is_configured(s.inspected_disks, #[trigger] s.attached_disks[j])
}

proof fn lemma_first_backing_unique(av: Seq<AttachedDiskView>, d: InspectedDiskView, i: int, k: int)
    requires
        is_first_backing(av, d, i),
        is_first_backing(av, d, k),
    ensures
        i == k,
{
    if i < k {
        assert(!backs(av[i], d));
    } else if k < i {
        assert(!backs(av[k], d));
    }
}

proof fn lemma_first_backing_exists(av: Seq<AttachedDiskView>, d: InspectedDiskView, i: int)
    requires
        0 <= i < av.len(),
        backs(av[i], d),
    ensures
        exists|k: int| is_first_backing(av, d, k),
    decreases i,
{
    if exists|j: int| 0 <= j < i && backs(#[trigger] av[j], d) {
        let j = choose|j: int| 0 <= j < i && backs(#[trigger] av[j], d);
        lemma_first_backing_exists(av, d, j);
    } else {
        assert(is_first_backing(av, d, i));
    }
}

proof fn lemma_disk_converged(av: Seq<AttachedDiskView>, d: InspectedDiskView)
    ensures
        disk_converged(av, d) <==> {
            &&& create_action(d) is None
            &&& convert_action(d) is None
            &&& attachment_action(av, d) is None
            &&& expansion(d) == Ok::<Option<ActionView>, PlanErrorView>(None)
        },
{
    if disk_converged(av, d) {
        let k = choose|k: int| is_first_backing(av, d, k) && bus_of_label(#[trigger] av[k].label) == Some(d.configured.bus);
        assert(backs(av[k], d));
        assert(is_attached(av, d));
        let c = choose|c: int| is_first_backing(av, d, c);
        lemma_first_backing_unique(av, d, c, k);
    }
    if is_attached(av, d) {
        let i = choose|i: int| 0 <= i < av.len() && backs(#[trigger] av[i], d);
        lemma_first_backing_exists(av, d, i);
    }
    if attachment_action(av, d) is None {
        assert(is_attached(av, d));
        let k = choose|k: int| is_first_backing(av, d, k);
        assert(is_first_backing(av, d, k));
        assert(bus_of_label(av[k].label) == Some(d.configured.bus));
    }
    if create_action(d) is None && convert_action(d) is None && attachment_action(av, d) is None
        && expansion(d) == Ok::<Option<ActionView>, PlanErrorView>(None) {
        assert(d.current_state is Some);
        let k = choose|k: int| is_first_backing(av, d, k);
        assert(is_first_backing(av, d, k) && bus_of_label(av[k].label) == Some(d.configured.bus));
        assert(disk_converged(av, d));
    }
}

proof fn lemma_converged_plan_empty(s: SnapshotView)
    requires
        converged(s),
    ensures
        plan_spec(s) == Ok::<Seq<ActionView>, PlanErrorView>(Seq::empty()),
{
    let ds = s.inspected_disks;
    let av = s.attached_disks;
    let fd = |a: AttachedDiskView| detach_action(ds, a);
    let fc = |d: InspectedDiskView| create_action(d);
    let fa = |d: InspectedDiskView| attachment_action(av, d);
    let fv = |d: InspectedDiskView| convert_action(d);
    assert forall|i: int| 0 <= i < ds.len() implies #[trigger] fc(ds[i]) is None && fv(ds[i]) is None
        && fa(ds[i]) is None && expansion(ds[i]) == Ok::<Option<ActionView>, PlanErrorView>(None) by {
        lemma_disk_converged(av, ds[i]);
    }
    assert forall|j: int| 0 <= j < av.len() implies #[trigger] fd(av[j]) is None by {}
    lemma_collect_empty(av, fd);
    lemma_collect_empty(ds, fc);
    lemma_collect_empty(ds, fa);
    lemma_collect_empty(ds, fv);
    lemma_expansions_facts(ds);
    let p = plan_spec(s)->Ok_0;
    assert(p =~= Seq::<ActionView>::empty());
}

proof fn lemma_plan_empty_converged(s: SnapshotView)
    requires
        plan_spec(s) == Ok::<Seq<ActionView>, PlanErrorView>(Seq::empty()),
    ensures
        converged(s),
{
    let ds = s.inspected_disks;
    let av = s.attached_disks;
    let fd = |a: AttachedDiskView| detach_action(ds, a);
    let fc = |d: InspectedDiskView| create_action(d);
    let fa = |d: InspectedDiskView| attachment_action(av, d);
    let fv = |d: InspectedDiskView| convert_action(d);
    assert(identities_unique(ds));
    lemma_expansions_facts(ds);
    let e = collect_expansions(ds)->Ok_0;
    let p = collect(av, fd) + collect(ds, fc) + collect(ds, fa) + e + collect(ds, fv);
    assert(p.len() == 0);
    lemma_collect_empty(av, fd);
    lemma_collect_empty(ds, fc);
    lemma_collect_empty(ds, fa);
    lemma_collect_empty(ds, fv);
    assert(e.len() == 0);
    assert(e =~= Seq::<ActionView>::empty());
    assert forall|i: int| 0 <= i < ds.len() implies disk_converged(av, #[trigger] ds[i]) by {
        assert(fc(ds[i]) is None);
        assert(fv(ds[i]) is None);
        assert(fa(ds[i]) is None);
        lemma_disk_converged(av, ds[i]);
    }
    assert forall|j: int| 0 <= j < av.len() implies is_configured(ds, #[trigger] av[j]) by {
        assert(fd(av[j]) is None);
    }
}

/// Planning is idempotent at the fixed point: the plan is empty exactly when
/// the host already matches the configuration.
pub proof fn law_plan_empty_iff_converged(s: SnapshotView)
    ensures
        plan_spec(s) == Ok::<Seq<ActionView>, PlanErrorView>(Seq::empty()) <==> converged(s),
{
    if converged(s) {
        lemma_converged_plan_empty(s);
    }
    if plan_spec(s) == Ok::<Seq<ActionView>, PlanErrorView>(Seq::empty()) {
        lemma_plan_empty_converged(s);
    }
}

proof fn lemma_collect_contains<T>(s: Seq<T>, f: spec_fn(T) -> Option<ActionView>, i: int)
    requires
        0 <= i < s.len(),
        f(s[i]) is Some,
    ensures
        collect(s, f).contains(f(s[i])->0),
    decreases s.len(),
{
    let t = s.drop_last();
    let prev = collect(t, f);
    if i < s.len() - 1 {
        assert(t[i] == s[i]);
        lemma_collect_contains(t, f, i);
        let k = choose|k: int| 0 <= k < prev.len() && prev[k] == f(s[i])->0;
        assert(collect(s, f)[k] == prev[k]);
    } else {
        assert(collect(s, f)[prev.len() as int] == f(s[i])->0);
    }
}

/// Every planned change is made: in every plan, each configured disk that
/// does not exist is created, each configured disk that no device is backed
/// by is attached on its configured bus, and each device that is backed by no
/// configured disk is detached.
pub proof fn law_plan_covers_every_disk(s: SnapshotView)
    ensures
        plan_spec(s) matches Ok(p) ==> {
            &&& forall|i: int| 0 <= i < s.inspected_disks.len() && (#[trigger] s.inspected_disks[i]).current_state is None
                ==> p.contains(ActionView::Create {
                    path: s.inspected_disks[i].configured.path,
                    size: s.inspected_disks[i].configured.size,
                    format: s.inspected_disks[i].configured.format,
                })
            &&& forall|i: int| 0 <= i < s.inspected_disks.len() && !is_attached(s.attached_disks, #[trigger] s.inspected_disks[i])
                ==> p.contains(ActionView::Attach {
                    path: s.inspected_disks[i].configured.path,
                    to: s.inspected_disks[i].configured.bus,
                })
            &&& forall|j: int| 0 <= j < s.attached_disks.len() && !is_configured(s.inspected_disks, #[trigger] s.attached_disks[j])
                ==> p.contains(ActionView::Detach { label: s.attached_disks[j].label })
        },
{
    if let Ok(p) = plan_spec(s) {
        let ds = s.inspected_disks;
        let av = s.attached_disks;
        let fd = |a: AttachedDiskView| detach_action(ds, a);
        let fc = |d: InspectedDiskView| create_action(d);
        let fa = |d: InspectedDiskView| attachment_action(av, d);
        let fv = |d: InspectedDiskView| convert_action(d);
        let d1 = collect(av, fd);
        let c = collect(ds, fc);
        let a = collect(ds, fa);
        let e = collect_expansions(ds)->Ok_0;
        let v = collect(ds, fv);
        assert(p =~= d1 + c + a + e + v);
        assert forall|i: int| 0 <= i < ds.len() && (#[trigger] ds[i]).current_state is None
            implies p.contains(ActionView::Create { path: ds[i].configured.path, size: ds[i].configured.size, format: ds[i].configured.format }) by {
            lemma_collect_contains(ds, fc, i);
            let k = choose|k: int| 0 <= k < c.len() && c[k] == fc(ds[i])->0;
            assert(p[d1.len() + k] == c[k]);
        }
        assert forall|i: int| 0 <= i < ds.len() && !is_attached(av, #[trigger] ds[i])
            implies p.contains(ActionView::Attach { path: ds[i].configured.path, to: ds[i].configured.bus }) by {
            lemma_collect_contains(ds, fa, i);
            let k = choose|k: int| 0 <= k < a.len() && a[k] == fa(ds[i])->0;
            assert(p[d1.len() + c.len() + k] == a[k]);
        }
        assert forall|j: int| 0 <= j < av.len() && !is_configured(ds, #[trigger] av[j])
            implies p.contains(ActionView::Detach { label: av[j].label }) by {
            lemma_collect_contains(av, fd, j);
            let k = choose|k: int| 0 <= k < d1.len() && d1[k] == fd(av[j])->0;
            assert(p[k] == d1[k]);
        }
    }
}

proof fn lemma_collect_origin<T>(s: Seq<T>, f: spec_fn(T) -> Option<ActionView>)
    ensures
        forall|k: int| #![trigger collect(s, f)[k]] 0 <= k < collect(s, f).len() ==> exists|i: int| 0 <= i < s.len() && #[trigger] f(s[i]) == Some(collect(s, f)[k]),
    decreases s.len(),
{
    if s.len() > 0 {
        let t = s.drop_last();
        lemma_collect_origin(t, f);
        let prev = collect(t, f);
        let c = collect(s, f);
        assert forall|k: int| #![trigger c[k]] 0 <= k < c.len() implies exists|i: int| 0 <= i < s.len() && #[trigger] f(s[i]) == Some(c[k]) by {
            if k < prev.len() {
                assert(c[k] == prev[k]);
                let i = choose|i: int| 0 <= i < t.len() && #[trigger] f(t[i]) == Some(prev[k]);
                assert(t[i] == s[i]);
            } else {
                assert(f(s[s.len() - 1]) == Some(c[k]));
            }
        }
    }
}

proof fn lemma_expansions_origin(s: Seq<InspectedDiskView>)
    ensures
        collect_expansions(s) is Ok ==> forall|k: int| #![trigger collect_expansions(s)->Ok_0[k]] 0 <= k < collect_expansions(s)->Ok_0.len() ==>
            exists|i: int| 0 <= i < s.len() && #[trigger] expansion(s[i]) == Ok::<Option<ActionView>, PlanErrorView>(Some(collect_expansions(s)->Ok_0[k])),
    decreases s.len(),
{
    if s.len() > 0 {
        let t = s.drop_last();
        lemma_expansions_origin(t);
        if collect_expansions(s) is Ok {
            let prev = collect_expansions(t)->Ok_0;
            let e = collect_expansions(s)->Ok_0;
            assert forall|k: int| #![trigger e[k]] 0 <= k < e.len() implies exists|i: int| 0 <= i < s.len()
                && #[trigger] expansion(s[i]) == Ok::<Option<ActionView>, PlanErrorView>(Some(e[k])) by {
                if k < prev.len() {
                    assert(e[k] == prev[k]);
                    let i = choose|i: int| 0 <= i < t.len() && #[trigger] expansion(t[i]) == Ok::<Option<ActionView>, PlanErrorView>(Some(prev[k]));
                    assert(t[i] == s[i]);
                } else {
                    assert(expansion(s[s.len() - 1]) == Ok::<Option<ActionView>, PlanErrorView>(Some(e[k])));
                }
            }
        }
    }
}

proof fn lemma_expansions_contains(s: Seq<InspectedDiskView>, i: int)
    requires
        0 <= i < s.len(),
        collect_expansions(s) is Ok,
        expansion(s[i]) matches Ok(Some(_)),
    ensures
        collect_expansions(s)->Ok_0.contains(expansion(s[i])->Ok_0->0),
    decreases s.len(),
{
    let t = s.drop_last();
    let e = collect_expansions(s)->Ok_0;
    if i < s.len() - 1 {
        assert(t[i] == s[i]);
        lemma_expansions_contains(t, i);
        let prev = collect_expansions(t)->Ok_0;
        let k = choose|k: int| 0 <= k < prev.len() && prev[k] == expansion(s[i])->Ok_0->0;
        assert(e[k] == prev[k]);
    } else {
        let prev = collect_expansions(t)->Ok_0;
        assert(e[prev.len() as int] == expansion(s[i])->Ok_0->0);
    }
}

/// An expansion grows a disk to exactly its configured size: when a disk
/// is planned to be expanded, the expansion names the disk's configured path
/// and configured size, and that size in bytes is more than the disk holds
/// now and fits in a `u64`.
pub proof fn law_expansion_targets_configured_size(d: InspectedDiskView)
    ensures
        expansion(d) matches Ok(Some(a)) ==> {
            &&& a == ActionView::Expand { path: d.configured.path, size: d.configured.size }
            &&& d.current_state is Some
            &&& d.configured.size as int * BYTES_PER_GIB as int > d.current_state->0.capacity_bytes as int
            &&& d.configured.size as int * BYTES_PER_GIB as int <= u64::MAX as int
        },
{
}

/// Every plan expands exactly the disks that are smaller than configured,
/// each to its configured size: each existing disk whose configured size in
/// bytes exceeds its capacity gets `Expand` with its configured path and
/// size, and every `Expand` in a plan is such an expansion of some disk.
pub proof fn law_expansions_reach_configured_size(s: SnapshotView)
    ensures
        plan_spec(s) matches Ok(p) ==> {
            &&& forall|i: int| 0 <= i < s.inspected_disks.len()
                && (#[trigger] s.inspected_disks[i]).current_state is Some
                && s.inspected_disks[i].configured.size as int * BYTES_PER_GIB as int
                    > s.inspected_disks[i].current_state->0.capacity_bytes as int
                ==> p.contains(ActionView::Expand {
                    path: s.inspected_disks[i].configured.path,
                    size: s.inspected_disks[i].configured.size,
                })
            &&& forall|k: int| 0 <= k < p.len() && (#[trigger] p[k]) is Expand ==> exists|i: int| {
                &&& 0 <= i < s.inspected_disks.len()
                &&& (#[trigger] s.inspected_disks[i]).current_state is Some
                &&& p[k] == ActionView::Expand {
                    path: s.inspected_disks[i].configured.path,
                    size: s.inspected_disks[i].configured.size,
                }
                &&& s.inspected_disks[i].configured.size as int * BYTES_PER_GIB as int
                    > s.inspected_disks[i].current_state->0.capacity_bytes as int
            }
        },
{
    if let Ok(p) = plan_spec(s) {
        let ds = s.inspected_disks;
        let (d1, c, a, e, v) = lemma_plan_parts(s);
        lemma_expansions_origin(ds);
        assert forall|i: int| 0 <= i < ds.len()
            && (#[trigger] ds[i]).current_state is Some
            && ds[i].configured.size as int * BYTES_PER_GIB as int > ds[i].current_state->0.capacity_bytes as int
            implies p.contains(ActionView::Expand { path: ds[i].configured.path, size: ds[i].configured.size }) by {
            lemma_expansions_facts(ds);
            if expansion(ds[i]) is Err {
                assert(collect_expansions(ds) is Err);
            }
            lemma_expansions_contains(ds, i);
            let k = choose|k: int| 0 <= k < e.len() && e[k] == expansion(ds[i])->Ok_0->0;
            assert(p[d1.len() + c.len() + a.len() + k] == e[k]);
        }
        assert forall|k: int| 0 <= k < p.len() && (#[trigger] p[k]) is Expand implies exists|i: int| {
            &&& 0 <= i < ds.len()
            &&& (#[trigger] ds[i]).current_state is Some
            &&& p[k] == ActionView::Expand { path: ds[i].configured.path, size: ds[i].configured.size }
            &&& ds[i].configured.size as int * BYTES_PER_GIB as int > ds[i].current_state->0.capacity_bytes as int
        } by {
            let j = k - d1.len() - c.len() - a.len();
            assert(0 <= j < e.len()) by {
                if k < d1.len() {
                    assert(p[k] == d1[k]);
                } else if k < d1.len() + c.len() {
                    assert(p[k] == c[k - d1.len()]);
                } else if k < d1.len() + c.len() + a.len() {
                    assert(p[k] == a[k - d1.len() - c.len()]);
                } else if k >= d1.len() + c.len() + a.len() + e.len() {
                    assert(p[k] == v[k - d1.len() - c.len() - a.len() - e.len()]);
                }
            }
            assert(p[k] == e[j]);
            let i = choose|i: int| 0 <= i < ds.len() && #[trigger] expansion(ds[i]) == Ok::<Option<ActionView>, PlanErrorView>(Some(e[j]));
            law_expansion_targets_configured_size(ds[i]);
        }
    }
}

/// The parts of a plan, with the kind of action each part holds.
proof fn lemma_plan_parts(s: SnapshotView) -> (parts: (Seq<ActionView>, Seq<ActionView>, Seq<ActionView>, Seq<ActionView>, Seq<ActionView>))
    requires
        plan_spec(s) is Ok,
    ensures
        ({
            let (d1, c, a, e, v) = parts;
            &&& plan_spec(s)->Ok_0 == d1 + c + a + e + v
            &&& d1 == collect(s.attached_disks, |x: AttachedDiskView| detach_action(s.inspected_disks, x))
            &&& c == collect(s.inspected_disks, |d: InspectedDiskView| create_action(d))
            &&& a == collect(s.inspected_disks, |d: InspectedDiskView| attachment_action(s.attached_disks, d))
            &&& collect_expansions(s.inspected_disks) == Ok::<Seq<ActionView>, PlanErrorView>(e)
            &&& v == collect(s.inspected_disks, |d: InspectedDiskView| convert_action(d))
            &&& forall|k: int| 0 <= k < d1.len() ==> (#[trigger] d1[k]) is Detach
            &&& forall|k: int| 0 <= k < c.len() ==> (#[trigger] c[k]) is Create
            &&& forall|k: int| 0 <= k < a.len() ==> (#[trigger] a[k]) is Attach || a[k] is Move
            &&& forall|k: int| 0 <= k < e.len() ==> (#[trigger] e[k]) is Expand
            &&& forall|k: int| 0 <= k < v.len() ==> (#[trigger] v[k]) is Convert
        }),
{
    let ds = s.inspected_disks;
    let av = s.attached_disks;
    let fd = |x: AttachedDiskView| detach_action(ds, x);
    let fc = |d: InspectedDiskView| create_action(d);
    let fa = |d: InspectedDiskView| attachment_action(av, d);
    let fv = |d: InspectedDiskView| convert_action(d);
    lemma_collect_all_satisfy(av, fd, |x: ActionView| x is Detach);
    lemma_collect_all_satisfy(ds, fc, |x: ActionView| x is Create);
    lemma_collect_all_satisfy(ds, fa, |x: ActionView| x is Attach || x is Move);
    lemma_collect_all_satisfy(ds, fv, |x: ActionView| x is Convert);
    lemma_expansions_facts(ds);
    let e = collect_expansions(ds)->Ok_0;
    let parts = (collect(av, fd), collect(ds, fc), collect(ds, fa), e, collect(ds, fv));
    assert(plan_spec(s)->Ok_0 =~= parts.0 + parts.1 + parts.2 + parts.3 + parts.4);
    parts
}

/// Every plan converts exactly the disks whose format differs from the
/// configured one, each to its configured format: each existing disk in
/// another format than configured gets `Convert` with its configured path
/// and configured format, and every `Convert` in a plan names the configured
/// path and format of an existing disk that is in another format now.
pub proof fn law_conversions_reach_configured_format(s: SnapshotView)
    ensures
        plan_spec(s) matches Ok(p) ==> {
            &&& forall|i: int| 0 <= i < s.inspected_disks.len()
                && (#[trigger] s.inspected_disks[i]).current_state is Some
                && s.inspected_disks[i].current_state->0.format != s.inspected_disks[i].configured.format
                ==> p.contains(ActionView::Convert {
                    path: s.inspected_disks[i].configured.path,
                    format: s.inspected_disks[i].configured.format,
                })
            &&& forall|k: int| 0 <= k < p.len() && (#[trigger] p[k]) is Convert ==> exists|i: int| {
                &&& 0 <= i < s.inspected_disks.len()
                &&& (#[trigger] s.inspected_disks[i]).current_state is Some
                &&& p[k] == ActionView::Convert {
                    path: s.inspected_disks[i].configured.path,
                    format: s.inspected_disks[i].configured.format,
                }
                &&& s.inspected_disks[i].current_state->0.format != s.inspected_disks[i].configured.format
            }
        },
{
    if let Ok(p) = plan_spec(s) {
        let ds = s.inspected_disks;
        let fv = |d: InspectedDiskView| convert_action(d);
        let (d1, c, a, e, v) = lemma_plan_parts(s);
        lemma_collect_origin(ds, fv);
        assert forall|i: int| 0 <= i < ds.len()
            && (#[trigger] ds[i]).current_state is Some
            && ds[i].current_state->0.format != ds[i].configured.format
            implies p.contains(ActionView::Convert { path: ds[i].configured.path, format: ds[i].configured.format }) by {
            lemma_collect_contains(ds, fv, i);
            let k = choose|k: int| 0 <= k < v.len() && v[k] == fv(ds[i])->0;
            assert(p[d1.len() + c.len() + a.len() + e.len() + k] == v[k]);
        }
        assert forall|k: int| 0 <= k < p.len() && (#[trigger] p[k]) is Convert implies exists|i: int| {
            &&& 0 <= i < ds.len()
            &&& (#[trigger] ds[i]).current_state is Some
            &&& p[k] == ActionView::Convert { path: ds[i].configured.path, format: ds[i].configured.format }
            &&& ds[i].current_state->0.format != ds[i].configured.format
        } by {
            let j = k - d1.len() - c.len() - a.len() - e.len();
            assert(0 <= j) by {
                if k < d1.len() {
                    assert(p[k] == d1[k]);
                } else if k < d1.len() + c.len() {
                    assert(p[k] == c[k - d1.len()]);
                } else if k < d1.len() + c.len() + a.len() {
                    assert(p[k] == a[k - d1.len() - c.len()]);
                } else if k < d1.len() + c.len() + a.len() + e.len() {
                    assert(p[k] == e[k - d1.len() - c.len() - a.len()]);
                }
            }
            assert(p[k] == v[j]);
            let i = choose|i: int| 0 <= i < ds.len() && #[trigger] fv(ds[i]) == Some(v[j]);
            assert(convert_action(ds[i]) == Some(v[j]));
        }
    }
}

/// A plan is refused exactly when two configured disks share a path, or when
/// some configured disk would have to shrink below its current capacity (or
/// its size in bytes overflows).
pub proof fn law_plan_refused_iff(s: SnapshotView)
    ensures
        plan_spec(s) is Err <==> (!identities_unique(s.inspected_disks)
            || exists|i: int| 0 <= i < s.inspected_disks.len() && #[trigger] expansion(s.inspected_disks[i]) is Err),
{
    lemma_expansions_facts(s.inspected_disks);
}

/// Shrinking is refused: when the paths are distinct and some existing disk
/// is configured smaller than it is, the plan is refused.
pub proof fn law_shrinking_is_refused(s: SnapshotView, i: int)
    requires
        0 <= i < s.inspected_disks.len(),
        s.inspected_disks[i].current_state matches Some(state)
            && s.inspected_disks[i].configured.size as int * (BYTES_PER_GIB as int) < (state.capacity_bytes as int),
    ensures
        plan_spec(s) is Err,
{
    lemma_expansions_facts(s.inspected_disks);
    assert(expansion(s.inspected_disks[i]) is Err);
}

} // verus!
