//! Choosing the VMX file of a bundle.

use vstd::prelude::*;
use vstd::string::*;

use crate::paths::{
    extension, extension_of, file_name, file_stem, file_stem_of, join, join_path, keeps_segment,
    last_dot, lemma_join_segments, lemma_last_dot_bounds, lemma_last_dot_of_suffix, lemma_segments_parts, no_separator,
    scan, segments,
};
use crate::text::chars_equal;

verus! {

/// Why no VMX file could be chosen.
pub enum VmxError {
    /// The bundle path has no file name to name a new VMX file after.
    MissingName,
    /// The bundle holds more than one VMX file.
    MultipleVmx { bundle_path: String },
}

pub enum VmxErrorView {
    MissingName,
    MultipleVmx { bundle_path: Seq<char> },
}

impl View for VmxError {
    type V = VmxErrorView;

    open spec fn view(&self) -> VmxErrorView {
        match self {
            VmxError::MissingName => VmxErrorView::MissingName,
            VmxError::MultipleVmx { bundle_path } => VmxErrorView::MultipleVmx { bundle_path: bundle_path@ },
        }
    }
}

/// The message that describes why no VMX file could be chosen.
pub open spec fn vmx_error_message(e: VmxErrorView) -> Seq<char> {
    match e {
        VmxErrorView::MissingName => "missing virtual machine name"@,
        VmxErrorView::MultipleVmx { bundle_path } => "multiple VMX files found in "@ + bundle_path,
    }
}

impl VmxError {
    /// Describes the error.
    pub fn message(&self) -> (msg: String)
        ensures
            msg@ == vmx_error_message(self@),
    {
        match self {
            VmxError::MissingName => String::from_str("missing virtual machine name"),
            VmxError::MultipleVmx { bundle_path } => {
                let mut msg = String::from_str("multiple VMX files found in ");
                msg.append(bundle_path.as_str());
                msg
            }
        }
    }
}

/// Whether a path has the extension `vmx`.
pub open spec fn is_vmx(path: Seq<char>) -> bool {
    extension(path) == Some(seq!['v', 'm', 'x'])
}

/// The VMX files among the entries of a bundle, in order.
pub open spec fn vmx_files(entries: Seq<Seq<char>>) -> Seq<Seq<char>> {
    entries.filter(|p: Seq<char>| is_vmx(p))
}

/// The VMX file to manage in a bundle: its only VMX file; when it has none,
/// one named after the bundle (`<bundle>/<stem>.vmx`); when it has several,
/// none.
pub open spec fn resolved_path(bundle_path: Seq<char>, entries: Seq<Seq<char>>) -> Result<Seq<char>, VmxErrorView> {
    let vmx = vmx_files(entries);
    if vmx.len() == 0 {
        match file_stem(bundle_path) {
            None => Err(VmxErrorView::MissingName),
            Some(stem) => Ok(join(bundle_path, stem + seq!['.', 'v', 'm', 'x'])),
        }
    } else if vmx.len() == 1 {
        Ok(vmx[0])
    } else {
        Err(VmxErrorView::MultipleVmx { bundle_path })
    }
}

/// A new VMX file is named after its bundle: when a bundle holds no VMX
/// file, the chosen one lies directly in the bundle, has the extension `vmx`,
/// and has the bundle's stem as its stem; when it holds exactly one, that one
/// is chosen. Either way the chosen file has the extension `vmx`.
pub proof fn law_chosen_vmx_is_named_for_bundle(bundle_path: Seq<char>, entries: Seq<Seq<char>>)
    ensures
        resolved_path(bundle_path, entries) matches Ok(p) ==> is_vmx(p),
        (vmx_files(entries).len() == 0 && resolved_path(bundle_path, entries) is Ok) ==> ({
            let p = resolved_path(bundle_path, entries)->Ok_0;
            &&& segments(p) == segments(bundle_path).push(file_name(p)->0)
            &&& file_stem(p) == file_stem(bundle_path)
        }),
{
    let vmx = vmx_files(entries);
    if vmx.len() == 1 {
        assert(vmx.contains(vmx[0]));
        entries.lemma_filter_pred(|p: Seq<char>| is_vmx(p), 0);
    } else if vmx.len() == 0 {
        if let Some(stem) = file_stem(bundle_path) {
            let ext = seq!['v', 'm', 'x'];
            let name = stem + seq!['.'] + ext;
            assert(stem + seq!['.', 'v', 'm', 'x'] =~= name);
            lemma_segments_parts(bundle_path);
            let segs = segments(bundle_path);
            let fname = segs.last();
            assert(no_separator(fname) && keeps_segment(fname));
            let dot = last_dot(fname);
            lemma_last_dot_bounds(fname);
            assert(file_name(bundle_path) == Some(fname));
            assert(stem.len() > 0) by {
                if dot > 0 {
                    assert(stem =~= fname.subrange(0, dot));
                }
            }
            assert(no_separator(stem)) by {
                if dot > 0 {
                    assert forall|i: int| 0 <= i < stem.len() implies stem[i] != '/' by {
                        assert(stem[i] == fname[i]);
                    }
                }
            }
            assert(no_separator(name)) by {
                assert forall|i: int| 0 <= i < name.len() implies name[i] != '/' by {
                    if i < stem.len() {
                        assert(name[i] == stem[i]);
                    }
                }
            }
            assert(name != seq!['.', '.']) by {
                if name == seq!['.', '.'] {
                    assert(name.len() == 2);
                }
            }
            assert(keeps_segment(name)) by {
                if name == seq!['.'] {
                    assert(name.len() == 1);
                }
            }
            assert(bundle_path.len() > 0) by {
                if bundle_path.len() == 0 {
                    assert(bundle_path =~= Seq::<char>::empty());
                    assert(scan(bundle_path).0.len() == 0);
                }
            }
            lemma_join_segments(bundle_path, name);
            let p = join(bundle_path, name);
            assert(segments(p).last() == name);
            assert(file_name(p) == Some(name));
            lemma_last_dot_of_suffix(stem, ext);
            assert(name.subrange(stem.len() as int + 1, name.len() as int) =~= ext);
            assert(name.subrange(0, stem.len() as int) =~= stem);
        }
    }
}

proof fn lemma_filter_none(s: Seq<Seq<char>>, pred: spec_fn(Seq<char>) -> bool)
    requires
        forall|i: int| 0 <= i < s.len() ==> !pred(#[trigger] s[i]),
    ensures
        s.filter(pred).len() == 0,
    decreases s.len(),
{
    reveal(Seq::filter);
    if s.len() > 0 {
        let t = s.drop_last();
        assert forall|i: int| 0 <= i < t.len() implies !pred(#[trigger] t[i]) by {
            assert(t[i] == s[i]);
        }
        lemma_filter_none(t, pred);
        assert(!pred(s[s.len() - 1]));
    }
}

proof fn lemma_filter_single(s: Seq<Seq<char>>, pred: spec_fn(Seq<char>) -> bool, i: int)
    requires
        0 <= i < s.len(),
        pred(s[i]),
        forall|j: int| 0 <= j < s.len() && j != i ==> !pred(#[trigger] s[j]),
    ensures
        s.filter(pred) == seq![s[i]],
    decreases s.len(),
{
    reveal(Seq::filter);
    let t = s.drop_last();
    if i == s.len() - 1 {
        assert forall|j: int| 0 <= j < t.len() implies !pred(#[trigger] t[j]) by {
            assert(t[j] == s[j]);
        }
        lemma_filter_none(t, pred);
        assert(t.filter(pred) =~= Seq::<Seq<char>>::empty());
        assert(s.filter(pred) =~= seq![s[i]]);
    } else {
        assert forall|j: int| 0 <= j < t.len() && j != i implies !pred(#[trigger] t[j]) by {
            assert(t[j] == s[j]);
        }
        assert(t[i] == s[i]);
        lemma_filter_single(t, pred, i);
        assert(!pred(s[s.len() - 1]));
    }
}

proof fn lemma_filter_two(s: Seq<Seq<char>>, pred: spec_fn(Seq<char>) -> bool, i: int, j: int)
    requires
        0 <= i < j < s.len(),
        pred(s[i]),
        pred(s[j]),
    ensures
        s.filter(pred).len() >= 2,
    decreases s.len(),
{
    reveal(Seq::filter);
    let t = s.drop_last();
    assert(t[i] == s[i]);
    if j == s.len() - 1 {
        s.lemma_filter_contains(pred, i);
        t.lemma_filter_contains(pred, i);
        assert(t.filter(pred).len() >= 1);
    } else {
        assert(t[j] == s[j]);
        lemma_filter_two(t, pred, i, j);
    }
}

/// A bundle entry is a VMX file exactly when its extension is `vmx`: with
/// one such entry, whatever else the bundle holds (such as `test.vmxf`,
/// `test.vmx.bak` or `test.nvram`), that entry is chosen; with two or more
/// the bundle is refused; with none, a new file is chosen exactly when the
/// bundle path has a file stem.
pub proof fn law_vmx_chosen_by_extension(bundle_path: Seq<char>, entries: Seq<Seq<char>>)
    ensures
        forall|i: int| 0 <= i < entries.len()
            && extension(#[trigger] entries[i]) == Some(seq!['v', 'm', 'x'])
            && (forall|j: int| 0 <= j < entries.len() && j != i ==> extension(entries[j]) != Some(seq!['v', 'm', 'x']))
            ==> resolved_path(bundle_path, entries) == Ok::<Seq<char>, VmxErrorView>(entries[i]),
        (exists|i: int, j: int| 0 <= i < j < entries.len()
            && extension(#[trigger] entries[i]) == Some(seq!['v', 'm', 'x'])
            && extension(#[trigger] entries[j]) == Some(seq!['v', 'm', 'x']))
            ==> resolved_path(bundle_path, entries) == Err::<Seq<char>, VmxErrorView>(VmxErrorView::MultipleVmx { bundle_path }),
        (forall|i: int| 0 <= i < entries.len() ==> extension(#[trigger] entries[i]) != Some(seq!['v', 'm', 'x']))
            ==> (resolved_path(bundle_path, entries) is Ok <==> file_stem(bundle_path) is Some),
{
    let pred = |p: Seq<char>| is_vmx(p);
    assert forall|i: int| 0 <= i < entries.len()
        && extension(#[trigger] entries[i]) == Some(seq!['v', 'm', 'x'])
        && (forall|j: int| 0 <= j < entries.len() && j != i ==> extension(entries[j]) != Some(seq!['v', 'm', 'x']))
        implies resolved_path(bundle_path, entries) == Ok::<Seq<char>, VmxErrorView>(entries[i]) by {
        assert forall|j: int| 0 <= j < entries.len() && j != i implies !pred(#[trigger] entries[j]) by {}
        lemma_filter_single(entries, pred, i);
    }
    if exists|i: int, j: int| 0 <= i < j < entries.len()
        && extension(#[trigger] entries[i]) == Some(seq!['v', 'm', 'x'])
        && extension(#[trigger] entries[j]) == Some(seq!['v', 'm', 'x']) {
        let (i, j) = choose|i: int, j: int| 0 <= i < j < entries.len()
            && extension(#[trigger] entries[i]) == Some(seq!['v', 'm', 'x'])
            && extension(#[trigger] entries[j]) == Some(seq!['v', 'm', 'x']);
        lemma_filter_two(entries, pred, i, j);
    }
    if forall|i: int| 0 <= i < entries.len() ==> extension(#[trigger] entries[i]) != Some(seq!['v', 'm', 'x']) {
        assert forall|i: int| 0 <= i < entries.len() implies !pred(#[trigger] entries[i]) by {}
        lemma_filter_none(entries, pred);
    }
}

/// The characters of each string.
pub open spec fn strings_view(s: Seq<String>) -> Seq<Seq<char>> {
    s.map_values(|p: String| p@)
}

fn is_vmx_exec(path: &str) -> (res: bool)
    ensures
        res == is_vmx(path@),
{
    let mut want: Vec<char> = Vec::new();
    want.push('v');
    want.push('m');
    want.push('x');
    assert(want@ =~= seq!['v', 'm', 'x']);
    match extension_of(path) {
        Some(e) => chars_equal(&e, &want),
        None => false,
    }
}

/// Chooses the VMX file to manage, given the paths of the entries of the
/// bundle directory (none when the bundle does not exist).
pub fn resolve_path(bundle_path: &str, entries: &Vec<String>) -> (res: Result<String, VmxError>)
    ensures
        match res {
            Ok(p) => resolved_path(bundle_path@, strings_view(entries@)) == Ok::<Seq<char>, VmxErrorView>(p@),
            Err(e) => resolved_path(bundle_path@, strings_view(entries@)) == Err::<Seq<char>, VmxErrorView>(e@),
        },
{
    let ghost es = strings_view(entries@);
    let ghost pred = |p: Seq<char>| is_vmx(p);
    let mut found: Vec<String> = Vec::new();
    let n = entries.len();
    assert(es.take(0) =~= Seq::<Seq<char>>::empty());
    assert(es.take(0).filter(pred) =~= Seq::<Seq<char>>::empty()) by {
        reveal(Seq::filter);
    }
    for i in 0..n
        invariant
            n == entries@.len(),
            es == strings_view(entries@),
            pred == (|p: Seq<char>| is_vmx(p)),
            strings_view(found@) == es.take(i as int).filter(pred),
    {
        assert(es.take(i + 1).drop_last() =~= es.take(i as int));
        assert(es.take(i + 1).last() == es[i as int]);
        assert(es[i as int] == entries@[i as int]@);
        reveal(Seq::filter);
        if is_vmx_exec(entries[i].as_str()) {
            let p = entries[i].clone();
            found.push(p);
            assert(strings_view(found@) =~= es.take(i as int).filter(pred).push(p@));
        }
    }
    assert(es.take(n as int) =~= es);
    if found.len() == 0 {
        match file_stem_of(bundle_path) {
            None => Err(VmxError::MissingName),
            Some(stem) => {
                let mut name = stem;
                name.append(".vmx");
                proof {
                    reveal_strlit(".vmx");
                    assert(".vmx"@ =~= seq!['.', 'v', 'm', 'x']);
                }
                Ok(join_path(bundle_path, name.as_str()))
            }
        }
    } else if found.len() == 1 {
        assert(strings_view(found@)[0] == found@[0]@);
        Ok(found[0].clone())
    } else {
        Err(VmxError::MultipleVmx { bundle_path: String::from_str(bundle_path) })
    }
}

} // verus!
