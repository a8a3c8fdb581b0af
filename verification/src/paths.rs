//! Unix paths as strings: their components, file names and extensions, with
//! the meaning that `std::path::Path` gives them on Unix.

use vstd::prelude::*;
use vstd::string::*;
use crate::text::{chars_equal, chars_of, chars_range, push_char, string_from_chars};

verus! {

/// Whether a segment between separators is a component of the path
/// (empty segments and `.` are normalized away).
pub open spec fn keeps_segment(seg: Seq<char>) -> bool {
    seg.len() > 0 && seg != seq!['.']
}

/// Ends the current segment: keeps it if it is a component.
pub open spec fn close_segment(done: Seq<Seq<char>>, seg: Seq<char>) -> Seq<Seq<char>> {
    if keeps_segment(seg) { done.push(seg) } else { done }
}

/// Reading a path left to right: the components read so far and the segment
/// in progress.
pub open spec fn scan(s: Seq<char>) -> (Seq<Seq<char>>, Seq<char>)
    decreases s.len(),
{
    if s.len() == 0 {
        (Seq::empty(), Seq::empty())
    } else {
        let prev = scan(s.drop_last());
        if s.last() == '/' {
            (close_segment(prev.0, prev.1), Seq::empty())
        } else {
            (prev.0, prev.1.push(s.last()))
        }
    }
}

/// The named components of a path: the pieces between `/` separators, with
/// repeated separators, a trailing separator and `.` pieces dropped.
pub open spec fn segments(s: Seq<char>) -> Seq<Seq<char>> {
    close_segment(scan(s).0, scan(s).1)
}

/// Whether a path starts at the root.
pub open spec fn is_absolute(s: Seq<char>) -> bool {
    s.len() > 0 && s[0] == '/'
}

/// Whether a relative path starts with a `.` component (`.` or `./...`),
/// which `Path::components` keeps.
pub open spec fn has_cur_dir_prefix(s: Seq<char>) -> bool {
    !is_absolute(s) && s.len() > 0 && s[0] == '.' && (s.len() == 1 || s[1] == '/')
}

/// Whether two paths have the same components, which is how `Path` compares
/// paths.
pub open spec fn same_path(a: Seq<char>, b: Seq<char>) -> bool {
    &&& is_absolute(a) == is_absolute(b)
    &&& has_cur_dir_prefix(a) == has_cur_dir_prefix(b)
    &&& segments(a) == segments(b)
}

/// The last component of a path, unless it is `..` or there is none.
pub open spec fn file_name(s: Seq<char>) -> Option<Seq<char>> {
    let segs = segments(s);
    if segs.len() > 0 && segs.last() != seq!['.', '.'] {
        Some(segs.last())
    } else {
        None
    }
}

/// The index of the last `.` in a file name, or -1 when there is none.
pub open spec fn last_dot(name: Seq<char>) -> int
    decreases name.len(),
{
    if name.len() == 0 {
        -1
    } else if name.last() == '.' {
        name.len() - 1
    } else {
        last_dot(name.drop_last())
    }
}

/// The extension of a file name: what follows its last `.`, unless that `.`
/// is the first character or there is none.
pub open spec fn name_extension(name: Seq<char>) -> Option<Seq<char>> {
    let dot = last_dot(name);
    if dot <= 0 { None } else { Some(name.subrange(dot + 1, name.len() as int)) }
}

/// The stem of a file name: the name without its extension and last `.`.
pub open spec fn name_stem(name: Seq<char>) -> Seq<char> {
    let dot = last_dot(name);
    if dot <= 0 { name } else { name.subrange(0, dot) }
}

/// The extension of a path's file name.
pub open spec fn extension(s: Seq<char>) -> Option<Seq<char>> {
    match file_name(s) {
        Some(name) => name_extension(name),
        None => None,
    }
}

/// The stem of a path's file name.
pub open spec fn file_stem(s: Seq<char>) -> Option<Seq<char>> {
    match file_name(s) {
        Some(name) => Some(name_stem(name)),
        None => None,
    }
}

/// `base` with `name` appended as a further component, as `Path::join` does
/// for a relative `name`: a `/` is put between them unless `base` is empty
/// or already ends with one.
pub open spec fn join(base: Seq<char>, name: Seq<char>) -> Seq<char> {
    if base.len() == 0 || base.last() == '/' { base + name } else { base + seq!['/'] + name }
}

/// The characters of each component in a vector of character vectors.
pub open spec fn views(v: Seq<Vec<char>>) -> Seq<Seq<char>> {
    v.map_values(|x: Vec<char>| x@)
}

proof fn lemma_views_push(v: Seq<Vec<char>>, x: Vec<char>)
    ensures
        views(v.push(x)) == views(v).push(x@),
{
    assert(views(v.push(x)) =~= views(v).push(x@));
}

fn close_segment_exec(done: &mut Vec<Vec<char>>, cur: Vec<char>)
    ensures
        views(final(done)@) == close_segment(views(old(done)@), cur@),
{
    let keep = cur.len() > 0 && !(cur.len() == 1 && cur[0] == '.');
    proof {
        if cur@ == seq!['.'] {
            assert(cur@.len() == 1 && cur@[0] == '.');
        }
        if cur@.len() == 1 && cur@[0] == '.' {
            assert(cur@ =~= seq!['.']);
        }
    }
    if keep {
        proof { lemma_views_push(done@, cur); }
        done.push(cur);
    }
}

/// The components of a path given as characters.
pub fn segments_of(s: &Vec<char>) -> (segs: Vec<Vec<char>>)
    ensures
        views(segs@) == segments(s@),
{
    let mut done: Vec<Vec<char>> = Vec::new();
    let mut cur: Vec<char> = Vec::new();
    let n = s.len();
    assert(views(done@) =~= Seq::<Seq<char>>::empty());
    assert(s@.take(0) =~= Seq::<char>::empty());
    for i in 0..n
        invariant
            n == s@.len(),
            views(done@) == scan(s@.take(i as int)).0,
            cur@ == scan(s@.take(i as int)).1,
    {
        assert(s@.take(i + 1).drop_last() =~= s@.take(i as int));
        assert(s@.take(i + 1).last() == s@[i as int]);
        let c = s[i];
        if c == '/' {
            let seg = cur;
            cur = Vec::new();
            close_segment_exec(&mut done, seg);
        } else {
            cur.push(c);
        }
    }
    assert(s@.take(n as int) =~= s@);
    close_segment_exec(&mut done, cur);
    done
}

/// Whether two lists of components are equal.
fn segments_equal(a: &Vec<Vec<char>>, b: &Vec<Vec<char>>) -> (same: bool)
    ensures
        same == (views(a@) == views(b@)),
{
    if a.len() != b.len() {
        proof {
            if views(a@) == views(b@) {
                assert(views(a@).len() == views(b@).len());
            }
        }
        return false;
    }
    let n = a.len();
    for i in 0..n
        invariant
            n == a@.len(),
            n == b@.len(),
            forall|j: int| 0 <= j < i ==> a@[j]@ == b@[j]@,
    {
        if !chars_equal(&a[i], &b[i]) {
            proof {
                assert(views(a@)[i as int] != views(b@)[i as int]);
            }
            return false;
        }
    }
    assert(views(a@) =~= views(b@));
    true
}

fn is_absolute_exec(s: &Vec<char>) -> (res: bool)
    ensures
        res == is_absolute(s@),
{
    s.len() > 0 && s[0] == '/'
}

fn has_cur_dir_prefix_exec(s: &Vec<char>) -> (res: bool)
    ensures
        res == has_cur_dir_prefix(s@),
{
    !is_absolute_exec(s) && s.len() > 0 && s[0] == '.' && (s.len() == 1 || s[1] == '/')
}

/// Whether two paths name the same components, as `Path`'s `==` decides.
pub fn paths_equal(a: &str, b: &str) -> (same: bool)
    ensures
        same == same_path(a@, b@),
{
    let a_chars = chars_of(a);
    let b_chars = chars_of(b);
    if is_absolute_exec(&a_chars) != is_absolute_exec(&b_chars) {
        return false;
    }
    if has_cur_dir_prefix_exec(&a_chars) != has_cur_dir_prefix_exec(&b_chars) {
        return false;
    }
    let a_segs = segments_of(&a_chars);
    let b_segs = segments_of(&b_chars);
    segments_equal(&a_segs, &b_segs)
}

/// Whether an optional path is present and names the same components as
/// `path`.
pub fn optional_path_is(candidate: &Option<String>, path: &String) -> (res: bool)
    ensures
        res == (candidate is Some && same_path(candidate->0@, path@)),
{
    match candidate {
        Some(c) => paths_equal(c.as_str(), path.as_str()),
        None => false,
    }
}

} // verus!

verus! {

proof fn lemma_last_dot(name: Seq<char>, k: int)
    requires
        -1 <= k < name.len(),
        k >= 0 ==> name[k] == '.',
        forall|j: int| k < j < name.len() ==> name[j] != '.',
    ensures
        last_dot(name) == k,
    decreases name.len(),
{
    if name.len() > 0 && k < name.len() - 1 {
        let t = name.drop_last();
        assert forall|j: int| k < j < t.len() implies t[j] != '.' by {
            assert(t[j] == name[j]);
        }
        lemma_last_dot(t, k);
    }
}

/// The index of the last `.` in a file name, if any.
fn last_dot_exec(name: &Vec<char>) -> (dot: Option<usize>)
    ensures
        match dot {
            Some(k) => last_dot(name@) == k as int && k < name@.len(),
            None => last_dot(name@) == -1,
        },
{
    let mut i = name.len();
    while i > 0
        invariant
            i <= name@.len(),
            forall|j: int| i <= j < name@.len() ==> name@[j] != '.',
        decreases i,
    {
        if name[i - 1] == '.' {
            proof { lemma_last_dot(name@, i - 1); }
            return Some(i - 1);
        }
        i = i - 1;
    }
    proof { lemma_last_dot(name@, -1); }
    None
}

/// The file name of a path given as characters.
pub fn file_name_of(s: &Vec<char>) -> (name: Option<Vec<char>>)
    ensures
        match name {
            Some(n) => file_name(s@) == Some(n@),
            None => file_name(s@) is None,
        },
{
    let segs = segments_of(s);
    if segs.len() == 0 {
        return None;
    }
    let last = &segs[segs.len() - 1];
    assert(views(segs@).last() == last@);
    let is_parent = last.len() == 2 && last[0] == '.' && last[1] == '.';
    proof {
        if last@ == seq!['.', '.'] {
            assert(last@.len() == 2 && last@[0] == '.' && last@[1] == '.');
        }
        if is_parent {
            assert(last@ =~= seq!['.', '.']);
        }
    }
    if is_parent {
        None
    } else {
        Some(chars_range(last, 0, last.len()))
    }
}

/// The extension of a file name given as characters.
pub fn name_extension_of(name: &Vec<char>) -> (ext: Option<Vec<char>>)
    ensures
        match ext {
            Some(e) => name_extension(name@) == Some(e@),
            None => name_extension(name@) is None,
        },
{
    let n = name.len();
    match last_dot_exec(name) {
        Some(k) => if k == 0 {
            None
        } else {
            Some(chars_range(name, k + 1, name.len()))
        },
        None => None,
    }
}

/// The stem of a file name given as characters.
pub fn name_stem_of(name: &Vec<char>) -> (stem: Vec<char>)
    ensures
        stem@ == name_stem(name@),
{
    match last_dot_exec(name) {
        Some(k) => if k == 0 {
            chars_range(name, 0, name.len())
        } else {
            chars_range(name, 0, k)
        },
        None => chars_range(name, 0, name.len()),
    }
}

/// Whether a path is absolute and its extension is exactly `ext`.
pub fn is_absolute_with_extension(path: &str, ext: &str) -> (res: bool)
    ensures
        res == (is_absolute(path@) && extension(path@) == Some(ext@)),
{
    let chars = chars_of(path);
    if !is_absolute_exec(&chars) {
        return false;
    }
    match file_name_of(&chars) {
        None => false,
        Some(name) => {
            assert(name@.len() >= 0);
            match name_extension_of(&name) {
                None => false,
                Some(e) => {
                    let want = chars_of(ext);
                    chars_equal(&e, &want)
                }
            }
        }
    }
}

/// The extension of a path, as characters.
pub fn extension_of(path: &str) -> (ext: Option<Vec<char>>)
    ensures
        match ext {
            Some(e) => extension(path@) == Some(e@),
            None => extension(path@) is None,
        },
{
    let chars = chars_of(path);
    match file_name_of(&chars) {
        None => None,
        Some(name) => name_extension_of(&name),
    }
}

/// The stem of a path's file name.
pub fn file_stem_of(path: &str) -> (stem: Option<String>)
    ensures
        match stem {
            Some(s) => file_stem(path@) == Some(s@),
            None => file_stem(path@) is None,
        },
{
    let chars = chars_of(path);
    match file_name_of(&chars) {
        None => None,
        Some(name) => {
            let stem = name_stem_of(&name);
            Some(string_from_chars(&stem))
        }
    }
}

/// `base` joined with a relative `name`, as `Path::join` does.
pub fn join_path(base: &str, name: &str) -> (joined: String)
    ensures
        joined@ == join(base@, name@),
{
    let chars = chars_of(base);
    let mut joined = string_from_chars(&chars);
    if chars.len() > 0 && chars[chars.len() - 1] != '/' {
        push_char(&mut joined, '/');
    }
    joined.append(name);
    joined
}

} // verus!

verus! {

/// Whether a sequence of characters holds no `/`.
pub open spec fn no_separator(s: Seq<char>) -> bool {
    forall|i: int| 0 <= i < s.len() ==> s[i] != '/'
}

proof fn lemma_scan_parts(s: Seq<char>)
    ensures
        no_separator(scan(s).1),
        forall|k: int| 0 <= k < scan(s).0.len() ==> no_separator(#[trigger] scan(s).0[k]) && keeps_segment(scan(s).0[k]),
    decreases s.len(),
{
    if s.len() > 0 {
        lemma_scan_parts(s.drop_last());
        let prev = scan(s.drop_last());
        if s.last() != '/' {
            assert forall|i: int| 0 <= i < scan(s).1.len() implies scan(s).1[i] != '/' by {
                if i < prev.1.len() {
                    assert(scan(s).1[i] == prev.1[i]);
                }
            }
        } else {
            let done = scan(s).0;
            assert forall|k: int| 0 <= k < done.len() implies no_separator(#[trigger] done[k]) && keeps_segment(done[k]) by {
                if k < prev.0.len() {
                    assert(done[k] == prev.0[k]);
                }
            }
        }
    }
}

/// Every component is non-empty, is not `.`, and holds no `/`.
pub proof fn lemma_segments_parts(s: Seq<char>)
    ensures
        forall|k: int| 0 <= k < segments(s).len() ==> no_separator(#[trigger] segments(s)[k]) && keeps_segment(segments(s)[k]),
{
    lemma_scan_parts(s);
    let segs = segments(s);
    let prev = scan(s);
    assert forall|k: int| 0 <= k < segs.len() implies no_separator(#[trigger] segs[k]) && keeps_segment(segs[k]) by {
        if k < prev.0.len() {
            assert(segs[k] == prev.0[k]);
        }
    }
}

proof fn lemma_scan_append_name(p: Seq<char>, name: Seq<char>)
    requires
        no_separator(name),
    ensures
        scan(p + name) == (scan(p).0, scan(p).1 + name),
    decreases name.len(),
{
    if name.len() == 0 {
        assert(p + name =~= p);
        assert(scan(p).1 + name =~= scan(p).1);
    } else {
        let shorter = name.drop_last();
        lemma_scan_append_name(p, shorter);
        assert((p + name).drop_last() =~= p + shorter);
        assert((p + name).last() == name.last());
        assert(scan(p).1 + shorter + seq![name.last()] =~= scan(p).1 + name);
    }
}

/// Joining a name that is a single component adds it as the last component.
pub proof fn lemma_join_segments(base: Seq<char>, name: Seq<char>)
    requires
        base.len() > 0,
        no_separator(name),
        keeps_segment(name),
    ensures
        segments(join(base, name)) == segments(base).push(name),
{
    if base.last() == '/' {
        lemma_scan_append_name(base, name);
        assert(base.drop_last().push('/') =~= base);
        assert(scan(base).1 =~= Seq::<char>::empty());
        assert(Seq::<char>::empty() + name =~= name);
    } else {
        let with_sep = base + seq!['/'];
        lemma_scan_append_name(with_sep, name);
        assert(with_sep.drop_last() =~= base);
        assert(Seq::<char>::empty() + name =~= name);
    }
}

/// The last dot is a position in the name, or -1.
pub proof fn lemma_last_dot_bounds(name: Seq<char>)
    ensures
        -1 <= last_dot(name) < name.len(),
        last_dot(name) >= 0 ==> name[last_dot(name)] == '.',
    decreases name.len(),
{
    if name.len() > 0 && name.last() != '.' {
        lemma_last_dot_bounds(name.drop_last());
    }
}

/// `last_dot` of a name that ends with `.` and then dot-free characters.
pub proof fn lemma_last_dot_of_suffix(stem: Seq<char>, ext: Seq<char>)
    requires
        forall|i: int| 0 <= i < ext.len() ==> ext[i] != '.',
    ensures
        last_dot(stem + seq!['.'] + ext) == stem.len(),
{
    let name = stem + seq!['.'] + ext;
    assert(name[stem.len() as int] == '.');
    assert forall|j: int| stem.len() < j < name.len() implies name[j] != '.' by {
        assert(name[j] == ext[j - stem.len() - 1]);
    }
    lemma_last_dot(name, stem.len() as int);
}

} // verus!
