//! Unix path text as `std::path` reads it: components, file names, stems,
//! joining and prefix stripping.
use vstd::prelude::*;

use crate::text::{
    chars_of, eq_lit, has_char, has_prefix, has_suffix, push_all, push_lit, rfind_char,
    split, split_char, string_of, views,
};

verus! {

pub open spec fn is_absolute(p: Seq<char>) -> bool {
    has_prefix(p, "/"@)
}

/// The segment at `i` of a path split at `/` is a component: not empty, and
/// not `.` unless it begins a relative path.
pub open spec fn keeps_segment(segs: Seq<Seq<char>>, i: int) -> bool {
    segs[i].len() > 0 && (segs[i] != "."@ || i == 0)
}

pub open spec fn comps_upto(segs: Seq<Seq<char>>, n: int) -> Seq<Seq<char>>
    decreases n,
{
    if n <= 0 {
        Seq::empty()
    } else if keeps_segment(segs, n - 1) {
        comps_upto(segs, n - 1).push(segs[n - 1])
    } else {
        comps_upto(segs, n - 1)
    }
}

/// The named components of a path (`Path::components` without the root).
pub open spec fn components(p: Seq<char>) -> Seq<Seq<char>> {
    let segs = split_char(p, '/');
    comps_upto(segs, segs.len() as int)
}

/// `Path::file_name`: the last component, unless it is `.` or `..`.
pub open spec fn file_name(p: Seq<char>) -> Option<Seq<char>> {
    let c = components(p);
    if c.len() == 0 || c.last() == "."@ || c.last() == ".."@ {
        None
    } else {
        Some(c.last())
    }
}

/// `Path::file_stem`: the file name without its last extension; a name whose
/// only dot is its first character has no extension.
pub open spec fn file_stem(p: Seq<char>) -> Option<Seq<char>> {
    match file_name(p) {
        Some(n) => match rfind_char(n, '.') {
            Some(i) => if i == 0 {
                Some(n)
            } else {
                Some(n.subrange(0, i))
            },
            None => Some(n),
        },
        None => None,
    }
}

/// `Path::extension`.
pub open spec fn extension(p: Seq<char>) -> Option<Seq<char>> {
    match file_name(p) {
        Some(n) => match rfind_char(n, '.') {
            Some(i) => if i == 0 {
                None
            } else {
                Some(n.subrange(i + 1, n.len() as int))
            },
            None => None,
        },
        None => None,
    }
}

/// `PathBuf::join`: an absolute `rel` replaces `base`; otherwise a `/` is put
/// between them unless `base` is empty or already ends with one.
pub open spec fn joined(base: Seq<char>, rel: Seq<char>) -> Seq<char> {
    if is_absolute(rel) || base.len() == 0 {
        rel
    } else if has_suffix(base, "/"@) {
        base + rel
    } else {
        base + "/"@ + rel
    }
}

/// The components of a path, as `components` describes them.
pub fn component_list_of(p: &[char]) -> (r: Vec<Vec<char>>)
    ensures
        views(r@) == components(p@),
{
    let segs = split(p, '/');
    let ghost ss = split_char(p@, '/');
    let mut out: Vec<Vec<char>> = Vec::new();
    let mut i: usize = 0;
    while i < segs.len()
        invariant
            views(segs@) == ss,
            i <= segs@.len(),
            views(out@) == comps_upto(ss, i as int),
        decreases segs@.len() - i,
    {
        let seg = &segs[i];
        assert(ss[i as int] == seg@);
        assert(seg@.subrange(0, seg@.len() as int) =~= seg@);
        if seg.len() > 0 && (!eq_lit(seg.as_slice(), ".") || i == 0) {
            out.push(crate::text::slice_of(seg.as_slice(), 0, seg.len()));
            assert(views(out@) =~= comps_upto(ss, i as int).push(seg@));
        }
        i = i + 1;
    }
    out
}

/// The file name of a path, `None` for `/`, `.` and paths ending in `..`.
pub fn path_file_name(path: &str) -> (r: Option<String>)
    ensures
        crate::text::opt_view(r) == file_name(path@),
{
    let p = chars_of(path);
    let c = component_list_of(p.as_slice());
    if c.len() == 0 {
        return None;
    }
    let last = &c[c.len() - 1];
    if eq_lit(last.as_slice(), ".") || eq_lit(last.as_slice(), "..") {
        None
    } else {
        Some(string_of(last.as_slice()))
    }
}

/// The file name without its last extension.
pub fn path_file_stem(path: &str) -> (r: Option<String>)
    ensures
        crate::text::opt_view(r) == file_stem(path@),
{
    match path_file_name(path) {
        Some(n) => {
            let v = chars_of(n.as_str());
            match crate::text::rfind(v.as_slice(), '.') {
                Some(i) => if i == 0 {
                    Some(n)
                } else {
                    Some(string_of(crate::text::slice_of(v.as_slice(), 0, i).as_slice()))
                },
                None => Some(n),
            }
        },
        None => None,
    }
}

/// The extension of the file name.
pub fn path_extension(path: &str) -> (r: Option<String>)
    ensures
        crate::text::opt_view(r) == extension(path@),
{
    match path_file_name(path) {
        Some(n) => {
            let v = chars_of(n.as_str());
            let len = v.len();
            match crate::text::rfind(v.as_slice(), '.') {
                Some(i) => if i == 0 {
                    None
                } else {
                    Some(string_of(crate::text::slice_of(v.as_slice(), i + 1, len).as_slice()))
                },
                None => None,
            }
        },
        None => None,
    }
}

/// `base.join(rel)` for Unix paths.
pub fn path_join(base: &str, rel: &str) -> (r: String)
    ensures
        r@ == joined(base@, rel@),
{
    let b = chars_of(base);
    let rl = chars_of(rel);
    if crate::text::starts_with_lit(rl.as_slice(), "/") || b.len() == 0 {
        return string_of(rl.as_slice());
    }
    let mut r = b;
    if !crate::text::ends_with_lit(r.as_slice(), "/") {
        push_lit(&mut r, "/");
    }
    push_all(&mut r, rl.as_slice());
    string_of(r.as_slice())
}

/// `Path::strip_prefix`: what is left of `path` after the components of `root`,
/// when both are absolute or both relative and `root`'s components begin `path`'s.
pub open spec fn stripped(path: Seq<char>, root: Seq<char>) -> Option<Seq<Seq<char>>> {
    let pc = components(path);
    let rc = components(root);
    if is_absolute(path) == is_absolute(root) && rc.len() <= pc.len() && pc.subrange(0, rc.len() as int) == rc {
        Some(pc.subrange(rc.len() as int, pc.len() as int))
    } else {
        None
    }
}

pub open spec fn join_components(c: Seq<Seq<char>>) -> Seq<char>
    decreases c.len(),
{
    if c.len() == 0 {
        Seq::empty()
    } else if c.len() == 1 {
        c[0]
    } else {
        join_components(c.drop_last()) + "/"@ + c.last()
    }
}

/// The path relative to `root`, or `path` itself when it does not lie under `root`.
pub open spec fn relative_to(path: Seq<char>, root: Seq<char>) -> Seq<char> {
    match stripped(path, root) {
        Some(c) => join_components(c),
        None => path,
    }
}

/// `path.strip_prefix(root).unwrap_or(path)`, as text.
pub fn relative_path(path: &str, root: &str) -> (r: String)
    ensures
        r@ == relative_to(path@, root@),
{
    let p = chars_of(path);
    let rt = chars_of(root);
    let pc = component_list_of(p.as_slice());
    let rc = component_list_of(rt.as_slice());
    let pa = crate::text::starts_with_lit(p.as_slice(), "/");
    let ra = crate::text::starts_with_lit(rt.as_slice(), "/");
    if pa != ra || rc.len() > pc.len() {
        return string_of(p.as_slice());
    }
    let ghost pv = views(pc@);
    let ghost rv = views(rc@);
    let mut i: usize = 0;
    while i < rc.len()
        invariant
            pv == views(pc@),
            rv == views(rc@),
            pv == components(path@),
            rv == components(root@),
            p@ == path@,
            rc@.len() <= pc@.len(),
            i <= rc@.len(),
            forall|k: int| 0 <= k < i ==> pv[k] == rv[k],
        decreases rc@.len() - i,
    {
        if !crate::text::eq(pc[i].as_slice(), rc[i].as_slice()) {
            assert(pv.subrange(0, rv.len() as int)[i as int] != rv[i as int]);
            return string_of(p.as_slice());
        }
        i = i + 1;
    }
    assert(pv.subrange(0, rv.len() as int) =~= rv);
    let ghost rest = pv.subrange(rv.len() as int, pv.len() as int);
    let mut out: Vec<char> = Vec::new();
    let mut k: usize = rc.len();
    assert(rest.subrange(0, 0).len() == 0);
    while k < pc.len()
        invariant
            pv == views(pc@),
            rest == pv.subrange(rc@.len() as int, pv.len() as int),
            rc@.len() <= k <= pc@.len(),
            out@ == join_components(rest.subrange(0, k - rc@.len())),
        decreases pc@.len() - k,
    {
        let ghost part = rest.subrange(0, k + 1 - rc@.len());
        assert(part.drop_last() =~= rest.subrange(0, k - rc@.len()));
        assert(part.last() == pc@[k as int]@);
        if k > rc.len() {
            push_lit(&mut out, "/");
        } else {
            assert(part.len() == 1);
            assert(out@ =~= Seq::<char>::empty());
        }
        push_all(&mut out, pc[k].as_slice());
        k = k + 1;
    }
    assert(rest.subrange(0, pc@.len() - rc@.len()) =~= rest);
    string_of(out.as_slice())
}

/// `Path::parent`: the path without its last component (`/` stays in front of
/// an absolute path); none for a path without components, such as `/` or ``.
pub open spec fn parent(p: Seq<char>) -> Option<Seq<char>> {
    let c = components(p);
    if c.len() == 0 {
        None
    } else if is_absolute(p) {
        Some("/"@ + join_components(c.drop_last()))
    } else {
        Some(join_components(c.drop_last()))
    }
}

/// The parent of `p`, or `fallback` when it has none.
pub open spec fn parent_or(p: Seq<char>, fallback: Seq<char>) -> Seq<char> {
    match parent(p) {
        Some(q) => q,
        None => fallback,
    }
}

fn join_first(c: &Vec<Vec<char>>, n: usize) -> (out: Vec<char>)
    requires
        n <= c@.len(),
    ensures
        out@ == join_components(views(c@).subrange(0, n as int)),
{
    let ghost cv = views(c@);
    let mut out: Vec<char> = Vec::new();
    let mut k: usize = 0;
    assert(cv.subrange(0, 0).len() == 0);
    while k < n
        invariant
            cv == views(c@),
            n <= c@.len(),
            k <= n,
            out@ == join_components(cv.subrange(0, k as int)),
        decreases n - k,
    {
        let ghost part = cv.subrange(0, k + 1);
        assert(part.drop_last() =~= cv.subrange(0, k as int));
        assert(part.last() == c@[k as int]@);
        if k > 0 {
            push_lit(&mut out, "/");
        } else {
            assert(part.len() == 1);
            assert(out@ =~= Seq::<char>::empty());
        }
        push_all(&mut out, c[k].as_slice());
        k = k + 1;
    }
    out
}

/// `Path::parent`, as text.
pub fn path_parent(path: &str) -> (r: Option<String>)
    ensures
        crate::text::opt_view(r) == parent(path@),
{
    let p = chars_of(path);
    let c = component_list_of(p.as_slice());
    if c.len() == 0 {
        return None;
    }
    let ghost cv = views(c@);
    assert(cv.drop_last() =~= cv.subrange(0, c@.len() - 1));
    let rest = join_first(&c, c.len() - 1);
    if crate::text::starts_with_lit(p.as_slice(), "/") {
        let mut out: Vec<char> = Vec::new();
        push_lit(&mut out, "/");
        push_all(&mut out, rest.as_slice());
        Some(string_of(out.as_slice()))
    } else {
        Some(string_of(rest.as_slice()))
    }
}

/// `path.parent()` as text, or `fallback` when the path has no parent.
pub fn path_parent_or(path: &str, fallback: &str) -> (r: String)
    ensures
        r@ == parent_or(path@, fallback@),
{
    match path_parent(path) {
        Some(p) => p,
        None => string_of(chars_of(fallback).as_slice()),
    }
}

} // verus!
