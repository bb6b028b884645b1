//! Windows path joining, as `Path::join` does it for names with neither a
//! drive prefix nor a root, the only ones this program joins (a profile name
//! with a drive prefix is handled where profile folders are made).
use vstd::prelude::*;
use crate::text::{chars_of, push_all, slice_chars, string_of};

verus! {

/// A path separator on Windows.
pub open spec fn is_sep(c: char) -> bool {
    c == '\\' || c == '/'
}

/// A bare drive prefix such as `C:`, after which `join` adds no separator.
pub open spec fn is_bare_drive(dir: Seq<char>) -> bool {
    dir.len() == 2 && dir[1] == ':'
}

/// `dir.join(name)` for a relative `name` without a prefix.
pub open spec fn join_path(dir: Seq<char>, name: Seq<char>) -> Seq<char> {
    if dir.len() == 0 {
        name
    } else if is_sep(dir.last()) || is_bare_drive(dir) {
        dir + name
    } else {
        dir + seq!['\\'] + name
    }
}

/// Joins a relative `name` onto `dir`.
pub fn join_chars(dir: &Vec<char>, name: &Vec<char>) -> (r: Vec<char>)
    ensures
        r@ == join_path(dir@, name@),
{
    let mut r: Vec<char> = Vec::new();
    push_all(&mut r, dir);
    let n = dir.len();
    if n > 0 {
        let last = dir[n - 1];
        let bare = n == 2 && dir[1] == ':';
        if !(last == '\\' || last == '/') && !bare {
            r.push('\\');
        }
    }
    push_all(&mut r, name);
    r
}

/// Joins a `name` with neither a drive prefix nor a root onto `dir`, as
/// `Path::join` does for such a name.
pub fn join(dir: &str, name: &str) -> (r: String)
    ensures
        r@ == join_path(dir@, name@),
{
    string_of(&join_chars(&chars_of(dir), &chars_of(name)))
}

/// Whether a file or directory exists at `path` (`std::path::Path::exists`).
/// What the disk holds is outside the library: nothing is promised of the answer.
#[verifier::external_body]
pub(crate) fn path_exists(path: &str) -> (b: bool) {
    std::path::Path::new(path).exists()
}


/// The first path among `cands` whose flag says it exists.
pub open spec fn first_present(cands: Seq<Seq<char>>, flags: Seq<bool>) -> Option<Seq<char>>
    decreases cands.len(),
{
    if cands.len() == 0 || flags.len() == 0 {
        None
    } else if flags[0] {
        Some(cands[0])
    } else {
        first_present(cands.drop_first(), flags.drop_first())
    }
}

/// The paths by their views.
pub open spec fn paths_view(v: Seq<String>) -> Seq<Seq<char>> {
    v.map_values(|p: String| p@)
}

/// The disk's answer for each of `cands`: whether it exists.
pub fn disk_flags(cands: &Vec<String>) -> (r: Vec<bool>)
    ensures
        r@.len() == cands@.len(),
{
    let mut r: Vec<bool> = Vec::new();
    let mut i: usize = 0;
    while i < cands.len()
        invariant
            i <= cands@.len(),
            r@.len() == i,
        decreases cands@.len() - i,
    {
        r.push(path_exists(cands[i].as_str()));
        i = i + 1;
    }
    r
}

/// The first of `cands` whose flag is set (`flags[i]` tells of `cands[i]`).
pub fn first_flagged(cands: &Vec<String>, flags: &Vec<bool>) -> (r: Option<String>)
    ensures
        ostr_of(r) == first_present(paths_view(cands@), flags@),
{
    let ghost cv = paths_view(cands@);
    assert(cv.skip(0) =~= cv);
    assert(flags@.skip(0) =~= flags@);
    let mut i: usize = 0;
    while i < cands.len() && i < flags.len()
        invariant
            cv == paths_view(cands@),
            i <= cands@.len(),
            i <= flags@.len(),
            first_present(cv, flags@) == first_present(cv.skip(i as int), flags@.skip(i as int)),
        decreases cands@.len() - i,
    {
        assert(cv.skip(i as int).drop_first() =~= cv.skip(i + 1));
        assert(flags@.skip(i as int).drop_first() =~= flags@.skip(i + 1));
        if flags[i] {
            return Some(cands[i].clone());
        }
        i = i + 1;
    }
    None
}

/// An optional path by its view.
pub open spec fn ostr_of(o: Option<String>) -> Option<Seq<char>> {
    match o {
        Some(x) => Some(x@),
        None => None,
    }
}

/// The first of `cands` that exists on disk. What is on disk is the disk's
/// answer: the result is `first_flagged` of the disk's answer about each of them.
pub fn first_existing(cands: &Vec<String>) -> (r: Option<String>)
    ensures
        exists|flags: Seq<bool>| flags.len() == cands@.len() && #[trigger] first_present(paths_view(cands@), flags)
            == ostr_of(r),
{
    let flags = disk_flags(cands);
    let r = first_flagged(cands, &flags);
    assert(first_present(paths_view(cands@), flags@) == ostr_of(r));
    r
}

proof fn lemma_first_present_at(cands: Seq<Seq<char>>, flags: Seq<bool>, i: int)
    requires
        0 <= i < cands.len(),
        flags.len() == cands.len(),
        flags[i],
        forall|k: int| 0 <= k < i ==> !flags[k],
    ensures
        first_present(cands, flags) == Some(cands[i]),
    decreases i,
{
    if i > 0 {
        lemma_first_present_at(cands.drop_first(), flags.drop_first(), i - 1);
    }
}

proof fn lemma_first_present_none(cands: Seq<Seq<char>>, flags: Seq<bool>)
    requires
        flags.len() == cands.len(),
        forall|k: int| 0 <= k < flags.len() ==> !flags[k],
    ensures
        first_present(cands, flags) is None,
    decreases cands.len(),
{
    if cands.len() > 0 {
        lemma_first_present_none(cands.drop_first(), flags.drop_first());
    }
}


/// A path that starts with a drive, such as `C:`.
pub open spec fn has_drive(p: Seq<char>) -> bool {
    p.len() >= 2 && p[1] == ':' && (('a' <= p[0] && p[0] <= 'z') || ('A' <= p[0] && p[0] <= 'Z'))
}

/// Length of the drive and root at the start of `s` (`C:\`, `C:`, `\`, or none).
pub open spec fn root_len(s: Seq<char>) -> int {
    if has_drive(s) {
        if s.len() > 2 && is_sep(s[2]) {
            3
        } else {
            2
        }
    } else if s.len() > 0 && is_sep(s[0]) {
        1
    } else {
        0
    }
}

/// End of `s.take(j)` without trailing separators (the root is kept).
pub open spec fn strip_seps(s: Seq<char>, j: int) -> int
    decreases j,
{
    if j > root_len(s) && j <= s.len() && is_sep(s[j - 1]) {
        strip_seps(s, j - 1)
    } else {
        j
    }
}

/// Start of the last component of `s.take(j)`: just after its last separator
/// past the root, or the end of the root.
pub open spec fn component_start(s: Seq<char>, j: int) -> int
    decreases j,
{
    if j <= root_len(s) || j > s.len() {
        root_len(s)
    } else if is_sep(s[j - 1]) {
        j
    } else {
        component_start(s, j - 1)
    }
}

/// `Path::parent` on Windows: the path without its last component and the
/// separators before it; `None` for a bare drive or root, or an empty path.
/// (`.` components and `\\server\share` prefixes are not treated apart.)
pub open spec fn parent_path(s: Seq<char>) -> Option<Seq<char>> {
    let e = strip_seps(s, s.len() as int);
    if e <= root_len(s) {
        None
    } else {
        Some(s.take(strip_seps(s, component_start(s, e))))
    }
}

proof fn lemma_strip_seps(s: Seq<char>, j: int)
    requires
        0 <= j <= s.len(),
    ensures
        0 <= strip_seps(s, j) <= j,
        strip_seps(s, j) >= root_len(s) || strip_seps(s, j) == j,
    decreases j,
{
    if j > root_len(s) && is_sep(s[j - 1]) {
        lemma_strip_seps(s, j - 1);
    }
}

proof fn lemma_component_start(s: Seq<char>, j: int)
    requires
        0 <= j <= s.len(),
        root_len(s) <= s.len(),
    ensures
        root_len(s) <= component_start(s, j) <= s.len(),
        j >= root_len(s) ==> component_start(s, j) <= j,
    decreases j,
{
    if j > root_len(s) && !is_sep(s[j - 1]) {
        lemma_component_start(s, j - 1);
    }
}

/// The parent folder of `path`, when it has one.
pub fn parent_of(path: &str) -> (r: Option<String>)
    ensures
        match r {
            None => parent_path(path@) is None,
            Some(p) => parent_path(path@) == Some(p@),
        },
{
    let v = chars_of(path);
    let n = v.len();
    let drive = n >= 2 && v[1] == ':' && (('a' <= v[0] && v[0] <= 'z') || ('A' <= v[0] && v[0] <= 'Z'));
    let root: usize = if drive {
        if n > 2 && (v[2] == '\\' || v[2] == '/') { 3 } else { 2 }
    } else if n > 0 && (v[0] == '\\' || v[0] == '/') {
        1
    } else {
        0
    };
    assert(root as int == root_len(v@));
    let mut e = n;
    while e > root && (v[e - 1] == '\\' || v[e - 1] == '/')
        invariant
            root as int == root_len(v@),
            root <= n,
            e <= n,
            n == v@.len(),
            strip_seps(v@, n as int) == strip_seps(v@, e as int),
        decreases e,
    {
        e = e - 1;
    }
    if e <= root {
        return None;
    }
    let mut c = e;
    while c > root && !(v[c - 1] == '\\' || v[c - 1] == '/')
        invariant
            root as int == root_len(v@),
            root <= c <= e <= n,
            n == v@.len(),
            component_start(v@, e as int) == component_start(v@, c as int),
        decreases c,
    {
        c = c - 1;
    }
    let mut k = c;
    while k > root && (v[k - 1] == '\\' || v[k - 1] == '/')
        invariant
            root as int == root_len(v@),
            root <= k <= c,
            n == v@.len(),
            c <= n,
            strip_seps(v@, c as int) == strip_seps(v@, k as int),
        decreases k,
    {
        k = k - 1;
    }
    Some(string_of(&slice_chars(&v, 0, k)))
}

} // verus!
