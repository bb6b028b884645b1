//! Download file names: cleaning a suggested name for Windows, and picking a
//! name that does not overwrite an existing file (`a.zip`, `a (1).zip`, ...).
use vstd::prelude::*;
use crate::paths::{join_chars, join_path, path_exists};
use crate::text::{
    skip_ws, char_is_ws, chars_eq, chars_of, dec, dec_u64, find, find_from_exec, is_ws, lemma_find_from,
    lemma_skip_ws_bounds, owned, push_all, skip_ws_exec, slice_chars, string_of, trim_start,
};

verus! {

/// Unicode general category `Cc`, what `char::is_control` tests.
pub open spec fn is_control(c: char) -> bool {
    c <= '\u{1f}' || ('\u{7f}' <= c && c <= '\u{9f}')
}

/// Characters that a Windows file name cannot hold.
pub open spec fn is_bad_name_char(c: char) -> bool {
    ||| c == '<'
    ||| c == '>'
    ||| c == ':'
    ||| c == '"'
    ||| c == '/'
    ||| c == '\\'
    ||| c == '|'
    ||| c == '?'
    ||| c == '*'
    ||| is_control(c)
}

/// Each forbidden or control character replaced by `_`.
pub open spec fn clean_chars(s: Seq<char>) -> Seq<char> {
    s.map_values(|c: char| if is_bad_name_char(c) { '_' } else { c })
}

/// Dots and whitespace: what Windows drops silently from the end of a name.
pub open spec fn is_tail_char(c: char) -> bool {
    c == '.' || is_ws(c)
}

/// End of `s.take(j)` once trailing dots and whitespace are dropped.
pub open spec fn tail_end(s: Seq<char>, j: int) -> int
    decreases j,
{
    if j <= 0 {
        0
    } else if is_tail_char(s[j - 1]) {
        tail_end(s, j - 1)
    } else {
        j
    }
}

/// `s` without its trailing dots and whitespace, however they alternate.
pub open spec fn strip_tail(s: Seq<char>) -> Seq<char> {
    s.subrange(0, tail_end(s, s.len() as int))
}

pub proof fn lemma_tail_end(s: Seq<char>, j: int)
    requires
        0 <= j <= s.len(),
    ensures
        0 <= tail_end(s, j) <= j,
        tail_end(s, j) > 0 ==> !is_tail_char(s[tail_end(s, j) - 1]),
    decreases j,
{
    if j > 0 && is_tail_char(s[j - 1]) {
        lemma_tail_end(s, j - 1);
    }
}

/// Index of the last `c` in `s.take(j)`.
pub open spec fn last_index_of(s: Seq<char>, c: char, j: int) -> Option<int>
    decreases j,
{
    if j <= 0 {
        None
    } else if s[j - 1] == c {
        Some(j - 1)
    } else {
        last_index_of(s, c, j - 1)
    }
}

pub proof fn lemma_last_index(s: Seq<char>, c: char, j: int)
    requires
        j <= s.len(),
    ensures
        last_index_of(s, c, j) matches Some(k) ==> 0 <= k < j && s[k] == c,
    decreases j,
{
    if j > 0 && s[j - 1] != c {
        lemma_last_index(s, c, j - 1);
    }
}

/// A name split at its last dot into stem and extension (with the dot); a dot at
/// index 0 does not count, so `.bashrc` has no extension.
pub open spec fn split_ext(s: Seq<char>) -> (Seq<char>, Seq<char>) {
    match last_index_of(s, '.', s.len() as int) {
        Some(i) => if i > 0 {
            (s.take(i), s.skip(i))
        } else {
            (s, Seq::<char>::empty())
        },
        None => (s, Seq::<char>::empty()),
    }
}

/// The part of `s` before its first dot (`s.split('.').next()`).
pub open spec fn first_segment(s: Seq<char>) -> Seq<char> {
    match find(s, seq!['.']) {
        Some(i) => s.take(i),
        None => s,
    }
}

/// `str::to_ascii_uppercase`.
pub open spec fn ascii_upper(s: Seq<char>) -> Seq<char> {
    s.map_values(|c: char| if 'a' <= c && c <= 'z' { ((c as int) - 32) as char } else { c })
}

/// The reserved device names of Windows.
pub open spec fn is_reserved_name(u: Seq<char>) -> bool {
    ||| u == "CON"@
    ||| u == "PRN"@
    ||| u == "AUX"@
    ||| u == "NUL"@
    ||| u == "COM1"@
    ||| u == "COM2"@
    ||| u == "COM3"@
    ||| u == "COM4"@
    ||| u == "COM5"@
    ||| u == "COM6"@
    ||| u == "COM7"@
    ||| u == "COM8"@
    ||| u == "COM9"@
    ||| u == "LPT1"@
    ||| u == "LPT2"@
    ||| u == "LPT3"@
    ||| u == "LPT4"@
    ||| u == "LPT5"@
    ||| u == "LPT6"@
    ||| u == "LPT7"@
    ||| u == "LPT8"@
    ||| u == "LPT9"@
}

/// The longest cleaned name, in characters.
pub open spec fn max_name_chars() -> nat {
    120
}

/// The name used when nothing is left of the suggested one.
pub open spec fn fallback_name() -> Seq<char> {
    "dsh-export.zip"@
}

/// Whether the part of `t` before its first dot is a reserved device name.
pub open spec fn has_reserved_stem(t: Seq<char>) -> bool {
    is_reserved_name(ascii_upper(first_segment(t)))
}

/// `t` cut to the length limit: the extension is kept and the stem shortened,
/// unless the extension alone reaches the limit, in which case the name is cut.
pub open spec fn shortened(t: Seq<char>) -> Seq<char> {
    let stem = split_ext(t).0;
    let ext = split_ext(t).1;
    if ext.len() < max_name_chars() {
        let keep: int = max_name_chars() - ext.len();
        stem.take(if keep < stem.len() { keep } else { stem.len() as int }) + ext
    } else {
        t.take(max_name_chars() as int)
    }
}

/// A suggested name made safe as a Windows file name: forbidden and control
/// characters become `_`; leading whitespace and trailing dots and whitespace go
/// (Windows would drop the latter silently); an empty result becomes the fallback
/// name; a reserved device stem gets a `_` prefix; a name longer than the limit
/// keeps its extension and loses the end of its stem, and is tidied again; a
/// shortened name that is then empty or reserved becomes the fallback name.
pub open spec fn sanitized(name: Seq<char>) -> Seq<char> {
    let t = trim_start(strip_tail(clean_chars(name)));
    if t.len() == 0 {
        fallback_name()
    } else {
        let t2 = if has_reserved_stem(t) {
            seq!['_'] + t
        } else {
            t
        };
        if t2.len() <= max_name_chars() {
            t2
        } else {
            let s = strip_tail(shortened(t2));
            if s.len() == 0 || has_reserved_stem(s) {
                fallback_name()
            } else {
                s
            }
        }
    }
}

/// No forbidden or control character in `s`.
pub open spec fn no_bad_chars(s: Seq<char>) -> bool {
    forall|j: int| 0 <= j < s.len() ==> !is_bad_name_char(#[trigger] s[j])
}

/// What makes a name safe on Windows: not empty, at most the length limit, no
/// forbidden or control character, no trailing dot or whitespace, no reserved stem.
pub open spec fn safe_name(r: Seq<char>) -> bool {
    &&& 0 < r.len() <= max_name_chars()
    &&& no_bad_chars(r)
    &&& !is_tail_char(r.last())
    &&& !has_reserved_stem(r)
}

/// The reserved device names all begin with `C`, `P`, `A`, `N` or `L`.
proof fn lemma_reserved_head(u: Seq<char>)
    requires
        is_reserved_name(u),
    ensures
        u.len() > 0,
        u[0] == 'C' || u[0] == 'P' || u[0] == 'A' || u[0] == 'N' || u[0] == 'L',
{
    reveal_strlit("CON");
    reveal_strlit("PRN");
    reveal_strlit("AUX");
    reveal_strlit("NUL");
    reveal_strlit("COM1");
    reveal_strlit("COM2");
    reveal_strlit("COM3");
    reveal_strlit("COM4");
    reveal_strlit("COM5");
    reveal_strlit("COM6");
    reveal_strlit("COM7");
    reveal_strlit("COM8");
    reveal_strlit("COM9");
    reveal_strlit("LPT1");
    reveal_strlit("LPT2");
    reveal_strlit("LPT3");
    reveal_strlit("LPT4");
    reveal_strlit("LPT5");
    reveal_strlit("LPT6");
    reveal_strlit("LPT7");
    reveal_strlit("LPT8");
    reveal_strlit("LPT9");
}

/// A name that starts with neither a dot nor the first letter of a device name
/// (in either case) has no reserved stem.
proof fn lemma_head_not_reserved(x: Seq<char>)
    requires
        x.len() > 0,
        x[0] != '.',
        x[0] != 'C' && x[0] != 'P' && x[0] != 'A' && x[0] != 'N' && x[0] != 'L',
        x[0] != 'c' && x[0] != 'p' && x[0] != 'a' && x[0] != 'n' && x[0] != 'l',
    ensures
        !has_reserved_stem(x),
{
    lemma_find_from(x, seq!['.'], 0);
    let seg = first_segment(x);
    match find(x, seq!['.']) {
        Some(k) => {
            if k == 0 {
                assert(x.subrange(0, 1)[0] == x[0]);
            }
            assert(seg[0] == x[0]);
        },
        None => {},
    }
    assert(seg.len() > 0 && seg[0] == x[0]);
    let u = ascii_upper(seg);
    assert(u[0] == (if 'a' <= x[0] && x[0] <= 'z' { ((x[0] as int) - 32) as char } else { x[0] }));
    if is_reserved_name(u) {
        lemma_reserved_head(u);
    }
}

proof fn lemma_fallback_safe()
    ensures
        safe_name(fallback_name()),
{
    let fb = fallback_name();
    reveal_strlit("dsh-export.zip");
    assert(fb.len() == 14);
    assert forall|j: int| 0 <= j < fb.len() implies !is_bad_name_char(#[trigger] fb[j]) by {
        assert(fb =~= seq!['d', 's', 'h', '-', 'e', 'x', 'p', 'o', 'r', 't', '.', 'z', 'i', 'p']);
    }
    lemma_head_not_reserved(fb);
}

/// Every character of `shortened(t)` is one of `t`'s, and it fits the limit.
proof fn lemma_shortened(t: Seq<char>)
    requires
        no_bad_chars(t),
        t.len() > max_name_chars(),
    ensures
        no_bad_chars(shortened(t)),
        shortened(t).len() <= max_name_chars(),
{
    lemma_last_index(t, '.', t.len() as int);
    let stem = split_ext(t).0;
    let ext = split_ext(t).1;
    let sh = shortened(t);
    if ext.len() < max_name_chars() {
        let keep: int = max_name_chars() - ext.len();
        let k: int = if keep < stem.len() { keep } else { stem.len() as int };
        match last_index_of(t, '.', t.len() as int) {
            Some(i) => {
                if i > 0 {
                    assert forall|j: int| 0 <= j < sh.len() implies !is_bad_name_char(#[trigger] sh[j]) by {
                        if j < k {
                            assert(sh[j] == t[j]);
                        } else {
                            assert(sh[j] == t[i + j - k]);
                        }
                    }
                } else {
                    assert forall|j: int| 0 <= j < sh.len() implies !is_bad_name_char(#[trigger] sh[j]) by {
                        assert(sh[j] == t[j]);
                    }
                }
            },
            None => {
                assert forall|j: int| 0 <= j < sh.len() implies !is_bad_name_char(#[trigger] sh[j]) by {
                    assert(sh[j] == t[j]);
                }
            },
        }
    } else {
        assert forall|j: int| 0 <= j < sh.len() implies !is_bad_name_char(#[trigger] sh[j]) by {
            assert(sh[j] == t[j]);
        }
    }
}

/// Whatever it is given, `sanitize` gives a name that is safe on Windows.
pub proof fn lemma_sanitized_safe(name: Seq<char>)
    ensures
        safe_name(sanitized(name)),
{
    lemma_fallback_safe();
    let c = clean_chars(name);
    assert(no_bad_chars(c));
    lemma_tail_end(c, c.len() as int);
    let st = strip_tail(c);
    lemma_skip_ws_bounds(st, 0);
    let a = skip_ws(st, 0);
    let t = trim_start(st);
    if t.len() == 0 {
        return;
    }
    assert(t.last() == st.last());
    assert forall|j: int| 0 <= j < t.len() implies !is_bad_name_char(#[trigger] t[j]) by {
        assert(t[j] == c[a + j]);
    }
    let t2 = if has_reserved_stem(t) {
        seq!['_'] + t
    } else {
        t
    };
    if has_reserved_stem(t) {
        lemma_head_not_reserved(seq!['_'] + t);
        assert forall|j: int| 0 <= j < t2.len() implies !is_bad_name_char(#[trigger] t2[j]) by {
            if j > 0 {
                assert(t2[j] == t[j - 1]);
            }
        }
    }
    assert(t2.last() == t.last());
    if t2.len() > max_name_chars() {
        lemma_shortened(t2);
        let sh = shortened(t2);
        lemma_tail_end(sh, sh.len() as int);
        let s2 = strip_tail(sh);
        assert forall|j: int| 0 <= j < s2.len() implies !is_bad_name_char(#[trigger] s2[j]) by {
            assert(s2[j] == sh[j]);
        }
    }
}

/// `name` with ` (i)` inserted before its extension.
pub open spec fn numbered(name: Seq<char>, i: nat) -> Seq<char> {
    split_ext(name).0 + seq![' ', '('] + dec(i) + seq![')'] + split_ext(name).1
}

/// The names `unique_path` may choose for `name`: itself, or a numbered form.
pub open spec fn is_candidate(name: Seq<char>, chosen: Seq<char>) -> bool {
    chosen == name || exists|i: nat| 1 <= i && chosen == numbered(name, i)
}

fn clean_exec(v: &Vec<char>) -> (r: Vec<char>)
    ensures
        r@ == clean_chars(v@),
{
    let mut r: Vec<char> = Vec::new();
    let mut i: usize = 0;
    while i < v.len()
        invariant
            i <= v@.len(),
            r@ == clean_chars(v@.take(i as int)),
        decreases v@.len() - i,
    {
        let c = v[i];
        let bad = c == '<' || c == '>' || c == ':' || c == '"' || c == '/' || c == '\\' || c
            == '|' || c == '?' || c == '*' || c <= '\u{1f}' || ('\u{7f}' <= c && c <= '\u{9f}');
        if bad {
            r.push('_');
        } else {
            r.push(c);
        }
        i = i + 1;
        assert(v@.take(i as int).drop_last() =~= v@.take(i - 1));
        assert(r@ =~= clean_chars(v@.take(i as int)));
    }
    assert(v@.take(v@.len() as int) =~= v@);
    r
}

fn is_tail_exec(c: char) -> (b: bool)
    ensures
        b == is_tail_char(c),
{
    c == '.' || char_is_ws(c)
}

fn strip_tail_exec(v: &Vec<char>) -> (r: Vec<char>)
    ensures
        r@ == strip_tail(v@),
{
    let mut j: usize = v.len();
    while j > 0 && is_tail_exec(v[j - 1])
        invariant
            j <= v@.len(),
            tail_end(v@, v@.len() as int) == tail_end(v@, j as int),
        decreases j,
    {
        j = j - 1;
    }
    slice_chars(v, 0, j)
}

fn trim_start_exec(v: &Vec<char>) -> (r: Vec<char>)
    ensures
        r@ == trim_start(v@),
{
    let a = skip_ws_exec(v, 0);
    proof {
        lemma_skip_ws_bounds(v@, 0);
    }
    slice_chars(v, a, v.len())
}

fn last_index_exec(v: &Vec<char>, c: char) -> (r: Option<usize>)
    ensures
        r matches Some(k) ==> last_index_of(v@, c, v@.len() as int) == Some(k as int),
        r is None ==> last_index_of(v@, c, v@.len() as int) is None,
{
    let mut j: usize = v.len();
    while j > 0
        invariant
            j <= v@.len(),
            last_index_of(v@, c, v@.len() as int) == last_index_of(v@, c, j as int),
        decreases j,
    {
        if v[j - 1] == c {
            return Some(j - 1);
        }
        j = j - 1;
    }
    None
}

/// Splits a name into stem and extension (`split_ext`).
pub fn split_ext_exec(v: &Vec<char>) -> (r: (Vec<char>, Vec<char>))
    ensures
        r.0@ == split_ext(v@).0,
        r.1@ == split_ext(v@).1,
{
    proof {
        lemma_last_index(v@, '.', v@.len() as int);
    }
    match last_index_exec(v, '.') {
        Some(i) => {
            if i > 0 {
                (slice_chars(v, 0, i), slice_chars(v, i, v.len()))
            } else {
                (slice_chars(v, 0, v.len()), Vec::new())
            }
        },
        None => (slice_chars(v, 0, v.len()), Vec::new()),
    }
}

fn upper_exec(v: &Vec<char>) -> (r: Vec<char>)
    ensures
        r@ == ascii_upper(v@),
{
    let mut r: Vec<char> = Vec::new();
    let mut i: usize = 0;
    while i < v.len()
        invariant
            i <= v@.len(),
            r@ == ascii_upper(v@.take(i as int)),
        decreases v@.len() - i,
    {
        let c = v[i];
        if 'a' <= c && c <= 'z' {
            r.push((((c as u32) - 32) as u8) as char);
        } else {
            r.push(c);
        }
        i = i + 1;
        assert(r@ =~= ascii_upper(v@.take(i as int)));
    }
    assert(v@.take(v@.len() as int) =~= v@);
    r
}

fn reserved_exec(u: &Vec<char>) -> (r: bool)
    ensures
        r == is_reserved_name(u@),
{
    let names: [&str; 22] = [
        "CON",
        "PRN",
        "AUX",
        "NUL",
        "COM1",
        "COM2",
        "COM3",
        "COM4",
        "COM5",
        "COM6",
        "COM7",
        "COM8",
        "COM9",
        "LPT1",
        "LPT2",
        "LPT3",
        "LPT4",
        "LPT5",
        "LPT6",
        "LPT7",
        "LPT8",
        "LPT9",
    ];
    let mut hit = false;
    let mut i: usize = 0;
    while i < 22
        invariant
            i <= 22,
            names@ == seq![
                "CON",
                "PRN",
                "AUX",
                "NUL",
                "COM1",
                "COM2",
                "COM3",
                "COM4",
                "COM5",
                "COM6",
                "COM7",
                "COM8",
                "COM9",
                "LPT1",
                "LPT2",
                "LPT3",
                "LPT4",
                "LPT5",
                "LPT6",
                "LPT7",
                "LPT8",
                "LPT9",
            ],
            hit == exists|k: int| 0 <= k < i && u@ == names@[k]@,
        decreases 22 - i,
    {
        if chars_eq(u, &chars_of(names[i])) {
            hit = true;
        }
        i = i + 1;
    }
    hit
}

fn reserved_stem_exec(t: &Vec<char>) -> (r: bool)
    ensures
        r == has_reserved_stem(t@),
{
    let dot: Vec<char> = vec!['.'];
    proof {
        lemma_find_from(t@, seq!['.'], 0);
        assert(dot@ =~= seq!['.']);
    }
    let seg = match find_from_exec(t, &dot, 0) {
        Some(i) => slice_chars(t, 0, i),
        None => slice_chars(t, 0, t.len()),
    };
    assert(seg@ =~= first_segment(t@));
    reserved_exec(&upper_exec(&seg))
}

fn shorten_exec(t: &Vec<char>) -> (r: Vec<char>)
    requires
        t@.len() > 120,
    ensures
        r@ == shortened(t@),
{
    let (stem, ext) = split_ext_exec(t);
    if ext.len() < 120 {
        let keep: usize = 120 - ext.len();
        let take = if keep < stem.len() { keep } else { stem.len() };
        let mut out = slice_chars(&stem, 0, take);
        push_all(&mut out, &ext);
        out
    } else {
        slice_chars(t, 0, 120)
    }
}

/// Makes a suggested download name safe as a Windows file name.
pub fn sanitize(name: &str) -> (r: String)
    ensures
        r@ == sanitized(name@),
        safe_name(r@),
{
    proof {
        lemma_sanitized_safe(name@);
    }
    let v = chars_of(name);
    let c = clean_exec(&v);
    let t = trim_start_exec(&strip_tail_exec(&c));
    if t.len() == 0 {
        return owned("dsh-export.zip");
    }
    let t2 = if reserved_stem_exec(&t) {
        let mut p: Vec<char> = Vec::new();
        p.push('_');
        push_all(&mut p, &t);
        assert(p@ =~= seq!['_'] + t@);
        p
    } else {
        t
    };
    if t2.len() <= 120 {
        return string_of(&t2);
    }
    let s = strip_tail_exec(&shorten_exec(&t2));
    if s.len() == 0 || reserved_stem_exec(&s) {
        return owned("dsh-export.zip");
    }
    string_of(&s)
}

/// `name` with ` (i)` inserted before its extension (`a.zip` becomes `a (1).zip`).
pub fn numbered_name(name: &Vec<char>, i: u64) -> (r: Vec<char>)
    ensures
        r@ == numbered(name@, i as nat),
{
    let (stem, ext) = split_ext_exec(name);
    let mut r = stem;
    r.push(' ');
    r.push('(');
    push_all(&mut r, &dec_u64(i));
    r.push(')');
    push_all(&mut r, &ext);
    assert(r@ =~= split_ext(name@).0 + seq![' ', '('] + dec(i as nat) + seq![')'] + split_ext(
        name@,
    ).1);
    r
}

/// Candidate `i` for `name`: `name` itself for 0, its numbered form otherwise.
pub open spec fn candidate(name: Seq<char>, i: int) -> Seq<char> {
    if i == 0 {
        name
    } else {
        numbered(name, i as nat)
    }
}

/// Index of the first candidate from `i` on that `taken` marks free.
pub open spec fn first_free_from(taken: Seq<bool>, i: int) -> Option<int>
    decreases taken.len() - i,
{
    if i < 0 || i >= taken.len() {
        None
    } else if !taken[i] {
        Some(i)
    } else {
        first_free_from(taken, i + 1)
    }
}

/// The name `unique_path` chooses, given for each candidate in order whether a
/// file of that name exists: the first free candidate, or `name` when the
/// answers hold none.
pub open spec fn free_choice(name: Seq<char>, taken: Seq<bool>) -> Seq<char> {
    match first_free_from(taken, 0) {
        Some(i) => candidate(name, i),
        None => name,
    }
}

pub proof fn lemma_first_free_from(taken: Seq<bool>, i: int)
    requires
        0 <= i,
    ensures
        first_free_from(taken, i) matches Some(k) ==> i <= k < taken.len() && !taken[k] && forall|m: int|
            i <= m < k ==> taken[m],
    decreases taken.len() - i,
{
    if 0 <= i < taken.len() && taken[i] {
        lemma_first_free_from(taken, i + 1);
    }
}

fn candidate_exec(name: &Vec<char>, i: u64) -> (r: Vec<char>)
    ensures
        r@ == candidate(name@, i as int),
{
    if i == 0 {
        slice_chars(name, 0, name.len())
    } else {
        numbered_name(name, i)
    }
}

/// The first free candidate for `name`, from the answers in `taken` (true: a
/// file of that name exists), or `name` when the answers hold none.
pub fn first_free(name: &Vec<char>, taken: &Vec<bool>) -> (r: Vec<char>)
    ensures
        r@ == free_choice(name@, taken@),
        first_free_from(taken@, 0) matches Some(i) ==> !taken@[i] && forall|k: int|
            0 <= k < i ==> taken@[k],
        is_candidate(name@, r@),
{
    proof {
        lemma_first_free_from(taken@, 0);
    }
    let mut i: usize = 0;
    while i < taken.len()
        invariant
            i <= taken@.len(),
            first_free_from(taken@, 0) == first_free_from(taken@, i as int),
        decreases taken@.len() - i,
    {
        if !taken[i] {
            let r = candidate_exec(name, i as u64);
            proof {
                lemma_first_free_from(taken@, 0);
                if i > 0 {
                    assert(1 <= (i as nat) && r@ == numbered(name@, i as nat));
                }
            }
            return r;
        }
        i = i + 1;
    }
    let r = slice_chars(name, 0, name.len());
    assert(r@ =~= name@);
    r
}

/// A path in `dir` for a file called `name` that does not overwrite an existing
/// file: `name` itself when free, else its first free numbered form. Returns
/// the path and the chosen name. The candidates are probed on disk in order
/// until one is free, and `first_free` chooses from the answers; which answers
/// the disk gives is not stated. (Only when every number a `u64` holds were
/// taken would `name` itself come back.)
pub fn unique_path(dir: &str, name: &str) -> (r: (String, String))
    ensures
        exists|taken: Seq<bool>| r.1@ == #[trigger] free_choice(name@, taken),
        is_candidate(name@, r.1@),
        r.0@ == join_path(dir@, r.1@),
{
    let d = chars_of(dir);
    let n = chars_of(name);
    let mut taken: Vec<bool> = Vec::new();
    let mut i: u64 = 0;
    while i < u64::MAX
        decreases u64::MAX - i,
    {
        let cand = candidate_exec(&n, i);
        let hit = path_exists(string_of(&join_chars(&d, &cand)).as_str());
        taken.push(hit);
        if !hit {
            break;
        }
        i = i + 1;
    }
    let chosen = first_free(&n, &taken);
    (string_of(&join_chars(&d, &chosen)), string_of(&chosen))
}

/// The name of an intercepted download: the file name the page suggested,
/// when not empty; else the last segment of the URL's path, when neither
/// empty nor `session.export` (dsh's export endpoint); else the fallback name.
pub open spec fn download_name_of(suggested: Option<Seq<char>>, last_segment: Option<Seq<char>>) -> Seq<char> {
    match suggested {
        Some(s) if s.len() > 0 => s,
        _ => match last_segment {
            Some(g) if g.len() > 0 && g != "session.export"@ => g,
            _ => fallback_name(),
        },
    }
}

/// Names an intercepted download.
pub fn download_name(suggested: Option<String>, last_segment: Option<String>) -> (r: String)
    ensures
        r@ == download_name_of(
            match suggested {
                Some(s) => Some(s@),
                None => None,
            },
            match last_segment {
                Some(g) => Some(g@),
                None => None,
            },
        ),
{
    if let Some(s) = suggested {
        if chars_of(s.as_str()).len() > 0 {
            return s;
        }
    }
    if let Some(g) = last_segment {
        if chars_of(g.as_str()).len() > 0 && !chars_eq(&chars_of(g.as_str()), &chars_of("session.export")) {
            return g;
        }
    }
    owned("dsh-export.zip")
}

} // verus!
