//! Character-level text helpers shared by the parsers and formatters.
//!
//! Strings are reasoned about through their views, `Seq<char>`.
use vstd::prelude::*;

verus! {

/// Unicode `White_Space`, the set that `char::is_whitespace` and `str::trim` use.
pub open spec fn is_ws(c: char) -> bool {
    ||| ('\u{9}' <= c && c <= '\u{d}')
    ||| c == ' '
    ||| c == '\u{85}'
    ||| c == '\u{a0}'
    ||| c == '\u{1680}'
    ||| ('\u{2000}' <= c && c <= '\u{200a}')
    ||| c == '\u{2028}'
    ||| c == '\u{2029}'
    ||| c == '\u{202f}'
    ||| c == '\u{205f}'
    ||| c == '\u{3000}'
}

/// Executable `is_ws`.
pub fn char_is_ws(c: char) -> (b: bool)
    ensures
        b == is_ws(c),
{
    ('\u{9}' <= c && c <= '\u{d}') || c == ' ' || c == '\u{85}' || c == '\u{a0}' || c
        == '\u{1680}' || ('\u{2000}' <= c && c <= '\u{200a}') || c == '\u{2028}' || c
        == '\u{2029}' || c == '\u{202f}' || c == '\u{205f}' || c == '\u{3000}'
}

/// Index of the first non-whitespace character at or after `i` (or `s.len()`).
pub open spec fn skip_ws(s: Seq<char>, i: int) -> int
    decreases s.len() - i,
{
    if i < 0 || i >= s.len() {
        if i < 0 { 0 } else { s.len() as int }
    } else if is_ws(s[i]) {
        skip_ws(s, i + 1)
    } else {
        i
    }
}

/// End (exclusive) of `s.take(j)` once trailing whitespace is dropped.
pub open spec fn trim_end_at(s: Seq<char>, j: int) -> int
    decreases j,
{
    if j <= 0 {
        0
    } else if is_ws(s[j - 1]) {
        trim_end_at(s, j - 1)
    } else {
        j
    }
}

/// `str::trim_start`.
pub open spec fn trim_start(s: Seq<char>) -> Seq<char> {
    s.subrange(skip_ws(s, 0), s.len() as int)
}

/// `str::trim_end`.
pub open spec fn trim_end(s: Seq<char>) -> Seq<char> {
    s.subrange(0, trim_end_at(s, s.len() as int))
}

/// `str::trim`.
pub open spec fn trim(s: Seq<char>) -> Seq<char> {
    trim_end(trim_start(s))
}

pub proof fn lemma_skip_ws_bounds(s: Seq<char>, i: int)
    requires
        0 <= i <= s.len(),
    ensures
        i <= skip_ws(s, i) <= s.len(),
        skip_ws(s, i) < s.len() ==> !is_ws(s[skip_ws(s, i)]),
        forall|k: int| i <= k < skip_ws(s, i) ==> is_ws(#[trigger] s[k]),
    decreases s.len() - i,
{
    if i < s.len() && is_ws(s[i]) {
        lemma_skip_ws_bounds(s, i + 1);
    }
}

pub proof fn lemma_trim_end_bounds(s: Seq<char>, j: int)
    requires
        0 <= j <= s.len(),
    ensures
        0 <= trim_end_at(s, j) <= j,
        trim_end_at(s, j) > 0 ==> !is_ws(s[trim_end_at(s, j) - 1]),
        forall|k: int| trim_end_at(s, j) <= k < j ==> is_ws(#[trigger] s[k]),
    decreases j,
{
    if j > 0 && is_ws(s[j - 1]) {
        lemma_trim_end_bounds(s, j - 1);
    }
}


pub proof fn lemma_trim_idem(s: Seq<char>)
    ensures
        trim(trim(s)) == trim(s),
        trim(s).len() > 0 ==> !is_ws(trim(s)[0]) && !is_ws(trim(s).last()),
{
    let a = skip_ws(s, 0);
    lemma_skip_ws_bounds(s, 0);
    let t = trim_start(s);
    lemma_trim_end_bounds(t, t.len() as int);
    let u = trim(s);
    let b = trim_end_at(t, t.len() as int);
    assert(u =~= t.subrange(0, b));
    if u.len() > 0 {
        assert(u[0] == t[0]);
        assert(t[0] == s[a]);
        assert(!is_ws(u[0]));
        assert(!is_ws(u.last()));
        assert(skip_ws(u, 1) >= 1 || true);
        assert(skip_ws(u, 0) == 0);
        assert(trim_start(u) =~= u);
        assert(trim_end_at(u, u.len() as int) == u.len());
        assert(trim_end(u) =~= u);
    } else {
        assert(trim_start(u) =~= u);
        assert(trim_end(u) =~= u);
    }
}

/// Start of the trimmed part of `v`, computed.
pub fn skip_ws_exec(v: &Vec<char>, start: usize) -> (r: usize)
    requires
        start <= v@.len(),
    ensures
        r == skip_ws(v@, start as int),
{
    let mut i: usize = start;
    while i < v.len() && char_is_ws(v[i])
        invariant
            start <= i <= v@.len(),
            skip_ws(v@, start as int) == skip_ws(v@, i as int),
        decreases v@.len() - i,
    {
        i = i + 1;
    }
    i
}

/// End of the trimmed part of `v.take(end)`, computed.
pub fn trim_end_exec(v: &Vec<char>, end: usize) -> (r: usize)
    requires
        end <= v@.len(),
    ensures
        r == trim_end_at(v@, end as int),
{
    let mut j: usize = end;
    while j > 0 && char_is_ws(v[j - 1])
        invariant
            j <= end <= v@.len(),
            trim_end_at(v@, end as int) == trim_end_at(v@, j as int),
        decreases j,
    {
        j = j - 1;
    }
    j
}

/// `str::trim`, on characters.
pub fn trim_chars(v: &Vec<char>) -> (r: Vec<char>)
    ensures
        r@ == trim(v@),
{
    let a = skip_ws_exec(v, 0);
    proof {
        lemma_skip_ws_bounds(v@, 0);
    }
    let t = slice_chars(v, a, v.len());
    let b = trim_end_exec(&t, t.len());
    proof {
        lemma_trim_end_bounds(t@, t@.len() as int);
    }
    slice_chars(&t, 0, b)
}

/// The characters of `s`, in order.
pub fn chars_of(s: &str) -> (v: Vec<char>)
    ensures
        v@ == s@,
{
    let mut v: Vec<char> = Vec::new();
    for c in it: s.chars()
        invariant
            v@ == it.seq().take(it.index() as int),
    {
        v.push(c);
    }
    v
}

/// `v[from..to]` as a new vector.
pub fn slice_chars(v: &Vec<char>, from: usize, to: usize) -> (r: Vec<char>)
    requires
        from <= to <= v@.len(),
    ensures
        r@ == v@.subrange(from as int, to as int),
{
    let mut r: Vec<char> = Vec::new();
    let mut i: usize = from;
    while i < to
        invariant
            from <= i <= to <= v@.len(),
            r@ == v@.subrange(from as int, i as int),
        decreases to - i,
    {
        r.push(v[i]);
        i = i + 1;
    }
    r
}

/// Appends `b` to `a`.
pub fn push_all(a: &mut Vec<char>, b: &Vec<char>)
    ensures
        final(a)@ == old(a)@ + b@,
{
    let mut i: usize = 0;
    while i < b.len()
        invariant
            i <= b@.len(),
            a@ == old(a)@ + b@.take(i as int),
        decreases b@.len() - i,
    {
        a.push(b[i]);
        i = i + 1;
    }
}

/// Builds a `String` from its characters (`String::from_iter`).
#[verifier::external_body]
pub(crate) fn string_of(v: &Vec<char>) -> (s: String)
    ensures
        s@ == v@,
{
    String::from_iter(v.iter())
}

/// The characters of a string literal or other `&str`, as a `String`.
pub fn owned(s: &str) -> (r: String)
    ensures
        r@ == s@,
{
    string_of(&chars_of(s))
}

/// Whether the two character sequences are equal.
pub fn chars_eq(a: &Vec<char>, b: &Vec<char>) -> (r: bool)
    ensures
        r == (a@ == b@),
{
    if a.len() != b.len() {
        return false;
    }
    let mut i: usize = 0;
    while i < a.len()
        invariant
            a@.len() == b@.len(),
            i <= a@.len(),
            forall|k: int| 0 <= k < i ==> a@[k] == b@[k],
        decreases a@.len() - i,
    {
        if a[i] != b[i] {
            return false;
        }
        i = i + 1;
    }
    assert(a@ =~= b@);
    true
}

/// Whether the two strings are equal.
pub fn str_eq(a: &str, b: &str) -> (r: bool)
    ensures
        r == (a@ == b@),
{
    chars_eq(&chars_of(a), &chars_of(b))
}

/// `p` occurs in `s` at index `i`.
pub open spec fn occurs_at(s: Seq<char>, p: Seq<char>, i: int) -> bool {
    0 <= i && i + p.len() <= s.len() && s.subrange(i, i + p.len()) == p
}

/// `str::starts_with`.
pub open spec fn starts_with(s: Seq<char>, p: Seq<char>) -> bool {
    occurs_at(s, p, 0)
}

/// `str::ends_with`.
pub open spec fn ends_with(s: Seq<char>, p: Seq<char>) -> bool {
    p.len() <= s.len() && occurs_at(s, p, s.len() - p.len())
}

/// `str::contains` with a string pattern.
pub open spec fn contains(s: Seq<char>, p: Seq<char>) -> bool {
    exists|i: int| occurs_at(s, p, i)
}

/// First index at or after `i` where `p` occurs in `s`.
pub open spec fn find_from(s: Seq<char>, p: Seq<char>, i: int) -> Option<int>
    decreases s.len() + 1 - i,
{
    if i < 0 || i + p.len() > s.len() {
        None
    } else if occurs_at(s, p, i) {
        Some(i)
    } else {
        find_from(s, p, i + 1)
    }
}

/// `str::find` (as a character index).
pub open spec fn find(s: Seq<char>, p: Seq<char>) -> Option<int> {
    find_from(s, p, 0)
}

pub proof fn lemma_find_from(s: Seq<char>, p: Seq<char>, i: int)
    requires
        0 <= i,
    ensures
        find_from(s, p, i) matches Some(k) ==> i <= k && occurs_at(s, p, k) && forall|j: int|
            i <= j < k ==> !occurs_at(s, p, j),
        find_from(s, p, i) is None ==> forall|j: int| i <= j ==> !occurs_at(s, p, j),
    decreases s.len() + 1 - i,
{
    if i + p.len() <= s.len() && !occurs_at(s, p, i) {
        lemma_find_from(s, p, i + 1);
    }
}

/// Whether `p` occurs in `v` at index `i`.
pub fn occurs_at_exec(v: &Vec<char>, p: &Vec<char>, i: usize) -> (r: bool)
    ensures
        r == occurs_at(v@, p@, i as int),
{
    let n = v.len();
    let m = p.len();
    if i > n || m > n - i {
        return false;
    }
    let mut k: usize = 0;
    while k < m
        invariant
            n == v@.len(),
            m == p@.len(),
            i + m <= n,
            k <= m,
            forall|j: int| 0 <= j < k ==> v@[i + j] == p@[j],
        decreases m - k,
    {
        if v[i + k] != p[k] {
            assert(v@.subrange(i as int, i + p@.len())[k as int] != p@[k as int]);
            return false;
        }
        k = k + 1;
    }
    assert(v@.subrange(i as int, i + p@.len()) =~= p@);
    true
}

/// First index at or after `from` where `p` occurs in `v`.
pub fn find_from_exec(v: &Vec<char>, p: &Vec<char>, from: usize) -> (r: Option<usize>)
    ensures
        r matches Some(k) ==> find_from(v@, p@, from as int) == Some(k as int),
        r is None ==> find_from(v@, p@, from as int) is None,
{
    let n = v.len();
    let m = p.len();
    if m > n || from > n - m {
        return None;
    }
    let lim = n - m;
    let mut i: usize = from;
    loop
        invariant
            n == v@.len(),
            m == p@.len(),
            lim == n - m,
            from <= i <= lim,
            find_from(v@, p@, from as int) == find_from(v@, p@, i as int),
        decreases lim - i,
    {
        if occurs_at_exec(v, p, i) {
            return Some(i);
        }
        if i == lim {
            assert(find_from(v@, p@, i as int + 1) is None);
            return None;
        }
        i = i + 1;
    }
}

/// `true` when `p` occurs in `v`.
pub fn contains_exec(v: &Vec<char>, p: &Vec<char>) -> (r: bool)
    ensures
        r == contains(v@, p@),
{
    let r = find_from_exec(v, p, 0);
    proof {
        lemma_find_from(v@, p@, 0);
    }
    r.is_some()
}

/// `str::replace(pat, rep)` for a non-empty pattern: leftmost, non-overlapping.
pub open spec fn replace_all(s: Seq<char>, pat: Seq<char>, rep: Seq<char>) -> Seq<char>
    decreases s.len(),
{
    if pat.len() == 0 || s.len() < pat.len() {
        s
    } else if starts_with(s, pat) {
        rep + replace_all(s.subrange(pat.len() as int, s.len() as int), pat, rep)
    } else {
        seq![s[0]] + replace_all(s.drop_first(), pat, rep)
    }
}

/// Replaces every occurrence of `pat` in `s` by `rep` (`str::replace`).
pub fn replace_exec(s: &Vec<char>, pat: &Vec<char>, rep: &Vec<char>) -> (r: Vec<char>)
    requires
        pat@.len() > 0,
    ensures
        r@ == replace_all(s@, pat@, rep@),
{
    let mut out: Vec<char> = Vec::new();
    let mut i: usize = 0;
    assert(s@.subrange(0, s@.len() as int) =~= s@);
    while i < s.len()
        invariant
            pat@.len() > 0,
            i <= s@.len(),
            out@ + replace_all(s@.subrange(i as int, s@.len() as int), pat@, rep@) == replace_all(
                s@,
                pat@,
                rep@,
            ),
        decreases s@.len() - i,
    {
        let ghost rest = s@.subrange(i as int, s@.len() as int);
        if occurs_at_exec(s, pat, i) {
            let ghost out0 = out@;
            assert(rest.subrange(0, pat@.len() as int) =~= s@.subrange(
                i as int,
                i + pat@.len(),
            ));
            assert(rest.subrange(pat@.len() as int, rest.len() as int) =~= s@.subrange(
                i + pat@.len(),
                s@.len() as int,
            ));
            push_all(&mut out, rep);
            i = i + pat.len();
            let ghost tail = replace_all(s@.subrange(i as int, s@.len() as int), pat@, rep@);
            assert(replace_all(rest, pat@, rep@) == rep@ + tail);
            assert(out@ + tail =~= out0 + (rep@ + tail));
        } else {
            proof {
                if rest.len() >= pat@.len() {
                    assert(rest.subrange(0, pat@.len() as int) =~= s@.subrange(
                        i as int,
                        i + pat@.len(),
                    ));
                }
            }
            assert(rest.drop_first() =~= s@.subrange(i + 1, s@.len() as int));
            out.push(s[i]);
            i = i + 1;
        }
    }
    assert(s@.subrange(s@.len() as int, s@.len() as int) =~= Seq::<char>::empty());
    out
}


/// The ASCII digit for `d < 10`.
pub open spec fn digit(d: int) -> char {
    (('0' as int) + d) as char
}

/// Decimal representation of `n`, without leading zeros (`"0"` for zero).
pub open spec fn dec(n: nat) -> Seq<char>
    decreases n,
{
    if n < 10 {
        seq![digit(n as int)]
    } else {
        dec(n / 10) + seq![digit((n % 10) as int)]
    }
}

pub proof fn lemma_dec_len(n: nat)
    ensures
        dec(n).len() >= 1,
    decreases n,
{
    if n >= 10 {
        lemma_dec_len(n / 10);
    }
}

/// Decimal digits of `n` (`u64::to_string`).
pub fn dec_u64(n: u64) -> (r: Vec<char>)
    ensures
        r@ == dec(n as nat),
{
    let mut acc: Vec<char> = Vec::new();
    if n == 0 {
        acc.push('0');
        assert(acc@ =~= seq![digit(0)]);
        return acc;
    }
    let mut q: u64 = n;
    loop
        invariant
            q > 0,
            dec(n as nat) == dec(q as nat) + acc@,
        decreases q,
    {
        let d = q % 10;
        let c = char_of_digit(d);
        let ghost old_acc = acc@;
        acc.insert(0, c);
        assert(acc@ =~= seq![c] + old_acc);
        if q < 10 {
            assert(dec(q as nat) == seq![digit(q as int)]);
            assert(dec(n as nat) =~= acc@);
            return acc;
        }
        assert(dec(q as nat) == dec((q / 10) as nat) + seq![digit((q % 10) as int)]);
        assert(dec(q as nat) + old_acc =~= dec((q / 10) as nat) + acc@);
        q = q / 10;
    }
}

/// The character of a decimal digit.
pub fn char_of_digit(d: u64) -> (c: char)
    requires
        d < 10,
    ensures
        c == digit(d as int),
{
    if d == 0 { '0' }
    else if d == 1 { '1' }
    else if d == 2 { '2' }
    else if d == 3 { '3' }
    else if d == 4 { '4' }
    else if d == 5 { '5' }
    else if d == 6 { '6' }
    else if d == 7 { '7' }
    else if d == 8 { '8' }
    else { '9' }
}

/// `c` repeated `n` times.
pub open spec fn repeat(c: char, n: nat) -> Seq<char> {
    Seq::new(n, |_i: int| c)
}

/// `format!("{:0w$}", n)` for a non-negative number.
pub open spec fn zpad(n: nat, w: nat) -> Seq<char> {
    let d = dec(n);
    if d.len() >= w {
        d
    } else {
        repeat('0', (w - d.len()) as nat) + d
    }
}

/// `format!("{:0w$}", x)` for a signed number: the sign counts toward the width.
pub open spec fn zpad_signed(x: int, w: nat) -> Seq<char> {
    if x < 0 {
        seq!['-'] + zpad((-x) as nat, if w >= 1 { (w - 1) as nat } else { 0 })
    } else {
        zpad(x as nat, w)
    }
}

/// Zero-padded decimal digits of `n` with at least `w` characters.
pub fn zpad_u64(n: u64, w: usize) -> (r: Vec<char>)
    ensures
        r@ == zpad(n as nat, w as nat),
{
    let d = dec_u64(n);
    if d.len() >= w {
        return d;
    }
    let mut r: Vec<char> = Vec::new();
    let k = w - d.len();
    let mut i: usize = 0;
    while i < k
        invariant
            i <= k,
            r@ == repeat('0', i as nat),
        decreases k - i,
    {
        r.push('0');
        i = i + 1;
        assert(r@ =~= repeat('0', i as nat));
    }
    push_all(&mut r, &d);
    r
}

/// Zero-padded, sign-aware decimal digits of `x` with at least `w` characters.
pub fn zpad_i64(x: i64, w: usize) -> (r: Vec<char>)
    ensures
        r@ == zpad_signed(x as int, w as nat),
{
    if x < 0 {
        let mag: u64 = ((-(x + 1)) as u64) + 1;
        let mut r: Vec<char> = Vec::new();
        r.push('-');
        let ww: usize = if w >= 1 { w - 1 } else { 0 };
        let d = zpad_u64(mag, ww);
        push_all(&mut r, &d);
        r
    } else {
        zpad_u64(x as u64, w)
    }
}


// ───────────────────────────── splitting ─────────────────────────────

/// Index of the first `c` at or after `i`.
pub open spec fn next_index(s: Seq<char>, c: char, i: int) -> Option<int>
    decreases s.len() - i,
{
    if i < 0 || i >= s.len() {
        None
    } else if s[i] == c {
        Some(i)
    } else {
        next_index(s, c, i + 1)
    }
}

pub proof fn lemma_next_index(s: Seq<char>, c: char, i: int)
    requires
        0 <= i,
    ensures
        next_index(s, c, i) matches Some(k) ==> i <= k < s.len() && s[k] == c && forall|j: int|
            i <= j < k ==> s[j] != c,
        next_index(s, c, i) is None ==> forall|j: int| i <= j < s.len() ==> s[j] != c,
    decreases s.len() - i,
{
    if i < s.len() && s[i] != c {
        lemma_next_index(s, c, i + 1);
    }
}

pub proof fn lemma_next_index_all(s: Seq<char>, c: char)
    ensures
        forall|i: int| 0 <= i ==> (#[trigger] next_index(s, c, i) matches Some(k) ==> i <= k < s.len() && s[k] == c),
{
    assert forall|i: int| 0 <= i implies (#[trigger] next_index(s, c, i) matches Some(k) ==> i <= k < s.len() && s[k] == c) by {
        lemma_next_index(s, c, i);
    }
}

/// The fields of `s.subrange(start, len)` between the separators `c`
/// (`str::split` with a character).
pub open spec fn split_from(s: Seq<char>, c: char, start: int) -> Seq<Seq<char>>
    decreases s.len() - start,
{
    if start < 0 || start > s.len() {
        Seq::empty()
    } else {
        match next_index(s, c, start) {
            None => seq![s.subrange(start, s.len() as int)],
            Some(k) => if k < start || k >= s.len() {
                Seq::empty()
            } else {
                seq![s.subrange(start, k)] + split_from(s, c, k + 1)
            },
        }
    }
}

pub proof fn lemma_split_nonempty(s: Seq<char>, c: char, start: int)
    requires
        0 <= start <= s.len(),
    ensures
        split_from(s, c, start).len() >= 1,
{
    lemma_next_index(s, c, start);
}

/// `str::split(c)`.
pub open spec fn split_seq(s: Seq<char>, c: char) -> Seq<Seq<char>> {
    split_from(s, c, 0)
}

/// Splits `v` at every `c`.
pub fn split_chars(v: &Vec<char>, c: char) -> (r: Vec<Vec<char>>)
    ensures
        r@.len() >= 1,
        r@.len() == split_seq(v@, c).len(),
        forall|i: int| 0 <= i < r@.len() ==> #[trigger] r@[i]@ == split_seq(v@, c)[i],
{
    let n = v.len();
    let mut out: Vec<Vec<char>> = Vec::new();
    let mut cur: Vec<char> = Vec::new();
    let mut start: usize = 0;
    let mut i: usize = 0;
    let ghost mut done: Seq<Seq<char>> = Seq::empty();
    proof {
        lemma_next_index(v@, c, 0);
        lemma_split_nonempty(v@, c, 0);
    }
    while i < n
        invariant
            n == v@.len(),
            start <= i <= n,
            cur@ == v@.subrange(start as int, i as int),
            next_index(v@, c, start as int) == next_index(v@, c, i as int),
            out@.len() == done.len(),
            forall|k: int| 0 <= k < out@.len() ==> #[trigger] out@[k]@ == done[k],
            done + split_from(v@, c, start as int) == split_seq(v@, c),
        decreases n - i,
    {
        if v[i] == c {
            proof {
                assert(next_index(v@, c, i as int) == Some(i as int));
                assert(split_from(v@, c, start as int) == seq![v@.subrange(start as int, i as int)] + split_from(v@, c, i + 1));
                assert(done.push(cur@) + split_from(v@, c, i + 1) =~= done + split_from(v@, c, start as int));
                done = done.push(cur@);
            }
            out.push(cur);
            cur = Vec::new();
            i = i + 1;
            start = i;
        } else {
            cur.push(v[i]);
            i = i + 1;
        }
    }
    proof {
        assert(next_index(v@, c, n as int) is None);
        assert(split_from(v@, c, start as int) == seq![v@.subrange(start as int, n as int)]);
        assert(done.push(cur@) =~= done + split_from(v@, c, start as int));
        done = done.push(cur@);
    }
    out.push(cur);
    out
}

} // verus!
