//! The desktop control service: its URL decoding, request parsing and routing,
//! the titlebar and download actions it dispatches, the replies it frames,
//! the overlay state, the scripts injected into the content pages, and the
//! agent control channel.
use vstd::prelude::*;
use vstd::string::StringSliceAdditionalSpecFns;
use vstd::utf8::encode_utf8;
use crate::text::{
    char_is_ws, chars_of, lemma_next_index, lemma_skip_ws_bounds, next_index, skip_ws, skip_ws_exec,
    slice_chars, split_chars, split_seq, starts_with, str_eq, string_of, trim, trim_chars,
};
use crate::downloads::{
    has_dup, is_active, spec_cancel, spec_pause, spec_register, spec_remove, spec_retry, spec_take_pending,
    task_index, wf, DlView, Downloads,
};
use crate::environments::{fold_lower, fold_lower_exec};
use crate::filenames::{is_candidate, sanitized};
use crate::paths::{first_present, join, join_path, paths_view};
use crate::runtime::{dsh_bins_of, find_dsh_on_path, node_default_places, resolve_node_fallback};
use crate::settings::{ostr, Settings};
use crate::json::{
    json_member, json_member_of, json_member_u64, json_session_items, json_u64_of, json_with_member, session_items_of,
    with_member_pretty,
};
use crate::text::{chars_eq, dec, dec_u64, ends_with, owned, push_all, replace_all, replace_exec};
use crate::util::{format_utc, lemma_token_end, parse_uint, parse_unsigned, token_end, unix_now, utc_text};

verus! {

// ───────────────────────────── percent decoding ─────────────────────────────

/// `b` is an ASCII hexadecimal digit.
pub open spec fn is_hex(b: u8) -> bool {
    (0x30 <= b && b <= 0x39) || (0x41 <= b && b <= 0x46) || (0x61 <= b && b <= 0x66)
}

/// The value of a hexadecimal digit.
pub open spec fn hex_val(b: u8) -> int {
    if b <= 0x39 {
        b - 0x30
    } else if b <= 0x46 {
        b - 0x41 + 10
    } else {
        b - 0x61 + 10
    }
}

/// What `u8::from_str_radix(_, 16)` gives for a two-byte text: two hex
/// digits, or a `+` sign and one digit.
pub open spec fn hex_pair(a: u8, b: u8) -> Option<u8> {
    if a == 0x2b && is_hex(b) {
        Some(hex_val(b) as u8)
    } else if is_hex(a) && is_hex(b) {
        Some((hex_val(a) * 16 + hex_val(b)) as u8)
    } else {
        None
    }
}

/// `k` is a character boundary of the UTF-8 text `b` (`str::is_char_boundary`).
pub open spec fn on_boundary(b: Seq<u8>, k: int) -> bool {
    k == 0 || k == b.len() || (0 < k < b.len() && !(0x80 <= b[k] && b[k] < 0xc0))
}

/// Percent-decoding of the bytes from `i` on: `%hh` becomes the character with
/// that code, `+` a space, and every other byte the character with its code.
pub open spec fn decode_from(b: Seq<u8>, i: int) -> Seq<char>
    decreases b.len() - i,
{
    if i < 0 || i >= b.len() {
        Seq::empty()
    } else if b[i] == 0x25 && i + 2 < b.len() && hex_pair(b[i + 1], b[i + 2]) is Some {
        seq![hex_pair(b[i + 1], b[i + 2]).unwrap() as char] + decode_from(b, i + 3)
    } else if b[i] == 0x2b {
        seq![' '] + decode_from(b, i + 1)
    } else {
        seq![b[i] as char] + decode_from(b, i + 1)
    }
}

/// Decoding the bytes from `i` on never cuts a character: each `%` that is
/// followed by two more bytes has its two-byte text on character boundaries.
pub open spec fn decode_safe_from(b: Seq<u8>, i: int) -> bool
    decreases b.len() - i,
{
    if i < 0 || i >= b.len() {
        true
    } else if b[i] == 0x25 && i + 2 < b.len() {
        on_boundary(b, i + 1) && on_boundary(b, i + 3) && (if hex_pair(b[i + 1], b[i + 2]) is Some {
            decode_safe_from(b, i + 3)
        } else {
            decode_safe_from(b, i + 1)
        })
    } else {
        decode_safe_from(b, i + 1)
    }
}

/// The decoded text of `s`.
pub open spec fn url_decoded(s: &str) -> Seq<char> {
    decode_from(s.spec_bytes(), 0)
}

/// `s` can be decoded without cutting a character.
pub open spec fn url_decodable(s: &str) -> bool {
    decode_safe_from(s.spec_bytes(), 0)
}

fn is_hex_byte(b: u8) -> (r: bool)
    ensures
        r == is_hex(b),
{
    (0x30 <= b && b <= 0x39) || (0x41 <= b && b <= 0x46) || (0x61 <= b && b <= 0x66)
}

fn hex_value(b: u8) -> (r: u8)
    requires
        is_hex(b),
    ensures
        r as int == hex_val(b),
        r < 16,
{
    if b <= 0x39 {
        b - 0x30
    } else if b <= 0x46 {
        b - 0x41 + 10
    } else {
        b - 0x61 + 10
    }
}

fn hex_pair_exec(a: u8, b: u8) -> (r: Option<u8>)
    ensures
        r == hex_pair(a, b),
{
    if a == 0x2b && is_hex_byte(b) {
        Some(hex_value(b))
    } else if is_hex_byte(a) && is_hex_byte(b) {
        Some(hex_value(a) * 16 + hex_value(b))
    } else {
        None
    }
}

fn boundary_at(b: &[u8], k: usize) -> (r: bool)
    requires
        k <= b@.len(),
    ensures
        r == on_boundary(b@, k as int),
{
    k == 0 || k == b.len() || !(0x80 <= b[k] && b[k] < 0xc0)
}

/// Whether `url_decode` can decode `s` (see `url_decodable`).
pub fn url_decode_ok(s: &str) -> (r: bool)
    ensures
        r == url_decodable(s),
{
    let b = s.as_bytes();
    let n = b.len();
    let mut i: usize = 0;
    while i < n
        invariant
            n == b@.len(),
            b@ == s.spec_bytes(),
            i <= n,
            decode_safe_from(b@, 0) == decode_safe_from(b@, i as int),
        decreases n - i,
    {
        if b[i] == 0x25 && n - i > 2 {
            if !(boundary_at(b, i + 1) && boundary_at(b, i + 3)) {
                return false;
            }
            if hex_pair_exec(b[i + 1], b[i + 2]).is_some() {
                i = i + 3;
            } else {
                i = i + 1;
            }
        } else {
            i = i + 1;
        }
    }
    true
}

/// Percent-decodes a query value: `%hh` gives the character with that code
/// (two hex digits, or `+` and one), `+` gives a space, and every other byte
/// gives the character with its code (so non-ASCII text comes out byte by byte).
pub fn url_decode(s: &str) -> (r: String)
    requires
        url_decodable(s),
    ensures
        r@ == url_decoded(s),
{
    let b = s.as_bytes();
    let n = b.len();
    let mut out: Vec<char> = Vec::new();
    let mut i: usize = 0;
    while i < n
        invariant
            n == b@.len(),
            b@ == s.spec_bytes(),
            i <= n,
            out@ + decode_from(b@, i as int) == decode_from(b@, 0),
        decreases n - i,
    {
        if b[i] == 0x25 && n - i > 2 {
            match hex_pair_exec(b[i + 1], b[i + 2]) {
                Some(v) => {
                    let c = v as char;
                    proof {
                        assert(out@.push(c) + decode_from(b@, i + 3) =~= out@ + decode_from(b@, i as int));
                    }
                    out.push(c);
                    i = i + 3;
                    continue;
                },
                None => {},
            }
        }
        let c = if b[i] == 0x2b { ' ' } else { b[i] as char };
        proof {
            assert(out@.push(c) + decode_from(b@, i + 1) =~= out@ + decode_from(b@, i as int));
        }
        out.push(c);
        i = i + 1;
    }
    proof {
        assert(out@ =~= out@ + decode_from(b@, n as int));
    }
    string_of(&out)
}


// ───────────────────────────── colours ─────────────────────────────

/// Three parsed channels, when all three parsed.
pub open spec fn triple(r: Option<u8>, g: Option<u8>, b: Option<u8>) -> Option<(u8, u8, u8)> {
    match (r, g, b) {
        (Some(x), Some(y), Some(z)) => Some((x, y, z)),
        _ => None,
    }
}

/// The channels of the bytes after `#`: three ASCII bytes, each doubled, or
/// six bytes read two by two as hexadecimal.
pub open spec fn hex_color(rest: Seq<u8>) -> Option<(u8, u8, u8)> {
    if rest.len() == 3 {
        if rest[0] < 0x80 && rest[1] < 0x80 && rest[2] < 0x80 {
            triple(hex_pair(rest[0], rest[0]), hex_pair(rest[1], rest[1]), hex_pair(rest[2], rest[2]))
        } else {
            None
        }
    } else if rest.len() == 6 {
        triple(hex_pair(rest[0], rest[1]), hex_pair(rest[2], rest[3]), hex_pair(rest[4], rest[5]))
    } else {
        None
    }
}

/// The channels of `r, g, b` (each trimmed, a decimal number up to 255;
/// fields after the third are ignored).
pub open spec fn rgb_color(inner: Seq<char>) -> Option<(u8, u8, u8)> {
    let f = split_seq(inner, ',');
    if f.len() >= 3 {
        match (parse_unsigned(trim(f[0]), 255), parse_unsigned(trim(f[1]), 255), parse_unsigned(trim(f[2]), 255)) {
            (Some(x), Some(y), Some(z)) => Some((x as u8, y as u8, z as u8)),
            _ => None,
        }
    } else {
        None
    }
}

/// The colour that a CSS colour text names: `#rgb`, `#rrggbb` or `rgb(r, g, b)`,
/// after trimming.
pub open spec fn color_of(s: Seq<char>) -> Option<(u8, u8, u8)> {
    let t = trim(s);
    let tb = encode_utf8(t);
    if tb.len() > 0 && tb[0] == 0x23 {
        hex_color(tb.drop_first())
    } else if t.len() >= 5 && starts_with(t, "rgb("@) && t.last() == ')' {
        rgb_color(t.subrange(4, t.len() - 1))
    } else {
        None
    }
}

/// Reading the colour never cuts a character: six bytes after `#` are read in
/// pairs only where the pairs fall on character boundaries.
pub open spec fn color_readable(s: Seq<char>) -> bool {
    let tb = encode_utf8(trim(s));
    !(tb.len() == 7 && tb[0] == 0x23 && !(on_boundary(tb.drop_first(), 2) && on_boundary(tb.drop_first(), 4)))
}

/// Whether `parse_color` can read `s` (see `color_readable`).
pub fn parse_color_ok(s: &str) -> (r: bool)
    ensures
        r == color_readable(s@),
{
    let tv = trim_chars(&chars_of(s));
    let t = string_of(&tv);
    let tb = t.as_str().as_bytes();
    assert(tb@ == encode_utf8(trim(s@)));
    if tb.len() == 7 && tb[0] == 0x23 {
        let ghost rest = tb@.drop_first();
        assert(rest[2] == tb@[3] && rest[4] == tb@[5]);
        !(0x80 <= tb[3] && tb[3] < 0xc0) && !(0x80 <= tb[5] && tb[5] < 0xc0)
    } else {
        true
    }
}

fn field_u8(f: &Vec<char>) -> (r: Option<u8>)
    ensures
        r matches Some(x) ==> parse_unsigned(trim(f@), 255) == Some(x as nat),
        r is None ==> parse_unsigned(trim(f@), 255) is None,
{
    match parse_uint(&trim_chars(f), 255) {
        Some(x) => Some(x as u8),
        None => None,
    }
}

/// Parses a CSS colour (`#rrggbb`, `#rgb` or `rgb(r, g, b)`) into its channels.
pub fn parse_color(s: &str) -> (r: Option<(u8, u8, u8)>)
    requires
        color_readable(s@),
    ensures
        r == color_of(s@),
{
    let tv = trim_chars(&chars_of(s));
    let t = string_of(&tv);
    let tb = t.as_str().as_bytes();
    assert(tb@ == encode_utf8(trim(s@)));
    if tb.len() > 0 && tb[0] == 0x23 {
        let ghost rest = tb@.drop_first();
        if tb.len() == 4 {
            if tb[1] < 0x80 && tb[2] < 0x80 && tb[3] < 0x80 {
                let x = hex_pair_exec(tb[1], tb[1]);
                let y = hex_pair_exec(tb[2], tb[2]);
                let z = hex_pair_exec(tb[3], tb[3]);
                return match (x, y, z) {
                    (Some(a), Some(b), Some(c)) => Some((a, b, c)),
                    _ => None,
                };
            }
            return None;
        }
        if tb.len() == 7 {
            let x = hex_pair_exec(tb[1], tb[2]);
            let y = hex_pair_exec(tb[3], tb[4]);
            let z = hex_pair_exec(tb[5], tb[6]);
            return match (x, y, z) {
                (Some(a), Some(b), Some(c)) => Some((a, b, c)),
                _ => None,
            };
        }
        return None;
    }
    let n = tv.len();
    if n >= 5 && tv[0] == 'r' && tv[1] == 'g' && tv[2] == 'b' && tv[3] == '(' && tv[n - 1] == ')' {
        proof {
            reveal_strlit("rgb(");
            assert(tv@.subrange(0, 4) =~= "rgb("@);
            assert(starts_with(tv@, "rgb("@));
        }
        let mut inner: Vec<char> = Vec::new();
        let mut i: usize = 4;
        while i < n - 1
            invariant
                n == tv@.len(),
                n >= 5,
                4 <= i <= n - 1,
                inner@ == tv@.subrange(4, i as int),
            decreases n - 1 - i,
        {
            inner.push(tv[i]);
            i = i + 1;
        }
        let parts = split_chars(&inner, ',');
        if parts.len() >= 3 {
            let x = field_u8(&parts[0]);
            let y = field_u8(&parts[1]);
            let z = field_u8(&parts[2]);
            return match (x, y, z) {
                (Some(a), Some(b), Some(c)) => Some((a, b, c)),
                _ => None,
            };
        }
        return None;
    }
    proof {
        reveal_strlit("rgb(");
        if n >= 5 && starts_with(tv@, "rgb("@) && tv@.last() == ')' {
            assert(tv@.subrange(0, 4) =~= "rgb("@);
            assert(tv@[0] == "rgb("@[0]);
            assert(tv@[1] == "rgb("@[1]);
            assert(tv@[2] == "rgb("@[2]);
            assert(tv@[3] == "rgb("@[3]);
        }
    }
    None
}


// ───────────────────────────── requests ─────────────────────────────

/// The first line of a request (`str::lines().next()`): up to the first `\n`,
/// without a `\r` just before it; empty text has an empty first line.
pub open spec fn first_line(req: Seq<char>) -> Seq<char> {
    match next_index(req, '\n', 0) {
        None => req,
        Some(k) => if k > 0 && req[k - 1] == '\r' {
            req.subrange(0, k - 1)
        } else {
            req.subrange(0, k)
        },
    }
}

/// The whitespace-separated word at or after `i`, as its start and end.
pub open spec fn word_at(s: Seq<char>, i: int) -> Option<(int, int)> {
    let a = skip_ws(s, i);
    if a >= s.len() {
        None
    } else {
        Some((a, token_end(s, a)))
    }
}

/// The request method: the first word of the line (empty when there is none).
pub open spec fn method_of(line: Seq<char>) -> Seq<char> {
    match word_at(line, 0) {
        None => Seq::empty(),
        Some((a, b)) => line.subrange(a, b),
    }
}

/// The request target: the second word of the line (`/` when there is none).
pub open spec fn target_of(line: Seq<char>) -> Seq<char> {
    match word_at(line, 0) {
        None => "/"@,
        Some((a, b)) => match word_at(line, b) {
            None => "/"@,
            Some((c, d)) => line.subrange(c, d),
        },
    }
}

/// The path: the target up to its first `?`.
pub open spec fn path_of(target: Seq<char>) -> Seq<char> {
    split_seq(target, '?')[0]
}

/// The query: the target between its first and second `?` (empty without one).
pub open spec fn query_of(target: Seq<char>) -> Seq<char> {
    if split_seq(target, '?').len() > 1 {
        split_seq(target, '?')[1]
    } else {
        Seq::empty()
    }
}

/// A `key=value` field as its key and value (the value empty without `=`).
pub open spec fn key_value(f: Seq<char>) -> (Seq<char>, Seq<char>) {
    match next_index(f, '=', 0) {
        None => (f, Seq::empty()),
        Some(k) => (f.subrange(0, k), f.subrange(k + 1, f.len() as int)),
    }
}

/// The key/value pairs of the non-empty `&`-separated fields from `i` on.
pub open spec fn pairs_from(fields: Seq<Seq<char>>, i: int) -> Seq<(Seq<char>, Seq<char>)>
    decreases fields.len() - i,
{
    if i < 0 || i >= fields.len() {
        Seq::empty()
    } else if fields[i].len() == 0 {
        pairs_from(fields, i + 1)
    } else {
        seq![key_value(fields[i])] + pairs_from(fields, i + 1)
    }
}

/// The key/value pairs of a query, in order.
pub open spec fn query_pairs(query: Seq<char>) -> Seq<(Seq<char>, Seq<char>)> {
    pairs_from(split_seq(query, '&'), 0)
}

/// The value of `key` among the first `n` pairs: the last one given wins, as
/// when the pairs are collected into a map.
pub open spec fn lookup_in(pairs: Seq<(Seq<char>, Seq<char>)>, key: Seq<char>, n: int) -> Option<Seq<char>>
    decreases n,
{
    if n <= 0 || n > pairs.len() {
        None
    } else if pairs[n - 1].0 == key {
        Some(pairs[n - 1].1)
    } else {
        lookup_in(pairs, key, n - 1)
    }
}

/// The value of `key` in a query.
pub open spec fn lookup(pairs: Seq<(Seq<char>, Seq<char>)>, key: Seq<char>) -> Option<Seq<char>> {
    lookup_in(pairs, key, pairs.len() as int)
}

/// A request as the control service reads it: method, path and query pairs.
pub struct Request {
    pub method: String,
    pub path: String,
    pub query: Vec<(String, String)>,
}

/// The view of the query pairs.
pub open spec fn pairs_view(q: Seq<(String, String)>) -> Seq<(Seq<char>, Seq<char>)> {
    q.map_values(|p: (String, String)| (p.0@, p.1@))
}

/// The request that the text `req` holds.
pub open spec fn request_of(req: Seq<char>) -> (Seq<char>, Seq<char>, Seq<(Seq<char>, Seq<char>)>) {
    let line = first_line(req);
    let target = target_of(line);
    (method_of(line), path_of(target), query_pairs(query_of(target)))
}

fn word_at_exec(v: &Vec<char>, i: usize) -> (r: Option<(usize, usize)>)
    requires
        i <= v@.len(),
    ensures
        match r {
            None => word_at(v@, i as int) is None,
            Some((a, b)) => word_at(v@, i as int) == Some((a as int, b as int)) && a < b <= v@.len(),
        },
{
    let n = v.len();
    let a = skip_ws_exec(v, i);
    proof {
        lemma_skip_ws_bounds(v@, i as int);
    }
    if a >= n {
        return None;
    }
    let mut b = a;
    while b < n && !char_is_ws(v[b])
        invariant
            a <= b <= n,
            n == v@.len(),
            token_end(v@, a as int) == token_end(v@, b as int),
        decreases n - b,
    {
        b = b + 1;
    }
    proof {
        lemma_token_end(v@, a as int);
    }
    Some((a, b))
}

fn key_value_exec(f: &Vec<char>) -> (r: (String, String))
    ensures
        (r.0@, r.1@) == key_value(f@),
{
    proof {
        lemma_next_index(f@, '=', 0);
    }
    let n = f.len();
    let mut i: usize = 0;
    while i < n
        invariant
            n == f@.len(),
            i <= n,
            next_index(f@, '=', 0) == next_index(f@, '=', i as int),
        decreases n - i,
    {
        if f[i] == '=' {
            return (string_of(&slice_chars(f, 0, i)), string_of(&slice_chars(f, i + 1, n)));
        }
        i = i + 1;
    }
    assert(f@.subrange(0, n as int) =~= f@);
    (string_of(f), string_of(&Vec::new()))
}

/// Reads the method, path and query pairs of a request's text.
pub fn parse_request(req: &str) -> (r: Request)
    ensures
        (r.method@, r.path@, pairs_view(r.query@)) == request_of(req@),
{
    let all = chars_of(req);
    proof {
        lemma_next_index(all@, '\n', 0);
    }
    let mut end: usize = 0;
    while end < all.len() && all[end] != '\n'
        invariant
            end <= all@.len(),
            next_index(all@, '\n', 0) == next_index(all@, '\n', end as int),
        decreases all@.len() - end,
    {
        end = end + 1;
    }
    let stop = if end < all.len() && end > 0 && all[end - 1] == '\r' { end - 1 } else { end };
    let line = slice_chars(&all, 0, stop);
    assert(line@ =~= first_line(req@));
    let (method, target) = match word_at_exec(&line, 0) {
        None => (Vec::new(), vec!['/']),
        Some((a, b)) => {
            let m = slice_chars(&line, a, b);
            match word_at_exec(&line, b) {
                None => (m, vec!['/']),
                Some((c, d)) => (m, slice_chars(&line, c, d)),
            }
        },
    };
    proof {
        reveal_strlit("/");
    }
    assert(method@ =~= method_of(line@));
    assert(target@ =~= target_of(line@));
    let parts = split_chars(&target, '?');
    let path = string_of(&parts[0]);
    let query: Vec<char> = if parts.len() > 1 { slice_chars(&parts[1], 0, parts[1].len()) } else { Vec::new() };
    assert(query@ =~= query_of(target@));
    let fields = split_chars(&query, '&');
    let ghost fs = split_seq(query@, '&');
    let mut pairs: Vec<(String, String)> = Vec::new();
    let mut i: usize = 0;
    while i < fields.len()
        invariant
            fields@.len() == fs.len(),
            forall|k: int| 0 <= k < fields@.len() ==> #[trigger] fields@[k]@ == fs[k],
            i <= fields@.len(),
            pairs_view(pairs@) + pairs_from(fs, i as int) == pairs_from(fs, 0),
        decreases fields@.len() - i,
    {
        assert(fields@[i as int]@ == fs[i as int]);
        if fields[i].len() > 0 {
            let kv = key_value_exec(&fields[i]);
            proof {
                assert(pairs_view(pairs@.push(kv)) =~= pairs_view(pairs@).push((kv.0@, kv.1@)));
                assert(pairs_view(pairs@.push(kv)) + pairs_from(fs, i + 1) =~= pairs_view(pairs@) + pairs_from(fs, i as int));
            }
            pairs.push(kv);
        }
        i = i + 1;
    }
    assert(pairs_view(pairs@) =~= pairs_view(pairs@) + pairs_from(fs, i as int));
    assert(path@ == path_of(target@));
    Request { method: string_of(&method), path, query: pairs }
}

/// The value of `key` in the query pairs (the last one given wins).
pub fn query_value(q: &Vec<(String, String)>, key: &str) -> (r: Option<String>)
    ensures
        match r {
            None => lookup(pairs_view(q@), key@) is None,
            Some(v) => lookup(pairs_view(q@), key@) == Some(v@),
        },
{
    let ghost pv = pairs_view(q@);
    let mut n: usize = q.len();
    while n > 0
        invariant
            n <= q@.len(),
            pv == pairs_view(q@),
            lookup(pv, key@) == lookup_in(pv, key@, n as int),
        decreases n,
    {
        assert(pv[n - 1] == (q@[n - 1].0@, q@[n - 1].1@));
        if crate::text::str_eq(q[n - 1].0.as_str(), key) {
            return Some(q[n - 1].1.clone());
        }
        n = n - 1;
    }
    None
}


// ───────────────────────────── actions ─────────────────────────────

/// The shell's overlays: the menu, the quit dialog, the download panel and
/// the download settings.
#[derive(Clone, Copy, Debug, PartialEq, Eq, Structural)]
pub enum Overlay {
    Menu,
    Close,
    Downloads,
    Settings,
}

/// A titlebar / menu / tray action.
#[derive(Clone, Copy, Debug, PartialEq, Eq, Structural)]
pub enum UiAction {
    Min,
    Max,
    Close,
    Drag,
    Restart,
    Reload,
    MinTray,
    Quit,
    Browser,
    ToggleDeepseek,
    Toggle(Overlay),
    Hide(Overlay),
    MainClick,
    Ping,
}

/// The action that an action name stands for (`None`: not an action).
pub open spec fn ui_action_of(name: Seq<char>) -> Option<UiAction> {
    if name == "min"@ {
        Some(UiAction::Min)
    } else if name == "max"@ {
        Some(UiAction::Max)
    } else if name == "close"@ {
        Some(UiAction::Close)
    } else if name == "drag"@ {
        Some(UiAction::Drag)
    } else if name == "restart"@ {
        Some(UiAction::Restart)
    } else if name == "reload"@ {
        Some(UiAction::Reload)
    } else if name == "min-tray"@ {
        Some(UiAction::MinTray)
    } else if name == "quit"@ {
        Some(UiAction::Quit)
    } else if name == "browser"@ {
        Some(UiAction::Browser)
    } else if name == "toggle-deepseek"@ {
        Some(UiAction::ToggleDeepseek)
    } else if name == "popup-menu"@ {
        Some(UiAction::Toggle(Overlay::Menu))
    } else if name == "popup-menu-hide"@ {
        Some(UiAction::Hide(Overlay::Menu))
    } else if name == "popup-downloads"@ || name == "popup-dl"@ {
        Some(UiAction::Toggle(Overlay::Downloads))
    } else if name == "popup-downloads-hide"@ {
        Some(UiAction::Hide(Overlay::Downloads))
    } else if name == "popup-close"@ {
        Some(UiAction::Toggle(Overlay::Close))
    } else if name == "popup-close-hide"@ {
        Some(UiAction::Hide(Overlay::Close))
    } else if name == "popup-dl-settings"@ {
        Some(UiAction::Toggle(Overlay::Settings))
    } else if name == "main-click"@ {
        Some(UiAction::MainClick)
    } else if name == "ping"@ {
        Some(UiAction::Ping)
    } else {
        None
    }
}

/// Reads an action name (`run_action` answers `false` for a name that is none).
pub fn parse_ui_action(name: &str) -> (r: Option<UiAction>)
    ensures
        r == ui_action_of(name@),
{
    if str_eq(name, "min") {
        Some(UiAction::Min)
    } else if str_eq(name, "max") {
        Some(UiAction::Max)
    } else if str_eq(name, "close") {
        Some(UiAction::Close)
    } else if str_eq(name, "drag") {
        Some(UiAction::Drag)
    } else if str_eq(name, "restart") {
        Some(UiAction::Restart)
    } else if str_eq(name, "reload") {
        Some(UiAction::Reload)
    } else if str_eq(name, "min-tray") {
        Some(UiAction::MinTray)
    } else if str_eq(name, "quit") {
        Some(UiAction::Quit)
    } else if str_eq(name, "browser") {
        Some(UiAction::Browser)
    } else if str_eq(name, "toggle-deepseek") {
        Some(UiAction::ToggleDeepseek)
    } else if str_eq(name, "popup-menu") {
        Some(UiAction::Toggle(Overlay::Menu))
    } else if str_eq(name, "popup-menu-hide") {
        Some(UiAction::Hide(Overlay::Menu))
    } else if str_eq(name, "popup-downloads") || str_eq(name, "popup-dl") {
        Some(UiAction::Toggle(Overlay::Downloads))
    } else if str_eq(name, "popup-downloads-hide") {
        Some(UiAction::Hide(Overlay::Downloads))
    } else if str_eq(name, "popup-close") {
        Some(UiAction::Toggle(Overlay::Close))
    } else if str_eq(name, "popup-close-hide") {
        Some(UiAction::Hide(Overlay::Close))
    } else if str_eq(name, "popup-dl-settings") {
        Some(UiAction::Toggle(Overlay::Settings))
    } else if str_eq(name, "main-click") {
        Some(UiAction::MainClick)
    } else if str_eq(name, "ping") {
        Some(UiAction::Ping)
    } else {
        None
    }
}

/// A download-panel action.
pub enum DownloadKind {
    Cancel,
    /// Pause (`true`) or resume (`false`).
    Pause(bool),
    Open,
    OpenFile,
    CopyUrl,
    Remove,
    Delete,
    /// Confirm the pending download; the raw (still encoded) folder.
    AskConfirm(String),
    AskCancel,
    Retry,
    Browser,
}

/// A download-panel action with the task id it names (0 when absent or not a number).
pub struct DownloadRequest {
    pub kind: DownloadKind,
    pub id: u64,
}

/// The names that go to the download panel rather than the titlebar.
pub open spec fn is_download_name(name: Seq<char>) -> bool {
    starts_with(name, "download-"@) || name == "dl-ask-confirm"@ || name == "dl-ask-cancel"@
}

/// The value of a query parameter, empty when absent.
pub open spec fn param_text(pairs: Seq<(Seq<char>, Seq<char>)>, key: Seq<char>) -> Seq<char> {
    match lookup(pairs, key) {
        Some(v) => v,
        None => Seq::empty(),
    }
}

/// The task id parameter: a `u64`, or 0.
pub open spec fn id_param(pairs: Seq<(Seq<char>, Seq<char>)>) -> u64 {
    match lookup(pairs, "id"@) {
        Some(v) => match parse_unsigned(v, u64::MAX as nat) {
            Some(x) => x as u64,
            None => 0,
        },
        None => 0,
    }
}

/// The pause parameter: `on=1` pauses, another value resumes, and none pauses.
pub open spec fn on_param(pairs: Seq<(Seq<char>, Seq<char>)>) -> bool {
    match lookup(pairs, "on"@) {
        Some(v) => v == "1"@,
        None => true,
    }
}

/// The download action that a name stands for, given the query.
pub open spec fn download_kind_of(name: Seq<char>, pairs: Seq<(Seq<char>, Seq<char>)>) -> Option<int> {
    if name == "download-cancel"@ {
        Some(0)
    } else if name == "download-pause"@ {
        Some(1)
    } else if name == "download-open"@ {
        Some(2)
    } else if name == "download-open-file"@ {
        Some(3)
    } else if name == "download-copy-url"@ {
        Some(4)
    } else if name == "download-remove"@ {
        Some(5)
    } else if name == "download-delete"@ {
        Some(6)
    } else if name == "dl-ask-confirm"@ {
        Some(7)
    } else if name == "dl-ask-cancel"@ {
        Some(8)
    } else if name == "download-retry"@ {
        Some(9)
    } else if name == "download-browser"@ {
        Some(10)
    } else {
        None
    }
}

/// The number of each download action, in the order of `download_kind_of`.
pub open spec fn kind_number(k: DownloadKind) -> int {
    match k {
        DownloadKind::Cancel => 0,
        DownloadKind::Pause(_) => 1,
        DownloadKind::Open => 2,
        DownloadKind::OpenFile => 3,
        DownloadKind::CopyUrl => 4,
        DownloadKind::Remove => 5,
        DownloadKind::Delete => 6,
        DownloadKind::AskConfirm(_) => 7,
        DownloadKind::AskCancel => 8,
        DownloadKind::Retry => 9,
        DownloadKind::Browser => 10,
    }
}

/// Reads a download-panel action: its kind, the task id, the pause flag and the
/// raw folder of a confirmation.
pub fn parse_download_action(name: &str, q: &Vec<(String, String)>) -> (r: Option<DownloadRequest>)
    ensures
        r is None <==> download_kind_of(name@, pairs_view(q@)) is None,
        r matches Some(d) ==> download_kind_of(name@, pairs_view(q@)) == Some(kind_number(d.kind))
            && d.id == id_param(pairs_view(q@))
            && (d.kind matches DownloadKind::Pause(on) ==> on == on_param(pairs_view(q@)))
            && (d.kind matches DownloadKind::AskConfirm(dir) ==> dir@ == param_text(pairs_view(q@), "dir"@)),
{
    let id: u64 = match query_value(q, "id") {
        Some(v) => match parse_uint(&chars_of(v.as_str()), u64::MAX) {
            Some(x) => x,
            None => 0,
        },
        None => 0,
    };
    let kind = if str_eq(name, "download-cancel") {
        DownloadKind::Cancel
    } else if str_eq(name, "download-pause") {
        let on = match query_value(q, "on") {
            Some(v) => str_eq(v.as_str(), "1"),
            None => true,
        };
        DownloadKind::Pause(on)
    } else if str_eq(name, "download-open") {
        DownloadKind::Open
    } else if str_eq(name, "download-open-file") {
        DownloadKind::OpenFile
    } else if str_eq(name, "download-copy-url") {
        DownloadKind::CopyUrl
    } else if str_eq(name, "download-remove") {
        DownloadKind::Remove
    } else if str_eq(name, "download-delete") {
        DownloadKind::Delete
    } else if str_eq(name, "dl-ask-confirm") {
        let dir = match query_value(q, "dir") {
            Some(v) => v,
            None => string_of(&Vec::new()),
        };
        DownloadKind::AskConfirm(dir)
    } else if str_eq(name, "dl-ask-cancel") {
        DownloadKind::AskCancel
    } else if str_eq(name, "download-retry") {
        DownloadKind::Retry
    } else if str_eq(name, "download-browser") {
        DownloadKind::Browser
    } else {
        return None;
    };
    Some(DownloadRequest { kind, id })
}


// ───────────────────────────── routes ─────────────────────────────

/// What `/action` was asked to do.
pub enum ActionRequest {
    Ui(UiAction),
    Download(DownloadRequest),
    /// Not an action: answered `{"ok":false}`.
    Unknown,
}

/// The download settings sent to `/dl-set`.
pub struct DlSet {
    /// The download folder, trimmed; `None` for the system default.
    pub dir: Option<String>,
    pub ask: bool,
    pub auto_show: bool,
    /// The titlebar tint, at most 100, when one was given.
    pub tint: Option<u8>,
    /// The window material, lower-cased, when it is one of `acrylic`, `mica`, `none`.
    pub material: Option<String>,
}

/// The control service's endpoints.
pub enum Route {
    Status,
    Action(ActionRequest),
    Downloads,
    Icon,
    /// A line for the log, decoded.
    Log(String),
    /// A theme report: the reporting page (`dsh` unless given) and its decoded text.
    SetTheme(String, String),
    Theme,
    DlAsk,
    DlSettings,
    DlSet(DlSet),
    NotFound,
}

/// The decoded value of a parameter (empty when absent).
pub open spec fn decoded_param(pairs: Seq<(Seq<char>, Seq<char>)>, key: Seq<char>) -> Seq<char> {
    decode_from(encode_utf8(param_text(pairs, key)), 0)
}

/// The parameter can be decoded.
pub open spec fn param_decodable(pairs: Seq<(Seq<char>, Seq<char>)>, key: Seq<char>) -> bool {
    decode_safe_from(encode_utf8(param_text(pairs, key)), 0)
}

/// The window materials that can be chosen.
pub open spec fn material_of(v: Seq<char>) -> Option<Seq<char>> {
    let l = fold_lower(v);
    if l == "acrylic"@ || l == "mica"@ || l == "none"@ {
        Some(l)
    } else {
        None
    }
}

/// The window's material effect.
#[derive(Clone, Copy, Debug, PartialEq, Eq, Structural)]
pub enum WindowEffect {
    /// No material: the effects are cleared and the window gets the page's colour.
    Clear,
    MicaDark,
    MicaLight,
    Acrylic,
}

/// The effect for the material set (in any case): `none` clears it, `mica`
/// follows the theme's darkness, anything else is acrylic.
pub open spec fn window_effect_of(material: Seq<char>, dark: bool) -> WindowEffect {
    let l = fold_lower(material);
    if l == "none"@ {
        WindowEffect::Clear
    } else if l == "mica"@ {
        if dark { WindowEffect::MicaDark } else { WindowEffect::MicaLight }
    } else {
        WindowEffect::Acrylic
    }
}

/// Chooses the window effect.
pub fn window_effect(material: &str, dark: bool) -> (r: WindowEffect)
    ensures
        r == window_effect_of(material@, dark),
{
    let l = fold_lower_exec(&chars_of(material));
    if chars_eq(&l, &chars_of("none")) {
        WindowEffect::Clear
    } else if chars_eq(&l, &chars_of("mica")) {
        if dark { WindowEffect::MicaDark } else { WindowEffect::MicaLight }
    } else {
        WindowEffect::Acrylic
    }
}

/// The settings that `/dl-set` asks for, from its (decoded) folder and raw query.
pub open spec fn dl_set_of(pairs: Seq<(Seq<char>, Seq<char>)>) -> (
    Option<Seq<char>>,
    bool,
    bool,
    Option<nat>,
    Option<Seq<char>>,
) {
    let d = trim(decoded_param(pairs, "dir"@));
    (
        if d.len() == 0 { None } else { Some(d) },
        match lookup(pairs, "ask"@) {
            Some(v) => v == "1"@,
            None => false,
        },
        match lookup(pairs, "auto"@) {
            Some(v) => v == "1"@,
            None => true,
        },
        match lookup(pairs, "tint"@) {
            Some(v) => match parse_unsigned(v, 255) {
                Some(t) => Some(if t > 100 { 100 } else { t }),
                None => None,
            },
            None => None,
        },
        match lookup(pairs, "material"@) {
            Some(v) => material_of(v),
            None => None,
        },
    )
}

/// The view of a `DlSet`.
pub open spec fn dl_set_view(d: DlSet) -> (Option<Seq<char>>, bool, bool, Option<nat>, Option<Seq<char>>) {
    (
        match d.dir {
            Some(x) => Some(x@),
            None => None,
        },
        d.ask,
        d.auto_show,
        match d.tint {
            Some(t) => Some(t as nat),
            None => None,
        },
        match d.material {
            Some(m) => Some(m@),
            None => None,
        },
    )
}

fn decoded_value(q: &Vec<(String, String)>, key: &str) -> (r: Option<String>)
    ensures
        r is None <==> !param_decodable(pairs_view(q@), key@),
        r matches Some(v) ==> v@ == decoded_param(pairs_view(q@), key@),
{
    let raw = match query_value(q, key) {
        Some(v) => v,
        None => string_of(&Vec::new()),
    };
    assert(raw@ == param_text(pairs_view(q@), key@));
    let rs = raw.as_str();
    assert(rs.spec_bytes() == encode_utf8(raw@));
    if url_decode_ok(rs) {
        Some(url_decode(rs))
    } else {
        None
    }
}

fn action_request(name: &str, q: &Vec<(String, String)>) -> (r: ActionRequest)
    ensures
        is_download_name(name@) ==> match r {
            ActionRequest::Download(d) => download_kind_of(name@, pairs_view(q@)) == Some(kind_number(d.kind))
                && d.id == id_param(pairs_view(q@))
                && (d.kind matches DownloadKind::Pause(on) ==> on == on_param(pairs_view(q@)))
                && (d.kind matches DownloadKind::AskConfirm(dir) ==> dir@ == param_text(pairs_view(q@), "dir"@)),
            ActionRequest::Unknown => download_kind_of(name@, pairs_view(q@)) is None,
            ActionRequest::Ui(_) => false,
        },
        !is_download_name(name@) ==> match r {
            ActionRequest::Ui(u) => ui_action_of(name@) == Some(u),
            ActionRequest::Unknown => ui_action_of(name@) is None,
            ActionRequest::Download(_) => false,
        },
{
    let v = chars_of(name);
    let prefix: Vec<char> = vec!['d', 'o', 'w', 'n', 'l', 'o', 'a', 'd', '-'];
    proof {
        reveal_strlit("download-");
        assert(prefix@ =~= "download-"@);
    }
    let dl = crate::text::occurs_at_exec(&v, &prefix, 0) || str_eq(name, "dl-ask-confirm") || str_eq(name, "dl-ask-cancel");
    if dl {
        match parse_download_action(name, q) {
            Some(d) => ActionRequest::Download(d),
            None => ActionRequest::Unknown,
        }
    } else {
        match parse_ui_action(name) {
            Some(u) => ActionRequest::Ui(u),
            None => ActionRequest::Unknown,
        }
    }
}

/// The endpoint a path names: 1 `/status`, 2 `/action`, 3 `/downloads`,
/// 4 `/icon`, 5 `/log`, 6 `/set-theme`, 7 `/theme`, 8 `/dl-ask`,
/// 9 `/dl-settings`, 10 `/dl-set`, 0 none.
pub open spec fn endpoint_of(path: Seq<char>) -> int {
    if path == "/status"@ {
        1
    } else if path == "/action"@ {
        2
    } else if path == "/downloads"@ {
        3
    } else if path == "/icon"@ {
        4
    } else if path == "/log"@ {
        5
    } else if path == "/set-theme"@ {
        6
    } else if path == "/theme"@ {
        7
    } else if path == "/dl-ask"@ {
        8
    } else if path == "/dl-settings"@ {
        9
    } else if path == "/dl-set"@ {
        10
    } else {
        0
    }
}

/// The endpoint of a `GET` request (0 for any other method).
pub open spec fn get_endpoint(method: Seq<char>, path: Seq<char>) -> int {
    if method == "GET"@ {
        endpoint_of(path)
    } else {
        0
    }
}

/// Routes a request of the control service. `None` when a parameter that the
/// endpoint decodes cannot be decoded without cutting a character (the
/// request is then dropped unanswered).
pub fn route_request(req: &Request) -> (r: Option<Route>)
    ensures
        ({
            let e = get_endpoint(req.method@, req.path@);
            let pairs = pairs_view(req.query@);
            &&& (r is None) <==> (e == 2 && !param_decodable(pairs, "name"@)) || (e == 5 && !param_decodable(pairs, "msg"@))
                || (e == 6 && !param_decodable(pairs, "t"@)) || (e == 10 && !param_decodable(pairs, "dir"@))
            &&& (r matches Some(Route::NotFound)) <==> e == 0
            &&& (r matches Some(Route::Status)) <==> e == 1
            &&& (r matches Some(Route::Downloads)) <==> e == 3
            &&& (r matches Some(Route::Icon)) <==> e == 4
            &&& (r matches Some(Route::Theme)) <==> e == 7
            &&& (r matches Some(Route::DlAsk)) <==> e == 8
            &&& (r matches Some(Route::DlSettings)) <==> e == 9
            &&& r matches Some(Route::Log(m)) ==> e == 5 && m@ == decoded_param(pairs, "msg"@)
            &&& r matches Some(Route::SetTheme(src, t)) ==> e == 6
                && src@ == (match lookup(pairs, "src"@) { Some(v) => v, None => "dsh"@ })
                && t@ == decoded_param(pairs, "t"@)
            &&& r matches Some(Route::DlSet(d)) ==> e == 10 && dl_set_view(d) == dl_set_of(pairs)
            &&& r matches Some(Route::Action(a)) ==> e == 2 && {
                let name = decoded_param(pairs, "name"@);
                &&& is_download_name(name) ==> match a {
                    ActionRequest::Download(d) => download_kind_of(name, pairs) == Some(kind_number(d.kind))
                        && d.id == id_param(pairs)
                        && (d.kind matches DownloadKind::Pause(on) ==> on == on_param(pairs))
                        && (d.kind matches DownloadKind::AskConfirm(dir) ==> dir@ == param_text(pairs, "dir"@)),
                    ActionRequest::Unknown => download_kind_of(name, pairs) is None,
                    ActionRequest::Ui(_) => false,
                }
                &&& !is_download_name(name) ==> match a {
                    ActionRequest::Ui(u) => ui_action_of(name) == Some(u),
                    ActionRequest::Unknown => ui_action_of(name) is None,
                    ActionRequest::Download(_) => false,
                }
            }
        }),
{
    let q = &req.query;
    if !str_eq(req.method.as_str(), "GET") {
        return Some(Route::NotFound);
    }
    let p = req.path.as_str();
    if str_eq(p, "/status") {
        Some(Route::Status)
    } else if str_eq(p, "/action") {
        match decoded_value(q, "name") {
            None => None,
            Some(name) => Some(Route::Action(action_request(name.as_str(), q))),
        }
    } else if str_eq(p, "/downloads") {
        Some(Route::Downloads)
    } else if str_eq(p, "/icon") {
        Some(Route::Icon)
    } else if str_eq(p, "/log") {
        match decoded_value(q, "msg") {
            None => None,
            Some(m) => Some(Route::Log(m)),
        }
    } else if str_eq(p, "/set-theme") {
        match decoded_value(q, "t") {
            None => None,
            Some(t) => {
                let src = match query_value(q, "src") {
                    Some(v) => v,
                    None => owned("dsh"),
                };
                Some(Route::SetTheme(src, t))
            },
        }
    } else if str_eq(p, "/theme") {
        Some(Route::Theme)
    } else if str_eq(p, "/dl-ask") {
        Some(Route::DlAsk)
    } else if str_eq(p, "/dl-settings") {
        Some(Route::DlSettings)
    } else if str_eq(p, "/dl-set") {
        match decoded_value(q, "dir") {
            None => None,
            Some(d) => {
                let dt = trim_chars(&chars_of(d.as_str()));
                let dir = if dt.len() == 0 { None } else { Some(string_of(&dt)) };
                let ask = match query_value(q, "ask") {
                    Some(v) => str_eq(v.as_str(), "1"),
                    None => false,
                };
                let auto_show = match query_value(q, "auto") {
                    Some(v) => str_eq(v.as_str(), "1"),
                    None => true,
                };
                let tint = match query_value(q, "tint") {
                    Some(v) => match parse_uint(&chars_of(v.as_str()), 255) {
                        Some(t) => Some(if t > 100 { 100u8 } else { t as u8 }),
                        None => None,
                    },
                    None => None,
                };
                let material = match query_value(q, "material") {
                    Some(v) => {
                        let l = fold_lower_exec(&chars_of(v.as_str()));
                        let ls = string_of(&l);
                        if str_eq(ls.as_str(), "acrylic") || str_eq(ls.as_str(), "mica") || str_eq(ls.as_str(), "none") {
                            Some(ls)
                        } else {
                            None
                        }
                    },
                    None => None,
                };
                Some(Route::DlSet(DlSet { dir, ask, auto_show, tint, material }))
            },
        }
    } else {
        Some(Route::NotFound)
    }
}


// ───────────────────────────── replies ─────────────────────────────

/// A JSON string body with `\` and `"` escaped.
pub open spec fn json_escape(s: Seq<char>) -> Seq<char> {
    replace_all(replace_all(s, "\\"@, "\\\\"@), "\""@, "\\\""@)
}

/// Escapes `\` and `"` for a JSON string body.
pub fn json_escape_exec(s: &str) -> (r: String)
    ensures
        r@ == json_escape(s@),
{
    let bs = chars_of("\\");
    let bs2 = chars_of("\\\\");
    let q = chars_of("\"");
    let q2 = chars_of("\\\"");
    proof {
        reveal_strlit("\\");
        reveal_strlit("\"");
    }
    let a = replace_exec(&chars_of(s), &bs, &bs2);
    string_of(&replace_exec(&a, &q, &q2))
}

/// `true` or `false`.
pub open spec fn bool_text(b: bool) -> Seq<char> {
    if b {
        "true"@
    } else {
        "false"@
    }
}

fn push_str(v: &mut Vec<char>, s: &str)
    ensures
        final(v)@ == old(v)@ + s@,
{
    push_all(v, &chars_of(s));
}

fn push_bool(v: &mut Vec<char>, b: bool)
    ensures
        final(v)@ == old(v)@ + bool_text(b),
{
    if b {
        push_str(v, "true");
    } else {
        push_str(v, "false");
    }
}

/// The head of a successful JSON reply.
pub open spec fn json_head() -> Seq<char> {
    "HTTP/1.1 200 OK\r\ncontent-type: application/json\r\naccess-control-allow-origin: *\r\n\r\n"@
}

/// A successful JSON reply with `body`.
pub fn reply_json(body: &str) -> (r: String)
    ensures
        r@ == json_head() + body@,
{
    let mut v: Vec<char> = Vec::new();
    push_str(&mut v, "HTTP/1.1 200 OK\r\ncontent-type: application/json\r\naccess-control-allow-origin: *\r\n\r\n");
    push_str(&mut v, body);
    string_of(&v)
}

/// The reply of the endpoints that answer an empty object.
pub fn reply_empty() -> (r: String)
    ensures
        r@ == "HTTP/1.1 200 OK\r\naccess-control-allow-origin: *\r\n\r\n{}"@,
{
    owned("HTTP/1.1 200 OK\r\naccess-control-allow-origin: *\r\n\r\n{}")
}

/// The reply to an unknown request.
pub fn reply_not_found() -> (r: String)
    ensures
        r@ == "HTTP/1.1 404 Not Found\r\naccess-control-allow-origin: *\r\n\r\n{}"@,
{
    owned("HTTP/1.1 404 Not Found\r\naccess-control-allow-origin: *\r\n\r\n{}")
}

/// The head of the icon reply (the PNG bytes follow it).
pub fn reply_icon_head() -> (r: String)
    ensures
        r@ == "HTTP/1.1 200 OK\r\ncontent-type: image/png\r\naccess-control-allow-origin: *\r\n\r\n"@,
{
    owned("HTTP/1.1 200 OK\r\ncontent-type: image/png\r\naccess-control-allow-origin: *\r\n\r\n")
}

/// `{"ok":true}` or `{"ok":false}`.
pub open spec fn action_body(ok: bool) -> Seq<char> {
    "{\"ok\":"@ + bool_text(ok) + "}"@
}

/// The body of the `/action` reply.
pub fn action_reply_body(ok: bool) -> (r: String)
    ensures
        r@ == action_body(ok),
{
    let mut v: Vec<char> = Vec::new();
    push_str(&mut v, "{\"ok\":");
    push_bool(&mut v, ok);
    push_str(&mut v, "}");
    string_of(&v)
}

/// The theme object `{"bg":..,"fg":..}`, or `{}` without a theme.
pub open spec fn theme_body(theme: Option<(Seq<char>, Seq<char>)>) -> Seq<char> {
    match theme {
        None => "{}"@,
        Some((bg, fg)) => "{\"bg\":\""@ + json_escape(bg) + "\",\"fg\":\""@ + json_escape(fg) + "\"}"@,
    }
}

/// The body of the `/theme` reply and of a theme pushed to the shell.
pub fn theme_reply_body(theme: &Option<(String, String)>) -> (r: String)
    ensures
        r@ == theme_body(match theme {
            Some((b, f)) => Some((b@, f@)),
            None => None,
        }),
{
    match theme {
        None => owned("{}"),
        Some((bg, fg)) => {
            let mut v: Vec<char> = Vec::new();
            push_str(&mut v, "{\"bg\":\"");
            push_str(&mut v, json_escape_exec(bg.as_str()).as_str());
            push_str(&mut v, "\",\"fg\":\"");
            push_str(&mut v, json_escape_exec(fg.as_str()).as_str());
            push_str(&mut v, "\"}");
            string_of(&v)
        },
    }
}

/// The `/dl-ask` object: whether a download waits for its folder, its name
/// and the folder proposed.
pub open spec fn dl_ask_body(pending: Seq<char>, dir: Seq<char>) -> Seq<char> {
    "{\"pending\":"@ + bool_text(pending.len() > 0) + ",\"name\":\""@ + json_escape(pending) + "\",\"dir\":\""@
        + json_escape(dir) + "\"}"@
}

/// The body of the `/dl-ask` reply (`pending` empty when nothing waits).
pub fn dl_ask_reply_body(pending: &str, dir: &str) -> (r: String)
    ensures
        r@ == dl_ask_body(pending@, dir@),
{
    let mut v: Vec<char> = Vec::new();
    push_str(&mut v, "{\"pending\":");
    push_bool(&mut v, chars_of(pending).len() > 0);
    push_str(&mut v, ",\"name\":\"");
    push_str(&mut v, json_escape_exec(pending).as_str());
    push_str(&mut v, "\",\"dir\":\"");
    push_str(&mut v, json_escape_exec(dir).as_str());
    push_str(&mut v, "\"}");
    string_of(&v)
}

/// The `/dl-settings` object (the material is written as it is stored).
pub open spec fn dl_settings_body(dir: Seq<char>, ask: bool, auto_show: bool, tint: u8, material: Seq<char>) -> Seq<char> {
    "{\"dir\":\""@ + json_escape(dir) + "\",\"ask\":"@ + bool_text(ask) + ",\"autoShow\":"@ + bool_text(auto_show)
        + ",\"tint\":"@ + dec(tint as nat) + ",\"material\":\""@ + material + "\"}"@
}

/// The body of the `/dl-settings` reply; `dir` is the folder in use.
pub fn dl_settings_reply_body(s: &Settings, dir: &str) -> (r: String)
    ensures
        r@ == dl_settings_body(dir@, s.ask_download_location, s.show_downloads_on_start, s.titlebar_tint, s.window_material@),
{
    let mut v: Vec<char> = Vec::new();
    push_str(&mut v, "{\"dir\":\"");
    push_str(&mut v, json_escape_exec(dir).as_str());
    push_str(&mut v, "\",\"ask\":");
    push_bool(&mut v, s.ask_download_location);
    push_str(&mut v, ",\"autoShow\":");
    push_bool(&mut v, s.show_downloads_on_start);
    push_str(&mut v, ",\"tint\":");
    push_all(&mut v, &dec_u64(s.titlebar_tint as u64));
    push_str(&mut v, ",\"material\":\"");
    push_str(&mut v, s.window_material.as_str());
    push_str(&mut v, "\"}");
    string_of(&v)
}

/// Saves the download settings of `/dl-set`: the folder (none for the
/// system's), whether to ask, whether to show the panel; the tint and the
/// material only when given.
pub fn apply_dl_set(s: &mut Settings, d: &DlSet)
    ensures
        ostr(final(s).download_dir) == dl_set_view(*d).0,
        final(s).ask_download_location == d.ask,
        final(s).show_downloads_on_start == d.auto_show,
        final(s).titlebar_tint == (match d.tint {
            Some(t) => t,
            None => old(s).titlebar_tint,
        }),
        final(s).window_material@ == (match d.material {
            Some(m) => m@,
            None => old(s).window_material@,
        }),
        *final(s) == (Settings {
            download_dir: final(s).download_dir,
            ask_download_location: final(s).ask_download_location,
            show_downloads_on_start: final(s).show_downloads_on_start,
            titlebar_tint: final(s).titlebar_tint,
            window_material: final(s).window_material,
            ..*old(s)
        }),
{
    s.download_dir = match &d.dir {
        Some(x) => Some(x.clone()),
        None => None,
    };
    s.ask_download_location = d.ask;
    s.show_downloads_on_start = d.auto_show;
    if let Some(t) = d.tint {
        s.titlebar_tint = t;
    }
    if let Some(m) = &d.material {
        s.window_material = m.clone();
    }
}


// ───────────────────────────── closing the window ─────────────────────────────

/// What a request to close the main window does.
#[derive(Clone, Copy, Debug, PartialEq, Eq, Structural)]
pub enum CloseRequest {
    /// Let the window close (the program quits).
    Allow,
    /// Keep the program running and hide the window to the tray.
    ToTray,
    /// Keep the window and ask the user: quit, or hide to the tray.
    Ask,
}

/// Decides a request to close the main window: it goes through once the user
/// chose to quit; else the window hides to the tray when `closeToTray` is set;
/// else the user is asked.
pub fn close_request(force_exit: bool, close_to_tray: bool) -> (r: CloseRequest)
    ensures
        r == (if force_exit {
            CloseRequest::Allow
        } else if close_to_tray {
            CloseRequest::ToTray
        } else {
            CloseRequest::Ask
        }),
{
    if force_exit {
        CloseRequest::Allow
    } else if close_to_tray {
        CloseRequest::ToTray
    } else {
        CloseRequest::Ask
    }
}

// ───────────────────────────── overlays ─────────────────────────────

/// The overlay that an overlay name stands for (`popup-menu` for any other name).
pub open spec fn overlay_named(name: Seq<char>) -> Overlay {
    if name == "popup-close"@ {
        Overlay::Close
    } else if name == "popup-downloads"@ {
        Overlay::Downloads
    } else if name == "popup-settings"@ {
        Overlay::Settings
    } else {
        Overlay::Menu
    }
}

/// The overlay named `name`.
pub fn overlay_of(name: &str) -> (r: Overlay)
    ensures
        r == overlay_named(name@),
{
    if str_eq(name, "popup-close") {
        Overlay::Close
    } else if str_eq(name, "popup-downloads") {
        Overlay::Downloads
    } else if str_eq(name, "popup-settings") {
        Overlay::Settings
    } else {
        Overlay::Menu
    }
}

/// The key of an overlay in the shell page's popup table.
pub open spec fn popup_key(o: Overlay) -> Seq<char> {
    match o {
        Overlay::Close => "close"@,
        Overlay::Downloads => "dl"@,
        Overlay::Settings => "settings"@,
        Overlay::Menu => "menu"@,
    }
}

/// The shell page's popup key for the overlay named `name`.
pub fn popup_js_key(name: &str) -> (r: String)
    ensures
        r@ == popup_key(overlay_named(name@)),
{
    match overlay_of(name) {
        Overlay::Close => owned("close"),
        Overlay::Downloads => owned("dl"),
        Overlay::Settings => owned("settings"),
        Overlay::Menu => owned("menu"),
    }
}

/// The script that shows or hides an overlay in the shell page.
pub fn show_popup_js(o: Overlay, visible: bool) -> (r: String)
    ensures
        r@ == "window.__dshdShowPopup && window.__dshdShowPopup('"@ + popup_key(o) + "', "@ + bool_text(visible) + ");"@,
{
    let mut v: Vec<char> = Vec::new();
    push_str(&mut v, "window.__dshdShowPopup && window.__dshdShowPopup('");
    let k = match o {
        Overlay::Close => "close",
        Overlay::Downloads => "dl",
        Overlay::Settings => "settings",
        Overlay::Menu => "menu",
    };
    push_str(&mut v, k);
    push_str(&mut v, "', ");
    push_bool(&mut v, visible);
    push_str(&mut v, ");");
    string_of(&v)
}

/// Which overlays are open, and when one was last opened (milliseconds).
#[derive(Clone, Copy, Debug)]
pub struct OverlayState {
    pub menu: bool,
    pub close: bool,
    pub downloads: bool,
    pub settings: bool,
    pub last_shown_ms: u64,
}

/// Whether overlay `o` is open.
pub open spec fn is_open(st: OverlayState, o: Overlay) -> bool {
    match o {
        Overlay::Menu => st.menu,
        Overlay::Close => st.close,
        Overlay::Downloads => st.downloads,
        Overlay::Settings => st.settings,
    }
}

/// The state with overlay `o` open or closed.
pub open spec fn with_open(st: OverlayState, o: Overlay, on: bool) -> OverlayState {
    match o {
        Overlay::Menu => OverlayState { menu: on, ..st },
        Overlay::Close => OverlayState { close: on, ..st },
        Overlay::Downloads => OverlayState { downloads: on, ..st },
        Overlay::Settings => OverlayState { settings: on, ..st },
    }
}

/// How close after an overlay opens a click is taken as part of the opening.
pub open spec fn click_guard_ms() -> u64 {
    400
}

impl OverlayState {
    /// All overlays closed.
    pub fn new() -> (r: OverlayState)
        ensures
            !r.menu && !r.close && !r.downloads && !r.settings && r.last_shown_ms == 0,
    {
        OverlayState { menu: false, close: false, downloads: false, settings: false, last_shown_ms: 0 }
    }

    /// Whether overlay `o` is open.
    pub fn open(&self, o: Overlay) -> (r: bool)
        ensures
            r == is_open(*self, o),
    {
        match o {
            Overlay::Menu => self.menu,
            Overlay::Close => self.close,
            Overlay::Downloads => self.downloads,
            Overlay::Settings => self.settings,
        }
    }

    /// Opens or closes overlay `o` at time `now`: opening a closed overlay
    /// records the time; the others are untouched. Returns whether it is open.
    pub fn set(&mut self, o: Overlay, on: bool, now: u64) -> (r: bool)
        ensures
            r == on,
            *final(self) == (if on && !is_open(*old(self), o) {
                OverlayState { last_shown_ms: now, ..with_open(*old(self), o, true) }
            } else {
                with_open(*old(self), o, on)
            }),
    {
        let cur = self.open(o);
        match o {
            Overlay::Menu => self.menu = on,
            Overlay::Close => self.close = on,
            Overlay::Downloads => self.downloads = on,
            Overlay::Settings => self.settings = on,
        }
        if on && !cur {
            self.last_shown_ms = now;
        }
        on
    }

    /// Opens overlay `o` if it is closed, closes it if it is open.
    pub fn toggle(&mut self, o: Overlay, now: u64) -> (r: bool)
        ensures
            r == !is_open(*old(self), o),
            is_open(*final(self), o) == r,
            forall|p: Overlay| p != o ==> is_open(*final(self), p) == is_open(*old(self), p),
            r ==> final(self).last_shown_ms == now,
            !r ==> final(self).last_shown_ms == old(self).last_shown_ms,
    {
        let on = !self.open(o);
        self.set(o, on, now)
    }

    /// Closes every overlay.
    pub fn close_all(&mut self)
        ensures
            !final(self).menu && !final(self).close && !final(self).downloads && !final(self).settings,
            final(self).last_shown_ms == old(self).last_shown_ms,
    {
        self.menu = false;
        self.close = false;
        self.downloads = false;
        self.settings = false;
    }

    /// A click outside the overlays at time `now`: within the guard after an
    /// overlay opened nothing happens; otherwise the menu, quit dialog and
    /// settings close, and the download panel closes unless downloads are
    /// running (`active`). Returns whether anything was considered.
    pub fn click_outside(&mut self, now: u64, active: bool) -> (r: bool)
        ensures
            r == (now >= old(self).last_shown_ms + click_guard_ms()),
            !r ==> *final(self) == *old(self),
            r ==> !final(self).menu && !final(self).close && !final(self).settings
                && final(self).downloads == (old(self).downloads && active)
                && final(self).last_shown_ms == old(self).last_shown_ms,
    {
        let elapsed: u64 = if now >= self.last_shown_ms { now - self.last_shown_ms } else { 0 };
        if elapsed < 400 {
            return false;
        }
        self.menu = false;
        self.close = false;
        self.settings = false;
        if !(self.downloads && active) {
            self.downloads = false;
        }
        true
    }
}


// ───────────────────────────── page themes ─────────────────────────────

/// The colours of a theme report: a JSON object text with string members
/// `bg` and `fg` (each empty when missing or not a string; both empty when
/// the text does not start with `{` or is not JSON).
pub open spec fn theme_colors_of(text: Seq<char>) -> (Seq<char>, Seq<char>) {
    if text.len() > 0 && text[0] == '{' {
        (member_text(json_member(text, "bg"@)), member_text(json_member(text, "fg"@)))
    } else {
        (Seq::empty(), Seq::empty())
    }
}

/// A member's string value, empty when absent, not a string, or not JSON.
pub open spec fn member_text(m: Option<(bool, Option<Seq<char>>)>) -> Seq<char> {
    match m {
        Some((_, Some(v))) => v,
        _ => Seq::empty(),
    }
}

fn member_string(text: &str, key: &str) -> (r: String)
    ensures
        r@ == member_text(json_member(text@, key@)),
{
    match json_member_of(text, key) {
        Some((_, Some(v))) => v,
        _ => string_of(&Vec::new()),
    }
}

/// Reads the background and foreground colours of a theme report.
pub fn theme_colors(text: &str) -> (r: (String, String))
    ensures
        (r.0@, r.1@) == theme_colors_of(text@),
{
    let v = chars_of(text);
    if v.len() > 0 && v[0] == '{' {
        (member_string(text, "bg"), member_string(text, "fg"))
    } else {
        (string_of(&Vec::new()), string_of(&Vec::new()))
    }
}

/// The last theme each content page reported, and which page is shown.
pub struct ThemeState {
    pub deepseek_shown: bool,
    pub dsh: Option<(String, String)>,
    pub deepseek: Option<(String, String)>,
}

/// A theme by its views.
pub open spec fn theme_view(t: Option<(String, String)>) -> Option<(Seq<char>, Seq<char>)> {
    match t {
        Some((b, f)) => Some((b@, f@)),
        None => None,
    }
}

fn copy_theme(t: &Option<(String, String)>) -> (r: Option<(String, String)>)
    ensures
        theme_view(r) == theme_view(*t),
{
    match t {
        Some((b, f)) => Some((b.clone(), f.clone())),
        None => None,
    }
}

impl ThemeState {
    /// No page has reported; the dsh page is shown.
    pub fn new() -> (r: ThemeState)
        ensures
            !r.deepseek_shown && r.dsh is None && r.deepseek is None,
    {
        ThemeState { deepseek_shown: false, dsh: None, deepseek: None }
    }

    /// The theme of the page shown.
    pub fn current_theme(&self) -> (r: Option<(String, String)>)
        ensures
            theme_view(r) == shown_theme(self.deepseek_shown, theme_view(self.dsh), theme_view(self.deepseek)),
    {
        if self.deepseek_shown {
            copy_theme(&self.deepseek)
        } else {
            copy_theme(&self.dsh)
        }
    }

    /// Records a theme report from page `src` (`deepseek`, else the dsh page).
    /// A report without a background is ignored. Returns the colours to push to
    /// the shell now: only a report from the page shown is pushed.
    pub fn record(&mut self, src: &str, text: &str) -> (r: Option<(String, String)>)
        ensures
            final(self).deepseek_shown == old(self).deepseek_shown,
            (theme_view(final(self).dsh), theme_view(final(self).deepseek), theme_view(r)) == theme_record(
                old(self).deepseek_shown,
                theme_view(old(self).dsh),
                theme_view(old(self).deepseek),
                src@,
                text@,
            ),
    {
        let (bg, fg) = theme_colors(text);
        if chars_of(bg.as_str()).len() == 0 {
            return None;
        }
        let from_ds = str_eq(src, "deepseek");
        let pair = (bg.clone(), fg.clone());
        if from_ds {
            self.deepseek = Some(pair);
        } else {
            self.dsh = Some(pair);
        }
        if from_ds == self.deepseek_shown {
            Some((bg, fg))
        } else {
            None
        }
    }
}

/// The theme shown: that of the DeepSeek page when it is shown, else the dsh page's.
pub open spec fn shown_theme(
    deepseek_shown: bool,
    dsh: Option<(Seq<char>, Seq<char>)>,
    deepseek: Option<(Seq<char>, Seq<char>)>,
) -> Option<(Seq<char>, Seq<char>)> {
    if deepseek_shown {
        deepseek
    } else {
        dsh
    }
}

/// A theme report from page `src` (`deepseek`, else the dsh page): the themes
/// of the two pages after it, and the colours pushed to the shell at once. A
/// report without a background changes nothing; one from the page not shown
/// is only kept.
pub open spec fn theme_record(
    deepseek_shown: bool,
    dsh: Option<(Seq<char>, Seq<char>)>,
    deepseek: Option<(Seq<char>, Seq<char>)>,
    src: Seq<char>,
    text: Seq<char>,
) -> (Option<(Seq<char>, Seq<char>)>, Option<(Seq<char>, Seq<char>)>, Option<(Seq<char>, Seq<char>)>) {
    let (bg, fg) = theme_colors_of(text);
    let from_ds = src == "deepseek"@;
    if bg.len() == 0 {
        (dsh, deepseek, None)
    } else {
        let pushed = if from_ds == deepseek_shown { Some((bg, fg)) } else { None };
        if from_ds {
            (dsh, Some((bg, fg)), pushed)
        } else {
            (Some((bg, fg)), deepseek, pushed)
        }
    }
}

// ───────────────────────────── the agent control channel ─────────────────────────────

/// A command file of the control folder: `cmd-*.json`.
pub open spec fn is_command_file(name: Seq<char>) -> bool {
    starts_with(name, "cmd-"@) && ends_with(name, ".json"@)
}

/// A result file of the control folder: `result-*.json`.
pub open spec fn is_result_file(name: Seq<char>) -> bool {
    starts_with(name, "result-"@) && ends_with(name, ".json"@)
}

/// Whether `name` is a command file.
pub fn command_file(name: &str) -> (r: bool)
    ensures
        r == is_command_file(name@),
{
    let v = chars_of(name);
    crate::text::occurs_at_exec(&v, &chars_of("cmd-"), 0) && ends_with_exec(&v, &chars_of(".json"))
}

/// Whether `name` is a result file.
pub fn result_file(name: &str) -> (r: bool)
    ensures
        r == is_result_file(name@),
{
    let v = chars_of(name);
    crate::text::occurs_at_exec(&v, &chars_of("result-"), 0) && ends_with_exec(&v, &chars_of(".json"))
}

fn ends_with_exec(v: &Vec<char>, p: &Vec<char>) -> (r: bool)
    ensures
        r == ends_with(v@, p@),
{
    if p.len() > v.len() {
        false
    } else {
        crate::text::occurs_at_exec(v, p, v.len() - p.len())
    }
}

/// What a command asks of the desktop.
pub enum ControlCommand {
    /// Nothing (an unknown command, or `cancel-restart`).
    Ignore,
    /// Restart the backend.
    Restart,
    /// An install without a spec: answered failed, for this id.
    RejectInstall(String),
    /// Install plugin `spec` (id, spec, profile, time limit in milliseconds).
    Install(String, String, String, u64),
}

/// The profile an install goes into: the command's `profile` when a string,
/// else `web`.
pub open spec fn command_profile(text: Seq<char>) -> Seq<char> {
    match json_member(text, "profile"@) {
        Some((_, Some(p))) => p,
        _ => "web"@,
    }
}

/// How long an install may run, in milliseconds: the command's `timeoutMs`
/// when an unsigned integer, else five minutes.
pub open spec fn command_timeout(text: Seq<char>) -> u64 {
    match json_member_u64(text, "timeoutMs"@) {
        Some(Some(t)) => t,
        _ => 300000,
    }
}

/// The command a command file holds: `None` when it is not JSON; the `id`,
/// `cmd` and `spec` members are read as strings (empty otherwise); the kind
/// is 1 for `restart`, 2 for `install-plugin` without a spec, 3 for one with
/// a spec, 0 otherwise.
pub open spec fn command_of(text: Seq<char>) -> Option<(int, Seq<char>, Seq<char>)> {
    if json_member(text, "id"@) is None {
        None
    } else {
        let id = member_text(json_member(text, "id"@));
        let cmd = member_text(json_member(text, "cmd"@));
        let spec = member_text(json_member(text, "spec"@));
        if cmd == "restart"@ {
            Some((1, id, spec))
        } else if cmd == "install-plugin"@ {
            if spec.len() == 0 {
                Some((2, id, spec))
            } else {
                Some((3, id, spec))
            }
        } else {
            Some((0, id, spec))
        }
    }
}

/// Reads a command file.
pub fn read_control_command(text: &str) -> (r: Option<ControlCommand>)
    ensures
        r is None <==> command_of(text@) is None,
        r matches Some(c) ==> match c {
            ControlCommand::Ignore => command_of(text@) matches Some(x) && x.0 == 0,
            ControlCommand::Restart => command_of(text@) matches Some(x) && x.0 == 1,
            ControlCommand::RejectInstall(id) => command_of(text@) matches Some(x) && x.0 == 2 && x.1 == id@,
            ControlCommand::Install(id, spec, profile, timeout) => command_of(text@) matches Some(x) && x.0 == 3
                && x.1 == id@ && x.2 == spec@ && profile@ == command_profile(text@) && timeout == command_timeout(text@),
        },
{
    if json_member_of(text, "id").is_none() {
        return None;
    }
    let id = member_string(text, "id");
    let cmd = member_string(text, "cmd");
    let spec = member_string(text, "spec");
    if str_eq(cmd.as_str(), "restart") {
        Some(ControlCommand::Restart)
    } else if str_eq(cmd.as_str(), "install-plugin") {
        if chars_of(spec.as_str()).len() == 0 {
            Some(ControlCommand::RejectInstall(id))
        } else {
            let profile = match json_member_of(text, "profile") {
                Some((_, Some(p))) => p,
                _ => owned("web"),
            };
            let timeout: u64 = match json_u64_of(text, "timeoutMs") {
                Some(Some(t)) => t,
                _ => 300000,
            };
            Some(ControlCommand::Install(id, spec, profile, timeout))
        }
    } else {
        Some(ControlCommand::Ignore)
    }
}

/// What the install watch does next: the install ended, with its success; or
/// it still runs and is stopped once it has run its time limit; or it waits.
#[derive(Clone, Copy, Debug, PartialEq, Eq, Structural)]
pub enum InstallStep {
    Wait,
    Stop,
    Finished(bool),
}

/// Decides the next step of a running install, given whether it has exited
/// (and with success), how long it has run and its limit, in milliseconds.
pub fn install_step(exited: Option<bool>, elapsed_ms: u64, timeout_ms: u64) -> (r: InstallStep)
    ensures
        r == (match exited {
            Some(ok) => InstallStep::Finished(ok),
            None => if elapsed_ms >= timeout_ms {
                InstallStep::Stop
            } else {
                InstallStep::Wait
            },
        }),
{
    match exited {
        Some(ok) => InstallStep::Finished(ok),
        None => if elapsed_ms >= timeout_ms {
            InstallStep::Stop
        } else {
            InstallStep::Wait
        },
    }
}

/// The `state` of a finished install's result: `done` or `failed` as it
/// ended, `timeout` when it was stopped at its limit (`None`).
pub open spec fn install_state_of(outcome: Option<bool>) -> Seq<char> {
    match outcome {
        Some(true) => "done"@,
        Some(false) => "failed"@,
        None => "timeout"@,
    }
}

/// The `state` written to a finished install's result file.
pub fn install_state(outcome: Option<bool>) -> (r: String)
    ensures
        r@ == install_state_of(outcome),
{
    match outcome {
        Some(true) => owned("done"),
        Some(false) => owned("failed"),
        None => owned("timeout"),
    }
}

/// A result is reported once: when it is JSON, finished (`state` is `done`)
/// and not yet marked `reportedAt`.
pub open spec fn reportable(text: Seq<char>) -> bool {
    &&& json_member(text, "reportedAt"@) matches Some((present, _)) && !present
    &&& member_text(json_member(text, "state"@)) == "done"@
}

/// Whether a result file is to be reported.
pub fn should_report(text: &str) -> (r: bool)
    ensures
        r == reportable(text@),
{
    match json_member_of(text, "reportedAt") {
        None => false,
        Some((present, _)) => !present && str_eq(member_string(text, "state").as_str(), "done"),
    }
}

/// A reported result: the file's text with `reportedAt` set to `at`, printed
/// pretty; `None` when the text is not JSON.
/// A result that was to be reported is, once marked, no longer to be reported.
pub fn mark_reported(text: &str, at: &str) -> (r: Option<String>)
    ensures
        ostr(r) == json_with_member(text@, "reportedAt"@, at@),
        reportable(text@) ==> (r matches Some(t) && !reportable(t@)),
{
    let r = with_member_pretty(text, "reportedAt", at);
    proof {
        if reportable(text@) {
            reveal_strlit("done");
            assert("done"@.len() == 4);
            assert(member_text(json_member(text@, "state"@)).len() == 4);
            assert(json_member(text@, "state"@) matches Some((_, Some(_))));
        }
    }
    r
}

/// The message that asks the agent to report a finished install.
pub open spec fn report_text(path: Seq<char>) -> Seq<char> {
    "【系统】插件安装已完成，请向用户简洁汇报（汇报后删除该 result 文件："@ + path + "）"@
}

/// The message for the result file at `path`.
pub fn report_prompt(path: &str) -> (r: String)
    ensures
        r@ == report_text(path@),
{
    let mut v: Vec<char> = Vec::new();
    push_str(&mut v, "【系统】插件安装已完成，请向用户简洁汇报（汇报后删除该 result 文件：");
    push_str(&mut v, path);
    push_str(&mut v, "）");
    string_of(&v)
}

/// The index of the most recently updated session: the first among those
/// with the largest `updatedAt` (a missing one counts as 0).
pub open spec fn latest_index(items: Seq<(Option<u64>, Option<Seq<char>>)>) -> Option<int> {
    if items.len() == 0 {
        None
    } else {
        Some(choose|k: int| #![trigger items[k]] 0 <= k < items.len()
            && (forall|j: int| 0 <= j < items.len() ==> updated(items[j]) <= updated(items[k]))
            && (forall|j: int| 0 <= j < k ==> updated(items[j]) < updated(items[k])))
    }
}

/// An item's `updatedAt`, 0 when missing.
pub open spec fn updated(item: (Option<u64>, Option<Seq<char>>)) -> u64 {
    match item.0 {
        Some(u) => u,
        None => 0,
    }
}

/// The session that the agent reports to: the `sessionId` of the most
/// recently updated item of a `session.list` reply.
pub fn latest_session(reply: &str) -> (r: Option<String>)
    ensures
        json_session_items(reply@) is None ==> r is None,
        json_session_items(reply@) matches Some(items) ==> match latest_index(items) {
            None => r is None,
            Some(k) => (match r { Some(x) => Some(x@), None => None }) == items[k].1,
        },
{
    let items = match session_items_of(reply) {
        Some(v) => v,
        None => return None,
    };
    let ghost iv = items@.map_values(|p: (Option<u64>, Option<String>)| (p.0, match p.1 {
        Some(x) => Some(x@),
        None => None,
    }));
    if items.len() == 0 {
        return None;
    }
    let mut best: usize = 0;
    let mut best_u: u64 = match items[0].0 { Some(u) => u, None => 0 };
    let mut i: usize = 1;
    while i < items.len()
        invariant
            iv.len() == items@.len(),
            forall|j: int| 0 <= j < items@.len() ==> #[trigger] iv[j] == (items@[j].0, match items@[j].1 {
                Some(x) => Some(x@),
                None => None,
            }),
            1 <= i <= items@.len(),
            best < i,
            best_u == updated(iv[best as int]),
            forall|j: int| 0 <= j < i ==> updated(iv[j]) <= best_u,
            forall|j: int| 0 <= j < best ==> updated(iv[j]) < best_u,
        decreases items@.len() - i,
    {
        let u = match items[i].0 { Some(u) => u, None => 0 };
        assert(u == updated(iv[i as int]));
        if u > best_u {
            best = i;
            best_u = u;
        }
        i = i + 1;
    }
    proof {
        let k = best as int;
        assert(0 <= k < iv.len() && (forall|j: int| 0 <= j < iv.len() ==> updated(iv[j]) <= updated(iv[k]))
            && (forall|j: int| 0 <= j < k ==> updated(iv[j]) < updated(iv[k])));
        let c = latest_index(iv).unwrap();
        assert(c == k) by {
            if c < k {
                assert(updated(iv[c]) < updated(iv[k]));
            } else if c > k {
                assert(updated(iv[k]) < updated(iv[c]));
            }
        }
    }
    match &items[best].1 {
        Some(x) => Some(x.clone()),
        None => None,
    }
}

/// The backend API endpoint for `method` under `base` (trailing `/` of the
/// base dropped).
pub open spec fn api_url_of(base: Seq<char>, method: Seq<char>) -> Seq<char> {
    base.take(slash_end(base, base.len() as int)) + "/api/"@ + method
}

/// End of `s.take(j)` without its trailing `/`s.
pub open spec fn slash_end(s: Seq<char>, j: int) -> int
    decreases j,
{
    if j <= 0 {
        0
    } else if s[j - 1] == '/' {
        slash_end(s, j - 1)
    } else {
        j
    }
}

/// The API URL of `method` on the backend at `base`.
pub fn api_url(base: &str, method: &str) -> (r: String)
    ensures
        r@ == api_url_of(base@, method@),
{
    let b = chars_of(base);
    let mut j = b.len();
    while j > 0 && b[j - 1] == '/'
        invariant
            j <= b@.len(),
            slash_end(b@, b@.len() as int) == slash_end(b@, j as int),
        decreases j,
    {
        j = j - 1;
    }
    let mut v = slice_chars(&b, 0, j);
    push_str(&mut v, "/api/");
    push_str(&mut v, method);
    assert(v@ =~= api_url_of(base@, method@));
    string_of(&v)
}

/// The backend base URL to report to: that of a running or adopted backend.
pub fn report_base(state: &str, url: &Option<String>) -> (r: Option<String>)
    ensures
        (match r { Some(x) => Some(x@), None => None }) == (if state@ == "running"@ || state@ == "external"@ {
            match url {
                Some(u) => Some(u@),
                None => None,
            }
        } else {
            None
        }),
{
    if str_eq(state, "running") || str_eq(state, "external") {
        match url {
            Some(u) => Some(u.clone()),
            None => None,
        }
    } else {
        None
    }
}

// ───────────────────────────── time stamps ─────────────────────────────

/// `now_iso`: the UTC time `YYYY-MM-DDTHH:MM:SSZ` of Unix second `secs`.
pub open spec fn iso_text(secs: int) -> Seq<char> {
    replace_all(utc_text(secs), " "@, "T"@) + "Z"@
}

/// Formats Unix second `secs` as ISO 8601 UTC.
pub fn iso_at(secs: i64) -> (r: String)
    ensures
        r@ == iso_text(secs as int),
{
    let t = chars_of(format_utc(secs).as_str());
    let sp = chars_of(" ");
    proof {
        reveal_strlit(" ");
    }
    let mut v = replace_exec(&t, &sp, &chars_of("T"));
    push_str(&mut v, "Z");
    string_of(&v)
}

/// The current time in ISO 8601 UTC.
pub fn now_iso() -> (r: String)
    ensures
        exists|t: i64| r@ == iso_text(t as int),
{
    iso_at(unix_now())
}


// ───────────────────────────── download actions ─────────────────────────────

/// What is left to do after a download action: the reply, or the outside
/// work whose success is the reply.
pub enum DownloadEffect {
    /// Reply with this.
    Reply(bool),
    /// Show the file in the file manager, if it is on disk (reply: whether it is).
    OpenFolder(String),
    /// Open the file with its program, if it is on disk (reply: whether it is).
    OpenFile(String),
    /// Copy the link (reply: whether the clipboard took it).
    CopyUrl(String),
    /// Hand the link to the browser (reply: whether it opened).
    OpenInBrowser(String),
    /// Remove the file of a deleted task that no running transfer will remove,
    /// if it is on disk (reply: whether it is gone).
    RemoveFile(String),
    /// Start the transfer of task `id` (reply `true`): from the bytes already on
    /// disk (`true`) or from the start.
    Spawn(u64, bool),
    /// The folder cannot be decoded: no reply.
    Drop,
}

/// The decoded, trimmed folder of a confirmation, or `default_dir` when blank.
pub open spec fn confirm_dir_of(raw: Seq<char>, default_dir: Seq<char>) -> Seq<char> {
    let d = trim(decode_from(encode_utf8(raw), 0));
    if d.len() == 0 {
        default_dir
    } else {
        d
    }
}

/// Confirms the download waiting for its folder (see `apply_download_action`).
fn confirm_pending(dl: &mut Downloads, raw: &String, default_dir: &str) -> (r: DownloadEffect)
    requires
        wf(old(dl)@),
        old(dl)@.next_id < u64::MAX,
    ensures
        wf(final(dl)@),
        old(dl)@.pending is None ==> final(dl)@ == old(dl)@ && r == DownloadEffect::Reply(false),
        old(dl)@.pending is Some && !decode_safe_from(encode_utf8(raw@), 0) ==> final(dl)@ == spec_take_pending(old(dl)@).0
            && r == DownloadEffect::Drop,
        old(dl)@.pending is Some && decode_safe_from(encode_utf8(raw@), 0) && has_dup(old(dl)@.tasks, old(dl)@.pending.unwrap().0)
            ==> final(dl)@ == spec_take_pending(old(dl)@).0 && r == DownloadEffect::Reply(false),
        old(dl)@.pending is Some && decode_safe_from(encode_utf8(raw@), 0) && !has_dup(old(dl)@.tasks, old(dl)@.pending.unwrap().0)
            ==> r == DownloadEffect::Spawn(old(dl)@.next_id, false) && exists|shown: Seq<char>|
            #[trigger] is_candidate(sanitized(old(dl)@.pending.unwrap().1), shown) && final(dl)@ == spec_register(
                spec_take_pending(old(dl)@).0,
                old(dl)@.pending.unwrap().0,
                join_path(confirm_dir_of(raw@, default_dir@), shown),
                shown,
            ),
{
    let ghost m = dl@;
    let (url, name) = match dl.take_pending() {
        Some(p) => p,
        None => return DownloadEffect::Reply(false),
    };
    assert(m.pending == Some((url@, name@)));
    let ghost m1 = dl@;
    assert(m1 == spec_take_pending(m).0);
    let rs = raw.as_str();
    assert(rs.spec_bytes() == encode_utf8(raw@));
    if !url_decode_ok(rs) {
        return DownloadEffect::Drop;
    }
    let d = trim_chars(&chars_of(url_decode(rs).as_str()));
    let dir = if d.len() == 0 { owned(default_dir) } else { string_of(&d) };
    assert(dir@ == confirm_dir_of(raw@, default_dir@));
    match dl.start(url.as_str(), name.as_str(), dir.as_str()) {
        Some(n) => {
            assert(n == m.next_id);
            proof {
                let shown = choose|shown: Seq<char>| is_candidate(sanitized(name@), shown) && dl@ == spec_register(
                    m1,
                    url@,
                    join_path(dir@, shown),
                    shown,
                );
                assert(m.pending.unwrap().1 == name@);
                assert(m.pending.unwrap().0 == url@);
                assert(is_candidate(sanitized(m.pending.unwrap().1), shown));
                assert(dl@ == spec_register(
                    spec_take_pending(m).0,
                    m.pending.unwrap().0,
                    join_path(confirm_dir_of(raw@, default_dir@), shown),
                    shown,
                ));
            }
            DownloadEffect::Spawn(n, false)
        },
        None => DownloadEffect::Reply(false),
    }
}

/// Carries out a download-panel action on the registry. `default_dir` is the
/// system's download folder, used when a confirmation names none.
pub fn apply_download_action(dl: &mut Downloads, req: DownloadRequest, default_dir: &str) -> (r: DownloadEffect)
    requires
        wf(old(dl)@),
        old(dl)@.next_id < u64::MAX,
    ensures
        wf(final(dl)@),
        req.kind is Cancel ==> (r matches DownloadEffect::Reply(ok) && (final(dl)@, ok) == spec_cancel(old(dl)@, req.id)),
        req.kind matches DownloadKind::Pause(on) ==> final(dl)@ == spec_pause(old(dl)@, req.id, on).0 && (
            if !on && !old(dl)@.workers.contains_key(req.id) && spec_pause(old(dl)@, req.id, on).1 {
                r == DownloadEffect::Spawn(req.id, true)
            } else {
                r == DownloadEffect::Reply(spec_pause(old(dl)@, req.id, on).1)
            }),
        req.kind is Open ==> final(dl)@ == old(dl)@ && match task_index(old(dl)@.tasks, req.id) {
            Some(k) => (r matches DownloadEffect::OpenFolder(f) && f@ == old(dl)@.tasks[k].file),
            None => r == DownloadEffect::Reply(false),
        },
        req.kind is OpenFile ==> final(dl)@ == old(dl)@ && match task_index(old(dl)@.tasks, req.id) {
            Some(k) => (r matches DownloadEffect::OpenFile(f) && f@ == old(dl)@.tasks[k].file),
            None => r == DownloadEffect::Reply(false),
        },
        req.kind is CopyUrl ==> final(dl)@ == old(dl)@ && match task_index(old(dl)@.tasks, req.id) {
            Some(k) => (r matches DownloadEffect::CopyUrl(u) && u@ == old(dl)@.tasks[k].url),
            None => r == DownloadEffect::Reply(false),
        },
        req.kind is Remove ==> (r matches DownloadEffect::Reply(ok) && (final(dl)@, ok) == spec_remove(old(dl)@, req.id)),
        req.kind is Delete ==> final(dl)@ == spec_remove(old(dl)@, req.id).0 && match task_index(old(dl)@.tasks, req.id) {
            None => r == DownloadEffect::Reply(false),
            Some(k) => if is_active(old(dl)@.tasks[k].state) && old(dl)@.workers.contains_key(req.id) {
                r == DownloadEffect::Reply(true)
            } else {
                (r matches DownloadEffect::RemoveFile(f) && f@ == old(dl)@.tasks[k].file)
            },
        },
        req.kind matches DownloadKind::AskConfirm(raw) ==> match old(dl)@.pending {
            None => final(dl)@ == old(dl)@ && r == DownloadEffect::Reply(false),
            Some((url, name)) => if !decode_safe_from(encode_utf8(raw@), 0) {
                final(dl)@ == spec_take_pending(old(dl)@).0 && r == DownloadEffect::Drop
            } else if has_dup(old(dl)@.tasks, url) {
                final(dl)@ == spec_take_pending(old(dl)@).0 && r == DownloadEffect::Reply(false)
            } else {
                r == DownloadEffect::Spawn(old(dl)@.next_id, false) && exists|shown: Seq<char>|
                    #[trigger] is_candidate(sanitized(name), shown) && final(dl)@ == spec_register(
                        spec_take_pending(old(dl)@).0,
                        url,
                        join_path(confirm_dir_of(raw@, default_dir@), shown),
                        shown,
                    )
            },
        },
        req.kind is AskCancel ==> final(dl)@ == (DlView { pending: None, ..old(dl)@ }) && r == DownloadEffect::Reply(true),
        req.kind is Retry ==> final(dl)@ == spec_retry(old(dl)@, req.id).0 && (if spec_retry(old(dl)@, req.id).1 {
            r == DownloadEffect::Spawn(req.id, false)
        } else {
            r == DownloadEffect::Reply(false)
        }),
        req.kind is Browser ==> match task_index(old(dl)@.tasks, req.id) {
            Some(k) => final(dl)@ == spec_cancel(old(dl)@, req.id).0 && (r matches DownloadEffect::OpenInBrowser(u) && u@
                == old(dl)@.tasks[k].url),
            None => final(dl)@ == old(dl)@ && r == DownloadEffect::Reply(false),
        },
{
    let id = req.id;
    match req.kind {
        DownloadKind::Cancel => DownloadEffect::Reply(dl.cancel(id)),
        DownloadKind::Pause(on) => {
            let had = dl.has_worker(id);
            let ok = dl.pause(id, on);
            if !on && !had && ok {
                DownloadEffect::Spawn(id, true)
            } else {
                DownloadEffect::Reply(ok)
            }
        },
        DownloadKind::Open => match dl.file_of(id) {
            Some(f) => DownloadEffect::OpenFolder(f),
            None => DownloadEffect::Reply(false),
        },
        DownloadKind::OpenFile => match dl.file_of(id) {
            Some(f) => DownloadEffect::OpenFile(f),
            None => DownloadEffect::Reply(false),
        },
        DownloadKind::CopyUrl => match dl.url_of(id) {
            Some(u) => DownloadEffect::CopyUrl(u),
            None => DownloadEffect::Reply(false),
        },
        DownloadKind::Remove => DownloadEffect::Reply(dl.remove(id)),
        DownloadKind::Delete => match dl.delete(id) {
            None => DownloadEffect::Reply(false),
            Some((file, handed)) => if handed {
                DownloadEffect::Reply(true)
            } else {
                DownloadEffect::RemoveFile(file)
            },
        },
        DownloadKind::AskConfirm(raw) => confirm_pending(dl, &raw, default_dir),
        DownloadKind::AskCancel => {
            dl.clear_pending();
            DownloadEffect::Reply(true)
        },
        DownloadKind::Retry => {
            if dl.retry(id) {
                DownloadEffect::Spawn(id, false)
            } else {
                DownloadEffect::Reply(false)
            }
        },
        DownloadKind::Browser => match dl.url_of(id) {
            Some(u) => {
                dl.cancel(id);
                DownloadEffect::OpenInBrowser(u)
            },
            None => DownloadEffect::Reply(false),
        },
    }
}


// ───────────────────────────── plugins ─────────────────────────────

/// The files whose change means the plugins changed.
pub open spec fn is_plugin_manifest(name: Seq<char>) -> bool {
    name == "package.json"@ || name == "pnpm-lock.yaml"@
}

/// Whether a changed file is a plugin manifest.
pub fn plugin_manifest(name: &str) -> (r: bool)
    ensures
        r == is_plugin_manifest(name@),
{
    str_eq(name, "package.json") || str_eq(name, "pnpm-lock.yaml")
}

/// How long the plugins must stay unchanged before the user is told (ms).
pub open spec fn plugin_quiet_ms() -> u64 {
    6000
}

/// A check of the plugin watcher at `now`, given the time of the last change
/// not yet announced: it announces once the quiet period has passed since that
/// change, and the change is then no longer pending.
pub open spec fn watch_due(pending: Option<u64>, now: u64) -> (Option<u64>, bool) {
    match pending {
        Some(t) => if now >= t + plugin_quiet_ms() {
            (None, true)
        } else {
            (pending, false)
        },
        None => (pending, false),
    }
}

/// The plugin watcher: when the last change was seen, if not yet announced.
pub struct PluginWatch {
    pub pending_since: Option<u64>,
}

impl PluginWatch {
    /// Nothing pending.
    pub fn new() -> (r: PluginWatch)
        ensures
            r.pending_since is None,
    {
        PluginWatch { pending_since: None }
    }

    /// A change seen at `now` (re)starts the quiet period.
    pub fn changed(&mut self, now: u64)
        ensures
            final(self).pending_since == Some(now),
    {
        self.pending_since = Some(now);
    }

    /// Whether to announce the change at `now`, given whether a plugin install
    /// is still running: never while one runs (the change stays pending), else
    /// as `due`.
    pub fn due_when_idle(&mut self, now: u64, installing: bool) -> (r: bool)
        ensures
            (final(self).pending_since, r) == (if installing {
                (old(self).pending_since, false)
            } else {
                watch_due(old(self).pending_since, now)
            }),
    {
        if installing {
            false
        } else {
            self.due(now)
        }
    }

    /// Whether to announce the change at `now`: once the quiet period has
    /// passed since the last change; the change is then no longer pending.
    pub fn due(&mut self, now: u64) -> (r: bool)
        ensures
            (final(self).pending_since, r) == watch_due(old(self).pending_since, now),
    {
        match self.pending_since {
            Some(t) => {
                if now >= t && now - t >= 6000 {
                    self.pending_since = None;
                    true
                } else {
                    false
                }
            },
            None => false,
        }
    }
}

/// The dsh home as the agent channel and the plugin watcher take it:
/// `DSH_HOME` when set, else the user's folder with `\.dsh`, else empty.
pub open spec fn channel_home(dsh_home_var: Option<Seq<char>>, userprofile: Option<Seq<char>>) -> Seq<char> {
    match dsh_home_var {
        Some(h) => h,
        None => match userprofile {
            Some(u) => u + "\\.dsh"@,
            None => Seq::empty(),
        },
    }
}

fn channel_home_exec(dsh_home_var: &Option<String>, userprofile: &Option<String>) -> (r: Vec<char>)
    ensures
        r@ == channel_home(ostr(*dsh_home_var), ostr(*userprofile)),
{
    match dsh_home_var {
        Some(h) => chars_of(h.as_str()),
        None => match userprofile {
            Some(u) => {
                let mut v = chars_of(u.as_str());
                push_str(&mut v, "\\.dsh");
                v
            },
            None => Vec::new(),
        },
    }
}

/// The profile folder the plugin watcher watches: `<home>\profiles\<profile>`.
pub fn plugin_watch_dir(dsh_home_var: &Option<String>, userprofile: &Option<String>, profile: &str) -> (r: String)
    ensures
        r@ == channel_home(ostr(*dsh_home_var), ostr(*userprofile)) + "\\profiles\\"@ + profile@,
{
    let mut v = channel_home_exec(dsh_home_var, userprofile);
    push_str(&mut v, "\\profiles\\");
    push_str(&mut v, profile);
    string_of(&v)
}

/// How a plugin is installed: node, its arguments, and the folder to run in.
pub struct PluginInstall {
    pub node: String,
    pub args: Vec<String>,
    pub cwd: String,
}

/// The arguments to node for `dsh plugin --profile <profile> add <spec>`.
pub open spec fn plugin_add_args(dsh: Seq<char>, profile: Seq<char>, spec: Seq<char>) -> Seq<Seq<char>> {
    seq![dsh, "plugin"@, "--profile"@, profile, "add"@, spec]
}

/// Plans the install of plugin `spec` into `profile`: node as set or found at
/// its usual places; dsh as set or found in a folder of `PATH` (`None` when
/// there is none: the install fails); run in the profile folder.
pub fn plugin_install_plan(
    s: &Settings,
    spec: &str,
    profile: &str,
    dsh_home_var: &Option<String>,
    userprofile: &Option<String>,
    path_dirs: &Vec<String>,
) -> (r: Option<PluginInstall>)
    ensures
        s.dsh_bin is Some ==> r is Some,
        r matches Some(p) ==> {
            &&& p.args@.map_values(|a: String| a@) == plugin_add_args(p.args@[0]@, profile@, spec@)
            &&& (s.dsh_bin matches Some(d) ==> p.args@[0]@ == d@)
            &&& (s.dsh_bin is None ==> exists|flags: Seq<bool>| #[trigger] first_present(dsh_bins_of(paths_view(path_dirs@)), flags) == Some(p.args@[0]@))
            &&& (s.node_bin matches Some(n) ==> p.node@ == n@)
            &&& (s.node_bin is None ==> exists|flags: Seq<bool>| flags.len() == 2 && p.node@ == (match #[trigger] first_present(node_default_places(), flags) {
                Some(x) => x,
                None => "node.exe"@,
            }))
            &&& p.cwd@ == join_path(join_path(channel_home(ostr(*dsh_home_var), ostr(*userprofile)), "profiles"@), profile@)
        },
{
    let node = match &s.node_bin {
        Some(n) => n.clone(),
        None => resolve_node_fallback(),
    };
    let dsh = match &s.dsh_bin {
        Some(d) => d.clone(),
        None => match find_dsh_on_path(path_dirs) {
            Some(d) => d,
            None => return None,
        },
    };
    let home = string_of(&channel_home_exec(dsh_home_var, userprofile));
    let cwd = join(join(home.as_str(), "profiles").as_str(), profile);
    let args = vec![dsh.clone(), owned("plugin"), owned("--profile"), owned(profile), owned("add"), owned(spec)];
    assert(args@.map_values(|a: String| a@) =~= plugin_add_args(args@[0]@, profile@, spec@));
    Some(PluginInstall { node, args, cwd })
}


// ───────────────────────────── the shell's own scheme and scripts ─────────────────────────────

/// The requests of the `dshd://` scheme.
#[derive(Clone, Copy, Debug, PartialEq, Eq, Structural)]
pub enum DshdRoute {
    Status,
    Restart,
    Reload,
    Browser,
    Min,
    Max,
    Close,
    Drag,
    Icon,
    NotFound,
}

/// The `dshd://` request a path names.
pub open spec fn dshd_route_of(path: Seq<char>) -> DshdRoute {
    if path == "/status"@ {
        DshdRoute::Status
    } else if path == "/restart"@ {
        DshdRoute::Restart
    } else if path == "/reload"@ {
        DshdRoute::Reload
    } else if path == "/browser"@ {
        DshdRoute::Browser
    } else if path == "/min"@ {
        DshdRoute::Min
    } else if path == "/max"@ {
        DshdRoute::Max
    } else if path == "/close"@ {
        DshdRoute::Close
    } else if path == "/drag"@ {
        DshdRoute::Drag
    } else if path == "/icon"@ {
        DshdRoute::Icon
    } else {
        DshdRoute::NotFound
    }
}

/// Routes a `dshd://` request by its path.
pub fn dshd_route(path: &str) -> (r: DshdRoute)
    ensures
        r == dshd_route_of(path@),
{
    if str_eq(path, "/status") {
        DshdRoute::Status
    } else if str_eq(path, "/restart") {
        DshdRoute::Restart
    } else if str_eq(path, "/reload") {
        DshdRoute::Reload
    } else if str_eq(path, "/browser") {
        DshdRoute::Browser
    } else if str_eq(path, "/min") {
        DshdRoute::Min
    } else if str_eq(path, "/max") {
        DshdRoute::Max
    } else if str_eq(path, "/close") {
        DshdRoute::Close
    } else if str_eq(path, "/drag") {
        DshdRoute::Drag
    } else if str_eq(path, "/icon") {
        DshdRoute::Icon
    } else {
        DshdRoute::NotFound
    }
}

/// The keys whose accelerator crashes the embedded browser: F6 and F7.
pub open spec fn crashing_key(vk: u32) -> bool {
    vk == 0x75 || vk == 0x76
}

/// Whether an accelerator key is swallowed before the embedded browser sees it.
pub fn swallow_key(vk: u32) -> (r: bool)
    ensures
        r == crashing_key(vk),
{
    vk == 0x75 || vk == 0x76
}

/// The script that hands the shell page a status (`json`, already serialised).
pub fn status_push_js(json: &str) -> (r: String)
    ensures
        r@ == "window.__dshdStatus && window.__dshdStatus("@ + json@ + ");"@,
{
    let mut v: Vec<char> = Vec::new();
    push_str(&mut v, "window.__dshdStatus && window.__dshdStatus(");
    push_str(&mut v, json);
    push_str(&mut v, ");");
    string_of(&v)
}

/// The script that hands the shell page the theme of the page shown.
pub fn theme_push_js(bg: &str, fg: &str) -> (r: String)
    ensures
        r@ == "window.__dshdTheme && window.__dshdTheme("@ + theme_body(Some((bg@, fg@))) + ");"@,
{
    let body = theme_reply_body(&Some((owned(bg), owned(fg))));
    let mut v: Vec<char> = Vec::new();
    push_str(&mut v, "window.__dshdTheme && window.__dshdTheme(");
    push_str(&mut v, body.as_str());
    push_str(&mut v, ");");
    string_of(&v)
}

/// The script that tells the shell page which content page is shown.
pub fn switch_state_js(deepseek_shown: bool) -> (r: String)
    ensures
        r@ == "window.__dshdSwitchState && window.__dshdSwitchState("@ + bool_text(deepseek_shown) + ");"@,
{
    let mut v: Vec<char> = Vec::new();
    push_str(&mut v, "window.__dshdSwitchState && window.__dshdSwitchState(");
    push_bool(&mut v, deepseek_shown);
    push_str(&mut v, ");");
    string_of(&v)
}

/// Where the dsh page should go: the backend's URL once it runs or is
/// adopted, unless the page is there already.
pub open spec fn navigation_of(state: Seq<char>, url: Option<Seq<char>>, last: Option<Seq<char>>) -> Option<Seq<char>> {
    if state == "running"@ || state == "external"@ {
        match url {
            Some(u) => if last == Some(u) {
                None
            } else {
                Some(u)
            },
            None => None,
        }
    } else {
        None
    }
}

/// The URL to navigate the dsh page to, if any.
pub fn navigation_target(state: &str, url: &Option<String>, last: &Option<String>) -> (r: Option<String>)
    ensures
        ostr(r) == navigation_of(state@, ostr(*url), ostr(*last)),
{
    if !(str_eq(state, "running") || str_eq(state, "external")) {
        return None;
    }
    match url {
        None => None,
        Some(u) => {
            let same = match last {
                Some(l) => str_eq(l.as_str(), u.as_str()),
                None => false,
            };
            if same {
                None
            } else {
                Some(u.clone())
            }
        },
    }
}

} // verus!
