//! Small shared pieces: UTC timestamps for the log, the log line format, the
//! `dsh web:` ready line, and decimal number parsing.
use vstd::prelude::*;
use vstd::arithmetic::div_mod::lemma_fundamental_div_mod_converse;
use crate::text::{
    char_is_ws, chars_of, find, find_from_exec, is_ws, lemma_find_from, lemma_skip_ws_bounds,
    occurs_at_exec, push_all, skip_ws, skip_ws_exec, slice_chars, starts_with, string_of, zpad_i64,
    zpad_signed,
};

verus! {

// ───────────────────────────── floor division ─────────────────────────────

/// Floor division and the matching non-negative remainder (`div_euclid`,
/// `rem_euclid` for a positive divisor).
pub fn floor_div_mod(x: i64, d: i64) -> (r: (i64, i64))
    requires
        d > 0,
        x >= i64::MIN + d,
    ensures
        r.0 == x as int / d as int,
        r.1 == x as int % d as int,
        0 <= r.1 < d,
{
    if x >= 0 {
        let q = x / d;
        let m = x % d;
        proof {
            vstd::arithmetic::div_mod::lemma_fundamental_div_mod(x as int, d as int);
            assert(x as int == q as int * d as int + m as int) by (nonlinear_arith)
                requires
                    x as int == d as int * (x as int / d as int) + (x as int % d as int),
                    q as int == x as int / d as int,
                    m as int == x as int % d as int,
            ;
            lemma_fundamental_div_mod_converse(x as int, d as int, q as int, m as int);
        }
        (q, m)
    } else {
        let a: i64 = (d - 1) - x;
        let qa = a / d;
        let ra = a % d;
        assert(a == qa * d + ra) by (nonlinear_arith)
            requires
                a >= 0,
                d > 0,
                qa == a / d,
                ra == a % d,
        ;
        let q: i64 = -qa;
        assert(qa * d <= a) by (nonlinear_arith)
            requires
                a == qa * d + ra,
                ra >= 0,
        ;
        assert(qa >= 0) by (nonlinear_arith)
            requires
                a >= 0,
                d > 0,
                qa == a / d,
        ;
        assert(qa * d <= a && 0 <= qa * d) by (nonlinear_arith)
            requires
                a == qa * d + ra,
                ra >= 0,
                qa >= 0,
                d > 0,
        ;
        assert(-(a as int) <= q * d <= 0) by (nonlinear_arith)
            requires
                qa * d <= a,
                0 <= qa * d,
                q == -qa,
        ;
        let m: i64 = x - q * d;
        assert(0 <= m < d) by (nonlinear_arith)
            requires
                a == (d - 1) - x,
                a == qa * d + ra,
                0 <= ra < d,
                q == -qa,
                m == x - q * d,
        ;
        proof {
            assert(x as int == q as int * d as int + m as int) by (nonlinear_arith)
                requires
                    m == x - q * d,
            ;
            lemma_fundamental_div_mod_converse(x as int, d as int, q as int, m as int);
        }
        (q, m)
    }
}

// ───────────────────────────── civil dates ─────────────────────────────

/// Howard Hinnant's `civil_from_days`: the proleptic Gregorian (year, month, day)
/// of day `z`, counted from 1970-01-01.
pub open spec fn civil_from_days_spec(z: int) -> (int, int, int) {
    let z2 = z + 719468;
    let era = z2 / 146097;
    let doe = z2 % 146097;
    let yoe = (doe - doe / 1460 + doe / 36524 - doe / 146096) / 365;
    let y = yoe + era * 400;
    let doy = doe - (365 * yoe + yoe / 4 - yoe / 100);
    let mp = (5 * doy + 2) / 153;
    let d = doy - (153 * mp + 2) / 5 + 1;
    let m = if mp < 10 {
        mp + 3
    } else {
        mp - 9
    };
    (if m <= 2 {
        y + 1
    } else {
        y
    }, m, d)
}

/// The (year, month, day) of day `z` since 1970-01-01.
pub fn civil_from_days(z: i64) -> (r: (i64, i64, i64))
    requires
        -1_000_000_000_000_000 <= z <= 1_000_000_000_000_000,
    ensures
        r.0 == civil_from_days_spec(z as int).0,
        r.1 == civil_from_days_spec(z as int).1,
        r.2 == civil_from_days_spec(z as int).2,
{
    let z2 = z + 719468;
    let (era, doe) = floor_div_mod(z2, 146097);
    assert(-10_000_000_000_000 <= era <= 10_000_000_000_000) by (nonlinear_arith)
        requires
            era == z2 as int / 146097,
            -1_000_000_000_000_000 <= z2 <= 1_000_000_001_000_000,
    ;
    let yoe = (doe - doe / 1460 + doe / 36524 - doe / 146096) / 365;
    assert(0 <= yoe <= 400) by (nonlinear_arith)
        requires
            0 <= doe < 146097,
            yoe == (doe - doe / 1460 + doe / 36524 - doe / 146096) / 365,
    ;
    let y = yoe + era * 400;
    let doy = doe - (365 * yoe + yoe / 4 - yoe / 100);
    assert(-200_000 <= doy <= 200_000) by (nonlinear_arith)
        requires
            0 <= doe < 146097,
            0 <= yoe <= 400,
            doy == doe - (365 * yoe + yoe / 4 - yoe / 100),
    ;
    let mp = (5 * doy + 2) / 153;
    let d = doy - (153 * mp + 2) / 5 + 1;
    let m = if mp < 10 { mp + 3 } else { mp - 9 };
    (if m <= 2 { y + 1 } else { y }, m, d)
}

/// `format_utc(secs)`: `YYYY-MM-DD HH:MM:SS` in UTC for Unix second `secs`,
/// each field zero-padded as `{:04}` / `{:02}` pad it.
pub open spec fn utc_text(secs: int) -> Seq<char> {
    date_text(civil_from_days_spec(secs / 86400)) + seq![' '] + time_text(secs % 86400)
}

/// `YYYY-MM-DD` for a (year, month, day).
pub open spec fn date_text(ymd: (int, int, int)) -> Seq<char> {
    zpad_signed(ymd.0, 4) + seq!['-'] + zpad_signed(ymd.1, 2) + seq!['-'] + zpad_signed(ymd.2, 2)
}

/// `HH:MM:SS` for a second of the day.
pub open spec fn time_text(tod: int) -> Seq<char> {
    zpad_signed(tod / 3600, 2) + seq![':'] + zpad_signed((tod % 3600) / 60, 2) + seq![':'] + zpad_signed(tod % 60, 2)
}

/// Formats Unix second `secs` as `YYYY-MM-DD HH:MM:SS` (UTC).
pub fn format_utc(secs: i64) -> (r: String)
    ensures
        r@ == utc_text(secs as int),
{
    let (days, tod) = floor_div_mod_any(secs, 86400);
    assert(-1_000_000_000_000_000 <= days <= 1_000_000_000_000_000) by (nonlinear_arith)
        requires
            days == secs as int / 86400,
    ;
    let (y, m, d) = civil_from_days(days);
    let mut out = zpad_i64(y, 4);
    out.push('-');
    push_all(&mut out, &zpad_i64(m, 2));
    out.push('-');
    push_all(&mut out, &zpad_i64(d, 2));
    out.push(' ');
    push_all(&mut out, &zpad_i64(tod / 3600, 2));
    out.push(':');
    push_all(&mut out, &zpad_i64((tod % 3600) / 60, 2));
    out.push(':');
    push_all(&mut out, &zpad_i64(tod % 60, 2));
    string_of(&out)
}

/// Floor division by a positive divisor for every `i64`.
pub fn floor_div_mod_any(x: i64, d: i64) -> (r: (i64, i64))
    requires
        0 < d < 1_000_000_000,
    ensures
        r.0 == x as int / d as int,
        r.1 == x as int % d as int,
        0 <= r.1 < d,
{
    if x >= i64::MIN + d {
        floor_div_mod(x, d)
    } else {
        // x is within d of i64::MIN: shift by d first.
        let (q, m) = floor_div_mod(x + d, d);
        proof {
            assert((x + d) as int == q as int * d as int + m as int) by (nonlinear_arith)
                requires
                    q == (x + d) as int / d as int,
                    m == (x + d) as int % d as int,
                    d > 0,
            {
                vstd::arithmetic::div_mod::lemma_fundamental_div_mod((x + d) as int, d as int);
            }
            assert(x as int == (q - 1) as int * d as int + m as int) by (nonlinear_arith)
                requires
                    (x + d) as int == q as int * d as int + m as int,
            ;
            lemma_fundamental_div_mod_converse(x as int, d as int, (q - 1) as int, m as int);
        }
        (q - 1, m)
    }
}

// ───────────────────────────── the log ─────────────────────────────

/// A log line: `[timestamp] LEVEL message` and a newline.
pub open spec fn log_line(secs: int, level: Seq<char>, msg: Seq<char>) -> Seq<char> {
    seq!['['] + utc_text(secs) + seq![']', ' '] + level + seq![' '] + msg + seq!['\n']
}

/// The log line for `msg` at `level`, stamped with Unix second `secs`.
pub fn log_line_at(secs: i64, level: &str, msg: &str) -> (r: String)
    ensures
        r@ == log_line(secs as int, level@, msg@),
{
    let mut out: Vec<char> = Vec::new();
    out.push('[');
    push_all(&mut out, &chars_of(format_utc(secs).as_str()));
    out.push(']');
    out.push(' ');
    push_all(&mut out, &chars_of(level));
    out.push(' ');
    push_all(&mut out, &chars_of(msg));
    out.push('\n');
    string_of(&out)
}

/// The current time as Unix seconds (`SystemTime::now`), 0 when the clock is
/// before 1970. Nothing is promised of the value.
#[verifier::external_body]
pub(crate) fn unix_now() -> (r: i64) {
    std::time::SystemTime::now().duration_since(std::time::UNIX_EPOCH).map(|d| d.as_secs() as i64).unwrap_or(0)
}

/// The current time as `YYYY-MM-DD HH:MM:SS` (UTC).
pub fn chrono_like_now() -> (r: String)
    ensures
        exists|t: i64| r@ == utc_text(t as int),
{
    let t = unix_now();
    format_utc(t)
}

/// The size past which the log file is rotated: 5 MB.
pub open spec fn max_log_bytes() -> nat {
    5 * 1024 * 1024
}

/// The line formatter of the file log; the caller appends the lines to the file
/// at `path`, one writer at a time, and rotates it once it has grown past 5 MB.
pub struct Logger {
    pub path: String,
}

impl Logger {
    /// A log for the file at `path`.
    pub fn new(path: String) -> (r: Logger)
        ensures
            r.path == path,
    {
        Logger { path }
    }

    /// Whether the log file, now `size` bytes long, is rotated before the next
    /// line is appended: once it has grown past 5 MB.
    pub fn rotate_due(&self, size: u64) -> (r: bool)
        ensures
            r == (size > max_log_bytes()),
    {
        size > 5 * 1024 * 1024
    }

    /// Where a rotated log goes: `<path>.1`, replacing the one rotated before.
    pub fn rotated_path(&self) -> (r: String)
        ensures
            r@ == self.path@ + ".1"@,
    {
        let mut v = chars_of(self.path.as_str());
        push_all(&mut v, &chars_of(".1"));
        string_of(&v)
    }

    /// The `INFO` line for `msg`, stamped now.
    pub fn info(&self, msg: &str) -> (r: String)
        ensures
            exists|t: i64| r@ == log_line(t as int, "INFO"@, msg@),
    {
        log_line_at(unix_now(), "INFO", msg)
    }

    /// The `WARN` line for `msg`, stamped now.
    pub fn warn(&self, msg: &str) -> (r: String)
        ensures
            exists|t: i64| r@ == log_line(t as int, "WARN"@, msg@),
    {
        log_line_at(unix_now(), "WARN", msg)
    }

    /// The `ERROR` line for `msg`, stamped now.
    pub fn error(&self, msg: &str) -> (r: String)
        ensures
            exists|t: i64| r@ == log_line(t as int, "ERROR"@, msg@),
    {
        log_line_at(unix_now(), "ERROR", msg)
    }
}


// ───────────────────────────── the ready line ─────────────────────────────

/// End of the run of non-whitespace characters that starts at `i`.
pub open spec fn token_end(s: Seq<char>, i: int) -> int
    decreases s.len() - i,
{
    if i < 0 || i >= s.len() || is_ws(s[i]) {
        if i < 0 { 0 } else { i }
    } else {
        token_end(s, i + 1)
    }
}

pub proof fn lemma_token_end(s: Seq<char>, i: int)
    requires
        0 <= i <= s.len(),
    ensures
        i <= token_end(s, i) <= s.len(),
        i < s.len() && !is_ws(s[i]) ==> i < token_end(s, i),
    decreases s.len() - i,
{
    if i < s.len() && !is_ws(s[i]) {
        lemma_token_end(s, i + 1);
    }
}

/// `http://`
pub open spec fn http_prefix() -> Seq<char> {
    seq!['h', 't', 't', 'p', ':', '/', '/']
}

/// `https://`
pub open spec fn https_prefix() -> Seq<char> {
    seq!['h', 't', 't', 'p', 's', ':', '/', '/']
}

/// The first whitespace-separated word at or after `i` that starts with
/// `http://` or `https://`.
pub open spec fn first_url_word(s: Seq<char>, i: int) -> Option<Seq<char>>
    decreases s.len() - i,
{
    if i < 0 || i >= s.len() {
        None
    } else {
        let a = skip_ws(s, i);
        if a >= s.len() {
            None
        } else {
            let b = token_end(s, a);
            let w = s.subrange(a, b);
            if starts_with(w, http_prefix()) || starts_with(w, https_prefix()) {
                Some(w)
            } else if b <= i || b > s.len() {
                None
            } else {
                first_url_word(s, b)
            }
        }
    }
}

/// End of `s.take(j)` once trailing `,` `;` `)` are dropped.
pub open spec fn punct_end(s: Seq<char>, j: int) -> int
    decreases j,
{
    if j <= 0 {
        0
    } else if s[j - 1] == ',' || s[j - 1] == ';' || s[j - 1] == ')' {
        punct_end(s, j - 1)
    } else {
        j
    }
}

/// The marker that precedes the ready URL in the backend's output.
pub open spec fn ready_marker() -> Seq<char> {
    seq!['d', 's', 'h', ' ', 'w', 'e', 'b', ':']
}

/// `parse_url_line(line)`: after the first `dsh web:` in `line`, the first word
/// that starts with `http://` or `https://`, without trailing `,` `;` `)`.
pub open spec fn ready_url(line: Seq<char>) -> Option<Seq<char>> {
    match find(line, ready_marker()) {
        None => None,
        Some(i) => match first_url_word(line, i + 8) {
            None => None,
            Some(w) => Some(w.take(punct_end(w, w.len() as int))),
        },
    }
}

/// The URL announced by a backend output line of the form `dsh web: http://...`.
pub fn parse_url_line(line: &str) -> (r: Option<String>)
    ensures
        opt_chars(r) == ready_url(line@),
{
    let v = chars_of(line);
    let marker: Vec<char> = vec!['d', 's', 'h', ' ', 'w', 'e', 'b', ':'];
    assert(marker@ =~= ready_marker());
    proof {
        lemma_find_from(v@, ready_marker(), 0);
    }
    let idx = match find_from_exec(&v, &marker, 0) {
        Some(i) => i,
        None => return None,
    };
    let http: Vec<char> = vec!['h', 't', 't', 'p', ':', '/', '/'];
    let https: Vec<char> = vec!['h', 't', 't', 'p', 's', ':', '/', '/'];
    assert(http@ =~= http_prefix());
    assert(https@ =~= https_prefix());
    let n = v.len();
    let mut i: usize = idx + 8;
    loop
        invariant
            n == v@.len(),
            v@ == line@,
            find(v@, ready_marker()) == Some(idx as int),
            idx + 8 <= n,
            idx + 8 <= i <= n,
            http@ == http_prefix(),
            https@ == https_prefix(),
            first_url_word(v@, idx + 8) == first_url_word(v@, i as int),
        decreases n - i,
    {
        if i >= n {
            return None;
        }
        let a = skip_ws_exec(&v, i);
        proof {
            lemma_skip_ws_bounds(v@, i as int);
        }
        if a >= n {
            return None;
        }
        let mut b = a;
        while b < n && !char_is_ws(v[b])
            invariant
                a <= b <= n,
                n == v@.len(),
                token_end(v@, a as int) == token_end(v@, b as int),
            decreases n - b,
        {
            b = b + 1;
        }
        proof {
            lemma_token_end(v@, a as int);
        }
        assert(token_end(v@, b as int) == b as int);
        let w = slice_chars(&v, a, b);
        if occurs_at_exec(&w, &http, 0) || occurs_at_exec(&w, &https, 0) {
            let mut j = w.len();
            while j > 0 && (w[j - 1] == ',' || w[j - 1] == ';' || w[j - 1] == ')')
                invariant
                    j <= w@.len(),
                    punct_end(w@, w@.len() as int) == punct_end(w@, j as int),
                decreases j,
            {
                j = j - 1;
            }
            let r = string_of(&slice_chars(&w, 0, j));
            assert(r@ =~= w@.take(punct_end(w@, w@.len() as int)));
            return Some(r);
        }
        i = b;
    }
}

/// An optional string taken by its characters.
pub open spec fn opt_chars(o: Option<String>) -> Option<Seq<char>> {
    match o {
        Some(s) => Some(s@),
        None => None,
    }
}

// ───────────────────────────── numbers ─────────────────────────────

/// `c` is an ASCII decimal digit.
pub open spec fn is_digit(c: char) -> bool {
    '0' <= c && c <= '9'
}

/// The value of a string of decimal digits.
pub open spec fn digits_value(s: Seq<char>) -> nat
    decreases s.len(),
{
    if s.len() == 0 {
        0
    } else {
        digits_value(s.drop_last()) * 10 + ((s.last() as int) - ('0' as int)) as nat
    }
}

/// What `str::parse` gives for an unsigned type whose largest value is `max`:
/// an optional `+`, then one or more digits, of value at most `max`.
pub open spec fn parse_unsigned(s: Seq<char>, max: nat) -> Option<nat> {
    let body = unsigned_body(s);
    if body.len() > 0 && (forall|i: int| 0 <= i < body.len() ==> is_digit(#[trigger] body[i]))
        && digits_value(body) <= max {
        Some(digits_value(body))
    } else {
        None
    }
}

/// The digits of an unsigned number: the text without its optional `+`.
pub open spec fn unsigned_body(s: Seq<char>) -> Seq<char> {
    if s.len() > 0 && s[0] == '+' {
        s.drop_first()
    } else {
        s
    }
}

pub proof fn lemma_parse_non_digit(s: Seq<char>, max: nat, k: int)
    requires
        0 <= k < unsigned_body(s).len(),
        !is_digit(unsigned_body(s)[k]),
    ensures
        parse_unsigned(s, max) is None,
{
}

pub proof fn lemma_parse_too_big(s: Seq<char>, max: nat)
    requires
        digits_value(unsigned_body(s)) > max,
    ensures
        parse_unsigned(s, max) is None,
{
}

pub proof fn lemma_digits_value_mono(s: Seq<char>, i: int)
    requires
        0 <= i <= s.len(),
        forall|k: int| 0 <= k < s.len() ==> is_digit(#[trigger] s[k]),
    ensures
        digits_value(s.take(i)) <= digits_value(s),
    decreases s.len(),
{
    if i < s.len() {
        assert(s.drop_last().take(i) =~= s.take(i));
        lemma_digits_value_mono(s.drop_last(), i);
    } else {
        assert(s.take(i) =~= s);
    }
}

/// Parses an unsigned decimal number no larger than `max` (`str::parse::<u8>`,
/// `::<u64>` and the like).
pub fn parse_uint(v: &Vec<char>, max: u64) -> (r: Option<u64>)
    ensures
        r matches Some(x) ==> parse_unsigned(v@, max as nat) == Some(x as nat),
        r is None ==> parse_unsigned(v@, max as nat) is None,
{
    let n = v.len();
    let start: usize = if n > 0 && v[0] == '+' { 1 } else { 0 };
    let ghost body = unsigned_body(v@);
    assert(body =~= v@.subrange(start as int, n as int));
    if start >= n {
        return None;
    }
    let mut acc: u64 = 0;
    let mut i: usize = start;
    while i < n
        invariant
            start <= i <= n,
            n == v@.len(),
            body == unsigned_body(v@),
            body == v@.subrange(start as int, n as int),
            forall|k: int| start <= k < i ==> is_digit(#[trigger] v@[k]),
            acc as nat == digits_value(v@.subrange(start as int, i as int)),
            acc <= max,
        decreases n - i,
    {
        let c = v[i];
        if !('0' <= c && c <= '9') {
            assert(body[i - start] == v@[i as int]);
            assert(!is_digit(body[i - start]));
            proof {
                lemma_parse_non_digit(v@, max as nat, i - start);
            }
            return None;
        }
        let d = (c as u32 - '0' as u32) as u64;
        let ghost pre = v@.subrange(start as int, i as int);
        assert(v@.subrange(start as int, i + 1).drop_last() =~= pre);
        let t: u128 = (acc as u128) * 10 + (d as u128);
        assert(t == digits_value(v@.subrange(start as int, i + 1)));
        if t > max as u128 {
            proof {
                if forall|k: int| 0 <= k < body.len() ==> is_digit(#[trigger] body[k]) {
                    assert(body.take(i + 1 - start) =~= v@.subrange(start as int, i + 1));
                    lemma_digits_value_mono(body, i + 1 - start);
                    assert(digits_value(body) > max);
                    lemma_parse_too_big(v@, max as nat);
                } else {
                    let k = choose|k: int| 0 <= k < body.len() && !is_digit(#[trigger] body[k]);
                    lemma_parse_non_digit(v@, max as nat, k);
                }
            }
            return None;
        }
        acc = t as u64;
        i = i + 1;
    }
    assert(v@.subrange(start as int, n as int) == body);
    assert forall|k: int| 0 <= k < body.len() implies is_digit(#[trigger] body[k]) by {
        assert(body[k] == v@[start + k]);
    }
    Some(acc)
}

} // verus!
