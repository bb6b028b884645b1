//! The "plugins changed" toast on Windows: where its icon is written, how the
//! program's identity is registered, and the icon's address in the toast.
use vstd::prelude::*;
use crate::paths::{join, join_path};
use crate::settings::ostr;
use crate::text::{owned, string_of};

verus! {

/// The registry key of the program's identity (AppUserModelID `io.dsh.desktop`).
pub open spec fn identity_key() -> Seq<char> {
    "HKCU\\Software\\Classes\\AppUserModelId\\io.dsh.desktop"@
}

/// The folder the toast's icon is written to: `DSH Desktop` under the first of
/// `LOCALAPPDATA`, `TEMP`, `TMP` that is set; `None` when none is.
pub open spec fn icon_dir_of(localappdata: Option<Seq<char>>, temp: Option<Seq<char>>, tmp: Option<Seq<char>>) -> Option<Seq<char>> {
    match localappdata {
        Some(b) => Some(join_path(b, "DSH Desktop"@)),
        None => match temp {
            Some(b) => Some(join_path(b, "DSH Desktop"@)),
            None => match tmp {
                Some(b) => Some(join_path(b, "DSH Desktop"@)),
                None => None,
            },
        },
    }
}

/// The folder for the toast's icon.
pub fn icon_dir(localappdata: Option<String>, temp: Option<String>, tmp: Option<String>) -> (r: Option<String>)
    ensures
        ostr(r) == icon_dir_of(ostr(localappdata), ostr(temp), ostr(tmp)),
{
    let base = match localappdata {
        Some(b) => b,
        None => match temp {
            Some(b) => b,
            None => match tmp {
                Some(b) => b,
                None => return None,
            },
        },
    };
    Some(join(base.as_str(), "DSH Desktop"))
}

/// The arguments of `reg.exe` that set value `value` of the identity key to `data`.
pub open spec fn identity_args(value: Seq<char>, data: Seq<char>) -> Seq<Seq<char>> {
    seq!["add"@, identity_key(), "/v"@, value, "/t"@, "REG_SZ"@, "/d"@, data, "/f"@]
}

/// `reg add <key> /v <value> /t REG_SZ /d <data> /f`.
pub fn identity_command(value: &str, data: &str) -> (r: Vec<String>)
    ensures
        r@.map_values(|a: String| a@) == identity_args(value@, data@),
{
    let r = vec![
        owned("add"),
        owned("HKCU\\Software\\Classes\\AppUserModelId\\io.dsh.desktop"),
        owned("/v"),
        owned(value),
        owned("/t"),
        owned("REG_SZ"),
        owned("/d"),
        owned(data),
        owned("/f"),
    ];
    assert(r@.map_values(|a: String| a@) =~= identity_args(value@, data@));
    r
}

/// The icon's path as the toast takes it: backslashes made forward slashes.
pub open spec fn forward_slashes(p: Seq<char>) -> Seq<char> {
    p.map_values(|c: char| if c == '\\' { '/' } else { c })
}

/// The icon's path with forward slashes.
pub fn toast_icon_path(p: &str) -> (r: String)
    ensures
        r@ == forward_slashes(p@),
{
    let v = crate::text::chars_of(p);
    let mut out: Vec<char> = Vec::new();
    let mut i: usize = 0;
    while i < v.len()
        invariant
            i <= v@.len(),
            v@ == p@,
            out@ == forward_slashes(v@.take(i as int)),
        decreases v@.len() - i,
    {
        let c = v[i];
        out.push(if c == '\\' { '/' } else { c });
        assert(v@.take(i + 1) =~= v@.take(i as int).push(c));
        assert(out@ =~= forward_slashes(v@.take(i + 1)));
        i = i + 1;
    }
    assert(v@.take(i as int) =~= v@);
    string_of(&out)
}

} // verus!
