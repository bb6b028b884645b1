//! Reading the few JSON documents the program consumes, through `serde_json`.
//!
//! JSON parsing is `serde_json`'s work: each read is a function of the text
//! alone, named here and not restated. The logic that uses the values is
//! verified against those names.
use vstd::prelude::*;
use crate::settings::ostr;

verus! {

/// The member `key` of the JSON document `text`: `None` when `text` is not
/// JSON; otherwise whether the document (an object) has the member, and its
/// value when that is a string.
pub uninterp spec fn json_member(text: Seq<char>, key: Seq<char>) -> Option<(bool, Option<Seq<char>>)>;

/// The member `key` of the JSON document `text` as an unsigned integer: `None`
/// when `text` is not JSON; otherwise the member's value when the document has
/// the member and it is an integer that fits in `u64`.
pub uninterp spec fn json_member_u64(text: Seq<char>, key: Seq<char>) -> Option<Option<u64>>;

/// The sessions listed in a `session.list` reply: for each item of
/// `/result/value/items`, its `updatedAt` when an unsigned number and its
/// `sessionId` when a string; `None` when the text is not JSON or has no
/// such array.
pub uninterp spec fn json_session_items(text: Seq<char>) -> Option<Seq<(Option<u64>, Option<Seq<char>>)>>;

/// What a profile's `package.json` holds: `None` when the text is not JSON;
/// otherwise the entries of `/dsh/profile/bundles` (each when a string), when
/// that is an array, and the number of `dependencies`, when that is an object.
pub uninterp spec fn json_profile_manifest(text: Seq<char>) -> Option<(Option<Seq<Option<Seq<char>>>>, Option<nat>)>;

/// A member of a JSON document (`serde_json::from_str` into a `Value`, then
/// `Value::get` and `Value::as_str`); the result is named by `json_member`.
#[verifier::external_body]
pub(crate) fn json_member_of(text: &str, key: &str) -> (r: Option<(bool, Option<String>)>)
    ensures
        match r {
            None => json_member(text@, key@) is None,
            Some((present, v)) => json_member(text@, key@) == Some((present, match v {
                Some(x) => Some(x@),
                None => None,
            })),
        },
{
    let v: serde_json::Value = serde_json::from_str(text).ok()?;
    let m = v.get(key);
    Some((m.is_some(), m.and_then(|x| x.as_str()).map(|x| x.to_string())))
}

/// An unsigned member of a JSON document (`serde_json::from_str` into a
/// `Value`, then `Value::get` and `Value::as_u64`); the result is named by
/// `json_member_u64`.
#[verifier::external_body]
pub(crate) fn json_u64_of(text: &str, key: &str) -> (r: Option<Option<u64>>)
    ensures
        r == json_member_u64(text@, key@),
{
    let v: serde_json::Value = serde_json::from_str(text).ok()?;
    Some(v.get(key).and_then(|x| x.as_u64()))
}

/// The sessions of a `session.list` reply (`serde_json::from_str`, then
/// `Value::pointer`, `as_array`, and per item `get`, `as_u64`, `as_str`);
/// the result is named by `json_session_items`.
#[verifier::external_body]
pub(crate) fn session_items_of(text: &str) -> (r: Option<Vec<(Option<u64>, Option<String>)>>)
    ensures
        match r {
            None => json_session_items(text@) is None,
            Some(items) => json_session_items(text@) == Some(items@.map_values(|p: (Option<u64>, Option<String>)| (p.0, match p.1 {
                Some(x) => Some(x@),
                None => None,
            }))),
        },
{
    let v: serde_json::Value = serde_json::from_str(text).ok()?;
    let items = v.pointer("/result/value/items")?.as_array()?;
    Some(items.iter().map(|it| (
        it.get("updatedAt").and_then(|x| x.as_u64()),
        it.get("sessionId").and_then(|x| x.as_str()).map(|x| x.to_string()),
    )).collect())
}

/// The bundles and plugin count of a profile manifest (`serde_json::from_str`,
/// then `Value::pointer`, `as_array`, `as_str`, `get`, `as_object`); the
/// result is named by `json_profile_manifest`.
#[verifier::external_body]
pub(crate) fn profile_manifest_of(text: &str) -> (r: Option<(Option<Vec<Option<String>>>, Option<usize>)>)
    ensures
        match r {
            None => json_profile_manifest(text@) is None,
            Some((b, n)) => json_profile_manifest(text@) == Some((match b {
                Some(v) => Some(v@.map_values(|x: Option<String>| ostr(x))),
                None => None,
            }, match n {
                Some(k) => Some(k as nat),
                None => None,
            })),
        },
{
    let v: serde_json::Value = serde_json::from_str(text).ok()?;
    let bundles = v.pointer("/dsh/profile/bundles").and_then(|x| x.as_array())
        .map(|a| a.iter().map(|x| x.as_str().map(|s| s.to_string())).collect());
    Some((bundles, v.get("dependencies").and_then(|x| x.as_object()).map(|o| o.len())))
}

/// The JSON document `text` printed pretty (two-space indent, members in key
/// order) after setting the member `key` of its top-level object to the
/// string `value`; `None` when `text` is not JSON. A document that is not an
/// object is printed unchanged.
pub uninterp spec fn json_with_member(text: Seq<char>, key: Seq<char>, value: Seq<char>) -> Option<Seq<char>>;

/// Sets a string member and prints the document pretty (`serde_json::from_str`
/// into a `Value`, `Value::as_object_mut` and `Map::insert`, then
/// `serde_json::to_string_pretty`); the result is named by `json_with_member`.
/// Also stated: it fails exactly when the text is not JSON (the same parse as
/// `json_member`'s); and a document with some string member is an object, so
/// the new text, read back (`json_member`), holds `key` with the string `value`.
#[verifier::external_body]
pub(crate) fn with_member_pretty(text: &str, key: &str, value: &str) -> (r: Option<String>)
    ensures
        ostr(r) == json_with_member(text@, key@, value@),
        r is Some <==> json_member(text@, key@) is Some,
        r matches Some(t) ==> forall|probe: Seq<char>| (#[trigger] json_member(text@, probe) matches Some((_, Some(_))))
            ==> json_member(t@, key@) == Some((true, Some(value@))),
{
    let mut v: serde_json::Value = serde_json::from_str(text).ok()?;
    if let Some(obj) = v.as_object_mut() {
        obj.insert(key.to_string(), serde_json::Value::String(value.to_string()));
    }
    Some(serde_json::to_string_pretty(&v).unwrap_or_default())
}

} // verus!
