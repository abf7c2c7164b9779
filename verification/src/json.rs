//! What the library reads out of JSON values.

use vstd::prelude::*;

verus! {

/// `serde_json::Value`: a JSON value, as the parser of requests has it.
#[verifier::external_type_specification]
#[verifier::external_body]
pub struct ExValue(pub serde_json::Value);

/// The members of a JSON object that are whole numbers from zero up to
/// `u64::MAX`, by their keys; none where the value is no object.
pub uninterp spec fn json_numbers(v: serde_json::Value) -> Map<Seq<char>, u64>;

/// The members of a JSON object that are strings, by their keys; none where the
/// value is no object.
pub uninterp spec fn json_strings(v: serde_json::Value) -> Map<Seq<char>, Seq<char>>;

/// `serde_json::Value::get` with a string key, then `as_u64` on what it gives:
/// the member of that key, where the value is an object that has one and it is
/// a whole number from zero up to `u64::MAX`.
#[verifier::external_body]
fn number_member(v: &serde_json::Value, key: &str) -> (r: Option<u64>)
    ensures
        r == (if json_numbers(*v).contains_key(key@) {
            Some(json_numbers(*v)[key@])
        } else {
            None
        }),
{
    v.get(key).and_then(|x| x.as_u64())
}

/// `serde_json::Value::get` with a string key, then `as_str` on what it gives:
/// the member of that key, where the value is an object that has one and it is
/// a string.
#[verifier::external_body]
fn string_member(v: &serde_json::Value, key: &str) -> (r: Option<String>)
    ensures
        r is Some <==> json_strings(*v).contains_key(key@),
        r matches Some(s) ==> s@ == json_strings(*v)[key@],
{
    v.get(key).and_then(|x| x.as_str()).map(|s| s.to_owned())
}

/// Whether a JSON value is a number.
pub uninterp spec fn json_is_number(v: serde_json::Value) -> bool;

/// `serde_json::Value::is_number`.
pub assume_specification[ serde_json::Value::is_number ](v: &serde_json::Value) -> (r: bool)
    ensures
        r == json_is_number(*v),
;

/// Whether a JSON value is a whole number from `i64::MIN` to `i64::MAX`.
pub uninterp spec fn json_is_i64(v: serde_json::Value) -> bool;

/// `serde_json::Value::is_i64`: only a number is one.
pub assume_specification[ serde_json::Value::is_i64 ](v: &serde_json::Value) -> (r: bool)
    ensures
        r == json_is_i64(*v),
        r ==> json_is_number(*v),
;

/// Whether a JSON value is a whole number from zero to `u64::MAX`.
pub uninterp spec fn json_is_u64(v: serde_json::Value) -> bool;

/// `serde_json::Value::is_u64`: only a number is one.
pub assume_specification[ serde_json::Value::is_u64 ](v: &serde_json::Value) -> (r: bool)
    ensures
        r == json_is_u64(*v),
        r ==> json_is_number(*v),
;

/// Whether a JSON value is a string.
pub uninterp spec fn json_is_string(v: serde_json::Value) -> bool;

/// `serde_json::Value::is_string`: no number is one.
pub assume_specification[ serde_json::Value::is_string ](v: &serde_json::Value) -> (r: bool)
    ensures
        r == json_is_string(*v),
        r ==> !json_is_number(*v),
;

/// Whether a JSON value is `true` or `false`.
pub uninterp spec fn json_is_boolean(v: serde_json::Value) -> bool;

/// `serde_json::Value::is_boolean`: no number and no string is one.
pub assume_specification[ serde_json::Value::is_boolean ](v: &serde_json::Value) -> (r: bool)
    ensures
        r == json_is_boolean(*v),
        r ==> !json_is_number(*v) && !json_is_string(*v),
;

/// What requests carry besides their method.
pub struct Params {
    pub tab_id: Option<u64>,
    pub block_id: Option<u64>,
    pub since: Option<u64>,
    pub pane: Option<u64>,
    pub message_id: Option<u64>,
    pub actor: Option<String>,
    pub to: Option<String>,
    pub kind: Option<String>,
    pub text: Option<String>,
    pub base: Option<String>,
    pub tool: Option<String>,
    pub title: Option<String>,
    pub tag: Option<String>,
    pub path: Option<String>,
}

/// `n` is the number under `key`.
pub open spec fn number_at(v: serde_json::Value, key: Seq<char>, n: Option<u64>) -> bool {
    n == (if json_numbers(v).contains_key(key) {
        Some(json_numbers(v)[key])
    } else {
        None
    })
}

/// `s` is the string under `key`.
pub open spec fn string_at(v: serde_json::Value, key: Seq<char>, s: Option<String>) -> bool {
    &&& s is Some <==> json_strings(v).contains_key(key)
    &&& s matches Some(t) ==> t@ == json_strings(v)[key]
}

/// What a request carries, as it was read.
pub open spec fn params_read(v: serde_json::Value, p: Params) -> bool {
    &&& number_at(v, "tab_id"@, p.tab_id)
    &&& number_at(v, "block_id"@, p.block_id)
    &&& number_at(v, "since"@, p.since)
    &&& number_at(v, "pane"@, p.pane)
    &&& number_at(v, "message_id"@, p.message_id)
    &&& string_at(v, "actor"@, p.actor)
    &&& string_at(v, "to"@, p.to)
    &&& string_at(v, "kind"@, p.kind)
    &&& string_at(v, "text"@, p.text)
    &&& string_at(v, "base"@, p.base)
    &&& string_at(v, "tool"@, p.tool)
    &&& string_at(v, "title"@, p.title)
    &&& string_at(v, "tag"@, p.tag)
    &&& string_at(v, "path"@, p.path)
}

/// Read what a request carries. A member that is missing, or of another type,
/// counts as absent.
pub fn read_params(v: &serde_json::Value) -> (p: Params)
    ensures
        params_read(*v, p),
{
    Params {
        tab_id: number_member(v, "tab_id"),
        block_id: number_member(v, "block_id"),
        since: number_member(v, "since"),
        pane: number_member(v, "pane"),
        message_id: number_member(v, "message_id"),
        actor: string_member(v, "actor"),
        to: string_member(v, "to"),
        kind: string_member(v, "kind"),
        text: string_member(v, "text"),
        base: string_member(v, "base"),
        tool: string_member(v, "tool"),
        title: string_member(v, "title"),
        tag: string_member(v, "tag"),
        path: string_member(v, "path"),
    }
}

} // verus!
