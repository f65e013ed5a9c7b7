//! JSON values and texts, and what the JSON library reads from them.

use crate::text::{opt_text, same_opt_text};
use vstd::prelude::*;

verus! {

#[verifier::external_type_specification]
#[verifier::external_body]
pub struct ExValue(serde_json::Value);

/// The members of a JSON object that are strings, by name. A value that is no object has none.
pub uninterp spec fn string_members(value: serde_json::Value) -> Map<Seq<char>, Seq<char>>;

/// Whether `serde_json::from_str` reads a text as a JSON value.
pub uninterp spec fn json_readable(text: Seq<char>) -> bool;

/// `Value::get` with a name, then `Value::as_str`: the string member of that name, if the value is
/// an object that has one.
#[verifier::external_body]
fn string_member(value: &serde_json::Value, name: &str) -> (member: Option<String>)
    ensures
        match member {
            Some(text) => string_members(*value).contains_pair(name@, text@),
            None => !string_members(*value).contains_key(name@),
        },
{
    value.get(name)?.as_str().map(String::from)
}

/// `Value::clone` makes the same value again.
#[verifier::external_body]
pub(crate) fn copy_value(value: &serde_json::Value) -> (copy: serde_json::Value)
    ensures
        copy == *value,
{
    value.clone()
}

/// `serde_json::from_str` into a `Value` succeeds or fails.
#[verifier::external_body]
fn reads_as_json(text: &str) -> (readable: bool)
    ensures
        readable == json_readable(text@),
{
    serde_json::from_str::<serde_json::Value>(text).is_ok()
}

/// A stored JSON text, or nothing where the text is not JSON.
pub fn kept_json(text: Option<String>) -> (kept: Option<String>)
    ensures
        opt_text(kept) == kept_json_text(opt_text(text)),
{
    match text {
        Some(t) => if reads_as_json(t.as_str()) {
            Some(t)
        } else {
            None
        },
        None => None,
    }
}

/// A stored JSON text, or nothing where the text is not JSON.
pub open spec fn kept_json_text(text: Option<Seq<char>>) -> Option<Seq<char>> {
    match text {
        Some(t) => if json_readable(t) {
            Some(t)
        } else {
            None
        },
        None => None,
    }
}

/// The name of the member that says which vault an audit entry is about.
pub const VAULT_ID_MEMBER: &'static str = "vault_id";

/// Whether a JSON value names a vault: it is an object whose member `vault_id` is that string.
pub open spec fn names(value: serde_json::Value, vault_id: Seq<char>) -> bool {
    string_members(value).contains_pair(VAULT_ID_MEMBER@, vault_id)
}

/// Whether a JSON value names a vault.
pub fn names_vault(value: &serde_json::Value, vault_id: &str) -> (named: bool)
    ensures
        named == names(*value, vault_id@),
{
    let member: Option<String> = string_member(value, VAULT_ID_MEMBER);
    same_opt_text(&member, vault_id)
}

} // verus!
