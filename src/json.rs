use vstd::prelude::*;

verus! {

#[verifier::external_type_specification]
#[verifier::external_body]
pub struct ExJsonValue(serde_json::Value);

/// A JSON document as the library reads it. A number is kept as its `i64` value where it is
/// an integer in that range, and as `None` otherwise. An object keeps its members in the order
/// serde_json yields them, each key once.
pub enum JsonModel {
    Null,
    Bool(bool),
    Number(Option<i64>),
    Str(String),
    Array(Vec<JsonModel>),
    Object(Vec<(String, JsonModel)>),
}

/// The document serde_json reads from a text, `None` where it refuses the text.
pub uninterp spec fn json_doc(text: Seq<char>) -> Option<JsonModel>;

/// Turns a parsed `serde_json::Value` into the library's model, variant by variant.
#[verifier::external_body]
fn model_of(v: serde_json::Value) -> JsonModel {
    match v {
        serde_json::Value::Null => JsonModel::Null,
        serde_json::Value::Bool(b) => JsonModel::Bool(b),
        serde_json::Value::Number(n) => JsonModel::Number(n.as_i64()),
        serde_json::Value::String(s) => JsonModel::Str(s),
        serde_json::Value::Array(a) => JsonModel::Array(a.into_iter().map(model_of).collect()),
        serde_json::Value::Object(o) => {
            JsonModel::Object(o.into_iter().map(|(k, x)| (k, model_of(x))).collect())
        },
    }
}

/// Relies on `serde_json::from_str` into a `Value`: whether a text parses, and the document it
/// gives, depend on the text alone.
#[verifier::external_body]
pub(crate) fn parse_model(text: &str) -> (r: Option<JsonModel>)
    ensures
        r == json_doc(text@),
{
    serde_json::from_str::<serde_json::Value>(text).ok().map(model_of)
}

/// The value of the first member under `key` among an object's members.
pub open spec fn find_member(entries: Seq<(String, JsonModel)>, key: Seq<char>) -> Option<JsonModel>
    decreases entries.len(),
{
    if entries.len() == 0 {
        None
    } else if entries[0].0@ == key {
        Some(entries[0].1)
    } else {
        find_member(entries.drop_first(), key)
    }
}

/// The member of an object under `key`; `None` for a value that is no object.
pub open spec fn member_of(d: JsonModel, key: Seq<char>) -> Option<JsonModel> {
    match d {
        JsonModel::Object(entries) => find_member(entries@, key),
        _ => None,
    }
}

/// The member under `key` of a value that may be absent.
pub open spec fn member_in(d: Option<JsonModel>, key: Seq<char>) -> Option<JsonModel> {
    match d {
        Some(x) => member_of(x, key),
        None => None,
    }
}

/// The text of a value that is a string.
pub open spec fn text_in(d: Option<JsonModel>) -> Option<Seq<char>> {
    match d {
        Some(JsonModel::Str(s)) => Some(s@),
        _ => None,
    }
}

/// The entries of a value that is an array.
pub open spec fn array_in(d: Option<JsonModel>) -> Option<Seq<JsonModel>> {
    match d {
        Some(JsonModel::Array(items)) => Some(items@),
        _ => None,
    }
}

pub open spec fn deref_opt(r: Option<&JsonModel>) -> Option<JsonModel> {
    match r {
        Some(x) => Some(*x),
        None => None,
    }
}

/// The member of an object under `key`.
pub fn member<'a>(d: &'a JsonModel, key: &str) -> (r: Option<&'a JsonModel>)
    ensures
        deref_opt(r) == member_of(*d, key@),
{
    match d {
        JsonModel::Object(entries) => {
            let k = key.to_owned();
            let n = entries.len();
            let mut i: usize = 0;
            assert(entries@.subrange(0, n as int) =~= entries@);
            while i < n
                invariant
                    n == entries@.len(),
                    i <= n,
                    k@ == key@,
                    member_of(*d, key@) == find_member(entries@, key@),
                    find_member(entries@, key@) == find_member(
                        entries@.subrange(i as int, n as int),
                        key@,
                    ),
                decreases n - i,
            {
                let rest = Ghost(entries@.subrange(i as int, n as int));
                assert(rest@[0] == entries@[i as int]);
                let entry = &entries[i];
                if entry.0 == k {
                    assert(find_member(rest@, key@) == Some(rest@[0].1));
                    assert(member_of(*d, key@) == Some(entry.1));
                    return Some(&entry.1);
                }
                assert(rest@.drop_first() =~= entries@.subrange(i + 1, n as int));
                i = i + 1;
            }
            None
        },
        _ => None,
    }
}

/// The text of a string value.
pub fn as_text(d: Option<&JsonModel>) -> (r: Option<&String>)
    ensures
        match r {
            Some(s) => text_in(deref_opt(d)) == Some(s@),
            None => text_in(deref_opt(d)) is None,
        },
{
    match d {
        Some(JsonModel::Str(s)) => Some(s),
        _ => None,
    }
}

/// The entries of an array value.
pub fn as_array(d: Option<&JsonModel>) -> (r: Option<&Vec<JsonModel>>)
    ensures
        match r {
            Some(v) => array_in(deref_opt(d)) == Some(v@),
            None => array_in(deref_opt(d)) is None,
        },
{
    match d {
        Some(JsonModel::Array(items)) => Some(items),
        _ => None,
    }
}

} // verus!
