//! The JSON parser that the report is read with. Nothing in this file is
//! proved: it says what the rest of the library takes from `serde_json`.

use serde_json::Value;
use vstd::prelude::*;

verus! {

/// `serde_json::Value`: a parsed JSON document, or a part of one. Nothing is known of its
/// inside but what the functions below say.
#[verifier::external_type_specification]
#[verifier::external_body]
pub struct ExValue(Value);

/// `serde_json::Error`: why a text is no JSON document. Nothing is known of its inside.
#[verifier::external_type_specification]
#[verifier::external_body]
pub struct ExError(serde_json::Error);

/// What stands at one place of a document, as far as the report reads it.
pub enum Leaf {
    /// A number, as the bits of the double that `Value::as_f64` gives for it.
    Number(u64),
    /// A string.
    Text(Seq<char>),
    /// Null, a boolean, an array or an object.
    Other,
}

/// What a value holds, place by place. A place is the path of keys that leads to it: the
/// value itself stands at the empty path, and what stands at a path in a member of an object
/// stands in the object at the member's key followed by that path.
pub uninterp spec fn json_contents(value: Value) -> Map<Seq<Seq<char>>, Leaf>;

/// What the document holds that `serde_json::from_str` reads from a text, and `None` for a
/// text that it rejects.
pub uninterp spec fn json_document(text: Seq<char>) -> Option<Map<Seq<Seq<char>>, Leaf>>;

/// What the member under `key` holds: what stands in `contents` at the key followed by a
/// path stands in the member at that path. Where nothing stands at the key, the member is
/// null.
pub open spec fn contents_under(contents: Map<Seq<Seq<char>>, Leaf>, key: Seq<char>) -> Map<
    Seq<Seq<char>>,
    Leaf,
> {
    if contents.dom().contains(seq![key]) {
        Map::new(
            |path: Seq<Seq<char>>| contents.dom().contains(seq![key] + path),
            |path: Seq<Seq<char>>| contents[seq![key] + path],
        )
    } else {
        map![Seq::empty() => Leaf::Other]
    }
}

/// What stands at the top of the contents.
pub open spec fn top(contents: Map<Seq<Seq<char>>, Leaf>) -> Leaf {
    contents[Seq::empty()]
}

/// `serde_json::from_str` at the type `Value`: the parser reads the same text as the same
/// document every time, so what the document holds has a name.
#[verifier::external_body]
pub(crate) fn document_of(text: &str) -> (parsed: Result<Value, serde_json::Error>)
    ensures
        match json_document(text@) {
            Some(contents) => parsed is Ok && json_contents(parsed->Ok_0) == contents,
            None => parsed is Err,
        },
{
    serde_json::from_str(text)
}

/// Indexing a `Value` by a string (`Index<&str>` of `Value`): the member under the key, and
/// the null value where the value is no object or has no such key. It never panics.
#[verifier::external_body]
pub(crate) fn member<'a>(value: &'a Value, key: &str) -> (found: &'a Value)
    ensures
        json_contents(*found) == contents_under(json_contents(*value), key@),
{
    &value[key]
}

/// `Value::as_str`: the text of a JSON string, and `None` for every other value.
#[verifier::external_body]
pub(crate) fn text_of<'a>(value: &'a Value) -> (text: Option<&'a str>)
    ensures
        match top(json_contents(*value)) {
            Leaf::Text(chars) => text is Some && text->0@ == chars,
            _ => text is None,
        },
{
    value.as_str()
}

/// `Value::as_f64`: a JSON number as a double, and `None` for every other value. The double
/// is handed on as its bits (`to_bits`).
#[verifier::external_body]
pub(crate) fn number_of(value: &Value) -> (bits: Option<u64>)
    ensures
        bits == match top(json_contents(*value)) {
            Leaf::Number(number) => Some(number),
            _ => None,
        },
{
    value.as_f64().map(|number| number.to_bits())
}

} // verus!
