//! JSON values and texts, as `serde_json` holds, writes and checks them.
use crate::text::{int_text, joined};
use vstd::prelude::*;
use vstd::utf8::{decode_utf8, encode_utf8, valid_utf8};

verus! {

/// A JSON value of `serde_json`.
#[verifier::external_type_specification]
#[verifier::external_body]
pub struct ExValue(serde_json::Value);

/// What a JSON value holds, as the compact JSON text that `serde_json` writes of it; the text of
/// the error where it cannot be written.
pub uninterp spec fn json_written(v: serde_json::Value) -> Result<Seq<char>, Seq<char>>;

/// What an object holds: its members, each with the compact JSON text of its value. `None` for a
/// value that is no object.
pub uninterp spec fn json_members(v: serde_json::Value) -> Option<Map<Seq<char>, Seq<char>>>;

/// What `serde_json` makes of a text that is to be one JSON document: the document as it stands
/// in the text, or the text of the error.
pub uninterp spec fn json_document(text: Seq<char>) -> Result<Seq<char>, Seq<char>>;

/// Whether the text is what `serde_json` writes of some value.
pub open spec fn is_written(text: Seq<char>) -> bool {
    exists|v: serde_json::Value| #[trigger] json_written(v) == Ok::<Seq<char>, Seq<char>>(text)
}

/// Whether each text is what `serde_json` writes of some value.
pub open spec fn all_written(texts: Seq<Seq<char>>) -> bool {
    forall|i: int| 0 <= i < texts.len() ==> is_written(#[trigger] texts[i])
}

/// The array of the texts, with commas between them.
pub open spec fn array_text(texts: Seq<Seq<char>>) -> Seq<char> {
    seq!['['] + joined(texts, seq![',']) + seq![']']
}

/// The members of an object: each key with its value behind it.
pub open spec fn member_texts(keys: Seq<Seq<char>>, values: Seq<Seq<char>>) -> Seq<Seq<char>> {
    Seq::new(keys.len(), |i: int| keys[i] + seq![':'] + values[i])
}

/// The object of the keys and values, with commas between the members.
pub open spec fn object_text(keys: Seq<Seq<char>>, values: Seq<Seq<char>>) -> Seq<char> {
    seq!['{'] + joined(member_texts(keys, values), seq![',']) + seq!['}']
}

/// Whether each text is what `serde_json` writes of some string.
pub open spec fn all_strings(texts: Seq<Seq<char>>) -> bool {
    all_written(texts) && forall|i: int|
        0 <= i < texts.len() ==> (#[trigger] texts[i]).len() > 0 && texts[i][0] == '"'
}

/// Whether the text is a value that was written, an array of such values, or an object of such
/// values under written strings, without a blank around it.
pub open spec fn is_compact(text: Seq<char>) -> bool {
    ||| is_written(text)
    ||| exists|texts: Seq<Seq<char>>| #[trigger] all_written(texts) && text == array_text(texts)
    ||| exists|keys: Seq<Seq<char>>, values: Seq<Seq<char>>|
        #![trigger all_strings(keys), all_written(values)]
        all_strings(keys) && all_written(values) && keys.len() == values.len() && text
            == object_text(keys, values)
}

/// `Clone` of `serde_json::Value`: the same value once more.
#[verifier::external_body]
pub(crate) fn clone_value(v: &serde_json::Value) -> (r: serde_json::Value)
    ensures
        r == *v,
{
    v.clone()
}

/// `serde_json::Value::is_object`.
#[verifier::external_body]
pub(crate) fn is_object(v: &serde_json::Value) -> (r: bool)
    ensures
        r == (json_members(*v) is Some),
{
    v.is_object()
}

/// `serde_json::Map::insert` on an object, with a number: the member is set to the number, and the
/// others stay.
#[verifier::external_body]
pub(crate) fn insert_number(v: &mut serde_json::Value, key: &str, number: u64)
    requires
        json_members(*old(v)) is Some,
    ensures
        json_members(*final(v)) == Some(
            json_members(*old(v))->0.insert(key@, int_text(number as int)),
        ),
{
    v.as_object_mut().map(
        |members| members.insert(key.to_owned(), serde_json::Value::from(number)),
    );
}

/// `serde_json::to_string`: the compact text of a value, or the text of the error.
#[verifier::external_body]
pub(crate) fn write_text(v: &serde_json::Value) -> (r: Result<String, String>)
    ensures
        r is Ok == json_written(*v) is Ok,
        r is Ok ==> r->Ok_0@ == json_written(*v)->Ok_0,
        r is Err ==> r->Err_0@ == json_written(*v)->Err_0,
{
    serde_json::to_string(v).map_err(|e| e.to_string())
}

/// `serde_json::to_writer` on a byte buffer: the compact text of a value goes behind what the
/// buffer holds. What stands in the buffer after an error is left open.
#[verifier::external_body]
pub(crate) fn write_bytes(buffer: &mut Vec<u8>, v: &serde_json::Value) -> (r: Result<(), String>)
    ensures
        r is Ok == json_written(*v) is Ok,
        r is Ok ==> final(buffer)@ == old(buffer)@ + encode_utf8(json_written(*v)->Ok_0),
        r is Err ==> r->Err_0@ == json_written(*v)->Err_0,
{
    serde_json::to_writer(buffer, v).map_err(|e| e.to_string())
}

/// `serde_json::value::RawValue::from_string` and `RawValue::get`: the document of a text, or the
/// text of the error. What was written is a document, and so is an array or an object of what was
/// written; each comes back as it is.
#[verifier::external_body]
pub(crate) fn read_document(text: String) -> (r: Result<String, String>)
    ensures
        r is Ok == json_document(text@) is Ok,
        r is Ok ==> r->Ok_0@ == json_document(text@)->Ok_0,
        r is Err ==> r->Err_0@ == json_document(text@)->Err_0,
        is_compact(text@) ==> (r is Ok && r->Ok_0@ == text@),
{
    serde_json::value::RawValue::from_string(text).map(|raw| raw.get().to_owned()).map_err(
        |e| e.to_string(),
    )
}

/// `String::from_utf8`: the characters that the bytes encode. The text of the error for other
/// bytes is left open.
#[verifier::external_body]
pub(crate) fn utf8_text(bytes: Vec<u8>) -> (r: Result<String, String>)
    ensures
        r is Ok == valid_utf8(bytes@),
        r is Ok ==> r->Ok_0@ == decode_utf8(bytes@),
{
    String::from_utf8(bytes).map_err(|e| e.to_string())
}

} // verus!
