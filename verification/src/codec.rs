//! Base64 and the JSON argument arrays of the bridge ops, through the
//! `base64` and `serde_json` crates.

use base64::engine::general_purpose::STANDARD;
use base64::Engine;
use vstd::prelude::*;

verus! {

/// The standard (padded) base64 encoding of `bytes`.
pub uninterp spec fn base64_encoded(bytes: Seq<u8>) -> Seq<char>;

/// The bytes that the standard base64 engine decodes from `text`, `None`
/// where `text` is not canonical padded base64.
pub uninterp spec fn base64_decoded(text: Seq<char>) -> Option<Seq<u8>>;

/// `STANDARD.encode`.
#[verifier::external_body]
pub(crate) fn base64_encode(bytes: &[u8]) -> (r: String)
    ensures
        r@ == base64_encoded(bytes@),
{
    STANDARD.encode(bytes)
}

/// `String::from_utf8_lossy` of `bytes`: the text they encode as UTF-8,
/// each invalid sequence replaced by U+FFFD.
pub uninterp spec fn utf8_lossy_of(bytes: Seq<u8>) -> Seq<char>;

/// `String::from_utf8_lossy`.
#[verifier::external_body]
pub(crate) fn utf8_lossy(bytes: &[u8]) -> (r: String)
    ensures
        r@ == utf8_lossy_of(bytes@),
{
    String::from_utf8_lossy(bytes).to_string()
}

/// `STANDARD.decode` of the UTF-8 bytes of `text`. Base64 text is ASCII and
/// decodes to at most three bytes for every four chars, so the bytes are
/// never more than the chars.
#[verifier::external_body]
pub(crate) fn base64_decode(text: &str) -> (r: Option<Vec<u8>>)
    ensures
        match r {
            Some(b) => base64_decoded(text@) == Some(b@) && b@.len() <= text@.len(),
            None => base64_decoded(text@) is None,
        },
{
    STANDARD.decode(text.as_bytes()).ok()
}

/// One element of a JSON argument array, as the ops read it: a string, a
/// boolean, a number (with its value where it is a non-negative integer that
/// fits in `u64`), or anything else.
pub enum JsonArg {
    Str(String),
    Bool(bool),
    Num(Option<u64>),
    Other,
}

/// The view of a `JsonArg`.
pub enum JsonArgView {
    Str(Seq<char>),
    Bool(bool),
    Num(Option<u64>),
    Other,
}

impl View for JsonArg {
    type V = JsonArgView;

    open spec fn view(&self) -> JsonArgView {
        match self {
            JsonArg::Str(s) => JsonArgView::Str(s@),
            JsonArg::Bool(b) => JsonArgView::Bool(*b),
            JsonArg::Num(n) => JsonArgView::Num(*n),
            JsonArg::Other => JsonArgView::Other,
        }
    }
}

/// The elements of the JSON array `input`, `None` where `input` is not a JSON
/// array.
pub uninterp spec fn json_array_parsed(input: Seq<char>) -> Option<Seq<JsonArgView>>;

/// The message of `serde_json`'s error for an `input` that is not a JSON
/// array.
pub uninterp spec fn json_array_error(input: Seq<char>) -> Seq<char>;

/// `serde_json::from_str::<Vec<Value>>`, each element read as a `JsonArg`.
/// A decoded JSON string never has more chars than its source text.
#[verifier::external_body]
pub(crate) fn parse_json_args(input: &str) -> (r: Result<Vec<JsonArg>, String>)
    ensures
        match r {
            Ok(v) => json_array_parsed(input@) == Some(v@.map_values(|a: JsonArg| a@)) && forall|i: int|
                0 <= i < v@.len() ==> (#[trigger] v@[i] matches JsonArg::Str(s) ==> s@.len() <= input@.len()),
            Err(e) => json_array_parsed(input@) is None && e@ == json_array_error(input@),
        },
{
    match serde_json::from_str::<Vec<serde_json::Value>>(input) {
        Ok(values) => Ok(values.into_iter().map(|v| match v {
            serde_json::Value::String(s) => JsonArg::Str(s),
            serde_json::Value::Bool(b) => JsonArg::Bool(b),
            serde_json::Value::Number(n) => JsonArg::Num(n.as_u64()),
            _ => JsonArg::Other,
        }).collect()),
        Err(e) => Err(e.to_string()),
    }
}

/// The name of the encoding that `encoding_rs::Encoding::for_label` finds
/// for `label` (the WHATWG "get an encoding" algorithm), `None` where the
/// label names no encoding.
pub uninterp spec fn encoding_name_for_label(label: Seq<char>) -> Option<Seq<char>>;

/// `Encoding::for_label` on the UTF-8 bytes of `label`, then `name`.
#[verifier::external_body]
fn encoding_for_label(label: &str) -> (r: Option<String>)
    ensures
        match r {
            Some(n) => encoding_name_for_label(label@) == Some(n@),
            None => encoding_name_for_label(label@) is None,
        },
{
    encoding_rs::Encoding::for_label(label.as_bytes()).map(|e| e.name().to_string())
}

/// The canonical name of the encoding `label` names (`UTF-8` for `utf8`,
/// for example), or the empty string where it names none.
pub fn op_encoding_for_label(label: &str) -> (r: String)
    ensures
        r@ == match encoding_name_for_label(label@) {
            Some(n) => n,
            None => Seq::empty(),
        },
{
    match encoding_for_label(label) {
        Some(n) => n,
        None => String::new(),
    }
}

} // verus!
