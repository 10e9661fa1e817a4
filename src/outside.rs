use base64::Engine;
use vstd::prelude::*;

verus! {

/// Relies on uuid::Uuid::new_v4: a random identifier, taken as its 128-bit value.
#[verifier::external_body]
pub(crate) fn fresh_id() -> (r: u128) {
    uuid::Uuid::new_v4().as_u128()
}

/// Relies on chrono::Utc::now: the current time, in milliseconds since the epoch.
#[verifier::external_body]
pub(crate) fn now_millis() -> (r: i64) {
    chrono::Utc::now().timestamp_millis()
}

/// The lowercase hexadecimal digit of `n` (below 16).
pub open spec fn hex_digit(n: u128) -> char {
    seq!['0', '1', '2', '3', '4', '5', '6', '7', '8', '9', 'a', 'b', 'c', 'd', 'e', 'f'][n as int]
}

/// The hyphenated lowercase form of a UUID: 32 hex digits, most significant
/// first, in groups of 8-4-4-4-12.
pub open spec fn uuid_text_of(id: u128) -> Seq<char> {
    Seq::new(
        36,
        |i: int|
            if i == 8 || i == 13 || i == 18 || i == 23 {
                '-'
            } else {
                let k = if i < 8 {
                    i
                } else if i < 13 {
                    i - 1
                } else if i < 18 {
                    i - 2
                } else if i < 23 {
                    i - 3
                } else {
                    i - 4
                };
                hex_digit((id >> ((124 - 4 * k) as u128)) & 15u128)
            },
    )
}

/// Relies on uuid::Uuid's `Display`: the hyphenated lowercase form.
#[verifier::external_body]
pub(crate) fn uuid_text(id: u128) -> (r: String)
    ensures
        r@ == uuid_text_of(id),
{
    uuid::Uuid::from_u128(id).to_string()
}

/// The decimal digits of `n`, most significant first.
pub open spec fn decimal_of(n: nat) -> Seq<char>
    decreases n,
{
    let d = seq!['0', '1', '2', '3', '4', '5', '6', '7', '8', '9'][(n % 10) as int];
    if n < 10 {
        seq![d]
    } else {
        decimal_of(n / 10).push(d)
    }
}

/// Relies on u64's `Display`: decimal digits, no sign, no leading zeros.
#[verifier::external_body]
pub(crate) fn decimal_text(n: u64) -> (r: String)
    ensures
        r@ == decimal_of(n as nat),
{
    n.to_string()
}

/// What serde_json reads as field `field` of the JSON object `text`, as a
/// `u64` (`None` when `text` is no object, lacks the field, or the field is no
/// unsigned integer).
pub uninterp spec fn json_u64_field(text: Seq<char>, field: Seq<char>) -> Option<u64>;

/// What serde_json reads as field `field` of the JSON object `text`, as a
/// string.
pub uninterp spec fn json_str_field(text: Seq<char>, field: Seq<char>) -> Option<Seq<char>>;

/// Whether serde_json reads `text` as JSON `null`.
pub uninterp spec fn json_null(text: Seq<char>) -> bool;

/// The JSON text of the object `obj` (an empty object if `obj` is none) with
/// field `field` set to the JSON value `value`, as serde_json writes it.
pub uninterp spec fn json_with_field(obj: Seq<char>, field: Seq<char>, value: Seq<char>) -> Seq<char>;

/// The standard padded base64 text of the UTF-8 bytes of `text`.
pub uninterp spec fn base64_text(text: Seq<char>) -> Seq<char>;

/// The text whose UTF-8 bytes are the standard base64 decoding of `b64`, if
/// `b64` decodes and the bytes are UTF-8.
pub uninterp spec fn base64_decoded_text(b64: Seq<char>) -> Option<Seq<char>>;

/// Relies on serde_json (`from_str`, then `Value::get` and `Value::as_u64`)
/// to read an unsigned integer field of a JSON object text.
#[verifier::external_body]
pub(crate) fn read_u64_field(text: &str, field: &str) -> (r: Option<u64>)
    ensures
        r == json_u64_field(text@, field@),
{
    let v: serde_json::Value = serde_json::from_str(text).ok()?;
    v.get(field)?.as_u64()
}

/// Relies on serde_json (`from_str`, then `Value::get` and `Value::as_str`)
/// to read a string field of a JSON object text.
#[verifier::external_body]
pub(crate) fn read_str_field(text: &str, field: &str) -> (r: Option<String>)
    ensures
        match r {
            Some(x) => json_str_field(text@, field@) == Some(x@),
            None => json_str_field(text@, field@) is None,
        },
{
    let v: serde_json::Value = serde_json::from_str(text).ok()?;
    Some(v.get(field)?.as_str()?.to_string())
}

/// Relies on serde_json (`from_str`, then `Value::is_null`) to tell whether a
/// JSON text is `null`; a text that does not parse is not.
#[verifier::external_body]
pub(crate) fn is_json_null(text: &str) -> (r: bool)
    ensures
        r == json_null(text@),
        text@ == "null"@ ==> r,
{
    match serde_json::from_str::<serde_json::Value>(text) {
        Ok(v) => v.is_null(),
        Err(_) => false,
    }
}

/// Relies on serde_json (`from_str`, `Map::insert`, and `Value`'s
/// `Display`) to set one field of a JSON object text: `obj` counts as an empty
/// object unless it is an object, and a `value` that does not parse as
/// `null`.
#[verifier::external_body]
pub(crate) fn with_field(obj: &str, field: &str, value: &str) -> (r: String)
    ensures
        r@ == json_with_field(obj@, field@, value@),
{
    let mut map = match serde_json::from_str::<serde_json::Value>(obj) {
        Ok(serde_json::Value::Object(m)) => m,
        _ => serde_json::Map::new(),
    };
    let v = serde_json::from_str::<serde_json::Value>(value).unwrap_or(serde_json::Value::Null);
    map.insert(field.to_string(), v);
    serde_json::Value::Object(map).to_string()
}

/// The string that serde_json reads from the JSON text `text`, if it is a
/// JSON string.
pub uninterp spec fn json_str_value(text: Seq<char>) -> Option<Seq<char>>;

/// What `str::to_lowercase` gives for `s`.
pub uninterp spec fn lower_of(s: Seq<char>) -> Seq<char>;

/// Relies on serde_json (`from_str`, then `Value::as_str`) to read a JSON
/// text that is a string.
#[verifier::external_body]
pub(crate) fn read_str_value(text: &str) -> (r: Option<String>)
    ensures
        match r {
            Some(x) => json_str_value(text@) == Some(x@),
            None => json_str_value(text@) is None,
        },
{
    let v: serde_json::Value = serde_json::from_str(text).ok()?;
    Some(v.as_str()?.to_string())
}

/// Relies on str::to_lowercase: the result depends on the characters alone.
#[verifier::external_body]
pub(crate) fn lowercase(s: &str) -> (r: String)
    ensures
        r@ == lower_of(s@),
{
    s.to_lowercase()
}

/// Relies on base64's STANDARD engine `encode` of the text's UTF-8 bytes
/// (padded; it panics only for inputs near `usize::MAX` bytes); decoding the
/// result gives the text back.
#[verifier::external_body]
pub(crate) fn encode_base64(text: &str) -> (r: String)
    requires
        text@.len() <= usize::MAX / 8,
    ensures
        r@ == base64_text(text@),
        base64_decoded_text(r@) == Some(text@),
{
    base64::engine::general_purpose::STANDARD.encode(text.as_bytes())
}

/// Relies on base64's STANDARD engine `decode`, with the bytes read back as
/// UTF-8 text (`String::from_utf8`).
#[verifier::external_body]
pub(crate) fn decode_base64(b64: &str) -> (r: Option<String>)
    ensures
        match r {
            Some(x) => base64_decoded_text(b64@) == Some(x@),
            None => base64_decoded_text(b64@) is None,
        },
{
    let bytes = base64::engine::general_purpose::STANDARD.decode(b64).ok()?;
    String::from_utf8(bytes).ok()
}

} // verus!
