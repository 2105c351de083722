//! JSON values, as the `serde_json` crate reads and writes them.
use crate::double::{is_whole_number, nearest_double, Double, EXACT_LIMIT};
use crate::text::signed_decimal;
use vstd::prelude::*;

verus! {

/// A JSON number, as `serde_json` keeps it.
pub enum Number {
    /// A whole number from zero on.
    Unsigned(u64),
    /// A whole number below zero.
    Negative(i64),
    /// Any other number: the bits of a double.
    Double(u64),
}

/// A JSON value.
pub enum Json {
    Null,
    Bool(bool),
    Number(Number),
    Text(Seq<char>),
    Array(Seq<Json>),
    Object(Map<Seq<char>, Json>),
}

/// A JSON value of `serde_json`.
#[verifier::external_type_specification]
#[verifier::external_body]
pub struct ExValue(serde_json::Value);

/// What a value of `serde_json` holds.
pub uninterp spec fn json(v: serde_json::Value) -> Json;

/// What `serde_json::from_str` reads from a text: the value, or the message of the error.
pub uninterp spec fn json_read(text: Seq<char>) -> Result<Json, Seq<char>>;

/// The text that `serde_json` writes for a value.
pub uninterp spec fn json_text(v: Json) -> Seq<char>;

/// The values of a sequence of values of `serde_json`.
pub open spec fn jsons(s: Seq<serde_json::Value>) -> Seq<Json> {
    s.map_values(|v: serde_json::Value| json(v))
}

/// Whether a value has no parts.
pub open spec fn is_scalar(v: Json) -> bool {
    !(v is Array) && !(v is Object)
}

/// Whether a value is a scalar or an array of scalars.
pub open spec fn is_flat(v: Json) -> bool {
    is_scalar(v) || (v matches Json::Array(items) && forall|i: int|
        0 <= i < items.len() ==> is_scalar(#[trigger] items[i]))
}

/// Whether a value is an object each field of which is a scalar or an array of scalars.
pub open spec fn is_record(v: Json) -> bool {
    v matches Json::Object(fields) && forall|k: Seq<char>| #[trigger] fields.contains_key(k) ==> is_flat(fields[k])
}

// ---------------------------------------------------------------------------
// Reading
// ---------------------------------------------------------------------------

/// The field of an object that has a key.
pub open spec fn field(v: Json, key: Seq<char>) -> Option<Json> {
    match v {
        Json::Object(fields) => if fields.contains_key(key) {
            Some(fields[key])
        } else {
            None
        },
        _ => None,
    }
}

/// The text of a value that is one.
pub open spec fn text_of(v: Option<Json>) -> Option<Seq<char>> {
    match v {
        Some(Json::Text(s)) => Some(s),
        _ => None,
    }
}

/// The truth value of a value that is one.
pub open spec fn bool_of(v: Option<Json>) -> Option<bool> {
    match v {
        Some(Json::Bool(b)) => Some(b),
        _ => None,
    }
}

/// The whole number, from zero on, of a value that is one.
pub open spec fn unsigned_of(v: Option<Json>) -> Option<u64> {
    match v {
        Some(Json::Number(Number::Unsigned(n))) => Some(n),
        _ => None,
    }
}

/// The bits of the double that stands for a value that is a number.
pub open spec fn double_of(v: Option<Json>) -> Option<u64> {
    match v {
        Some(Json::Number(Number::Unsigned(n))) => Some(nearest_double(n as int)),
        Some(Json::Number(Number::Negative(n))) => Some(nearest_double(n as int)),
        Some(Json::Number(Number::Double(bits))) => Some(bits),
        _ => None,
    }
}

/// The items of a value that is an array.
pub open spec fn items_of(v: Option<Json>) -> Option<Seq<Json>> {
    match v {
        Some(Json::Array(items)) => Some(items),
        _ => None,
    }
}

/// The text of a whole number that is kept as a double.
pub open spec fn whole_text(n: int) -> Seq<char> {
    signed_decimal(n) + ".0"@
}

/// Whether what was read from a text is a double, where the text is that of a whole number of
/// at most 32 binary digits.
pub open spec fn reads_whole(text: Seq<char>, r: Result<Json, Seq<char>>) -> bool {
    forall|n: int|
        -u32::MAX <= n <= u32::MAX && text == #[trigger] whole_text(n) ==> r == Ok::<Json, Seq<char>>(
            Json::Number(Number::Double(nearest_double(n))),
        )
}

/// What was read, by the values it holds.
pub open spec fn read_result(r: Result<serde_json::Value, String>) -> Result<Json, Seq<char>> {
    match r {
        Ok(v) => Ok(json(v)),
        Err(e) => Err(e@),
    }
}

/// `serde_json::from_str` into a `Value`. An error is handed on as its message. Digits with a
/// point and a zero behind them are read as a double.
#[verifier::external_body]
pub(crate) fn read_json(text: &str) -> (r: Result<serde_json::Value, String>)
    ensures
        read_result(r) == json_read(text@),
        reads_whole(text@, read_result(r)),
{
    serde_json::from_str::<serde_json::Value>(text).map_err(|e| e.to_string())
}

/// `serde_json::Value::get` with a key: the field of an object that has that key.
#[verifier::external_body]
pub(crate) fn get_field<'a>(v: &'a serde_json::Value, key: &str) -> (r: Option<&'a serde_json::Value>)
    ensures
        field(json(*v), key@) == (match r {
            Some(f) => Some(json(*f)),
            None => None,
        }),
{
    v.get(key)
}

/// `serde_json::Value::as_str`: the text of a string.
pub assume_specification[ serde_json::Value::as_str ](v: &serde_json::Value) -> (r: Option<&str>)
    ensures
        text_of(Some(json(*v))) == (match r {
            Some(s) => Some(s@),
            None => None,
        }),
;

/// `serde_json::Value::as_bool`: the truth value of a boolean.
pub assume_specification[ serde_json::Value::as_bool ](v: &serde_json::Value) -> (r: Option<bool>)
    ensures
        r == bool_of(Some(json(*v))),
;

/// `serde_json::Value::is_null`.
pub assume_specification[ serde_json::Value::is_null ](v: &serde_json::Value) -> (r: bool)
    ensures
        r == (json(*v) is Null),
;

/// `serde_json::Value::as_u64`: a number that is whole and not negative.
pub assume_specification[ serde_json::Value::as_u64 ](v: &serde_json::Value) -> (r: Option<u64>)
    ensures
        r == unsigned_of(Some(json(*v))),
;

/// `serde_json::Value::as_array`: the items of an array.
pub assume_specification[ serde_json::Value::as_array ](v: &serde_json::Value) -> (r: Option<
    &Vec<serde_json::Value>,
>)
    ensures
        items_of(Some(json(*v))) == (match r {
            Some(items) => Some(jsons(items@)),
            None => None,
        }),
;

/// Whether bits are those of the double that is a whole number, as far as these are exact.
pub open spec fn is_exact(bits: Option<u64>, v: Json) -> bool {
    match v {
        Json::Number(Number::Unsigned(n)) => n <= EXACT_LIMIT ==> bits is Some && is_whole_number(
            Double { bits: bits->0 },
            n as int,
        ),
        Json::Number(Number::Negative(n)) => -EXACT_LIMIT <= n < 0 ==> bits is Some && is_whole_number(
            Double { bits: bits->0 },
            n as int,
        ),
        _ => true,
    }
}

/// `serde_json::Value::as_f64`, as the bits of the double: a double as it stands, and of a
/// whole number the double nearest to it.
#[verifier::external_body]
pub(crate) fn double_bits(v: &serde_json::Value) -> (r: Option<u64>)
    ensures
        r == (match json(*v) {
            Json::Number(Number::Unsigned(n)) => Some(nearest_double(n as int)),
            Json::Number(Number::Negative(n)) => Some(nearest_double(n as int)),
            Json::Number(Number::Double(bits)) => Some(bits),
            _ => None,
        }),
{
    v.as_f64().map(|x| x.to_bits())
}

/// The text of the field of an object that has a key.
pub fn text_field(v: &serde_json::Value, key: &str) -> (r: Option<String>)
    ensures
        text_of(field(json(*v), key@)) == (match r {
            Some(s) => Some(s@),
            None => None,
        }),
{
    match get_field(v, key) {
        Some(f) => match f.as_str() {
            Some(s) => Some(s.to_owned()),
            None => None,
        },
        None => None,
    }
}

/// Whether a text holds no control character, such as the end of a line.
pub open spec fn is_printable(s: Seq<char>) -> bool {
    forall|i: int| 0 <= i < s.len() ==> #[trigger] s[i] >= ' '
}

// ---------------------------------------------------------------------------
// Writing
// ---------------------------------------------------------------------------

/// The fields of an object: of two with one key the later counts.
pub open spec fn fields_of(pairs: Seq<(String, serde_json::Value)>) -> Map<Seq<char>, Json>
    decreases pairs.len(),
{
    if pairs.len() == 0 {
        Map::empty()
    } else {
        fields_of(pairs.drop_last()).insert(pairs.last().0@, json(pairs.last().1))
    }
}

/// Whether reading a text gives a value, where that is a record.
pub open spec fn reads_back(text: Seq<char>, v: Json) -> bool {
    is_record(v) ==> (json_read(text) matches Ok(back) && back == v)
}

/// `serde_json::Value::from` a string.
#[verifier::external_body]
pub(crate) fn text_value(s: &str) -> (r: serde_json::Value)
    ensures
        json(r) == Json::Text(s@),
{
    serde_json::Value::from(s)
}

/// `serde_json::Value::from` an unsigned number.
#[verifier::external_body]
pub(crate) fn unsigned_value(n: u64) -> (r: serde_json::Value)
    ensures
        json(r) == Json::Number(Number::Unsigned(n)),
{
    serde_json::Value::from(n)
}

/// `serde_json::Value::from` a vector of values: an array of them.
#[verifier::external_body]
pub(crate) fn array_value(items: Vec<serde_json::Value>) -> (r: serde_json::Value)
    ensures
        json(r) == Json::Array(jsons(items@)),
{
    serde_json::Value::from(items)
}

/// `serde_json::Value::from_iter` over pairs of a key and a value: an object with these
/// fields.
#[verifier::external_body]
pub(crate) fn object_value(pairs: Vec<(String, serde_json::Value)>) -> (r: serde_json::Value)
    ensures
        json(r) == Json::Object(fields_of(pairs@)),
{
    serde_json::Value::from_iter(pairs)
}

/// The `Display` of a `serde_json::Value`, which writes it as compact JSON: without control
/// characters, which strings hold in escaped form, and so that reading the text gives the
/// value back. (Reading gives up on values nested more than a hundred deep; this is said of
/// records only.)
#[verifier::external_body]
pub(crate) fn write_json(v: &serde_json::Value) -> (r: String)
    ensures
        r@ == json_text(json(*v)),
        is_printable(r@),
        reads_back(r@, json(*v)),
{
    v.to_string()
}

}
