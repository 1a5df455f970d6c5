//! Event-local fields: a key together with a typed value, and the JSON text
//! each one contributes to the output line.
use vstd::prelude::*;
use crate::json::{
    json_bool, json_i64, json_quote, json_u64, push_bool, push_dec_i64, push_dec_u64, push_quoted,
    push_str_chars,
};

verus! {

/// A value carried by one event-local field.
///
/// `Raw` holds a pre-encoded JSON fragment and passes through verbatim; it is
/// how callers hand over values this crate does not encode itself (such as
/// floating-point numbers or nested structures).
pub enum FieldValue {
    Bool(bool),
    Int(i64),
    UInt(u64),
    Str(String),
    Raw(String),
}

/// One event-local field: a key and its value, in the order the event
/// produced them.
pub struct Field {
    pub key: String,
    pub value: FieldValue,
}

/// The JSON text of one field value.
pub open spec fn value_text(v: FieldValue) -> Seq<char> {
    match v {
        FieldValue::Bool(b) => json_bool(b),
        FieldValue::Int(i) => json_i64(i),
        FieldValue::UInt(n) => json_u64(n),
        FieldValue::Str(s) => json_quote(s@),
        FieldValue::Raw(t) => t@,
    }
}

/// The text of one output-map entry: a quoted key, a colon, and the value's
/// own text.
pub open spec fn entry_text(key: Seq<char>, val: Seq<char>) -> Seq<char> {
    json_quote(key) + seq![':'] + val
}

/// The entry text an event-local field contributes.
pub open spec fn field_entry(f: Field) -> Seq<char> {
    entry_text(f.key@, value_text(f.value))
}

/// Append a quoted key followed by a colon.
pub fn push_key(out: &mut Vec<char>, key: &str)
    ensures
        final(out)@ == old(out)@ + json_quote(key@) + seq![':'],
{
    push_quoted(out, key);
    out.push(':');
}

/// Append the JSON text of one field value.
pub fn push_value(out: &mut Vec<char>, v: &FieldValue)
    ensures
        final(out)@ == old(out)@ + value_text(*v),
{
    match v {
        FieldValue::Bool(b) => push_bool(out, *b),
        FieldValue::Int(i) => push_dec_i64(out, *i),
        FieldValue::UInt(n) => push_dec_u64(out, *n),
        FieldValue::Str(s) => push_quoted(out, s.as_str()),
        FieldValue::Raw(t) => push_str_chars(out, t.as_str()),
    }
}

/// Append one whole entry for an event-local field.
pub fn push_field(out: &mut Vec<char>, f: &Field)
    ensures
        final(out)@ == old(out)@ + field_entry(*f),
{
    push_key(out, f.key.as_str());
    push_value(out, &f.value);
    assert(out@ =~= old(out)@ + field_entry(*f));
}

} // verus!
