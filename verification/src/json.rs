//! Event bodies arrive as JSON objects.  Parsing is the collaborator's
//! work; the engine only reads top-level fields, and only string values
//! carry identifiers, so a parsed body is handed over as its field names
//! with each value's text where the value is a string.

use vstd::prelude::*;
use crate::error::EslError;
use crate::message::str_eq;

verus! {

/// The fields of the JSON object written `s`, in order, each value carried
/// as `Some` of its text where it is a string; `None` where `s` is not a
/// JSON object.
pub uninterp spec fn json_fields_of(s: Seq<char>) -> Option<Seq<(Seq<char>, Option<Seq<char>>)>>;

/// The view of a parsed field vector.
pub open spec fn fields_view(fields: Seq<(String, Option<String>)>) -> Seq<
    (Seq<char>, Option<Seq<char>>),
> {
    fields.map(
        |i: int, p: (String, Option<String>)|
            (
                p.0@,
                match p.1 {
                    Some(ref s) => Some(s@),
                    None => None,
                },
            ),
    )
}

/// The value of the first field named `key`, or `None` where no field
/// carries that name.
pub open spec fn field_lookup(
    fields: Seq<(Seq<char>, Option<Seq<char>>)>,
    key: Seq<char>,
) -> Option<Option<Seq<char>>>
    decreases fields.len(),
{
    if fields.len() == 0 {
        None
    } else if fields[0].0 == key {
        Some(fields[0].1)
    } else {
        field_lookup(fields.drop_first(), key)
    }
}

/// Relies on `serde_json::from_str`: the parse of a JSON object depends on
/// the text alone.  Each top-level field comes back under its name, with
/// its text where the value is a string.
#[verifier::external_body]
pub fn parse_json_fields(body: &str) -> (r: Result<Vec<(String, Option<String>)>, EslError>)
    ensures
        r matches Ok(v) ==> json_fields_of(body@) == Some(fields_view(v@)),
        r matches Err(e) ==> (json_fields_of(body@) is None && e is Decode),
{
    match serde_json::from_str::<serde_json::Map<String, serde_json::Value>>(body) {
        Ok(m) => Ok(m.into_iter().map(|(k, v)| match v {
            serde_json::Value::String(s) => (k, Some(s)),
            serde_json::Value::Null | serde_json::Value::Bool(_) => (k, None),
            serde_json::Value::Number(_) | serde_json::Value::Array(_) => (k, None),
            serde_json::Value::Object(_) => (k, None),
        }).collect()),
        Err(e) => Err(EslError::Decode(e.to_string())),
    }
}

/// The value of the first parsed field named `key`, if any.
pub fn find_field<'a>(fields: &'a Vec<(String, Option<String>)>, key: &str) -> (r: Option<
    &'a Option<String>,
>)
    ensures
        match r {
            Some(v) => field_lookup(fields_view(fields@), key@) == Some(
                match v {
                    Some(s) => Some(s@),
                    None => None,
                },
            ),
            None => field_lookup(fields_view(fields@), key@) is None,
        },
{
    let n = fields.len();
    assert(fields_view(fields@).skip(0) =~= fields_view(fields@));
    let mut i: usize = 0;
    while i < n
        invariant
            n == fields.len(),
            i <= n,
            field_lookup(fields_view(fields@), key@) == field_lookup(
                fields_view(fields@).skip(i as int),
                key@,
            ),
        decreases n - i,
    {
        assert(fields_view(fields@).skip(i as int).drop_first() =~= fields_view(fields@).skip(
            i + 1,
        ));
        assert(fields_view(fields@).skip(i as int)[0] == fields_view(fields@)[i as int]);
        if str_eq(fields[i].0.as_str(), key) {
            return Some(&fields[i].1);
        }
        i += 1;
    }
    assert(fields_view(fields@).skip(n as int) =~= Seq::<(Seq<char>, Option<Seq<char>>)>::empty());
    None
}

} // verus!
