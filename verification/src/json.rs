//! Pretty-printed JSON of flat records, through `serde_json`.
use vstd::prelude::*;

verus! {

/// A scalar field value of a record.
pub enum JsonScalar {
    Null,
    Bool(bool),
    Int(i64),
    Text(String),
}

/// The mathematical value of a [`JsonScalar`].
pub enum JsonScalarModel {
    Null,
    Bool(bool),
    Int(i64),
    Text(Seq<char>),
}

impl View for JsonScalar {
    type V = JsonScalarModel;

    open spec fn view(&self) -> JsonScalarModel {
        match self {
            JsonScalar::Null => JsonScalarModel::Null,
            JsonScalar::Bool(b) => JsonScalarModel::Bool(*b),
            JsonScalar::Int(n) => JsonScalarModel::Int(*n),
            JsonScalar::Text(s) => JsonScalarModel::Text(s@),
        }
    }
}

/// The model of one record: its fields as (key, value) pairs, in order.
pub open spec fn record_model(fields: Seq<(String, JsonScalar)>) -> Seq<(Seq<char>, JsonScalarModel)> {
    fields.map_values(|f: (String, JsonScalar)| (f.0@, f.1@))
}

/// The model of a list of records.
pub open spec fn records_model(records: Seq<Vec<(String, JsonScalar)>>) -> Seq<Seq<(Seq<char>, JsonScalarModel)>> {
    records.map_values(|r: Vec<(String, JsonScalar)>| record_model(r@))
}

/// The text that `serde_json::to_string_pretty` gives for an array of
/// objects with these fields, in this order.
pub uninterp spec fn pretty_json_text(records: Seq<Seq<(Seq<char>, JsonScalarModel)>>) -> Seq<char>;

/// Calls `serde_json::to_string_pretty` on an array of JSON objects built
/// from `records`, keys in the given order (`preserve_order`). The text is
/// named, not spelled out; of it the contract states only that an empty
/// array prints as `[]` (the pretty formatter writes no line break into an
/// array without values). The call cannot fail on objects with string keys;
/// should it, `[]` comes back.
#[verifier::external_body]
pub(crate) fn to_pretty_json(records: Vec<Vec<(String, JsonScalar)>>) -> (text: String)
    ensures
        text@ == pretty_json_text(records_model(records@)),
        records@.len() == 0 ==> text@ == "[]"@,
{
    let rows: Vec<serde_json::Map<String, serde_json::Value>> = records.into_iter().map(|fields| {
        fields.into_iter().map(|(key, value)| (key, match value {
            JsonScalar::Null => serde_json::Value::Null,
            JsonScalar::Bool(b) => serde_json::Value::Bool(b),
            JsonScalar::Int(n) => serde_json::Value::from(n),
            JsonScalar::Text(s) => serde_json::Value::String(s),
        })).collect()
    }).collect();
    serde_json::to_string_pretty(&rows).unwrap_or_else(|_| String::from("[]"))
}

} // verus!
