//! The parts of a JSON document that the bot reads: a top-level array of
//! objects, or a single object, whose fields matter only when they are strings.
use vstd::prelude::*;

verus! {

/// A JSON object, field by field; a field's value is kept when it is a string
/// and recorded as `None` otherwise.
#[derive(Clone, Debug, PartialEq, Eq)]
pub struct JsonObject {
    pub fields: Vec<(String, Option<String>)>,
}

/// The plain view of an object's fields.
pub type FieldsView = Seq<(Seq<char>, Option<Seq<char>>)>;

/// A parsed JSON document.
#[derive(Clone, Debug, PartialEq, Eq)]
pub enum JsonDocument {
    /// A top-level array; an element that is not an object is `None`.
    Array(Vec<Option<JsonObject>>),
    /// A top-level object.
    Object(JsonObject),
    /// Any other top-level value.
    Other,
}

/// The plain view of a parsed JSON document.
pub enum JsonDocView {
    Array(Seq<Option<FieldsView>>),
    Object(FieldsView),
    Other,
}

pub open spec fn opt_string_view(v: Option<String>) -> Option<Seq<char>> {
    match v {
        Some(s) => Some(s@),
        None => None,
    }
}

impl View for JsonObject {
    type V = FieldsView;

    open spec fn view(&self) -> FieldsView {
        self.fields@.map_values(|f: (String, Option<String>)| (f.0@, opt_string_view(f.1)))
    }
}

pub open spec fn opt_object_view(v: Option<JsonObject>) -> Option<FieldsView> {
    match v {
        Some(o) => Some(o@),
        None => None,
    }
}

pub open spec fn items_view(items: Seq<Option<JsonObject>>) -> Seq<Option<FieldsView>> {
    items.map_values(|o: Option<JsonObject>| opt_object_view(o))
}

impl View for JsonDocument {
    type V = JsonDocView;

    open spec fn view(&self) -> JsonDocView {
        match self {
            JsonDocument::Array(items) => JsonDocView::Array(items_view(items@)),
            JsonDocument::Object(o) => JsonDocView::Object(o@),
            JsonDocument::Other => JsonDocView::Other,
        }
    }
}

/// A parse outcome as plain values.
pub open spec fn document_result_view(r: Result<JsonDocument, String>) -> Result<JsonDocView, Seq<char>> {
    match r {
        Ok(d) => Ok(d@),
        Err(e) => Err(e@),
    }
}

/// What `serde_json::from_str::<serde_json::Value>` makes of a text, seen
/// through the shape above, or the `Display` text of its error.
pub uninterp spec fn json_document(text: Seq<char>) -> Result<JsonDocView, Seq<char>>;

/// What `serde_json::to_string_pretty` writes for the value that
/// `serde_json::from_str::<serde_json::Value>` reads from a text, or the
/// `Display` text of the error.
pub uninterp spec fn json_pretty(text: Seq<char>) -> Result<Seq<char>, Seq<char>>;

/// Calls `serde_json::from_str::<serde_json::Value>` and converts the value
/// into the shape above: arrays element by element, objects field by field,
/// string fields by `as_str`. The contract claims that the outcome is the one
/// named by `json_document`.
#[verifier::external_body]
fn parse_json_document(text: &str) -> (r: Result<JsonDocument, String>)
    ensures
        json_document(text@) == document_result_view(r),
{
    let object = |m: &serde_json::Map<String, serde_json::Value>| JsonObject {
        fields: m.iter().map(|(k, v)| (k.clone(), v.as_str().map(str::to_string))).collect(),
    };
    match serde_json::from_str::<serde_json::Value>(text) {
        Ok(serde_json::Value::Array(a)) => Ok(JsonDocument::Array(a.iter().map(|v| v.as_object().map(object)).collect())),
        Ok(serde_json::Value::Object(m)) => Ok(JsonDocument::Object(object(&m))),
        Ok(_) => Ok(JsonDocument::Other),
        Err(e) => Err(e.to_string()),
    }
}

/// What `serde_json::from_slice::<serde_json::Value>` makes of raw bytes,
/// seen through the shape above, or the `Display` text of its error.
pub uninterp spec fn json_document_bytes(bytes: Seq<u8>) -> Result<JsonDocView, Seq<char>>;

/// Calls `serde_json::from_slice::<serde_json::Value>` and converts the value
/// into the shape above, as `parse_json_document` does. The contract claims
/// that the outcome is the one named by `json_document_bytes`.
#[verifier::external_body]
fn parse_json_bytes(bytes: &[u8]) -> (r: Result<JsonDocument, String>)
    ensures
        json_document_bytes(bytes@) == document_result_view(r),
{
    let object = |m: &serde_json::Map<String, serde_json::Value>| JsonObject {
        fields: m.iter().map(|(k, v)| (k.clone(), v.as_str().map(str::to_string))).collect(),
    };
    match serde_json::from_slice::<serde_json::Value>(bytes) {
        Ok(serde_json::Value::Array(a)) => Ok(JsonDocument::Array(a.iter().map(|v| v.as_object().map(object)).collect())),
        Ok(serde_json::Value::Object(m)) => Ok(JsonDocument::Object(object(&m))),
        Ok(_) => Ok(JsonDocument::Other),
        Err(e) => Err(e.to_string()),
    }
}

/// Parses raw bytes as JSON into the shape above.
pub fn parse_json_slice(bytes: &[u8]) -> (r: Result<JsonDocument, String>)
    ensures
        document_result_view(r) == json_document_bytes(bytes@),
{
    parse_json_bytes(bytes)
}

/// Calls `serde_json::from_str::<serde_json::Value>` and then
/// `serde_json::to_string_pretty` on the value. The contract claims that the
/// outcome is the one named by `json_pretty`.
#[verifier::external_body]
fn pretty_json(text: &str) -> (r: Result<String, String>)
    ensures
        json_pretty(text@) == text_result_view(r),
{
    match serde_json::from_str::<serde_json::Value>(text) {
        Ok(v) => serde_json::to_string_pretty(&v).map_err(|e| e.to_string()),
        Err(e) => Err(e.to_string()),
    }
}

/// A text outcome as plain values.
pub open spec fn text_result_view(r: Result<String, String>) -> Result<Seq<char>, Seq<char>> {
    match r {
        Ok(s) => Ok(s@),
        Err(e) => Err(e@),
    }
}

/// Parses a JSON text into the shape above.
pub fn parse_json(text: &str) -> (r: Result<JsonDocument, String>)
    ensures
        document_result_view(r) == json_document(text@),
{
    parse_json_document(text)
}

/// Re-indents a JSON text the way `serde_json::to_string_pretty` writes it.
pub fn format_response(text: &str) -> (r: Result<String, String>)
    ensures
        text_result_view(r) == json_pretty(text@),
{
    pretty_json(text)
}

/// The value of the first field named `key`, when it is a string: what
/// `value.get(key).and_then(|v| v.as_str())` gives on an object.
pub open spec fn field_str(fields: FieldsView, key: Seq<char>) -> Option<Seq<char>>
    decreases fields.len(),
{
    if fields.len() == 0 {
        None
    } else if fields[0].0 == key {
        fields[0].1
    } else {
        field_str(fields.drop_first(), key)
    }
}

impl JsonObject {
    /// The string value of the field `key`, if the object has such a field
    /// and its value is a string.
    pub fn get_str(&self, key: &str) -> (r: Option<String>)
        ensures
            opt_string_view(r) == field_str(self@, key@),
    {
        let k = key.to_owned();
        let n = self.fields.len();
        let mut i: usize = 0;
        assert(self@.skip(0) =~= self@);
        while i < n
            invariant
                n == self.fields.len(),
                i <= n,
                k@ == key@,
                field_str(self@, key@) == field_str(self@.skip(i as int), key@),
            decreases n - i,
        {
            assert(self@.skip(i as int).drop_first() =~= self@.skip(i + 1));
            if self.fields[i].0 == k {
                return match &self.fields[i].1 {
                    Some(v) => Some(v.clone()),
                    None => None,
                };
            }
            i = i + 1;
        }
        None
    }
}

} // verus!
