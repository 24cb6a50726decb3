//! `pin list`: the rows printed for pinned items.

use vstd::prelude::*;
use crate::cli::OutputFormat;
use crate::cli::draft::string_object;
use crate::common::INVALID_TIMESTAMP;
use crate::json::{json_get, json_i64, json_str, jview, Json};
use crate::sanitize::{sanitize_terminal, sanitize_terminal_text, sanitize_value, sanitized_json};
use crate::time::{utc_format, utc_text, PATTERN_ISO_MILLIS};

verus! {

broadcast use vstd::string::group_string_axioms;

pub const MSG_NO_PINS: &'static str = "No pinned items found";
pub const UNKNOWN_ITEM_TYPE: &'static str = "unknown";

/// An instant as RFC 3339 with milliseconds, or `(invalid timestamp)` outside the
/// calendar's range.
pub open spec fn iso_millis_text(seconds: int) -> Seq<char> {
    match utc_text(seconds, PATTERN_ISO_MILLIS@) {
        Some(t) => t,
        None => INVALID_TIMESTAMP@,
    }
}

pub fn format_iso_millis(seconds: i64) -> (r: String)
    ensures
        r@ == iso_millis_text(seconds as int),
{
    match utc_format(seconds, PATTERN_ISO_MILLIS) {
        Some(t) => t,
        None => INVALID_TIMESTAMP.to_string(),
    }
}

/// When an item was pinned: empty when absent or zero.
pub open spec fn pin_created_text(v: Option<Json>) -> Seq<char> {
    match json_i64(v) {
        Some(s) => if s == 0 { Seq::empty() } else { iso_millis_text(s) },
        None => Seq::empty(),
    }
}

pub fn format_created(value: Option<&Json>) -> (r: String)
    ensures
        r@ == pin_created_text(match value { Some(v) => Some(*v), None => None }),
{
    let seconds = match value {
        Some(v) => v.as_i64(),
        None => None,
    };
    match seconds {
        Some(s) => if s == 0 { String::new() } else { format_iso_millis(s) },
        None => String::new(),
    }
}

/// A text, sanitised; empty when absent.
pub open spec fn sanitized_text(v: Option<Json>) -> Seq<char> {
    match json_str(v) {
        Some(t) => sanitize_terminal(t),
        None => Seq::empty(),
    }
}

pub fn sanitized_field(value: Option<&Json>) -> (r: String)
    ensures
        r@ == sanitized_text(match value { Some(v) => Some(*v), None => None }),
{
    match value {
        Some(v) => match v.as_str() {
            Some(t) => sanitize_terminal_text(t.as_str()),
            None => String::new(),
        },
        None => String::new(),
    }
}

/// The columns of a pinned item.
pub open spec fn pin_row_fields(item: Json) -> Seq<(Seq<char>, Seq<char>)> {
    let message = json_get(item, "message"@);
    let kind = match json_str(json_get(item, "type"@)) {
        Some(t) => if t.len() > 0 { t } else { UNKNOWN_ITEM_TYPE@ },
        None => UNKNOWN_ITEM_TYPE@,
    };
    seq![
        ("type"@, kind),
        ("created"@, pin_created_text(json_get(item, "created"@))),
        ("created_by"@, sanitized_text(json_get(item, "created_by"@))),
        ("ts"@, sanitized_text(match message { Some(m) => json_get(m, "ts"@), None => None })),
        ("text"@, sanitized_text(match message { Some(m) => json_get(m, "text"@), None => None })),
    ]
}

pub fn pin_row(item: &Json) -> (r: Json)
    ensures
        string_object(r, pin_row_fields(*item)),
{
    let message = item.get("message");
    let kind = match item.str_field("type") {
        Some(t) => if t.is_empty() { UNKNOWN_ITEM_TYPE.to_string() } else { t.clone() },
        None => UNKNOWN_ITEM_TYPE.to_string(),
    };
    let ts = match message { Some(m) => sanitized_field(m.get("ts")), None => String::new() };
    let text = match message { Some(m) => sanitized_field(m.get("text")), None => String::new() };
    let mut fields: Vec<(String, Json)> = Vec::new();
    fields.push(("type".to_string(), Json::Str(kind)));
    fields.push(("created".to_string(), Json::Str(format_created(item.get("created")))));
    fields.push(("created_by".to_string(), Json::Str(sanitized_field(item.get("created_by")))));
    fields.push(("ts".to_string(), Json::Str(ts)));
    fields.push(("text".to_string(), Json::Str(text)));
    let r = Json::Object(fields);
    proof { assert(string_object(r, pin_row_fields(*item))); }
    r
}

/// The output of `pin list`: JSON and YAML get the items as Slack sent them with their
/// texts sanitised, other formats one row per item.
pub fn pins_value(items: Vec<Json>, format: OutputFormat) -> (r: Json)
    ensures
        (format == OutputFormat::Json || format == OutputFormat::Yaml) ==> jview(r) == sanitized_json(Json::Array(items)),
        !(format == OutputFormat::Json || format == OutputFormat::Yaml) ==> (r is Array && r->Array_0@.len() == items@.len()
            && forall|i: int| 0 <= i < items@.len() ==> string_object(#[trigger] r->Array_0@[i], pin_row_fields(items@[i]))),
{
    if format == OutputFormat::Json || format == OutputFormat::Yaml {
        return sanitize_value(&Json::Array(items));
    }
    let mut rows: Vec<Json> = Vec::new();
    let mut i: usize = 0;
    while i < items.len()
        invariant
            i <= items.len(),
            rows@.len() == i,
            forall|k: int| 0 <= k < i ==> string_object(#[trigger] rows@[k], pin_row_fields(items@[k])),
        decreases items.len() - i,
    {
        rows.push(pin_row(&items[i]));
        i = i + 1;
    }
    Json::Array(rows)
}

} // verus!
