//! `canvas read` and `canvas list`.

use vstd::prelude::*;
use crate::cli::OutputFormat;
use crate::json::{json_get, str_field, Json};
use crate::sanitize::{sanitize_terminal, sanitize_terminal_text};

verus! {

broadcast use vstd::string::group_string_axioms;

pub const MSG_NO_SECTIONS: &'static str = "No sections found in canvas";
pub const MSG_NO_CANVASES: &'static str = "No canvases found in channel";
pub const NO_ID: &'static str = "(no id)";
pub const NO_CONTENT: &'static str = "(no content)";
pub const NO_NAME: &'static str = "(no name)";
pub const SECTIONS_METHOD: &'static str = "canvases.sections.lookup";
pub const FILES_LIST_METHOD: &'static str = "files.list";

pub struct CanvasCommand {
    pub command: CanvasSubcommand,
}

pub enum CanvasSubcommand {
    Read { id: String },
    List { channel: String },
}

/// `json` and `yaml` pass Slack's objects through; the other formats get flat rows.
pub fn keeps_raw_payload(format: OutputFormat) -> (r: bool)
    ensures
        r == (format == OutputFormat::Json || format == OutputFormat::Yaml),
{
    format == OutputFormat::Json || format == OutputFormat::Yaml
}

/// The first field named `key` of an object's fields.
pub open spec fn field_value(fields: Seq<(String, Json)>, key: Seq<char>) -> Option<Json>
    decreases fields.len(),
{
    if fields.len() == 0 {
        None
    } else if fields[0].0@ == key {
        Some(fields[0].1)
    } else {
        field_value(fields.drop_first(), key)
    }
}

/// The text of a section element: its `text` when it has one, else the texts of its
/// child `elements` joined without separators.
pub open spec fn element_text_of(e: Json) -> Seq<char>
    decreases e, 0int,
{
    match e {
        Json::Object(fields) => match str_field(e, "text"@) {
            Some(t) => sanitize_terminal(t),
            None => match field_index_of(fields@, "elements"@) {
                Some(k) => match fields@[k].1 {
                    Json::Array(children) => {
                        proof {
                            crate::json::lemma_field_index_bounds(fields@, "elements"@);
                            assert(decreases_to!(e => fields));
                            assert(decreases_to!(fields => fields@));
                            assert(decreases_to!(fields@ => fields@[k]));
                            assert(decreases_to!(fields@[k] => fields@[k].1));
                            assert(decreases_to!(fields@[k].1 => children));
                            assert(decreases_to!(children => children@));
                        }
                        texts_of(children@, children@.len() as int)
                    },
                    _ => Seq::empty(),
                },
                None => Seq::empty(),
            },
        },
        _ => Seq::empty(),
    }
}

pub open spec fn field_index_of(fields: Seq<(String, Json)>, key: Seq<char>) -> Option<int> {
    crate::json::field_index(fields, key)
}

/// The texts of the first `n` children, joined.
pub open spec fn texts_of(children: Seq<Json>, n: int) -> Seq<char>
    decreases children, n,
{
    if n <= 0 || n > children.len() {
        Seq::empty()
    } else {
        texts_of(children, n - 1) + element_text_of(children[n - 1])
    }
}

pub fn element_text(element: &Json) -> (r: String)
    ensures
        r@ == element_text_of(*element),
    decreases *element,
{
    match element {
        Json::Object(fields) => {
            match element.str_field("text") {
                Some(t) => return sanitize_terminal_text(t.as_str()),
                None => {},
            }
            let children = match element.get("elements") {
                Some(c) => c,
                None => return String::new(),
            };
            proof {
                crate::json::lemma_field_index_bounds(fields@, "elements"@);
            }
            match children {
                Json::Array(items) => {
                    let ghost k = crate::json::field_index(fields@, "elements"@)->0;
                    proof {
                        assert(fields@[k].1 == *children);
                        assert(decreases_to!(*element => fields));
                        assert(decreases_to!(fields => fields@));
                        assert(decreases_to!(fields@ => fields@[k]));
                        assert(decreases_to!(fields@[k] => fields@[k].1));
                        assert(decreases_to!(fields@[k].1 => items));
                    }
                    let mut out = String::new();
                    let mut i: usize = 0;
                    while i < items.len()
                        invariant
                            i <= items.len(),
                            out@ == texts_of(items@, i as int),
                            decreases_to!(*element => items),
                        decreases items.len() - i,
                    {
                        proof {
                            assert(decreases_to!(items => items@));
                            assert(decreases_to!(items@ => items@[i as int]));
                        }
                        let t = element_text(&items[i]);
                        out.push_str(t.as_str());
                        i = i + 1;
                    }
                    out
                },
                _ => String::new(),
            }
        },
        _ => String::new(),
    }
}

/// A text that is present and not empty, stripped of terminal controls; else `fallback`.
pub open spec fn text_or_spec(value: Option<Json>, fallback: Seq<char>) -> Seq<char> {
    match value {
        Some(Json::Str(s)) if s@.len() > 0 => sanitize_terminal(s@),
        _ => fallback,
    }
}

pub fn text_or(value: Option<&Json>, fallback: &str) -> (r: String)
    ensures
        r@ == text_or_spec(match value { Some(v) => Some(*v), None => None }, fallback@),
{
    match value {
        Some(Json::Str(s)) => if s.is_empty() { fallback.to_string() } else { sanitize_terminal_text(s.as_str()) },
        _ => fallback.to_string(),
    }
}

/// The row of a section: its id (or `(no id)`) and the text of its elements (or
/// `(no content)`).
pub open spec fn section_content(section: Json) -> Seq<char> {
    match json_get(section, "elements"@) {
        Some(Json::Array(items)) => texts_of(items@, items@.len() as int),
        _ => Seq::empty(),
    }
}

pub fn section_row(section: &Json) -> (r: Json)
    ensures
        r is Object && r->Object_0@.len() == 2
            && r->Object_0@[0].0@ == "id"@ && r->Object_0@[0].1 is Str
            && r->Object_0@[0].1->Str_0@ == text_or_spec(json_get(*section, "id"@), NO_ID@)
            && r->Object_0@[1].0@ == "content"@ && r->Object_0@[1].1 is Str
            && r->Object_0@[1].1->Str_0@ == (if section_content(*section).len() == 0 { NO_CONTENT@ } else { section_content(*section) }),
{
    let content = match section.get("elements") {
        Some(Json::Array(items)) => {
            let mut out = String::new();
            let mut i: usize = 0;
            while i < items.len()
                invariant
                    i <= items.len(),
                    out@ == texts_of(items@, i as int),
                decreases items.len() - i,
            {
                let t = element_text(&items[i]);
                out.push_str(t.as_str());
                i = i + 1;
            }
            out
        },
        _ => String::new(),
    };
    let content = if content.is_empty() { NO_CONTENT.to_string() } else { content };
    let mut fields: Vec<(String, Json)> = Vec::new();
    fields.push(("id".to_string(), Json::Str(text_or(section.get("id"), NO_ID))));
    fields.push(("content".to_string(), Json::Str(content)));
    Json::Object(fields)
}

/// The row of a canvas: id (or `(no id)`) and name (or `(no name)`).
pub fn canvas_row(file: &Json) -> (r: Json)
    ensures
        r is Object && r->Object_0@.len() == 2
            && r->Object_0@[0].0@ == "id"@ && r->Object_0@[0].1 is Str
            && r->Object_0@[0].1->Str_0@ == text_or_spec(json_get(*file, "id"@), NO_ID@)
            && r->Object_0@[1].0@ == "name"@ && r->Object_0@[1].1 is Str
            && r->Object_0@[1].1->Str_0@ == text_or_spec(json_get(*file, "name"@), NO_NAME@),
{
    let mut fields: Vec<(String, Json)> = Vec::new();
    fields.push(("id".to_string(), Json::Str(text_or(file.get("id"), NO_ID))));
    fields.push(("name".to_string(), Json::Str(text_or(file.get("name"), NO_NAME))));
    Json::Object(fields)
}

} // verus!
