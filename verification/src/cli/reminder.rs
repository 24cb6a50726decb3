//! `reminder`: the rows printed for reminders, and what a created reminder reports.

use vstd::prelude::*;
use crate::cli::pin::{format_iso_millis, iso_millis_text};
use crate::common::INVALID_TIMESTAMP;
use crate::json::{json_bool, json_get, json_i64, json_str, jview, Json, JsonNumber};
use crate::sanitize::{sanitize_terminal, sanitize_terminal_text, sanitize_value, sanitized_json};

verus! {

broadcast use vstd::string::group_string_axioms;

pub const MSG_NO_REMINDERS: &'static str = "No reminders found";
pub const STATUS_COMPLETED: &'static str = "completed";
pub const STATUS_PENDING: &'static str = "pending";
pub const MSG_DELETED: &'static str = "✓ Reminder deleted";
pub const MSG_COMPLETED: &'static str = "✓ Reminder completed";

/// A field holding this text.
pub open spec fn str_at(fields: Seq<(String, Json)>, i: int, key: Seq<char>, text: Seq<char>) -> bool {
    fields[i].0@ == key && fields[i].1 is Str && fields[i].1->Str_0@ == text
}

/// The row of a reminder: ID, sanitised text, the time and its rendering, whether it is
/// completed, and whether it recurs.
pub open spec fn reminder_row_ok(r: Json, reminder: Json) -> bool {
    let time = json_i64(json_get(reminder, "time"@));
    let complete = match json_i64(json_get(reminder, "complete_ts"@)) { Some(c) => c, None => 0 };
    &&& r is Object
    &&& r->Object_0@.len() == 6
    &&& str_at(r->Object_0@, 0, "id"@, match json_str(json_get(reminder, "id"@)) { Some(t) => t, None => Seq::empty() })
    &&& str_at(r->Object_0@, 1, "text"@, match json_str(json_get(reminder, "text"@)) { Some(t) => sanitize_terminal(t), None => Seq::empty() })
    &&& r->Object_0@[2].0@ == "time"@
    &&& r->Object_0@[2].1 == match time { Some(t) => Json::Number(JsonNumber::Int(t as i64)), None => Json::Null }
    &&& str_at(r->Object_0@, 3, "time_formatted"@, match time { Some(t) => iso_millis_text(t), None => INVALID_TIMESTAMP@ })
    &&& str_at(r->Object_0@, 4, "status"@, if complete > 0 { STATUS_COMPLETED@ } else { STATUS_PENDING@ })
    &&& r->Object_0@[5].0@ == "recurring"@
    &&& r->Object_0@[5].1 == Json::Bool(json_bool(json_get(reminder, "recurring"@)) == Some(true))
}

pub fn map_reminder(reminder: &Json) -> (r: Json)
    ensures
        reminder_row_ok(r, *reminder),
{
    let time = match reminder.get("time") { Some(v) => v.as_i64(), None => None };
    let complete = match reminder.get("complete_ts") { Some(v) => v.as_i64(), None => None };
    let complete = match complete { Some(c) => c, None => 0 };
    let id = match reminder.str_field("id") { Some(t) => t.clone(), None => String::new() };
    let text = match reminder.str_field("text") { Some(t) => sanitize_terminal_text(t.as_str()), None => String::new() };
    let recurring = match reminder.get("recurring") { Some(v) => v.as_bool(), None => None };
    let mut fields: Vec<(String, Json)> = Vec::new();
    fields.push(("id".to_string(), Json::Str(id)));
    fields.push(("text".to_string(), Json::Str(text)));
    fields.push(("time".to_string(), match time { Some(t) => Json::Number(JsonNumber::Int(t)), None => Json::Null }));
    fields.push(("time_formatted".to_string(), Json::Str(match time { Some(t) => format_iso_millis(t), None => INVALID_TIMESTAMP.to_string() })));
    fields.push(("status".to_string(), Json::Str(if complete > 0 { STATUS_COMPLETED.to_string() } else { STATUS_PENDING.to_string() })));
    fields.push(("recurring".to_string(), Json::Bool(recurring == Some(true))));
    Json::Object(fields)
}

/// The rows of a listing, in order.
pub fn map_reminders(reminders: &Vec<Json>) -> (r: Vec<Json>)
    ensures
        r@.len() == reminders@.len(),
        forall|i: int| 0 <= i < reminders@.len() ==> reminder_row_ok(#[trigger] r@[i], reminders@[i]),
{
    let mut rows: Vec<Json> = Vec::new();
    let mut i: usize = 0;
    while i < reminders.len()
        invariant
            i <= reminders.len(),
            rows@.len() == i,
            forall|k: int| 0 <= k < i ==> reminder_row_ok(#[trigger] rows@[k], reminders@[k]),
        decreases reminders.len() - i,
    {
        rows.push(map_reminder(&reminders[i]));
        i = i + 1;
    }
    rows
}

/// What `reminder add` prints and shows.
pub struct CreatedReminder {
    /// The reminder Slack created, sanitised; `{text, time}` as sent when there is none
    /// (a dry run).
    pub value: Json,
    /// `✓ Reminder created: "<text>" at <time>`.
    pub message: String,
}

/// The created text and time: Slack's when it reports them, else what was sent.
pub open spec fn created_text(reminder: Option<Json>, sent: Seq<char>) -> Seq<char> {
    match reminder {
        Some(r) => match json_str(json_get(r, "text"@)) { Some(t) => t, None => sent },
        None => sent,
    }
}

pub open spec fn created_time(reminder: Option<Json>, sent: int) -> int {
    match reminder {
        Some(r) => match json_i64(json_get(r, "time"@)) { Some(t) => t, None => sent },
        None => sent,
    }
}

/// The `reminder` of a `reminders.add` answer, a JSON `null` counting as none.
pub open spec fn created_reminder_of(response: Json) -> Option<Json> {
    match json_get(response, "reminder"@) {
        Some(Json::Null) => None,
        Some(r) => Some(r),
        None => None,
    }
}

pub fn created_reminder(response: &Json, text: &str, time: i64) -> (r: CreatedReminder)
    ensures
        ({
            let rem = created_reminder_of(*response);
            &&& r.message@ == "✓ Reminder created: \""@ + sanitize_terminal(created_text(rem, text@)) + "\" at "@
                + iso_millis_text(created_time(rem, time as int))
            &&& match rem {
                Some(x) => jview(r.value) == sanitized_json(x),
                None => r.value is Object && r.value->Object_0@.len() == 2
                    && r.value->Object_0@[0].0@ == "text"@ && r.value->Object_0@[0].1 is Str
                    && r.value->Object_0@[0].1->Str_0@ == text@
                    && r.value->Object_0@[1].0@ == "time"@ && r.value->Object_0@[1].1 == Json::Number(JsonNumber::Int(time)),
            }
        }),
{
    let reminder = match response.get("reminder") {
        Some(Json::Null) => None,
        Some(r) => Some(r),
        None => None,
    };
    let (shown_text, shown_time) = match reminder {
        Some(rem) => {
            let t = match rem.str_field("text") { Some(s) => s.clone(), None => text.to_string() };
            let tm = match rem.get("time") { Some(v) => match v.as_i64() { Some(x) => x, None => time }, None => time };
            (t, tm)
        },
        None => (text.to_string(), time),
    };
    let mut message = "✓ Reminder created: \"".to_string();
    message.push_str(sanitize_terminal_text(shown_text.as_str()).as_str());
    message.push_str("\" at ");
    message.push_str(format_iso_millis(shown_time).as_str());
    let value = match reminder {
        Some(rem) => sanitize_value(rem),
        None => {
            let mut fields: Vec<(String, Json)> = Vec::new();
            fields.push(("text".to_string(), Json::Str(text.to_string())));
            fields.push(("time".to_string(), Json::Number(JsonNumber::Int(time))));
            Json::Object(fields)
        },
    };
    CreatedReminder { value, message }
}

/// What `reminder delete` and `reminder complete` report: `<prefix>: <id>` and
/// `{ok: true, reminder: <id>}`.
pub fn mutation_report(prefix: &str, id: &str) -> (r: (Json, String))
    ensures
        r.1@ == prefix@ + ": "@ + id@,
        r.0 is Object && r.0->Object_0@.len() == 2
            && r.0->Object_0@[0].0@ == "ok"@ && r.0->Object_0@[0].1 == Json::Bool(true)
            && r.0->Object_0@[1].0@ == "reminder"@ && r.0->Object_0@[1].1 is Str && r.0->Object_0@[1].1->Str_0@ == id@,
{
    let mut message = prefix.to_string();
    message.push_str(": ");
    message.push_str(id);
    let mut fields: Vec<(String, Json)> = Vec::new();
    fields.push(("ok".to_string(), Json::Bool(true)));
    fields.push(("reminder".to_string(), Json::Str(id.to_string())));
    (Json::Object(fields), message)
}

} // verus!
