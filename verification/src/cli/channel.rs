//! `channel info`, `channel set-topic`, `channel set-purpose`.

use vstd::prelude::*;
use crate::cli::OutputFormat;
use crate::cli::channels::{channel_display_text, created_date_text, flag, format_channel_display, format_created_date, or_empty};
use crate::json::{json_get, json_i64, json_u64, str_field, Json, JsonNumber};
use crate::sanitize::{sanitize_terminal, sanitize_terminal_text};
use crate::strings::str_eq;

verus! {

broadcast use vstd::string::group_string_axioms;

pub const TOPIC_FIELD: &'static str = "topic";
pub const PURPOSE_FIELD: &'static str = "purpose";

pub struct ChannelCommand {
    pub command: ChannelSubcommand,
}

pub enum ChannelSubcommand {
    Info { channel: String },
    SetTopic { channel: String, topic: String },
    SetPurpose { channel: String, purpose: String },
}

/// The text of a field, stripped of terminal controls; empty when absent.
pub open spec fn text_of(c: Json, key: Seq<char>) -> Seq<char> {
    sanitize_terminal(or_empty(str_field(c, key)))
}

/// The `value` of a nested field (`topic`, `purpose`): stripped text, or null when
/// absent or empty.
pub open spec fn nested_ok(v: Json, c: Json, key: Seq<char>) -> bool {
    match json_get(c, key) {
        Some(n) => match str_field(n, "value"@) {
            Some(t) if t.len() > 0 => v is Str && v->Str_0@ == sanitize_terminal(t),
            _ => v is Null,
        },
        None => v is Null,
    }
}

pub open spec fn key_is(fields: Seq<(String, Json)>, i: int, key: Seq<char>) -> bool {
    0 <= i < fields.len() && fields[i].0@ == key
}

/// The value shown by `channel info`: id, name, is_private, is_archived, then `created`
/// (a UTC date in a table, Unix seconds otherwise) and `num_members` when present, then
/// topic and purpose.
pub open spec fn channel_info_ok(r: Json, c: Json, format: OutputFormat) -> bool {
    let created = json_i64(json_get(c, "created"@));
    let members = json_u64(json_get(c, "num_members"@));
    let ci: int = if created is Some { 1 } else { 0 };
    let mi: int = if members is Some { 1 } else { 0 };
    &&& r is Object
    &&& ({
        let fs = r->Object_0@;
        &&& fs.len() == 6 + ci + mi
        &&& key_is(fs, 0, "id"@) && fs[0].1 is Str && fs[0].1->Str_0@ == text_of(c, "id"@)
        &&& key_is(fs, 1, "name"@) && fs[1].1 is Str && fs[1].1->Str_0@ == text_of(c, "name"@)
        &&& key_is(fs, 2, "is_private"@) && fs[2].1 == Json::Bool(flag(c, "is_private"@))
        &&& key_is(fs, 3, "is_archived"@) && fs[3].1 == Json::Bool(flag(c, "is_archived"@))
        &&& (created matches Some(s) ==> key_is(fs, 4, "created"@) && (if format == OutputFormat::Table {
                fs[4].1 is Str && fs[4].1->Str_0@ == created_date_text(Some(s))
            } else {
                fs[4].1 == Json::Number(JsonNumber::Int(s as i64))
            }))
        &&& (members matches Some(n) ==> key_is(fs, 4 + ci, "num_members"@) && fs[4 + ci].1 == Json::Number(JsonNumber::UInt(n as u64)))
        &&& key_is(fs, 4 + ci + mi, "topic"@) && nested_ok(fs[4 + ci + mi].1, c, "topic"@)
        &&& key_is(fs, 5 + ci + mi, "purpose"@) && nested_ok(fs[5 + ci + mi].1, c, "purpose"@)
    })
}

fn text_field(c: &Json, key: &str) -> (r: String)
    ensures
        r@ == text_of(*c, key@),
{
    match c.str_field(key) {
        Some(s) => sanitize_terminal_text(s.as_str()),
        None => {
            proof { reveal_strlit(""); }
            sanitize_terminal_text("")
        },
    }
}

fn flag_field(c: &Json, key: &str) -> (r: bool)
    ensures
        r == flag(*c, key@),
{
    match c.get(key) {
        Some(v) => v.as_bool() == Some(true),
        None => false,
    }
}

fn nested_text(c: &Json, key: &str) -> (r: Json)
    ensures
        nested_ok(r, *c, key@),
{
    match c.get(key) {
        Some(n) => match n.str_field("value") {
            Some(t) => if t.is_empty() { Json::Null } else { Json::Str(sanitize_terminal_text(t.as_str())) },
            None => Json::Null,
        },
        None => Json::Null,
    }
}

pub fn channel_info_value(channel: &Json, format: OutputFormat) -> (r: Json)
    ensures
        channel_info_ok(r, *channel, format),
{
    proof { reveal_strlit(""); }
    let mut fields: Vec<(String, Json)> = Vec::new();
    fields.push(("id".to_string(), Json::Str(text_field(channel, "id"))));
    fields.push(("name".to_string(), Json::Str(text_field(channel, "name"))));
    fields.push(("is_private".to_string(), Json::Bool(flag_field(channel, "is_private"))));
    fields.push(("is_archived".to_string(), Json::Bool(flag_field(channel, "is_archived"))));
    let created = match channel.get("created") { Some(v) => v.as_i64(), None => None };
    match created {
        Some(s) => {
            let rendered = if format == OutputFormat::Table {
                Json::Str(format_created_date(Some(s)))
            } else {
                Json::Number(JsonNumber::Int(s))
            };
            fields.push(("created".to_string(), rendered));
        },
        None => {},
    }
    let members = match channel.get("num_members") { Some(v) => v.as_u64(), None => None };
    match members {
        Some(n) => fields.push(("num_members".to_string(), Json::Number(JsonNumber::UInt(n)))),
        None => {},
    }
    fields.push(("topic".to_string(), nested_text(channel, "topic")));
    fields.push(("purpose".to_string(), nested_text(channel, "purpose")));
    Json::Object(fields)
}

/// `✓ Topic updated for <channel>` or `✓ Purpose updated for <channel>`.
pub open spec fn success_text(field: Seq<char>, channel_display: Seq<char>) -> Seq<char> {
    "✓ "@ + (if field == TOPIC_FIELD@ { "Topic"@ } else { "Purpose"@ }) + " updated for "@ + channel_display
}

pub fn success_message(field: &str, channel_display: &str) -> (r: String)
    ensures
        r@ == success_text(field@, channel_display@),
{
    let label = if str_eq(field, TOPIC_FIELD) { "Topic" } else { "Purpose" };
    let mut r = "✓ ".to_string();
    r.push_str(label);
    r.push_str(" updated for ");
    r.push_str(channel_display);
    r
}

/// What `set-topic` / `set-purpose` sends and reports.
pub struct TextUpdate {
    pub channel: String,
    /// `conversations.setTopic` or `conversations.setPurpose`.
    pub method: &'static str,
    /// `topic` or `purpose`.
    pub field: &'static str,
    pub text: String,
}

/// The update a subcommand asks for; `None` for `info`.
pub fn text_update(cmd: ChannelCommand) -> (r: Option<TextUpdate>)
    ensures
        match cmd.command {
            ChannelSubcommand::Info { .. } => r is None,
            ChannelSubcommand::SetTopic { channel, topic } => r matches Some(u) && u.channel@ == channel@
                && u.method@ == "conversations.setTopic"@ && u.field@ == TOPIC_FIELD@ && u.text@ == topic@,
            ChannelSubcommand::SetPurpose { channel, purpose } => r matches Some(u) && u.channel@ == channel@
                && u.method@ == "conversations.setPurpose"@ && u.field@ == PURPOSE_FIELD@ && u.text@ == purpose@,
        },
{
    match cmd.command {
        ChannelSubcommand::Info { .. } => None,
        ChannelSubcommand::SetTopic { channel, topic } =>
            Some(TextUpdate { channel, method: "conversations.setTopic", field: TOPIC_FIELD, text: topic }),
        ChannelSubcommand::SetPurpose { channel, purpose } =>
            Some(TextUpdate { channel, method: "conversations.setPurpose", field: PURPOSE_FIELD, text: purpose }),
    }
}

/// The success message of an update, naming the channel as it was given.
pub fn update_success_message(u: &TextUpdate) -> (r: String)
    ensures
        r@ == success_text(u.field@, channel_display_text(u.channel@)),
{
    success_message(u.field, format_channel_display(u.channel.as_str()).as_str())
}

} // verus!
