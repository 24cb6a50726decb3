//! `channels`: the conversations of the workspace, as rows.

use vstd::prelude::*;
use crate::cli::{parse_positive_int, positive_int, OutputFormat};

use crate::cli::send::is_validation;
use crate::common::{
    channel_id_like, format_unix_date, format_unix_rfc3339, is_channel_id, unix_date_text, unix_rfc3339_text, INVALID_TIMESTAMP,
};
use crate::error::SlackCliError;
use crate::json::{json_bool, json_get, json_i64, json_u64, str_field, Json, JsonNumber};
use crate::sanitize::{sanitize_terminal, sanitize_terminal_text};
use crate::strings::{starts_with_char, str_eq};

verus! {

broadcast use vstd::string::group_string_axioms;

pub const DEFAULT_CHANNEL_TYPE: &'static str = "public";
pub const ERR_LIMIT: &'static str = "--limit must be a positive integer";
pub const MSG_NO_CHANNELS: &'static str = "No channels found";
pub const DEFAULT_PAGE_SIZE: u32 = 100;
pub const MAX_PAGE_SIZE: u32 = 1000;

pub struct ChannelsCommand {
    pub channel_type: String,
    pub include_archived: bool,
    pub limit: Option<String>,
}

/// The `types` parameter for a `--type` value.
pub open spec fn types_for(value: Seq<char>) -> Option<Seq<char>> {
    if value == "public"@ { Some("public_channel"@) }
    else if value == "private"@ { Some("private_channel"@) }
    else if value == "im"@ { Some("im"@) }
    else if value == "mpim"@ { Some("mpim"@) }
    else if value == "all"@ { Some("public_channel,private_channel,mpim,im"@) }
    else { None }
}

pub open spec fn invalid_type_text(value: Seq<char>) -> Seq<char> {
    "Invalid type '"@ + sanitize_terminal(value) + "'. Must be one of: public, private, im, mpim, all"@
}

/// Maps `--type` to the `types` of `conversations.list`; another value is an error.
pub fn channel_types(value: &str) -> (r: Result<&'static str, SlackCliError>)
    ensures
        types_for(value@) matches Some(t) ==> (r matches Ok(v) && v@ == t),
        types_for(value@) is None ==> (r matches Err(e) && e matches SlackCliError::Validation(m) && m@ == invalid_type_text(value@)),
{
    if str_eq(value, "public") { Ok("public_channel") }
    else if str_eq(value, "private") { Ok("private_channel") }
    else if str_eq(value, "im") { Ok("im") }
    else if str_eq(value, "mpim") { Ok("mpim") }
    else if str_eq(value, "all") { Ok("public_channel,private_channel,mpim,im") }
    else {
        let mut m = "Invalid type '".to_string();
        m.push_str(sanitize_terminal_text(value).as_str());
        m.push_str("'. Must be one of: public, private, im, mpim, all");
        Err(SlackCliError::Validation(m))
    }
}

/// The listing `channels` asks for.
pub struct ChannelsQuery {
    pub types: &'static str,
    /// `"true"` unless archived channels are included.
    pub exclude_archived: &'static str,
    pub limit: Option<u32>,
    pub page_size: u32,
}

/// Checks `--type` and `--limit`; the page size is the limit (100 without one), at most
/// 1000.
pub fn plan_channels(cmd: &ChannelsCommand) -> (r: Result<ChannelsQuery, SlackCliError>)
    ensures
        types_for(cmd.channel_type@) is None ==> (r matches Err(e) && e matches SlackCliError::Validation(m)
            && m@ == invalid_type_text(cmd.channel_type@)),
        (types_for(cmd.channel_type@) is Some && (cmd.limit matches Some(l) ==> positive_int(l@) is Some)) ==> r is Ok,
        r matches Ok(q) ==> {
            &&& types_for(cmd.channel_type@) == Some(q.types@)
            &&& q.exclude_archived@ == (if cmd.include_archived { "false"@ } else { "true"@ })
            &&& match cmd.limit {
                None => q.limit is None && q.page_size == DEFAULT_PAGE_SIZE,
                Some(l) => (positive_int(l@) matches Some(n) && q.limit == Some(n as u32)
                    && q.page_size == (if n < MAX_PAGE_SIZE { n } else { MAX_PAGE_SIZE as nat })),
            }
        },
        cmd.limit matches Some(l) ==> ((types_for(cmd.channel_type@) is Some && positive_int(l@) is None) ==> is_validation(r, ERR_LIMIT)),
{
    let types = channel_types(cmd.channel_type.as_str())?;
    let limit = match &cmd.limit {
        Some(raw) => Some(parse_positive_int(raw.as_str(), ERR_LIMIT)?),
        None => None,
    };
    let exclude_archived = if cmd.include_archived { "false" } else { "true" };
    let wanted = match limit { Some(l) => l, None => DEFAULT_PAGE_SIZE };
    let page_size = if wanted < MAX_PAGE_SIZE { wanted } else { MAX_PAGE_SIZE };
    Ok(ChannelsQuery { types, exclude_archived, limit, page_size })
}

/// A flag of a channel object, false when absent.
pub open spec fn flag(channel: Json, key: Seq<char>) -> bool {
    json_bool(json_get(channel, key)) == Some(true)
}

/// The kind of a channel.
pub open spec fn kind_text(c: Json) -> Seq<char> {
    if flag(c, "is_channel"@) && !flag(c, "is_private"@) { "public"@ }
    else if flag(c, "is_group"@) || (flag(c, "is_channel"@) && flag(c, "is_private"@)) { "private"@ }
    else if flag(c, "is_im"@) { "im"@ }
    else if flag(c, "is_mpim"@) { "mpim"@ }
    else { "unknown"@ }
}

fn flag_of(channel: &Json, key: &str) -> (r: bool)
    ensures
        r == flag(*channel, key@),
{
    match channel.get(key) {
        Some(v) => v.as_bool() == Some(true),
        None => false,
    }
}

pub fn channel_kind(channel: &Json) -> (r: &'static str)
    ensures
        r@ == kind_text(*channel),
{
    if flag_of(channel, "is_channel") && !flag_of(channel, "is_private") { "public" }
    else if flag_of(channel, "is_group") || (flag_of(channel, "is_channel") && flag_of(channel, "is_private")) { "private" }
    else if flag_of(channel, "is_im") { "im" }
    else if flag_of(channel, "is_mpim") { "mpim" }
    else { "unknown" }
}

/// A creation time as RFC 3339 (UTC, milliseconds), `(invalid timestamp)` when absent
/// or out of range.
pub open spec fn created_text(created: Option<int>) -> Seq<char> {
    match created {
        Some(s) => unix_rfc3339_text(s),
        None => INVALID_TIMESTAMP@,
    }
}

pub fn format_created(created: Option<i64>) -> (r: String)
    ensures
        r@ == created_text(match created { Some(s) => Some(s as int), None => None }),
{
    match created {
        Some(s) => format_unix_rfc3339(s),
        None => INVALID_TIMESTAMP.to_string(),
    }
}

/// A creation time as a UTC date (`YYYY-MM-DD`), `(invalid timestamp)` when absent or
/// out of range.
pub open spec fn created_date_text(created: Option<int>) -> Seq<char> {
    match created {
        Some(s) => unix_date_text(s),
        None => INVALID_TIMESTAMP@,
    }
}

pub fn format_created_date(created: Option<i64>) -> (r: String)
    ensures
        r@ == created_date_text(match created { Some(s) => Some(s as int), None => None }),
{
    match created {
        Some(s) => format_unix_date(s),
        None => INVALID_TIMESTAMP.to_string(),
    }
}

pub open spec fn or_empty(v: Option<Seq<char>>) -> Seq<char> {
    match v { Some(x) => x, None => Seq::empty() }
}

/// The row of a channel: id, name (`unnamed` when empty), type, members, created, purpose.
pub open spec fn channel_row_ok(r: Json, c: Json) -> bool {
    let name = match str_field(c, "name"@) { Some(n) if n.len() > 0 => n, _ => "unnamed"@ };
    let purpose = match json_get(c, "purpose"@) { Some(p) => or_empty(str_field(p, "value"@)), None => Seq::empty() };
    &&& r is Object
    &&& r->Object_0@.len() == 6
    &&& r->Object_0@[0].0@ == "id"@ && r->Object_0@[0].1 is Str && r->Object_0@[0].1->Str_0@ == sanitize_terminal(or_empty(str_field(c, "id"@)))
    &&& r->Object_0@[1].0@ == "name"@ && r->Object_0@[1].1 is Str && r->Object_0@[1].1->Str_0@ == sanitize_terminal(name)
    &&& r->Object_0@[2].0@ == "type"@ && r->Object_0@[2].1 is Str && r->Object_0@[2].1->Str_0@ == kind_text(c)
    &&& r->Object_0@[3].0@ == "members"@ && r->Object_0@[3].1 == Json::Number(JsonNumber::UInt(
            match json_u64(json_get(c, "num_members"@)) { Some(n) => n as u64, None => 0u64 }))
    &&& r->Object_0@[4].0@ == "created"@ && r->Object_0@[4].1 is Str && r->Object_0@[4].1->Str_0@ == created_text(json_i64(json_get(c, "created"@)))
    &&& r->Object_0@[5].0@ == "purpose"@ && r->Object_0@[5].1 is Str && r->Object_0@[5].1->Str_0@ == sanitize_terminal(purpose)
}

fn str_or_empty(v: Option<&String>) -> (r: String)
    ensures
        r@ == match v { Some(s) => s@, None => Seq::empty() },
{
    match v { Some(s) => s.clone(), None => String::new() }
}

pub fn map_channel(channel: &Json) -> (r: Json)
    ensures
        channel_row_ok(r, *channel),
{
    let name = match channel.str_field("name") {
        Some(n) if !n.is_empty() => n.clone(),
        _ => "unnamed".to_string(),
    };
    let purpose = match channel.get("purpose") {
        Some(p) => str_or_empty(p.str_field("value")),
        None => String::new(),
    };
    let members: u64 = match channel.get("num_members") {
        Some(v) => match v.as_u64() { Some(n) => n, None => 0 },
        None => 0,
    };
    let created = match channel.get("created") { Some(v) => v.as_i64(), None => None };
    let mut fields: Vec<(String, Json)> = Vec::new();
    fields.push(("id".to_string(), Json::Str(sanitize_terminal_text(str_or_empty(channel.str_field("id")).as_str()))));
    fields.push(("name".to_string(), Json::Str(sanitize_terminal_text(name.as_str()))));
    fields.push(("type".to_string(), Json::Str(channel_kind(channel).to_string())));
    fields.push(("members".to_string(), Json::Number(JsonNumber::UInt(members))));
    fields.push(("created".to_string(), Json::Str(format_created(created))));
    fields.push(("purpose".to_string(), Json::Str(sanitize_terminal_text(purpose.as_str()))));
    Json::Object(fields)
}

/// How a channel is named in a success message: stripped of terminal controls, `#`
/// added unless it has one or is an ID.
pub open spec fn channel_display_text(input: Seq<char>) -> Seq<char> {
    let s = sanitize_terminal(input);
    if channel_id_like(s) || (s.len() > 0 && s[0] == '#') { s } else { seq!['#'] + s }
}

pub fn format_channel_display(input: &str) -> (r: String)
    ensures
        r@ == channel_display_text(input@),
{
    let s = sanitize_terminal_text(input);
    if is_channel_id(s.as_str()) || starts_with_char(s.as_str(), '#') {
        s
    } else {
        proof { reveal_strlit("#"); }
        let mut r = "#".to_string();
        r.push_str(s.as_str());
        r
    }
}

/// What a listing prints: the `empty` message when nothing was found in a table; the
/// items otherwise (an empty array for machine-readable formats).
pub fn list_shows_empty_message(item_count: usize, format: OutputFormat) -> (r: bool)
    ensures
        r == (item_count == 0 && format == OutputFormat::Table),
{
    item_count == 0 && format == OutputFormat::Table
}

} // verus!
