//! `bookmark`: items saved for later (Slack's stars API).

use vstd::prelude::*;
use crate::cli::channels::or_empty;
use crate::common::INVALID_TIMESTAMP;

use crate::json::{json_get, json_i64, str_field, Json, JsonNumber};
use crate::sanitize::{sanitize_terminal, sanitize_terminal_text};
use crate::strings::{
    chars_of, is_unicode_whitespace, is_whitespace, join, join_strings, split_char, split_on, views,
};
use crate::time::{utc_format, utc_text, PATTERN_ISO_MILLIS};

verus! {

broadcast use vstd::string::group_string_axioms;

pub const DEFAULT_LIST_LIMIT: &'static str = "100";
pub const MSG_NO_ITEMS: &'static str = "No saved items found";
pub const ERR_LIMIT: &'static str = "--limit must be a positive integer";
pub const STARS_ADD: &'static str = "stars.add";
pub const STARS_LIST: &'static str = "stars.list";
pub const STARS_REMOVE: &'static str = "stars.remove";

pub struct BookmarkCommand {
    pub command: BookmarkSubcommand,
}

pub enum BookmarkSubcommand {
    Add(BookmarkTargetArgs),
    List { limit: String },
    Remove(BookmarkTargetArgs),
}

pub struct BookmarkTargetArgs {
    pub channel: String,
    pub ts: String,
}

/// A separator when collapsing a line: whitespace, and U+FEFF as JavaScript's `\s` has it.
pub open spec fn is_gap(c: char) -> bool {
    is_unicode_whitespace(c) || c == '\u{feff}'
}

/// Every gap character turned into a space.
pub open spec fn gaps_to_spaces(s: Seq<char>) -> Seq<char> {
    s.map_values(|c: char| if is_gap(c) { ' ' } else { c })
}

/// The non-empty pieces, in order.
pub open spec fn nonempty_pieces(parts: Seq<Seq<char>>) -> Seq<Seq<char>>
    decreases parts.len(),
{
    if parts.len() == 0 {
        Seq::empty()
    } else {
        let rest = nonempty_pieces(parts.drop_last());
        if parts.last().len() > 0 { rest.push(parts.last()) } else { rest }
    }
}

/// Terminal controls stripped, then runs of whitespace collapsed to one space, with none
/// at the ends.
pub open spec fn collapsed_line(input: Seq<char>) -> Seq<char> {
    join(nonempty_pieces(split_on(gaps_to_spaces(sanitize_terminal(input)), ' ')), " "@)
}

pub fn sanitize_single_line(input: &str) -> (r: String)
    ensures
        r@ == collapsed_line(input@),
{
    let clean = sanitize_terminal_text(input);
    let v = chars_of(clean.as_str());
    let mut spaced = String::new();
    let mut i: usize = 0;
    while i < v.len()
        invariant
            i <= v.len(),
            v@ == clean@,
            spaced@ == gaps_to_spaces(v@.take(i as int)),
        decreases v.len() - i,
    {
        let c = v[i];
        let ghost before = spaced@;
        if is_whitespace(c) || c == '\u{feff}' {
            spaced.push(' ');
        } else {
            spaced.push(c);
        }
        proof {
            assert(gaps_to_spaces(v@.take(i + 1)) =~= gaps_to_spaces(v@.take(i as int)).push(if is_gap(c) { ' ' } else { c }));
        }
        i = i + 1;
    }
    proof { assert(v@.take(v.len() as int) =~= v@); }
    let parts = split_char(spaced.as_str(), ' ');
    let mut words: Vec<String> = Vec::new();
    let mut k: usize = 0;
    proof {
        assert(views(parts@).take(0) =~= Seq::<Seq<char>>::empty());
        assert(views(words@) =~= Seq::<Seq<char>>::empty());
    }
    while k < parts.len()
        invariant
            k <= parts.len(),
            views(words@) == nonempty_pieces(views(parts@).take(k as int)),
        decreases parts.len() - k,
    {
        proof {
            assert(views(parts@).take(k + 1).drop_last() =~= views(parts@).take(k as int));
            assert(views(parts@).take(k + 1).last() == parts@[k as int]@);
        }
        if !parts[k].is_empty() {
            let ghost before = words@;
            words.push(parts[k].clone());
            proof { assert(views(words@) =~= views(before).push(parts@[k as int]@)); }
        }
        k = k + 1;
    }
    proof { assert(views(parts@).take(parts.len() as int) =~= views(parts@)); }
    join_strings(&words, " ")
}

/// A save time as `YYYY-MM-DDTHH:MM:SS.mmmZ`, `(invalid timestamp)` when absent or out of
/// range.
pub open spec fn saved_at_text(seconds: Option<int>) -> Seq<char> {
    match seconds {
        Some(s) => match utc_text(s, PATTERN_ISO_MILLIS@) { Some(t) => t, None => INVALID_TIMESTAMP@ },
        None => INVALID_TIMESTAMP@,
    }
}

pub fn format_saved_at(seconds: Option<i64>) -> (r: String)
    ensures
        r@ == saved_at_text(match seconds { Some(s) => Some(s as int), None => None }),
{
    match seconds {
        Some(s) => match utc_format(s, PATTERN_ISO_MILLIS) {
            Some(t) => t,
            None => INVALID_TIMESTAMP.to_string(),
        },
        None => INVALID_TIMESTAMP.to_string(),
    }
}

/// A saved item as listed: type, channel, timestamp and text of the message (text on one
/// line), the raw `date_create` (null when absent) and its formatted form.
pub open spec fn saved_item_ok(r: Json, item: Json) -> bool {
    let message = json_get(item, "message"@);
    let date = json_i64(json_get(item, "date_create"@));
    let m_ts = match message { Some(m) => str_field(m, "ts"@), None => None };
    let m_text = match message { Some(m) => str_field(m, "text"@), None => None };
    &&& r is Object
    &&& ({
        let fs = r->Object_0@;
        &&& fs.len() == 6
        &&& fs[0].0@ == "type"@ && fs[0].1 is Str && fs[0].1->Str_0@ == or_empty(str_field(item, "type"@))
        &&& fs[1].0@ == "channel"@ && fs[1].1 is Str && fs[1].1->Str_0@ == or_empty(str_field(item, "channel"@))
        &&& fs[2].0@ == "timestamp"@ && fs[2].1 is Str && fs[2].1->Str_0@ == or_empty(m_ts)
        &&& fs[3].0@ == "text"@ && fs[3].1 is Str && fs[3].1->Str_0@ == (match m_text { Some(t) => collapsed_line(t), None => Seq::empty() })
        &&& fs[4].0@ == "date_create"@ && fs[4].1 == (match date { Some(d) => Json::Number(JsonNumber::Int(d as i64)), None => Json::Null })
        &&& fs[5].0@ == "saved_at"@ && fs[5].1 is Str && fs[5].1->Str_0@ == saved_at_text(date)
    })
}

fn str_or_empty(v: Option<&String>) -> (r: String)
    ensures
        r@ == match v { Some(s) => s@, None => Seq::empty() },
{
    match v { Some(s) => s.clone(), None => String::new() }
}

pub fn saved_item(item: &Json) -> (r: Json)
    ensures
        saved_item_ok(r, *item),
{
    let message = item.get("message");
    let date = match item.get("date_create") { Some(v) => v.as_i64(), None => None };
    let ts = match message { Some(m) => str_or_empty(m.str_field("ts")), None => String::new() };
    let text = match message {
        Some(m) => match m.str_field("text") { Some(t) => sanitize_single_line(t.as_str()), None => String::new() },
        None => String::new(),
    };
    let mut fields: Vec<(String, Json)> = Vec::new();
    fields.push(("type".to_string(), Json::Str(str_or_empty(item.str_field("type")))));
    fields.push(("channel".to_string(), Json::Str(str_or_empty(item.str_field("channel")))));
    fields.push(("timestamp".to_string(), Json::Str(ts)));
    fields.push(("text".to_string(), Json::Str(text)));
    fields.push(("date_create".to_string(), match date { Some(d) => Json::Number(JsonNumber::Int(d)), None => Json::Null }));
    fields.push(("saved_at".to_string(), Json::Str(format_saved_at(date))));
    Json::Object(fields)
}

/// `✓ Saved message <ts> in <channel>` / `✓ Removed saved item <ts> from <channel>`.
pub open spec fn bookmark_success_text(add: bool, ts: Seq<char>, channel: Seq<char>) -> Seq<char> {
    if add {
        "✓ Saved message "@ + sanitize_terminal(ts) + " in "@ + sanitize_terminal(channel)
    } else {
        "✓ Removed saved item "@ + sanitize_terminal(ts) + " from "@ + sanitize_terminal(channel)
    }
}

pub fn bookmark_success_message(add: bool, args: &BookmarkTargetArgs) -> (r: String)
    ensures
        r@ == bookmark_success_text(add, args.ts@, args.channel@),
{
    let mut r = if add { "✓ Saved message ".to_string() } else { "✓ Removed saved item ".to_string() };
    r.push_str(sanitize_terminal_text(args.ts.as_str()).as_str());
    r.push_str(if add { " in " } else { " from " });
    r.push_str(sanitize_terminal_text(args.channel.as_str()).as_str());
    r
}

} // verus!
