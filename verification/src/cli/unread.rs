//! `unread`: channels with unread messages, and the messages of one channel.

use vstd::prelude::*;
use crate::cli::OutputFormat;

use crate::client::{after_pages, concat_pages, law_listing_is_the_pages_cut_at_the_limit};
use crate::json::{json_get, json_u64, str_field, Json, JsonNumber};
use crate::strings::{starts_with_char, str_eq, views};

verus! {

broadcast use vstd::string::group_string_axioms;

pub const DEFAULT_DISPLAY_LIMIT: &'static str = "50";
/// Messages previewed for one channel; `--limit` does not apply to them.
pub const MESSAGE_PREVIEW_LIMIT: usize = 50;
pub const ERR_LIMIT: &'static str = "--limit must be a positive integer";
pub const MSG_NO_UNREAD: &'static str = "✓ No unread messages";
pub const HISTORY_PAGE_SIZE: u32 = 200;
pub const SEARCH_PAGE_SIZE: u32 = 100;
pub const UNREAD_QUERY: &'static str = "is:unread";
pub const UNKNOWN_CHANNEL_NAME: &'static str = "#unknown";

pub struct UnreadCommand {
    pub channel: Option<String>,
    pub count_only: bool,
    pub limit: String,
    pub mark_read: bool,
}

/// A channel with unread messages. `last_message_ts` is the newest message's timestamp.
pub struct UnreadChannel {
    pub id: String,
    pub name: String,
    pub unread_count: u64,
    pub last_message_ts: Option<String>,
}

/// `{"channel", "channelId", "unreadCount"}`.
pub open spec fn summary_ok(v: Json, name: Seq<char>, id: Seq<char>, count: u64) -> bool {
    v is Object && v->Object_0@.len() == 3
        && v->Object_0@[0].0@ == "channel"@ && v->Object_0@[0].1 is Str && v->Object_0@[0].1->Str_0@ == name
        && v->Object_0@[1].0@ == "channelId"@ && v->Object_0@[1].1 is Str && v->Object_0@[1].1->Str_0@ == id
        && v->Object_0@[2].0@ == "unreadCount"@ && v->Object_0@[2].1 == Json::Number(JsonNumber::UInt(count))
}

fn summary(name: &str, id: &str, count: u64) -> (r: Json)
    ensures
        summary_ok(r, name@, id@, count),
{
    let mut fields: Vec<(String, Json)> = Vec::new();
    fields.push(("channel".to_string(), Json::Str(name.to_string())));
    fields.push(("channelId".to_string(), Json::Str(id.to_string())));
    fields.push(("unreadCount".to_string(), Json::Number(JsonNumber::UInt(count))));
    Json::Object(fields)
}

impl UnreadChannel {
    pub fn to_value(&self) -> (r: Json)
        ensures
            summary_ok(r, self.name@, self.id@, self.unread_count),
    {
        summary(self.name.as_str(), self.id.as_str(), self.unread_count)
    }
}

/// A channel name with `#` added unless it starts with `#` or `@`.
pub open spec fn channel_name_text(name: Seq<char>) -> Seq<char> {
    if name.len() > 0 && (name[0] == '#' || name[0] == '@') { name } else { seq!['#'] + name }
}

pub fn format_channel_name(name: &str) -> (r: String)
    ensures
        r@ == channel_name_text(name@),
{
    if starts_with_char(name, '#') || starts_with_char(name, '@') {
        name.to_string()
    } else {
        proof { reveal_strlit("#"); }
        let mut r = "#".to_string();
        r.push_str(name);
        r
    }
}

/// The name of a channel that needs no API call: its non-empty `name` as a channel
/// name; empty otherwise (an IM has none).
pub open spec fn plain_name_text(channel: Json) -> Seq<char> {
    match str_field(channel, "name"@) {
        Some(n) if n.len() > 0 => channel_name_text(n),
        _ => Seq::empty(),
    }
}

pub fn plain_display_name(channel: &Json) -> (r: String)
    ensures
        r@ == plain_name_text(*channel),
{
    match channel.str_field("name") {
        Some(n) => if n.is_empty() { String::new() } else { format_channel_name(n.as_str()) },
        None => String::new(),
    }
}

/// The name of an IM: `@` and the partner's name when it resolved, else `@` and the ID.
pub fn im_display_name(user_id: &str, resolved: Option<String>) -> (r: String)
    ensures
        r@ == seq!['@'] + match resolved { Some(n) => n@, None => user_id@ },
{
    proof { reveal_strlit("@"); }
    let mut r = "@".to_string();
    match resolved {
        Some(n) => r.push_str(n.as_str()),
        None => r.push_str(user_id),
    }
    r
}

pub open spec fn hit_channel_id(hit: Json) -> Option<Seq<char>> {
    match json_get(hit, "channel"@) {
        Some(c) => str_field(c, "id"@),
        None => None,
    }
}

/// The channel IDs of the hits, each once, in order of first appearance.
pub open spec fn hit_channels(hits: Seq<Json>) -> Seq<Seq<char>>
    decreases hits.len(),
{
    if hits.len() == 0 {
        Seq::empty()
    } else {
        let rest = hit_channels(hits.drop_last());
        match hit_channel_id(hits.last()) {
            Some(id) => if rest.contains(id) { rest } else { rest.push(id) },
            None => rest,
        }
    }
}

/// How many hits are in channel `id`.
pub open spec fn hit_count(hits: Seq<Json>, id: Seq<char>) -> nat
    decreases hits.len(),
{
    if hits.len() == 0 {
        0
    } else {
        hit_count(hits.drop_last(), id) + if hit_channel_id(hits.last()) == Some(id) { 1nat } else { 0nat }
    }
}

/// A channel's unread count is the number of hits in that channel: the hits whose
/// `channel.id` is `id`, and no other hit, are counted.
pub proof fn law_hit_count_counts_that_channel(hits: Seq<Json>, id: Seq<char>)
    ensures
        hit_count(hits, id) == hits.filter(|h: Json| hit_channel_id(h) == Some(id)).len(),
    decreases hits.len(),
{
    reveal(Seq::filter);
    if hits.len() > 0 {
        law_hit_count_counts_that_channel(hits.drop_last(), id);
    }
}

/// A hit of another channel leaves a channel's count as it is, and a hit of the channel
/// adds one.
pub proof fn law_hit_of_another_channel_changes_nothing(hits: Seq<Json>, hit: Json, id: Seq<char>)
    ensures
        hit_channel_id(hit) != Some(id) ==> hit_count(hits.push(hit), id) == hit_count(hits, id),
        hit_channel_id(hit) == Some(id) ==> hit_count(hits.push(hit), id) == hit_count(hits, id) + 1,
{
    law_hit_count_counts_that_channel(hits, id);
    law_hit_count_counts_that_channel(hits.push(hit), id);
    reveal(Seq::filter);
    assert(hits.push(hit).drop_last() =~= hits);
}

/// The counts of the channels `ids`, added up.
pub open spec fn total_hit_count(hits: Seq<Json>, ids: Seq<Seq<char>>) -> nat
    decreases ids.len(),
{
    if ids.len() == 0 {
        0
    } else {
        total_hit_count(hits, ids.drop_last()) + hit_count(hits, ids.last())
    }
}

proof fn lemma_channels_distinct(hits: Seq<Json>)
    ensures
        hit_channels(hits).no_duplicates(),
        forall|x: Seq<char>| !hit_channels(hits).contains(x) ==> #[trigger] hit_count(hits, x) == 0,
    decreases hits.len(),
{
    if hits.len() > 0 {
        let front = hits.drop_last();
        lemma_channels_distinct(front);
        let rest = hit_channels(front);
        match hit_channel_id(hits.last()) {
            Some(id) => {
                if !rest.contains(id) {
                    assert forall|a: int, b: int| 0 <= a < b < rest.push(id).len()
                        implies rest.push(id)[a] != rest.push(id)[b] by {
                        if b == rest.len() {
                            assert(rest.push(id)[a] == rest[a]);
                        }
                    }
                    assert forall|x: Seq<char>| !hit_channels(hits).contains(x) implies #[trigger] hit_count(hits, x) == 0 by {
                        assert(rest.push(id)[rest.len() as int] == id);
                        if rest.contains(x) {
                            let k = choose|k: int| 0 <= k < rest.len() && rest[k] == x;
                            assert(rest.push(id)[k] == x);
                        }
                        assert(x != id);
                        assert(hit_count(front, x) == 0);
                    }
                } else {
                    assert forall|x: Seq<char>| !hit_channels(hits).contains(x) implies #[trigger] hit_count(hits, x) == 0 by {
                        assert(x != id);
                        assert(hit_count(front, x) == 0);
                    }
                }
            },
            None => {
                assert forall|x: Seq<char>| !hit_channels(hits).contains(x) implies #[trigger] hit_count(hits, x) == 0 by {
                    assert(hit_count(front, x) == 0);
                }
            },
        }
    }
}

proof fn lemma_total_other_hit(hits: Seq<Json>, h: Json, ids: Seq<Seq<char>>)
    requires
        forall|k: int| 0 <= k < ids.len() ==> hit_channel_id(h) != Some(#[trigger] ids[k]),
    ensures
        total_hit_count(hits.push(h), ids) == total_hit_count(hits, ids),
    decreases ids.len(),
{
    if ids.len() > 0 {
        assert(hits.push(h).drop_last() =~= hits);
        lemma_total_other_hit(hits, h, ids.drop_last());
        assert(hit_channel_id(h) != Some(ids[ids.len() - 1]));
    }
}

proof fn lemma_total_own_hit(hits: Seq<Json>, h: Json, ids: Seq<Seq<char>>, x: Seq<char>)
    requires
        hit_channel_id(h) == Some(x),
        ids.no_duplicates(),
        ids.contains(x),
    ensures
        total_hit_count(hits.push(h), ids) == total_hit_count(hits, ids) + 1,
    decreases ids.len(),
{
    assert(hits.push(h).drop_last() =~= hits);
    let front = ids.drop_last();
    if ids.last() == x {
        assert forall|k: int| 0 <= k < front.len() implies hit_channel_id(h) != Some(#[trigger] front[k]) by {
            assert(front[k] == ids[k]);
            assert(ids[k] != ids[ids.len() - 1]);
        }
        lemma_total_other_hit(hits, h, front);
    } else {
        let k = choose|k: int| 0 <= k < ids.len() && ids[k] == x;
        assert(front[k] == x);
        assert forall|a: int, b: int| 0 <= a < b < front.len() implies front[a] != front[b] by {
            assert(front[a] == ids[a] && front[b] == ids[b]);
        }
        lemma_total_own_hit(hits, h, front, x);
    }
}

/// The unread counts of the channels found add up to the number of hits that name a
/// channel: every such hit is counted once, in its own channel, and hits without a
/// channel are counted nowhere.
pub proof fn law_counts_add_up_to_the_hits(hits: Seq<Json>)
    ensures
        total_hit_count(hits, hit_channels(hits)) == hits.filter(|h: Json| hit_channel_id(h) is Some).len(),
    decreases hits.len(),
{
    reveal(Seq::filter);
    if hits.len() > 0 {
        let front = hits.drop_last();
        let h = hits.last();
        assert(front.push(h) =~= hits);
        law_counts_add_up_to_the_hits(front);
        lemma_channels_distinct(front);
        let rest = hit_channels(front);
        match hit_channel_id(h) {
            Some(x) => {
                if rest.contains(x) {
                    lemma_total_own_hit(front, h, rest, x);
                } else {
                    assert forall|k: int| 0 <= k < rest.len() implies hit_channel_id(h) != Some(#[trigger] rest[k]) by {}
                    lemma_total_other_hit(front, h, rest);
                    assert(rest.push(x).drop_last() =~= rest);
                    assert(hit_count(front, x) == 0);
                }
            },
            None => {
                assert forall|k: int| 0 <= k < rest.len() implies hit_channel_id(h) != Some(#[trigger] rest[k]) by {}
                lemma_total_other_hit(front, h, rest);
            },
        }
    }
}

/// The name shown for channel `id`: the plain name of the channel object of its first hit.
pub open spec fn first_hit_name(hits: Seq<Json>, id: Seq<char>) -> Seq<char>
    decreases hits.len(),
{
    if hits.len() == 0 {
        Seq::empty()
    } else if hit_channel_id(hits[0]) == Some(id) {
        match json_get(hits[0], "channel"@) { Some(c) => plain_name_text(c), None => Seq::empty() }
    } else {
        first_hit_name(hits.drop_first(), id)
    }
}

fn hit_id(hit: &Json) -> (r: Option<String>)
    ensures
        match r { Some(x) => hit_channel_id(*hit) == Some(x@), None => hit_channel_id(*hit) is None },
{
    match hit.get("channel") {
        Some(c) => match c.str_field("id") { Some(x) => Some(x.clone()), None => None },
        None => None,
    }
}

fn count_hits(hits: &Vec<Json>, id: &str) -> (r: u64)
    requires
        hits@.len() <= u64::MAX,
    ensures
        r == hit_count(hits@, id@),
{
    let mut n: u64 = 0;
    let mut i: usize = 0;
    proof { assert(hits@.take(0) =~= Seq::<Json>::empty()); }
    while i < hits.len()
        invariant
            i <= hits.len(),
            hits@.len() <= u64::MAX,
            n == hit_count(hits@.take(i as int), id@),
            n <= i,
        decreases hits.len() - i,
    {
        proof {
            assert(hits@.take(i + 1).drop_last() =~= hits@.take(i as int));
            assert(hits@.take(i + 1).last() == hits@[i as int]);
        }
        let same = match hit_id(&hits[i]) { Some(x) => str_eq(x.as_str(), id), None => false };
        if same {
            n = n + 1;
        }
        i = i + 1;
    }
    proof { assert(hits@.take(hits.len() as int) =~= hits@); }
    n
}

fn first_name(hits: &Vec<Json>, id: &str) -> (r: String)
    ensures
        r@ == first_hit_name(hits@, id@),
{
    let mut i: usize = 0;
    proof { assert(hits@.skip(0) =~= hits@); }
    while i < hits.len()
        invariant
            i <= hits.len(),
            first_hit_name(hits@, id@) == first_hit_name(hits@.skip(i as int), id@),
        decreases hits.len() - i,
    {
        proof {
            assert(hits@.skip(i as int)[0] == hits@[i as int]);
            assert(hits@.skip(i as int).drop_first() =~= hits@.skip(i + 1));
        }
        let same = match hit_id(&hits[i]) { Some(x) => str_eq(x.as_str(), id), None => false };
        if same {
            return match hits[i].get("channel") {
                Some(c) => plain_display_name(c),
                None => String::new(),
            };
        }
        i = i + 1;
    }
    proof { assert(hits@.skip(i as int) =~= Seq::<Json>::empty()); }
    String::new()
}

/// Unread search hits grouped by channel, in order of first appearance, with the number
/// of hits and the name of each (empty when the hits carry none, to be looked up). The
/// newest timestamp is left for the caller, which compares timestamps as numbers.
pub fn group_unread_hits(matches: &Vec<Json>) -> (r: Vec<UnreadChannel>)
    requires
        matches@.len() <= u64::MAX,
    ensures
        r@.len() == hit_channels(matches@).len(),
        forall|g: int| 0 <= g < r@.len() ==> {
            &&& (#[trigger] r@[g]).id@ == hit_channels(matches@)[g]
            &&& r@[g].unread_count == hit_count(matches@, r@[g].id@)
            &&& r@[g].name@ == first_hit_name(matches@, r@[g].id@)
            &&& r@[g].last_message_ts is None
        },
{
    let mut ids: Vec<String> = Vec::new();
    let mut i: usize = 0;
    proof { assert(matches@.take(0) =~= Seq::<Json>::empty()); assert(views(ids@) =~= Seq::<Seq<char>>::empty()); }
    while i < matches.len()
        invariant
            i <= matches.len(),
            views(ids@) == hit_channels(matches@.take(i as int)),
        decreases matches.len() - i,
    {
        proof {
            assert(matches@.take(i + 1).drop_last() =~= matches@.take(i as int));
            assert(matches@.take(i + 1).last() == matches@[i as int]);
        }
        match hit_id(&matches[i]) {
            Some(id) => {
                let mut known = false;
                let mut k: usize = 0;
                while k < ids.len()
                    invariant
                        k <= ids.len(),
                        known == exists|j: int| 0 <= j < k && views(ids@)[j] == id@,
                    decreases ids.len() - k,
                {
                    proof { assert(views(ids@)[k as int] == ids@[k as int]@); }
                    if str_eq(ids[k].as_str(), id.as_str()) {
                        known = true;
                    }
                    k = k + 1;
                }
                proof {
                    if known {
                        let j = choose|j: int| 0 <= j < ids.len() && views(ids@)[j] == id@;
                        assert(views(ids@).contains(id@));
                    } else {
                        assert(!views(ids@).contains(id@));
                    }
                }
                if !known {
                    let ghost before = ids@;
                    ids.push(id);
                    proof { assert(views(ids@) =~= views(before).push(views(ids@).last())); }
                }
            },
            None => {},
        }
        i = i + 1;
    }
    proof { assert(matches@.take(matches.len() as int) =~= matches@); }
    let mut out: Vec<UnreadChannel> = Vec::new();
    let mut g: usize = 0;
    while g < ids.len()
        invariant
            g <= ids.len(),
            matches@.len() <= u64::MAX,
            views(ids@) == hit_channels(matches@),
            out@.len() == g,
            forall|x: int| 0 <= x < g ==> {
                &&& (#[trigger] out@[x]).id@ == hit_channels(matches@)[x]
                &&& out@[x].unread_count == hit_count(matches@, out@[x].id@)
                &&& out@[x].name@ == first_hit_name(matches@, out@[x].id@)
                &&& out@[x].last_message_ts is None
            },
        decreases ids.len() - g,
    {
        proof { assert(views(ids@)[g as int] == ids@[g as int]@); }
        let id = ids[g].clone();
        let count = count_hits(matches, id.as_str());
        let name = first_name(matches, id.as_str());
        out.push(UnreadChannel { id, name, unread_count: count, last_message_ts: None });
        g = g + 1;
    }
    out
}

/// The output for one channel: in JSON and YAML the summary, with the messages, how many
/// are shown and whether they were cut unless only counts are asked for; in other formats
/// the summary when only counts are asked for, else the messages.
pub fn build_single_output(display_name: &str, channel_id: &str, total: u64, messages: Vec<Json>,
    count_only: bool, format: OutputFormat) -> (r: Json)
    ensures
        (format == OutputFormat::Json || format == OutputFormat::Yaml) ==> (if count_only {
            summary_ok(r, display_name@, channel_id@, total)
        } else {
            r is Object && r->Object_0@.len() == 6
                && r->Object_0@[0].0@ == "channel"@ && r->Object_0@[0].1 is Str && r->Object_0@[0].1->Str_0@ == display_name@
                && r->Object_0@[1].0@ == "channelId"@ && r->Object_0@[1].1 is Str && r->Object_0@[1].1->Str_0@ == channel_id@
                && r->Object_0@[2].0@ == "unreadCount"@ && r->Object_0@[2].1 == Json::Number(JsonNumber::UInt(total))
                && r->Object_0@[3].0@ == "messages"@ && r->Object_0@[3].1 == Json::Array(messages)
                && r->Object_0@[4].0@ == "displayedMessageCount"@ && r->Object_0@[4].1 == Json::Number(JsonNumber::UInt(messages@.len() as u64))
                && r->Object_0@[5].0@ == "isTruncated"@ && r->Object_0@[5].1 == Json::Bool(messages@.len() < total)
        }),
        !(format == OutputFormat::Json || format == OutputFormat::Yaml) ==> (if count_only {
            summary_ok(r, display_name@, channel_id@, total)
        } else {
            r == Json::Array(messages)
        }),
{
    let machine = format == OutputFormat::Json || format == OutputFormat::Yaml;
    if count_only || !machine {
        if count_only {
            return summary(display_name, channel_id, total);
        }
        return Json::Array(messages);
    }
    let shown = messages.len() as u64;
    let mut fields: Vec<(String, Json)> = Vec::new();
    fields.push(("channel".to_string(), Json::Str(display_name.to_string())));
    fields.push(("channelId".to_string(), Json::Str(channel_id.to_string())));
    fields.push(("unreadCount".to_string(), Json::Number(JsonNumber::UInt(total))));
    fields.push(("messages".to_string(), Json::Array(messages)));
    fields.push(("displayedMessageCount".to_string(), Json::Number(JsonNumber::UInt(shown))));
    fields.push(("isTruncated".to_string(), Json::Bool(shown < total)));
    Json::Object(fields)
}

/// The unread messages counted over the first `n` channels.
pub open spec fn total_unread(channels: Seq<UnreadChannel>, n: int) -> nat
    decreases n,
{
    if n <= 0 || channels.len() == 0 {
        0
    } else if n > channels.len() {
        total_unread(channels, channels.len() as int)
    } else {
        total_unread(channels, n - 1) + channels[n - 1].unread_count as nat
    }
}

/// What the all-channels view prints.
pub struct AllChannelsOutput {
    pub value: Json,
    /// `Total: <n> unread messages`, for the counts-only view in other formats than JSON
    /// and YAML.
    pub total_note: Option<u64>,
}

/// The first `limit` channels as summaries; with `--count-only` in JSON or YAML,
/// wrapped with their total, in other formats with the total as a note.
pub fn all_channels_output(channels: &Vec<UnreadChannel>, limit: usize, count_only: bool, format: OutputFormat)
    -> (r: AllChannelsOutput)
    requires
        total_unread(channels@, limit as int) <= u64::MAX,
    ensures
        ({
            let shown = if limit < channels@.len() { limit as int } else { channels@.len() as int };
            let machine = format == OutputFormat::Json || format == OutputFormat::Yaml;
            let rows_ok = |rows: Json| rows is Array && rows->Array_0@.len() == shown
                && forall|i: int| 0 <= i < shown ==> summary_ok(#[trigger] rows->Array_0@[i],
                    channels@[i].name@, channels@[i].id@, channels@[i].unread_count);
            &&& (count_only && machine) ==> (r.total_note is None && r.value is Object && r.value->Object_0@.len() == 2
                && r.value->Object_0@[0].0@ == "channels"@ && rows_ok(r.value->Object_0@[0].1)
                && r.value->Object_0@[1].0@ == "total"@
                && r.value->Object_0@[1].1 == Json::Number(JsonNumber::UInt(total_unread(channels@, limit as int) as u64)))
            &&& (count_only && !machine) ==> (rows_ok(r.value) && r.total_note == Some(total_unread(channels@, limit as int) as u64))
            &&& !count_only ==> (rows_ok(r.value) && r.total_note is None)
        }),
{
    let shown: usize = if limit < channels.len() { limit } else { channels.len() };
    let mut rows: Vec<Json> = Vec::new();
    let mut total: u64 = 0;
    let mut i: usize = 0;
    proof {
        if limit >= channels@.len() {
            assert(total_unread(channels@, limit as int) == total_unread(channels@, channels@.len() as int));
        }
    }
    while i < shown
        invariant
            i <= shown,
            shown == (if limit < channels@.len() { limit as int } else { channels@.len() as int }),
            total == total_unread(channels@, i as int),
            total_unread(channels@, shown as int) <= u64::MAX,
            rows@.len() == i,
            forall|k: int| 0 <= k < i ==> summary_ok(#[trigger] rows@[k], channels@[k].name@, channels@[k].id@, channels@[k].unread_count),
        decreases shown - i,
    {
        proof { lemma_total_monotone(channels@, i + 1, shown as int); }
        rows.push(channels[i].to_value());
        total = total + channels[i].unread_count;
        i = i + 1;
    }
    proof {
        if limit >= channels@.len() {
            assert(total_unread(channels@, limit as int) == total_unread(channels@, channels@.len() as int));
        }
    }
    let machine = format == OutputFormat::Json || format == OutputFormat::Yaml;
    if count_only && machine {
        let mut fields: Vec<(String, Json)> = Vec::new();
        fields.push(("channels".to_string(), Json::Array(rows)));
        fields.push(("total".to_string(), Json::Number(JsonNumber::UInt(total))));
        AllChannelsOutput { value: Json::Object(fields), total_note: None }
    } else if count_only {
        AllChannelsOutput { value: Json::Array(rows), total_note: Some(total) }
    } else {
        AllChannelsOutput { value: Json::Array(rows), total_note: None }
    }
}

proof fn lemma_total_monotone(channels: Seq<UnreadChannel>, a: int, b: int)
    requires
        0 <= a <= b <= channels.len(),
    ensures
        total_unread(channels, a) <= total_unread(channels, b),
    decreases b - a,
{
    if a < b {
        lemma_total_monotone(channels, a, b - 1);
    }
}

/// The unread count of a conversation, 0 when absent.
pub fn conversation_unread_count(detail: &Json) -> (r: u64)
    ensures
        r == match json_u64(json_get(*detail, "unread_count"@)) { Some(n) => n as u64, None => 0u64 },
{
    match detail.get("unread_count") {
        Some(v) => match v.as_u64() { Some(n) => n, None => 0 },
        None => 0,
    }
}

/// Whether a conversation must be looked up for its unread count: it has none.
pub fn needs_unread_lookup(conversation: &Json) -> (r: bool)
    ensures
        r == (json_get(*conversation, "unread_count"@) is None),
{
    conversation.get("unread_count").is_none()
}

/// One previewed message of a channel: the formatted timestamp, the author's name and
/// the text (or `(no text)`).
pub open spec fn unread_row_fields(message: Json, timestamp: Seq<char>, users: Seq<(String, String)>) -> Seq<(Seq<char>, Seq<char>)> {
    seq![
        ("timestamp"@, timestamp),
        ("author"@, crate::cli::history::username_text(message, users)),
        ("text"@, match str_field(message, "text"@) {
            Some(t) => if t.len() > 0 { t } else { crate::cli::history::NO_TEXT@ },
            None => crate::cli::history::NO_TEXT@,
        }),
    ]
}

/// A previewed message keeps its text: when its `text` is a non-empty string, the row's
/// `text` field is that string, and `(no text)` stands only for an absent or empty text.
/// The row has exactly one `text` field.
pub proof fn law_preview_keeps_the_text(message: Json, timestamp: Seq<char>, users: Seq<(String, String)>)
    ensures
        ({
            let f = unread_row_fields(message, timestamp, users);
            &&& exists|k: int| 0 <= k < f.len() && (#[trigger] f[k]).0 == "text"@
            &&& forall|k: int| 0 <= k < f.len() && (#[trigger] f[k]).0 == "text"@ ==> {
                &&& (str_field(message, "text"@) matches Some(t) && t.len() > 0) ==> f[k].1 == str_field(message, "text"@)->0
                &&& !(str_field(message, "text"@) matches Some(t) && t.len() > 0) ==> f[k].1 == crate::cli::history::NO_TEXT@
            }
        }),
{
    reveal_strlit("timestamp");
    reveal_strlit("author");
    reveal_strlit("text");
    let f = unread_row_fields(message, timestamp, users);
    assert(f[2].0 == "text"@);
    assert(f[0].0.len() != 4 && f[1].0.len() != 4);
}

/// The row of a previewed message; `timestamp` is its `ts` already formatted.
pub fn unread_message_row(message: &Json, timestamp: String, users: &Vec<(String, String)>) -> (r: Json)
    ensures
        crate::cli::draft::string_object(r, unread_row_fields(*message, timestamp@, users@)),
{
    let text = match message.str_field("text") {
        Some(t) => if t.is_empty() { crate::cli::history::NO_TEXT.to_string() } else { t.clone() },
        None => crate::cli::history::NO_TEXT.to_string(),
    };
    let mut fields: Vec<(String, Json)> = Vec::new();
    fields.push(("timestamp".to_string(), Json::Str(timestamp)));
    fields.push(("author".to_string(), Json::Str(crate::cli::history::resolve_username(message, users))));
    fields.push(("text".to_string(), Json::Str(text)));
    let r = Json::Object(fields);
    proof { assert(crate::cli::draft::string_object(r, unread_row_fields(*message, timestamp@, users@))); }
    r
}

/// The first `MESSAGE_PREVIEW_LIMIT` messages, in order, or all when there are fewer.
pub open spec fn preview_of(messages: Seq<Json>) -> Seq<Json> {
    if messages.len() <= MESSAGE_PREVIEW_LIMIT { messages } else { messages.take(MESSAGE_PREVIEW_LIMIT as int) }
}

/// The messages previewed for one channel.
pub fn preview_messages(mut messages: Vec<Json>) -> (r: Vec<Json>)
    ensures
        r@ == preview_of(messages@),
{
    let ghost all = messages@;
    if messages.len() > MESSAGE_PREVIEW_LIMIT {
        messages.truncate(MESSAGE_PREVIEW_LIMIT);
        proof { assert(messages@ =~= all.take(MESSAGE_PREVIEW_LIMIT as int)); }
    }
    messages
}

/// The view of one channel counts the messages of every history page, read with no
/// limit, and previews the first `MESSAGE_PREVIEW_LIMIT` of them in order: the preview
/// is cut exactly when there are more.
pub proof fn law_single_channel_counts_every_page(pages: Seq<Seq<Json>>)
    requires
        concat_pages(pages).len() <= u32::MAX,
    ensures
        ({
            let all = after_pages(pages, u32::MAX as nat);
            let shown = preview_of(all);
            &&& all == concat_pages(pages)
            &&& shown == all.take(shown.len() as int)
            &&& shown.len() == (if all.len() <= MESSAGE_PREVIEW_LIMIT { all.len() } else { MESSAGE_PREVIEW_LIMIT as nat })
            &&& (shown.len() < all.len()) == (all.len() > MESSAGE_PREVIEW_LIMIT)
        }),
{
    law_listing_is_the_pages_cut_at_the_limit(pages, u32::MAX as nat);
    let all = concat_pages(pages);
    if all.len() <= MESSAGE_PREVIEW_LIMIT {
        assert(all.take(all.len() as int) =~= all);
    }
}

/// The channels `--mark-read` marks in the all-channels view: every channel found, in
/// order, whatever `--limit` shows.
pub fn channels_to_mark(channels: &Vec<UnreadChannel>) -> (r: Vec<String>)
    ensures
        r@.len() == channels@.len(),
        forall|i: int| 0 <= i < r@.len() ==> #[trigger] r@[i]@ == channels@[i].id@,
{
    let mut ids: Vec<String> = Vec::new();
    let mut i: usize = 0;
    while i < channels.len()
        invariant
            i <= channels.len(),
            ids@.len() == i,
            forall|k: int| 0 <= k < i ==> #[trigger] ids@[k]@ == channels@[k].id@,
        decreases channels.len() - i,
    {
        ids.push(channels[i].id.clone());
        i = i + 1;
    }
    ids
}

/// Whether a conversation's detail has a non-zero unread count.
pub open spec fn is_unread_detail(detail: Json) -> bool {
    json_u64(json_get(detail, "unread_count"@)) matches Some(n) && n > 0
}

/// A conversation of the listing fallback counts as unread when its unread count (0 when
/// absent) is not zero.
pub fn counts_as_unread(detail: &Json) -> (r: bool)
    ensures
        r == is_unread_detail(*detail),
{
    conversation_unread_count(detail) > 0
}

/// The positions, in order, among the first `n` details of those that count as unread.
pub open spec fn unread_positions(details: Seq<Json>, n: int) -> Seq<usize>
    decreases n,
{
    if n <= 0 {
        Seq::empty()
    } else if is_unread_detail(details[n - 1]) {
        unread_positions(details, n - 1).push((n - 1) as usize)
    } else {
        unread_positions(details, n - 1)
    }
}

/// The conversations the listing fallback reports, given each one's detail (the listing
/// entry, or what was looked up for it): the positions of those with unread messages.
pub fn select_unread(details: &Vec<Json>) -> (r: Vec<usize>)
    ensures
        r@ == unread_positions(details@, details@.len() as int),
{
    let mut out: Vec<usize> = Vec::new();
    let mut i: usize = 0;
    while i < details.len()
        invariant
            i <= details.len(),
            out@ == unread_positions(details@, i as int),
        decreases details.len() - i,
    {
        if counts_as_unread(&details[i]) {
            out.push(i);
        }
        i = i + 1;
    }
    out
}

/// The listing fallback keeps the order of the listing, keeps every conversation with
/// unread messages, and nothing else.
pub proof fn law_unread_selection(details: Seq<Json>, n: int)
    requires
        0 <= n <= details.len(),
        details.len() <= usize::MAX,
    ensures
        ({
            let r = unread_positions(details, n);
            &&& forall|i: int, j: int| 0 <= i < j < r.len() ==> r[i] < r[j]
            &&& forall|i: int| 0 <= i < r.len() ==> #[trigger] r[i] < n && is_unread_detail(details[r[i] as int])
            &&& forall|k: int| 0 <= k < n && is_unread_detail(#[trigger] details[k])
                ==> exists|i: int| 0 <= i < r.len() && r[i] == k
        }),
    decreases n,
{
    if n > 0 {
        law_unread_selection(details, n - 1);
        let p = unread_positions(details, n - 1);
        let r = unread_positions(details, n);
        if is_unread_detail(details[n - 1]) {
            assert(r == p.push((n - 1) as usize));
            assert(r[p.len() as int] == n - 1);
            assert forall|i: int| 0 <= i < p.len() implies #[trigger] r[i] == p[i] && p[i] < n - 1 by {}
            assert forall|i: int, j: int| 0 <= i < j < r.len() implies r[i] < r[j] by {
                if j == p.len() {
                    assert(r[i] == p[i]);
                } else {
                    assert(r[i] == p[i] && r[j] == p[j]);
                }
            }
            assert forall|i: int| 0 <= i < r.len() implies #[trigger] r[i] < n && is_unread_detail(details[r[i] as int]) by {
                if i < p.len() {
                    assert(r[i] == p[i]);
                }
            }
            assert forall|k: int| 0 <= k < n && is_unread_detail(#[trigger] details[k])
                implies exists|i: int| 0 <= i < r.len() && r[i] == k by {
                if k == n - 1 {
                    assert(r[p.len() as int] == k);
                } else {
                    let i = choose|i: int| 0 <= i < p.len() && p[i] == k;
                    assert(r[i] == k);
                }
            }
        } else {
            assert(r == p);
            assert forall|k: int| 0 <= k < n && is_unread_detail(#[trigger] details[k])
                implies exists|i: int| 0 <= i < r.len() && r[i] == k by {
                assert(k < n - 1);
            }
        }
    }
}

} // verus!
