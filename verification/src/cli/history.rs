//! `history`: the messages of a channel or a thread.

use vstd::prelude::*;
use crate::cli::{parse_positive_int, positive_int, OutputFormat};
use crate::cli::send::{parse_local_datetime, schedule_known, validation_text};
use crate::common::{is_message_ts, message_ts_like};
use crate::error::SlackCliError;
use crate::json::{
    json_get, jview, jviews, jfields, push_field, lemma_jviews_index, str_field, Json, JsonNumber, JsonView,
};
use crate::cli::users::or_empty;
use crate::strings::{i64_to_string, join, join_strings, signed_decimal, str_eq, views};

verus! {

broadcast use vstd::string::group_string_axioms;

pub const DEFAULT_MESSAGE_COUNT: u32 = 10;
pub const MAX_MESSAGE_COUNT: u32 = 1000;
pub const CHANNEL_TYPES: &'static str = "public_channel,private_channel,im,mpim";
pub const NO_TEXT: &'static str = "(no text)";
pub const ERR_NUMBER_NOT_INT: &'static str = "--number must be a positive integer";
pub const ERR_NUMBER_RANGE: &'static str = "Message count must be between 1 and 1000";
pub const ERR_THREAD_TS: &'static str = "Invalid thread timestamp format";
pub const ERR_SINCE: &'static str = "Invalid date format. Use YYYY-MM-DD HH:MM:SS";
pub const WARN_NUMBER_IGNORED: &'static str = "Warning: --number is ignored when --thread is specified.";
pub const WARN_SINCE_IGNORED: &'static str = "Warning: --since is ignored when --thread is specified.";

pub struct HistoryCommand {
    pub channel: String,
    pub number: Option<String>,
    pub since: Option<String>,
    pub thread: Option<String>,
    pub with_link: bool,
}

/// The options in effect once the arguments are checked.
pub struct HistoryOptions {
    pub thread: Option<String>,
    pub limit: u32,
    /// `--since` as Unix seconds, in text.
    pub oldest: Option<String>,
    /// Warnings about flags that `--thread` overrides.
    pub warnings: Vec<&'static str>,
}

impl HistoryOptions {
    /// Checks the arguments. With `--thread`, `--number` and `--since` are not checked
    /// but reported as ignored; otherwise `--number` must lie in 1..=1000 and `--since`
    /// must be a date-time.
    pub fn from_command(cmd: &HistoryCommand) -> (r: Result<HistoryOptions, SlackCliError>)
        ensures
            cmd.thread matches Some(t) ==> (if message_ts_like(t@) {
                (r matches Ok(o) && (o.thread matches Some(x) && x@ == t@) && o.limit == DEFAULT_MESSAGE_COUNT && o.oldest is None
                    && views_static(o.warnings@) == (if cmd.number is Some { seq![WARN_NUMBER_IGNORED@] } else { Seq::empty() })
                        + (if cmd.since is Some { seq![WARN_SINCE_IGNORED@] } else { Seq::empty() }))
            } else {
                validation_text(r, ERR_THREAD_TS@)
            }),
            cmd.thread is None ==> match cmd.number {
                Some(n) => match positive_int(n@) {
                    None => validation_text(r, ERR_NUMBER_NOT_INT@),
                    Some(v) => if v > MAX_MESSAGE_COUNT { validation_text(r, ERR_NUMBER_RANGE@) } else {
                        (r matches Ok(o) ==> o.limit == v)
                    },
                },
                None => (r matches Ok(o) ==> o.limit == DEFAULT_MESSAGE_COUNT),
            },
            r matches Ok(o) ==> cmd.thread is None ==> (o.thread is None && o.warnings@.len() == 0 && match cmd.since {
                None => o.oldest is None,
                Some(s) => (o.oldest is Some && (schedule_known(s@) matches Some(Some(v)) ==> (o.oldest matches Some(x) && x@ == signed_decimal(v)))),
            }),
            (cmd.thread is None && (cmd.number matches Some(n) ==> (positive_int(n@) matches Some(v) && v <= MAX_MESSAGE_COUNT))
                && (cmd.since matches Some(s) ==> schedule_known(s@) matches Some(Some(_))))
                ==> (r matches Ok(o) && o.thread is None && o.warnings@.len() == 0
                    && o.limit == (match cmd.number { Some(n) => positive_int(n@)->0, None => DEFAULT_MESSAGE_COUNT as nat })
                    && match cmd.since {
                        None => o.oldest is None,
                        Some(s) => o.oldest matches Some(x) && x@ == signed_decimal(schedule_known(s@)->0->0),
                    }),
            cmd.since matches Some(s) ==> ((cmd.thread is None && schedule_known(s@) == Some(None::<int>)
                && (cmd.number matches Some(n) ==> (positive_int(n@) matches Some(v) && v <= MAX_MESSAGE_COUNT)))
                ==> validation_text(r, ERR_SINCE@)),
    {
        match &cmd.thread {
            Some(thread) => {
                if !is_message_ts(thread.as_str()) {
                    return Err(SlackCliError::Validation(ERR_THREAD_TS.to_string()));
                }
                let mut warnings: Vec<&'static str> = Vec::new();
                if cmd.number.is_some() {
                    warnings.push(WARN_NUMBER_IGNORED);
                }
                if cmd.since.is_some() {
                    warnings.push(WARN_SINCE_IGNORED);
                }
                proof {
                    assert(views_static(warnings@) =~= (if cmd.number is Some { seq![WARN_NUMBER_IGNORED@] } else { Seq::empty() })
                        + (if cmd.since is Some { seq![WARN_SINCE_IGNORED@] } else { Seq::empty() }));
                }
                return Ok(HistoryOptions { thread: Some(thread.clone()), limit: DEFAULT_MESSAGE_COUNT, oldest: None, warnings });
            },
            None => {},
        }
        let limit = match &cmd.number {
            None => DEFAULT_MESSAGE_COUNT,
            Some(raw) => {
                let parsed = parse_positive_int(raw.as_str(), ERR_NUMBER_NOT_INT)?;
                if parsed > MAX_MESSAGE_COUNT {
                    return Err(SlackCliError::Validation(ERR_NUMBER_RANGE.to_string()));
                }
                parsed
            },
        };
        let oldest = match &cmd.since {
            Some(raw) => Some(i64_to_string(parse_local_datetime(raw.as_str(), ERR_SINCE)?)),
            None => None,
        };
        Ok(HistoryOptions { thread: None, limit, oldest, warnings: Vec::new() })
    }
}

pub open spec fn views_static(v: Seq<&'static str>) -> Seq<Seq<char>> {
    v.map_values(|s: &'static str| s@)
}

/// The name shown for the author of a message: the resolved name of its user (or
/// `Unknown User`), `Bot` for a bot, else `Unknown`.
pub open spec fn username_text(message: Json, users: Seq<(String, String)>) -> Seq<char> {
    match str_field(message, "user"@) {
        Some(id) => match lookup_pair(users, id) { Some(n) => n, None => "Unknown User"@ },
        None => if str_field(message, "bot_id"@) is Some { "Bot"@ } else { "Unknown"@ },
    }
}

/// The value paired with the first `key`.
pub open spec fn lookup_pair(pairs: Seq<(String, String)>, key: Seq<char>) -> Option<Seq<char>>
    decreases pairs.len(),
{
    if pairs.len() == 0 {
        None
    } else if pairs[0].0@ == key {
        Some(pairs[0].1@)
    } else {
        lookup_pair(pairs.drop_first(), key)
    }
}

/// No key occurs twice, as in a map.
pub open spec fn distinct_keys(pairs: Seq<(String, String)>) -> bool {
    forall|i: int, j: int| 0 <= i < pairs.len() && 0 <= j < pairs.len() && i != j
        ==> (#[trigger] pairs[i]).0@ != (#[trigger] pairs[j]).0@
}

proof fn lemma_lookup_at(pairs: Seq<(String, String)>, key: Seq<char>, i: int)
    requires
        0 <= i < pairs.len(),
        pairs[i].0@ == key,
        forall|j: int| 0 <= j < i ==> (#[trigger] pairs[j]).0@ != key,
    ensures
        lookup_pair(pairs, key) == Some(pairs[i].1@),
    decreases i,
{
    if i > 0 {
        let rest = pairs.drop_first();
        assert(pairs[0].0@ != key);
        assert forall|j: int| 0 <= j < i - 1 implies (#[trigger] rest[j]).0@ != key by {
            assert(rest[j] == pairs[j + 1]);
        }
        lemma_lookup_at(rest, key, i - 1);
    }
}

proof fn lemma_lookup_update_other(pairs: Seq<(String, String)>, i: int, p: (String, String), key: Seq<char>)
    requires
        0 <= i < pairs.len(),
        pairs[i].0@ != key,
        p.0@ != key,
    ensures
        lookup_pair(pairs.update(i, p), key) == lookup_pair(pairs, key),
    decreases i,
{
    let u = pairs.update(i, p);
    if i > 0 {
        assert(u.drop_first() =~= pairs.drop_first().update(i - 1, p));
        lemma_lookup_update_other(pairs.drop_first(), i - 1, p, key);
    } else {
        assert(u.drop_first() =~= pairs.drop_first());
    }
}

proof fn lemma_lookup_push_other(pairs: Seq<(String, String)>, p: (String, String), key: Seq<char>)
    requires
        p.0@ != key,
    ensures
        lookup_pair(pairs.push(p), key) == lookup_pair(pairs, key),
    decreases pairs.len(),
{
    if pairs.len() > 0 {
        assert(pairs.push(p).drop_first() =~= pairs.drop_first().push(p));
        lemma_lookup_push_other(pairs.drop_first(), p, key);
    } else {
        assert(pairs.push(p).drop_first() =~= pairs);
    }
}

/// Sets `key` to `value` as a map does: a pair with that key takes the value in its
/// place; otherwise the pair is added at the end. No key is ever added twice.
pub fn insert_pair(pairs: &mut Vec<(String, String)>, key: String, value: String)
    ensures
        distinct_keys(old(pairs)@) ==> distinct_keys(final(pairs)@),
        forall|k: Seq<char>| #[trigger] lookup_pair(final(pairs)@, k)
            == (if k == key@ { Some(value@) } else { lookup_pair(old(pairs)@, k) }),
{
    let ghost before = pairs@;
    let mut i: usize = 0;
    while i < pairs.len()
        invariant
            i <= pairs.len(),
            pairs@ == before,
            before == old(pairs)@,
            forall|j: int| 0 <= j < i ==> (#[trigger] pairs@[j]).0@ != key@,
        decreases pairs.len() - i,
    {
        if str_eq(pairs[i].0.as_str(), key.as_str()) {
            let ghost kv = key@;
            let ghost vv = value@;
            pairs.set(i, (key, value));
            proof {
                let p = pairs@[i as int];
                assert(pairs@ == before.update(i as int, p));
                assert forall|k: Seq<char>| #[trigger] lookup_pair(pairs@, k)
                    == (if k == kv { Some(vv) } else { lookup_pair(before, k) }) by {
                    if k == kv {
                        assert forall|j: int| 0 <= j < i implies (#[trigger] pairs@[j]).0@ != k by {
                            assert(pairs@[j] == before[j]);
                        }
                        lemma_lookup_at(pairs@, k, i as int);
                    } else {
                        lemma_lookup_update_other(before, i as int, p, k);
                    }
                }
                assert forall|a: int, b: int| distinct_keys(before) && 0 <= a < pairs@.len() && 0 <= b < pairs@.len() && a != b
                    implies (#[trigger] pairs@[a]).0@ != (#[trigger] pairs@[b]).0@ by {
                    assert(before[a].0@ != before[b].0@);
                }
            }
            return;
        }
        i = i + 1;
    }
    let ghost kv = key@;
    let ghost vv = value@;
    pairs.push((key, value));
    proof {
        let p = pairs@[before.len() as int];
        assert(pairs@ == before.push(p));
        assert forall|k: Seq<char>| #[trigger] lookup_pair(pairs@, k)
            == (if k == kv { Some(vv) } else { lookup_pair(before, k) }) by {
            if k == kv {
                assert forall|j: int| 0 <= j < before.len() implies (#[trigger] pairs@[j]).0@ != k by {
                    assert(pairs@[j] == before[j]);
                }
                lemma_lookup_at(pairs@, k, before.len() as int);
            } else {
                lemma_lookup_push_other(before, p, k);
            }
        }
        assert forall|a: int, b: int| distinct_keys(before) && 0 <= a < pairs@.len() && 0 <= b < pairs@.len() && a != b
            implies (#[trigger] pairs@[a]).0@ != (#[trigger] pairs@[b]).0@ by {
            if a < before.len() && b < before.len() {
                assert(before[a].0@ != before[b].0@);
            } else if a < before.len() {
                assert(pairs@[a] == before[a]);
            } else {
                assert(pairs@[b] == before[b]);
            }
        }
    }
}

/// In pairs without a repeated key, looking up a pair's key finds that pair's value:
/// the pairs are a map.
pub proof fn law_lookup_finds_every_pair(pairs: Seq<(String, String)>, i: int)
    requires
        distinct_keys(pairs),
        0 <= i < pairs.len(),
    ensures
        lookup_pair(pairs, pairs[i].0@) == Some(pairs[i].1@),
{
    assert forall|j: int| 0 <= j < i implies (#[trigger] pairs[j]).0@ != pairs[i].0@ by {
        assert(pairs[j].0@ != pairs[i].0@);
    }
    lemma_lookup_at(pairs, pairs[i].0@, i);
}

pub fn find_pair(pairs: &Vec<(String, String)>, key: &str) -> (r: Option<String>)
    ensures
        match r {
            Some(v) => lookup_pair(pairs@, key@) == Some(v@),
            None => lookup_pair(pairs@, key@) is None,
        },
{
    let mut i: usize = 0;
    proof { assert(pairs@.skip(0) =~= pairs@); }
    while i < pairs.len()
        invariant
            i <= pairs.len(),
            lookup_pair(pairs@, key@) == lookup_pair(pairs@.skip(i as int), key@),
        decreases pairs.len() - i,
    {
        proof {
            assert(pairs@.skip(i as int).drop_first() =~= pairs@.skip(i + 1));
            assert(pairs@.skip(i as int)[0] == pairs@[i as int]);
        }
        if str_eq(pairs[i].0.as_str(), key) {
            return Some(pairs[i].1.clone());
        }
        i = i + 1;
    }
    proof { assert(pairs@.skip(i as int) =~= Seq::<(String, String)>::empty()); }
    None
}

pub fn resolve_username(message: &Json, users: &Vec<(String, String)>) -> (r: String)
    ensures
        r@ == username_text(*message, users@),
{
    match message.str_field("user") {
        Some(id) => match find_pair(users, id.as_str()) {
            Some(n) => n,
            None => "Unknown User".to_string(),
        },
        None => if message.str_field("bot_id").is_some() { "Bot".to_string() } else { "Unknown".to_string() },
    }
}

/// The distinct authors of the messages, in order of first appearance.
pub open spec fn author_list(messages: Seq<Json>) -> Seq<Seq<char>>
    decreases messages.len(),
{
    if messages.len() == 0 {
        Seq::empty()
    } else {
        let rest = author_list(messages.drop_last());
        match str_field(messages.last(), "user"@) {
            Some(id) => if rest.contains(id) { rest } else { rest.push(id) },
            None => rest,
        }
    }
}

pub fn collect_user_ids(messages: &Vec<Json>) -> (r: Vec<String>)
    ensures
        views(r@) == author_list(messages@),
{
    let mut ids: Vec<String> = Vec::new();
    let mut i: usize = 0;
    proof { assert(messages@.take(0) =~= Seq::<Json>::empty()); assert(views(ids@) =~= Seq::<Seq<char>>::empty()); }
    while i < messages.len()
        invariant
            i <= messages.len(),
            views(ids@) == author_list(messages@.take(i as int)),
        decreases messages.len() - i,
    {
        proof {
            assert(messages@.take(i + 1).drop_last() =~= messages@.take(i as int));
            assert(messages@.take(i + 1).last() == messages@[i as int]);
        }
        match messages[i].str_field("user") {
            Some(id) => {
                let mut known = false;
                let mut k: usize = 0;
                while k < ids.len()
                    invariant
                        k <= ids.len(),
                        known == exists|j: int| 0 <= j < k && views(ids@)[j] == id@,
                    decreases ids.len() - k,
                {
                    proof { assert(views(ids@)[k as int] == ids@[k as int]@); }
                    if str_eq(ids[k].as_str(), id.as_str()) {
                        known = true;
                    }
                    k = k + 1;
                }
                proof {
                    if known {
                        let j = choose|j: int| 0 <= j < ids.len() && views(ids@)[j] == id@;
                        assert(views(ids@).contains(id@));
                    } else {
                        assert(!views(ids@).contains(id@));
                    }
                }
                if !known {
                    let ghost before = ids@;
                    ids.push(id.clone());
                    proof { assert(views(ids@) =~= views(before).push(id@)); }
                }
            },
            None => {},
        }
        i = i + 1;
    }
    proof { assert(messages@.take(messages.len() as int) =~= messages@); }
    ids
}

/// The name a `users.info` answer gives: `name`, else the profile's `display_name`,
/// else its `real_name`, the first that is present and not empty.
pub open spec fn user_name_of(user: Json) -> Option<Seq<char>> {
    let profile = json_get(user, "profile"@);
    crate::cli::search::first_present(seq![
        str_field(user, "name"@),
        match profile { Some(p) => str_field(p, "display_name"@), None => None },
        match profile { Some(p) => str_field(p, "real_name"@), None => None },
    ])
}

pub fn user_display_name(user: &Json) -> (r: Option<String>)
    ensures
        match r {
            Some(n) => user_name_of(*user) == Some(n@),
            None => user_name_of(*user) is None,
        },
{
    let profile = user.get("profile");
    let display = match profile { Some(p) => p.str_field("display_name"), None => None };
    let real_name = match profile { Some(p) => p.str_field("real_name"), None => None };
    proof {
        reveal_with_fuel(crate::cli::search::first_present, 4);
    }
    match user.str_field("name") {
        Some(n) => if !n.is_empty() { return Some(n.clone()); },
        None => {},
    }
    match display {
        Some(n) => if !n.is_empty() { return Some(n.clone()); },
        None => {},
    }
    match real_name {
        Some(n) => if !n.is_empty() { return Some(n.clone()); },
        None => {},
    }
    proof {
        let s = seq![str_field(*user, "name"@), crate::cli::search::opt(display), crate::cli::search::opt(real_name)];
        assert(s.drop_first().drop_first().drop_first() =~= Seq::<Option<Seq<char>>>::empty());
    }
    None
}

/// A value as it is, `null` when absent.
pub open spec fn view_or_null(v: Option<Json>) -> JsonView {
    match v {
        Some(x) => jview(x),
        None => JsonView::Null,
    }
}

/// A value as it is, the empty text when absent.
pub open spec fn view_or_empty(v: Option<Json>) -> JsonView {
    match v {
        Some(x) => jview(x),
        None => JsonView::Str(Seq::empty()),
    }
}

/// Where a file can be fetched: the first of `url_private_download`, `url_private` and
/// `permalink` that is a text.
pub open spec fn file_url(file: Json) -> Option<Seq<char>> {
    match str_field(file, "url_private_download"@) {
        Some(u) => Some(u),
        None => match str_field(file, "url_private"@) {
            Some(u) => Some(u),
            None => str_field(file, "permalink"@),
        },
    }
}

/// The summary of an attached file.
pub open spec fn file_view(file: Json) -> JsonView {
    JsonView::Object(seq![
        ("id"@, view_or_null(json_get(file, "id"@))),
        ("name"@, view_or_null(json_get(file, "name"@))),
        ("mimetype"@, view_or_null(json_get(file, "mimetype"@))),
        ("filetype"@, view_or_null(json_get(file, "filetype"@))),
        ("size"@, view_or_null(json_get(file, "size"@))),
        ("url"@, match file_url(file) { Some(u) => JsonView::Str(u), None => JsonView::Null }),
    ])
}

/// The summaries of a message's files (none when it has no `files` array).
pub open spec fn file_views(message: Json) -> Seq<JsonView> {
    match json_get(message, "files"@) {
        Some(Json::Array(files)) => files@.map_values(|f: Json| file_view(f)),
        _ => Seq::empty(),
    }
}

fn copy_or_null(v: Option<&Json>) -> (r: Json)
    ensures
        jview(r) == view_or_null(match v { Some(x) => Some(*x), None => None }),
{
    match v {
        Some(x) => x.deep_clone(),
        None => Json::Null,
    }
}

pub fn file_value(file: &Json) -> (r: Json)
    ensures
        jview(r) == file_view(*file),
{
    let url = match file.str_field("url_private_download") {
        Some(u) => Some(u.clone()),
        None => match file.str_field("url_private") {
            Some(u) => Some(u.clone()),
            None => match file.str_field("permalink") {
                Some(u) => Some(u.clone()),
                None => None,
            },
        },
    };
    let mut fields: Vec<(String, Json)> = Vec::new();
    push_field(&mut fields, "id", copy_or_null(file.get("id")));
    push_field(&mut fields, "name", copy_or_null(file.get("name")));
    push_field(&mut fields, "mimetype", copy_or_null(file.get("mimetype")));
    push_field(&mut fields, "filetype", copy_or_null(file.get("filetype")));
    push_field(&mut fields, "size", copy_or_null(file.get("size")));
    push_field(&mut fields, "url", match url { Some(u) => Json::Str(u), None => Json::Null });
    proof {
        assert(jfields(Seq::<(String, Json)>::empty(), 0) =~= Seq::<(Seq<char>, JsonView)>::empty());
    }
    let r = Json::Object(fields);
    proof {
        match file_view(*file) {
            JsonView::Object(want) => { assert(jfields(fields@, fields@.len() as int) =~= want); },
            _ => {},
        }
    }
    r
}

/// The summaries of a message's files.
pub fn file_values(message: &Json) -> (r: Vec<Json>)
    ensures
        r@.len() == file_views(*message).len(),
        forall|k: int| 0 <= k < r@.len() ==> jview(#[trigger] r@[k]) == file_views(*message)[k],
{
    let mut out: Vec<Json> = Vec::new();
    match message.get("files") {
        Some(Json::Array(files)) => {
            let mut i: usize = 0;
            while i < files.len()
                invariant
                    i <= files.len(),
                    out@.len() == i,
                    forall|k: int| 0 <= k < i ==> jview(#[trigger] out@[k]) == file_view(files@[k]),
                decreases files.len() - i,
            {
                out.push(file_value(&files[i]));
                i = i + 1;
            }
        },
        _ => {},
    }
    out
}

/// The message as `history` shows it: `ts`, the formatted `timestamp`, the author's
/// name, the author's ID when there is one, the text (or `(no text)`), `thread_ts` and
/// `reply_count` when present, the files when there are any, and the permalink when one
/// was fetched for this `ts`.
pub open spec fn message_fields(message: Json, timestamp: Seq<char>, users: Seq<(String, String)>,
    permalinks: Seq<(String, String)>) -> Seq<(Seq<char>, JsonView)>
{
    let ts = or_empty(str_field(message, "ts"@));
    let s0 = seq![
        ("ts"@, JsonView::Str(ts)),
        ("timestamp"@, JsonView::Str(timestamp)),
        ("user"@, JsonView::Str(username_text(message, users))),
    ];
    let s1 = match str_field(message, "user"@) {
        Some(id) => s0.push(("user_id"@, JsonView::Str(id))),
        None => s0,
    };
    let text = match str_field(message, "text"@) {
        Some(t) => if t.len() > 0 { t } else { NO_TEXT@ },
        None => NO_TEXT@,
    };
    let s2 = s1.push(("text"@, JsonView::Str(text)));
    let s3 = match json_get(message, "thread_ts"@) {
        Some(v) => if v is Null { s2 } else { s2.push(("thread_ts"@, jview(v))) },
        None => s2,
    };
    let s4 = match json_get(message, "reply_count"@) {
        Some(v) => if v is Null { s3 } else { s3.push(("reply_count"@, jview(v))) },
        None => s3,
    };
    let s5 = if file_views(message).len() > 0 { s4.push(("files"@, JsonView::Array(file_views(message)))) } else { s4 };
    match lookup_pair(permalinks, ts) {
        Some(link) => s5.push(("permalink"@, JsonView::Str(link))),
        None => s5,
    }
}

/// A message keeps its text in the history: when its `text` is a non-empty string, the
/// value's `text` field is that string, and `(no text)` stands only for an absent or
/// empty text. The value has exactly one `text` field.
pub proof fn law_history_keeps_the_text(message: Json, timestamp: Seq<char>, users: Seq<(String, String)>,
    permalinks: Seq<(String, String)>)
    ensures
        ({
            let f = message_fields(message, timestamp, users, permalinks);
            &&& exists|k: int| 0 <= k < f.len() && (#[trigger] f[k]).0 == "text"@
            &&& forall|k: int| 0 <= k < f.len() && (#[trigger] f[k]).0 == "text"@ ==> {
                &&& (str_field(message, "text"@) matches Some(t) && t.len() > 0) ==> f[k].1 == JsonView::Str(str_field(message, "text"@)->0)
                &&& !(str_field(message, "text"@) matches Some(t) && t.len() > 0) ==> f[k].1 == JsonView::Str(NO_TEXT@)
            }
        }),
{
    reveal_strlit("ts");
    reveal_strlit("timestamp");
    reveal_strlit("user");
    reveal_strlit("user_id");
    reveal_strlit("text");
    reveal_strlit("thread_ts");
    reveal_strlit("reply_count");
    reveal_strlit("files");
    reveal_strlit("permalink");
    assert("user"@[0] != "text"@[0]);
    assert("ts"@.len() != "text"@.len());
    let f = message_fields(message, timestamp, users, permalinks);
    let ts = or_empty(str_field(message, "ts"@));
    let s0 = seq![
        ("ts"@, JsonView::Str(ts)),
        ("timestamp"@, JsonView::Str(timestamp)),
        ("user"@, JsonView::Str(username_text(message, users))),
    ];
    let s1 = match str_field(message, "user"@) {
        Some(id) => s0.push(("user_id"@, JsonView::Str(id))),
        None => s0,
    };
    let n = s1.len() as int;
    assert(f[n].0 == "text"@);
    assert forall|k: int| 0 <= k < f.len() && k != n implies (#[trigger] f[k]).0 != "text"@ by {
        if k < 3 {
            assert(f[k] == s0[k]);
        } else if k < n {
            assert(f[k].0 == "user_id"@);
        } else {
            assert(f[k].0 == "thread_ts"@ || f[k].0 == "reply_count"@ || f[k].0 == "files"@ || f[k].0 == "permalink"@);
        }
    }
}

/// One message of the history; `timestamp` is its `ts` already formatted, `users` maps
/// user IDs to names and `permalinks` message timestamps to links.
pub fn message_value(message: &Json, timestamp: String, users: &Vec<(String, String)>,
    permalinks: &Vec<(String, String)>) -> (r: Json)
    ensures
        jview(r) == JsonView::Object(message_fields(*message, timestamp@, users@, permalinks@)),
{
    let ts = match message.str_field("ts") { Some(t) => t.clone(), None => String::new() };
    let ghost want = message_fields(*message, timestamp@, users@, permalinks@);
    let ghost tsv = ts@;
    let mut fields: Vec<(String, Json)> = Vec::new();
    proof { assert(jfields(fields@, 0) =~= Seq::<(Seq<char>, JsonView)>::empty()); }
    push_field(&mut fields, "ts", Json::Str(ts.clone()));
    push_field(&mut fields, "timestamp", Json::Str(timestamp));
    push_field(&mut fields, "user", Json::Str(resolve_username(message, users)));
    match message.str_field("user") {
        Some(id) => push_field(&mut fields, "user_id", Json::Str(id.clone())),
        None => {},
    }
    let text = match message.str_field("text") {
        Some(t) => if t.is_empty() { NO_TEXT.to_string() } else { t.clone() },
        None => NO_TEXT.to_string(),
    };
    push_field(&mut fields, "text", Json::Str(text));
    match message.get("thread_ts") {
        Some(v) => match v {
            Json::Null => {},
            _ => push_field(&mut fields, "thread_ts", v.deep_clone()),
        },
        None => {},
    }
    match message.get("reply_count") {
        Some(v) => match v {
            Json::Null => {},
            _ => push_field(&mut fields, "reply_count", v.deep_clone()),
        },
        None => {},
    }
    let files = file_values(message);
    if files.len() > 0 {
        let ghost fv = files@;
        proof {
            lemma_jviews_index(fv, fv.len() as int);
            assert(jviews(fv, fv.len() as int) =~= file_views(*message));
        }
        push_field(&mut fields, "files", Json::Array(files));
    }
    match find_pair(permalinks, ts.as_str()) {
        Some(link) => push_field(&mut fields, "permalink", Json::Str(link)),
        None => {},
    }
    proof {
        assert(jfields(fields@, fields@.len() as int) =~= want);
    }
    Json::Object(fields)
}

/// The texts among the `name`s of some files, in order.
pub open spec fn file_names(files: Seq<Json>) -> Seq<Seq<char>>
    decreases files.len(),
{
    if files.len() == 0 {
        Seq::empty()
    } else {
        match str_field(files.last(), "name"@) {
            Some(n) => file_names(files.drop_last()).push(n),
            None => file_names(files.drop_last()),
        }
    }
}

/// The flat row of a message for tables and CSV: `timestamp`, `user`, `text` and `ts`
/// (empty when absent), the file names joined with `, ` when the message has files, and
/// the permalink when it has one.
pub open spec fn row_fields(message: Json) -> Seq<(Seq<char>, JsonView)> {
    let s0 = seq![
        ("timestamp"@, view_or_empty(json_get(message, "timestamp"@))),
        ("user"@, view_or_empty(json_get(message, "user"@))),
        ("text"@, view_or_empty(json_get(message, "text"@))),
        ("ts"@, view_or_empty(json_get(message, "ts"@))),
    ];
    let s1 = match json_get(message, "files"@) {
        Some(Json::Array(files)) => s0.push(("files"@, JsonView::Str(join(file_names(files@), ", "@)))),
        _ => s0,
    };
    match json_get(message, "permalink"@) {
        Some(link) => s1.push(("permalink"@, jview(link))),
        None => s1,
    }
}

fn copy_or_empty(v: Option<&Json>) -> (r: Json)
    ensures
        jview(r) == view_or_empty(match v { Some(x) => Some(*x), None => None }),
{
    match v {
        Some(x) => x.deep_clone(),
        None => Json::Str(String::new()),
    }
}

pub fn tabular_row(message: &Json) -> (r: Json)
    ensures
        jview(r) == JsonView::Object(row_fields(*message)),
{
    let ghost want = row_fields(*message);
    let mut fields: Vec<(String, Json)> = Vec::new();
    proof { assert(jfields(fields@, 0) =~= Seq::<(Seq<char>, JsonView)>::empty()); }
    push_field(&mut fields, "timestamp", copy_or_empty(message.get("timestamp")));
    push_field(&mut fields, "user", copy_or_empty(message.get("user")));
    push_field(&mut fields, "text", copy_or_empty(message.get("text")));
    push_field(&mut fields, "ts", copy_or_empty(message.get("ts")));
    match message.get("files") {
        Some(Json::Array(files)) => {
            let mut names: Vec<String> = Vec::new();
            let mut i: usize = 0;
            proof { assert(files@.take(0) =~= Seq::<Json>::empty()); assert(views(names@) =~= Seq::<Seq<char>>::empty()); }
            while i < files.len()
                invariant
                    i <= files.len(),
                    views(names@) == file_names(files@.take(i as int)),
                decreases files.len() - i,
            {
                proof {
                    assert(files@.take(i + 1).drop_last() =~= files@.take(i as int));
                    assert(files@.take(i + 1).last() == files@[i as int]);
                }
                match files[i].str_field("name") {
                    Some(n) => {
                        let ghost before = names@;
                        names.push(n.clone());
                        proof { assert(views(names@) =~= views(before).push(n@)); }
                    },
                    None => {},
                }
                i = i + 1;
            }
            proof { assert(files@.take(files.len() as int) =~= files@); }
            push_field(&mut fields, "files", Json::Str(join_strings(&names, ", ")));
        },
        _ => {},
    }
    match message.get("permalink") {
        Some(link) => push_field(&mut fields, "permalink", link.deep_clone()),
        None => {},
    }
    proof {
        assert(jfields(fields@, fields@.len() as int) =~= want);
    }
    Json::Object(fields)
}

/// The output of `history`: `{channel, messages, total}` for JSON and YAML, one flat row
/// per message otherwise.
pub fn build_output(channel: &str, messages: Vec<Json>, format: OutputFormat) -> (r: Json)
    ensures
        (format == OutputFormat::Json || format == OutputFormat::Yaml) ==> (r is Object && r->Object_0@.len() == 3
            && r->Object_0@[0].0@ == "channel"@ && r->Object_0@[0].1 is Str && r->Object_0@[0].1->Str_0@ == channel@
            && r->Object_0@[1].0@ == "messages"@ && r->Object_0@[1].1 == Json::Array(messages)
            && r->Object_0@[2].0@ == "total"@ && r->Object_0@[2].1 == Json::Number(JsonNumber::UInt(messages@.len() as u64))),
        !(format == OutputFormat::Json || format == OutputFormat::Yaml) ==> (r is Array && r->Array_0@.len() == messages@.len()
            && forall|i: int| 0 <= i < messages@.len() ==> jview(#[trigger] r->Array_0@[i]) == JsonView::Object(row_fields(messages@[i]))),
{
    if format == OutputFormat::Json || format == OutputFormat::Yaml {
        let total = messages.len() as u64;
        let mut fields: Vec<(String, Json)> = Vec::new();
        fields.push(("channel".to_string(), Json::Str(channel.to_string())));
        fields.push(("messages".to_string(), Json::Array(messages)));
        fields.push(("total".to_string(), Json::Number(JsonNumber::UInt(total))));
        Json::Object(fields)
    } else {
        let mut rows: Vec<Json> = Vec::new();
        let mut i: usize = 0;
        while i < messages.len()
            invariant
                i <= messages.len(),
                rows@.len() == i,
                forall|k: int| 0 <= k < i ==> jview(#[trigger] rows@[k]) == JsonView::Object(row_fields(messages@[k])),
            decreases messages.len() - i,
        {
            rows.push(tabular_row(&messages[i]));
            i = i + 1;
        }
        Json::Array(rows)
    }
}

} // verus!
