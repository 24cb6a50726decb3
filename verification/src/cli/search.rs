//! `search`: messages across the workspace.

use vstd::prelude::*;

use crate::error::SlackCliError;
use crate::json::{json_get, json_u64, str_field, Json, JsonNumber};
use crate::cli::OutputFormat;
use crate::cli::draft::string_object;
use crate::sanitize::{sanitize_terminal, sanitize_terminal_text};
use crate::strings::{
    join, parse_i64, parse_i64_spec, push_decimal, push_signed_decimal, signed_decimal, decimal, str_eq, trim, trimmed,
};

verus! {

broadcast use vstd::string::group_string_axioms;

pub const DEFAULT_SORT: &'static str = "score";
pub const DEFAULT_SORT_DIR: &'static str = "desc";
pub const DEFAULT_COUNT: u32 = 20;
pub const DEFAULT_PAGE: u32 = 1;
pub const COUNT_MIN: i64 = 1;
pub const COUNT_MAX: i64 = 100;
pub const PAGE_MIN: i64 = 1;
pub const PAGE_MAX: i64 = 100;
pub const API_METHOD: &'static str = "search.messages";
pub const MSG_NO_MESSAGES: &'static str = "No messages found";
pub const NO_TEXT: &'static str = "(no text)";
pub const UNKNOWN_CHANNEL: &'static str = "unknown";
pub const UNKNOWN_USER: &'static str = "Unknown";

pub struct SearchCommand {
    pub query: String,
    pub sort: String,
    pub sort_dir: String,
    pub number: Option<String>,
    pub page: Option<String>,
}

/// The values `--sort` accepts.
pub fn sort_values() -> (r: Vec<&'static str>)
    ensures
        r@.len() == 2 && r@[0]@ == "score"@ && r@[1]@ == "timestamp"@,
{
    let mut v: Vec<&'static str> = Vec::new();
    v.push("score");
    v.push("timestamp");
    v
}

/// The values `--sort-dir` accepts.
pub fn sort_dir_values() -> (r: Vec<&'static str>)
    ensures
        r@.len() == 2 && r@[0]@ == "asc"@ && r@[1]@ == "desc"@,
{
    let mut v: Vec<&'static str> = Vec::new();
    v.push("asc");
    v.push("desc");
    v
}

pub open spec fn strs(v: Seq<&'static str>) -> Seq<Seq<char>> {
    v.map_values(|s: &'static str| s@)
}

/// `Invalid <label> '<raw>'. Must be one of: <allowed, comma-separated>`.
pub open spec fn not_one_of_text(raw: Seq<char>, allowed: Seq<Seq<char>>, label: Seq<char>) -> Seq<char> {
    "Invalid "@ + label + " '"@ + raw + "'. Must be one of: "@ + join(allowed, ", "@)
}

/// `raw` when it is one of `allowed`; otherwise an error listing them.
pub fn validate_one_of(raw: &str, allowed: &Vec<&'static str>, label: &str) -> (r: Result<String, SlackCliError>)
    ensures
        strs(allowed@).contains(raw@) ==> (r matches Ok(v) && v@ == raw@),
        !strs(allowed@).contains(raw@) ==> (r matches Err(e) && e matches SlackCliError::Validation(m)
            && m@ == not_one_of_text(raw@, strs(allowed@), label@)),
{
    let mut i: usize = 0;
    while i < allowed.len()
        invariant
            i <= allowed.len(),
            forall|k: int| 0 <= k < i ==> #[trigger] strs(allowed@)[k] != raw@,
        decreases allowed.len() - i,
    {
        if str_eq(allowed[i], raw) {
            proof { assert(strs(allowed@)[i as int] == raw@); }
            return Ok(raw.to_string());
        }
        i = i + 1;
    }
    let mut names: Vec<String> = Vec::new();
    let mut j: usize = 0;
    while j < allowed.len()
        invariant
            j <= allowed.len(),
            names@.len() == j,
            forall|k: int| 0 <= k < j ==> #[trigger] names@[k]@ == allowed@[k]@,
        decreases allowed.len() - j,
    {
        names.push(allowed[j].to_string());
        j = j + 1;
    }
    proof {
        assert(crate::strings::views(names@) =~= strs(allowed@));
    }
    let mut m = "Invalid ".to_string();
    m.push_str(label);
    m.push_str(" '");
    m.push_str(raw);
    m.push_str("'. Must be one of: ");
    m.push_str(crate::strings::join_strings(&names, ", ").as_str());
    Err(SlackCliError::Validation(m))
}

/// The value of `--number` / `--page`: the default when absent; otherwise an integer
/// (surrounding whitespace allowed) between `min` and `max`.
/// Why a bounded number was refused.
pub enum BoundError {
    NotANumber,
    TooSmall,
    TooLarge,
}

pub open spec fn bounded_value(raw: Option<Seq<char>>, default: u32, min: int, max: int) -> Result<int, BoundError> {
    match raw {
        None => Ok(default as int),
        Some(r) => match parse_i64_spec(trim(r)) {
            None => Err(BoundError::NotANumber),
            Some(n) => if n < min { Err(BoundError::TooSmall) } else if n > max { Err(BoundError::TooLarge) } else { Ok(n) },
        },
    }
}

pub fn parse_bounded(raw: Option<&str>, default: u32, min: i64, max: i64, label: &str) -> (r: Result<u32, SlackCliError>)
    requires
        0 <= min <= max <= u32::MAX,
    ensures
        match bounded_value(match raw { Some(s) => Some(s@), None => None }, default, min as int, max as int) {
            Ok(n) => r matches Ok(v) && v == n,
            Err(BoundError::NotANumber) => r matches Err(e) && e matches SlackCliError::Validation(m) && m@ == label@ + " must be a number"@,
            Err(BoundError::TooSmall) => r matches Err(e) && e matches SlackCliError::Validation(m) && m@ == label@ + " must be at least "@ + signed_decimal(min as int),
            Err(BoundError::TooLarge) => r matches Err(e) && e matches SlackCliError::Validation(m) && m@ == label@ + " must be at most "@ + signed_decimal(max as int),
        },
{
    let raw = match raw {
        None => return Ok(default),
        Some(r) => r,
    };
    let t = trimmed(raw);
    let parsed = match parse_i64(t.as_str()) {
        Some(n) => n,
        None => {
            let mut m = label.to_string();
            m.push_str(" must be a number");
            return Err(SlackCliError::Validation(m));
        },
    };
    if parsed < min {
        let mut m = label.to_string();
        m.push_str(" must be at least ");
        push_signed_decimal(&mut m, min);
        return Err(SlackCliError::Validation(m));
    }
    if parsed > max {
        let mut m = label.to_string();
        m.push_str(" must be at most ");
        push_signed_decimal(&mut m, max);
        return Err(SlackCliError::Validation(m));
    }
    Ok(parsed as u32)
}

/// The first candidate that is present and not empty.
pub open spec fn first_present(candidates: Seq<Option<Seq<char>>>) -> Option<Seq<char>>
    decreases candidates.len(),
{
    if candidates.len() == 0 {
        None
    } else {
        match candidates[0] {
            Some(v) if v.len() > 0 => Some(v),
            _ => first_present(candidates.drop_first()),
        }
    }
}

/// The first of two optional texts that is present and not empty.
pub fn first_non_empty(a: Option<&String>, b: Option<&String>) -> (r: Option<String>)
    ensures
        match r {
            Some(v) => first_present(seq![opt(a), opt(b)]) == Some(v@),
            None => first_present(seq![opt(a), opt(b)]) is None,
        },
{
    proof {
        reveal_with_fuel(first_present, 3);
        assert(seq![opt(a), opt(b)].drop_first() =~= seq![opt(b)]);
        assert(seq![opt(b)].drop_first() =~= Seq::<Option<Seq<char>>>::empty());
    }
    match a {
        Some(s) if !s.is_empty() => return Some(s.clone()),
        _ => {},
    }
    match b {
        Some(s) if !s.is_empty() => Some(s.clone()),
        _ => None,
    }
}

pub open spec fn opt(s: Option<&String>) -> Option<Seq<char>> {
    match s { Some(v) => Some(v@), None => None }
}

pub open spec fn or_text(v: Option<Seq<char>>, fallback: Seq<char>) -> Seq<char> {
    match v { Some(x) => x, None => fallback }
}

/// One match as printed: channel (name, else ID, else `unknown`), username (else user,
/// else `Unknown`), the formatted timestamp, text (else `(no text)`) and permalink.
pub open spec fn match_row_fields(item: Json, timestamp: Seq<char>) -> Seq<(Seq<char>, Seq<char>)> {
    let channel = json_get(item, "channel"@);
    let ch_name = match channel { Some(c) => str_field(c, "name"@), None => None };
    let ch_id = match channel { Some(c) => str_field(c, "id"@), None => None };
    seq![
        ("channel"@, sanitize_terminal(or_text(first_present(seq![ch_name, ch_id]), UNKNOWN_CHANNEL@))),
        ("username"@, sanitize_terminal(or_text(first_present(seq![str_field(item, "username"@), str_field(item, "user"@)]), UNKNOWN_USER@))),
        ("timestamp"@, timestamp),
        ("text"@, sanitize_terminal(or_text(first_present(seq![str_field(item, "text"@)]), NO_TEXT@))),
        ("permalink"@, sanitize_terminal(or_text(first_present(seq![str_field(item, "permalink"@)]), Seq::empty()))),
    ]
}

/// The row of one match; `timestamp` is its `ts` already formatted (empty when absent).
pub fn transform_match(item: &Json, timestamp: String) -> (r: Json)
    ensures
        crate::cli::draft::string_object(r, match_row_fields(*item, timestamp@)),
{
    let channel = item.get("channel");
    let (name, id) = match channel {
        Some(c) => (c.str_field("name"), c.str_field("id")),
        None => (None, None),
    };
    let channel_label = match first_non_empty(name, id) { Some(v) => v, None => UNKNOWN_CHANNEL.to_string() };
    let username = match first_non_empty(item.str_field("username"), item.str_field("user")) {
        Some(v) => v,
        None => UNKNOWN_USER.to_string(),
    };
    let text = match first_non_empty(item.str_field("text"), None) { Some(v) => v, None => NO_TEXT.to_string() };
    let permalink = match first_non_empty(item.str_field("permalink"), None) { Some(v) => v, None => String::new() };
    proof {
        reveal_with_fuel(first_present, 3);
        assert(seq![str_field(*item, "text"@), opt(None)].drop_first() =~= seq![opt(None)]);
        assert(seq![str_field(*item, "text"@)].drop_first() =~= Seq::<Option<Seq<char>>>::empty());
        assert(seq![str_field(*item, "permalink"@)].drop_first() =~= Seq::<Option<Seq<char>>>::empty());
        assert(seq![str_field(*item, "permalink"@), opt(None)].drop_first() =~= seq![opt(None)]);
        assert(seq![opt(None)].drop_first() =~= Seq::<Option<Seq<char>>>::empty());
    }
    let mut fields: Vec<(String, Json)> = Vec::new();
    fields.push(("channel".to_string(), Json::Str(sanitize_terminal_text(channel_label.as_str()))));
    fields.push(("username".to_string(), Json::Str(sanitize_terminal_text(username.as_str()))));
    fields.push(("timestamp".to_string(), Json::Str(timestamp)));
    fields.push(("text".to_string(), Json::Str(sanitize_terminal_text(text.as_str()))));
    fields.push(("permalink".to_string(), Json::Str(sanitize_terminal_text(permalink.as_str()))));
    Json::Object(fields)
}

/// A number of the pagination block, or the fallback.
pub open spec fn number_or(pagination: Option<Json>, key: Seq<char>, fallback: nat) -> nat {
    match pagination {
        Some(p) => match json_u64(json_get(p, key)) { Some(n) => n, None => fallback },
        None => fallback,
    }
}

pub fn pagination_number(pagination: Option<&Json>, key: &str, fallback: u64) -> (r: u64)
    ensures
        r as nat == number_or(match pagination { Some(p) => Some(*p), None => None }, key@, fallback as nat),
{
    match pagination {
        Some(p) => match p.get(key) {
            Some(v) => match v.as_u64() { Some(n) => n, None => fallback },
            None => fallback,
        },
        None => fallback,
    }
}

/// The notes printed beside row formats: the heading, then `No messages found`, or the
/// page (when there are several) and how many are displayed.
pub open spec fn notes_text(query: Seq<char>, total: nat, page: nat, page_count: nat, shown: nat) -> Seq<Seq<char>> {
    let head = "Search results for \""@ + query + "\" ("@ + decimal(total) + " matches)"@;
    if shown == 0 {
        seq![head, MSG_NO_MESSAGES@]
    } else {
        let with_page = if page_count > 1 { seq![head, "Page "@ + decimal(page) + "/"@ + decimal(page_count)] } else { seq![head] };
        with_page.push("Displayed "@ + decimal(shown) + " of "@ + decimal(total) + " match(es)"@)
    }
}

pub fn search_notes(query: &str, total: u64, page: u64, page_count: u64, shown: u64) -> (r: Vec<String>)
    ensures
        crate::strings::views(r@) == notes_text(query@, total as nat, page as nat, page_count as nat, shown as nat),
{
    let mut head = "Search results for \"".to_string();
    head.push_str(query);
    head.push_str("\" (");
    push_decimal(&mut head, total);
    head.push_str(" matches)");
    let mut out: Vec<String> = Vec::new();
    out.push(head);
    if shown == 0 {
        out.push(MSG_NO_MESSAGES.to_string());
        proof { assert(crate::strings::views(out@) =~= notes_text(query@, total as nat, page as nat, page_count as nat, shown as nat)); }
        return out;
    }
    if page_count > 1 {
        let mut p = "Page ".to_string();
        push_decimal(&mut p, page);
        p.push_str("/");
        push_decimal(&mut p, page_count);
        out.push(p);
    }
    let mut d = "Displayed ".to_string();
    push_decimal(&mut d, shown);
    d.push_str(" of ");
    push_decimal(&mut d, total);
    d.push_str(" match(es)");
    out.push(d);
    proof { assert(crate::strings::views(out@) =~= notes_text(query@, total as nat, page as nat, page_count as nat, shown as nat)); }
    out
}

/// The query a search reports: Slack's, else the one asked for, sanitised.
pub open spec fn search_query(response: Json, fallback: Seq<char>) -> Seq<char> {
    sanitize_terminal(match str_field(response, "query"@) { Some(q) => q, None => fallback })
}

/// The `messages.pagination` block of a search answer.
pub open spec fn search_pagination(response: Json) -> Option<Json> {
    match json_get(response, "messages"@) {
        Some(m) => json_get(m, "pagination"@),
        None => None,
    }
}

/// The `messages.matches` of a search answer.
pub open spec fn search_matches(response: Json) -> Seq<Json> {
    match json_get(response, "messages"@) {
        Some(m) => match json_get(m, "matches"@) {
            Some(Json::Array(items)) => items@,
            _ => Seq::empty(),
        },
        None => Seq::empty(),
    }
}

/// The formatted timestamp of the `i`th match; empty when none was given.
pub open spec fn ts_at(timestamps: Seq<String>, i: int) -> Seq<char> {
    if 0 <= i < timestamps.len() { timestamps[i]@ } else { Seq::empty() }
}

/// The rows of the matches.
pub open spec fn match_rows_ok(rows: Seq<Json>, matches: Seq<Json>, timestamps: Seq<String>) -> bool {
    &&& rows.len() == matches.len()
    &&& forall|i: int| 0 <= i < matches.len() ==> string_object(#[trigger] rows[i], match_row_fields(matches[i], ts_at(timestamps, i)))
}

/// What `search` prints.
pub struct SearchOutput {
    /// JSON and YAML: `{query, totalCount, page, pageCount, matches}`; other formats:
    /// the matches alone.
    pub value: Json,
    /// Lines for standard error beside the row formats (none for JSON and YAML).
    pub notes: Vec<String>,
}

/// The output of a search; `timestamps[i]` is the `ts` of the `i`th match already
/// formatted (empty when it has none).
pub fn search_output(response: &Json, fallback_query: &str, timestamps: &Vec<String>, format: OutputFormat) -> (r: SearchOutput)
    ensures
        ({
            let q = search_query(*response, fallback_query@);
            let p = search_pagination(*response);
            let total = number_or(p, "total_count"@, 0);
            let page = number_or(p, "page"@, 1);
            let page_count = number_or(p, "page_count"@, 0);
            let matches = search_matches(*response);
            if format == OutputFormat::Json || format == OutputFormat::Yaml {
                &&& r.notes@.len() == 0
                &&& r.value is Object && r.value->Object_0@.len() == 5
                &&& r.value->Object_0@[0].0@ == "query"@ && r.value->Object_0@[0].1 is Str && r.value->Object_0@[0].1->Str_0@ == q
                &&& r.value->Object_0@[1].0@ == "totalCount"@ && r.value->Object_0@[1].1 == Json::Number(JsonNumber::UInt(total as u64))
                &&& r.value->Object_0@[2].0@ == "page"@ && r.value->Object_0@[2].1 == Json::Number(JsonNumber::UInt(page as u64))
                &&& r.value->Object_0@[3].0@ == "pageCount"@ && r.value->Object_0@[3].1 == Json::Number(JsonNumber::UInt(page_count as u64))
                &&& r.value->Object_0@[4].0@ == "matches"@ && r.value->Object_0@[4].1 is Array
                &&& match_rows_ok(r.value->Object_0@[4].1->Array_0@, matches, timestamps@)
            } else {
                &&& r.value is Array && match_rows_ok(r.value->Array_0@, matches, timestamps@)
                &&& crate::strings::views(r.notes@) == notes_text(q, total, page, page_count, matches.len())
            }
        }),
{
    let query = match response.str_field("query") {
        Some(q) => sanitize_terminal_text(q.as_str()),
        None => sanitize_terminal_text(fallback_query),
    };
    let messages = response.get("messages");
    let pagination = match messages { Some(m) => m.get("pagination"), None => None };
    let total = pagination_number(pagination, "total_count", 0);
    let page = pagination_number(pagination, "page", 1);
    let page_count = pagination_number(pagination, "page_count", 0);
    let mut rows: Vec<Json> = Vec::new();
    let ghost matches = search_matches(*response);
    match messages {
        Some(m) => match m.get("matches") {
            Some(Json::Array(items)) => {
                let mut i: usize = 0;
                while i < items.len()
                    invariant
                        i <= items.len(),
                        items@ == matches,
                        rows@.len() == i,
                        forall|k: int| 0 <= k < i ==> string_object(#[trigger] rows@[k], match_row_fields(matches[k], ts_at(timestamps@, k))),
                    decreases items.len() - i,
                {
                    let ts = if i < timestamps.len() { timestamps[i].clone() } else { String::new() };
                    rows.push(transform_match(&items[i], ts));
                    i = i + 1;
                }
            },
            _ => {},
        },
        None => {},
    }
    let shown = rows.len() as u64;
    if format == OutputFormat::Json || format == OutputFormat::Yaml {
        let mut fields: Vec<(String, Json)> = Vec::new();
        fields.push(("query".to_string(), Json::Str(query)));
        fields.push(("totalCount".to_string(), Json::Number(JsonNumber::UInt(total))));
        fields.push(("page".to_string(), Json::Number(JsonNumber::UInt(page))));
        fields.push(("pageCount".to_string(), Json::Number(JsonNumber::UInt(page_count))));
        fields.push(("matches".to_string(), Json::Array(rows)));
        SearchOutput { value: Json::Object(fields), notes: Vec::new() }
    } else {
        let notes = search_notes(query.as_str(), total, page, page_count, shown);
        SearchOutput { value: Json::Array(rows), notes }
    }
}

} // verus!
