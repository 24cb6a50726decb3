//! The arguments of the remaining commands, and the choices they make before they
//! talk to Slack.

use vstd::prelude::*;
use crate::cli::send::{is_validation, schedule_known, parse_local_datetime};
use crate::cli::{parse_positive_int, positive_int};
use crate::common::{channel_label, channel_label_text};
use crate::error::SlackCliError;
use crate::json::{json_array, json_get, json_str, jview, Json, JsonView};
use crate::sanitize::{sanitize_single_line_text, single_line};
use crate::strings::{str_eq, views};

verus! {

broadcast use vstd::string::group_string_axioms;

pub struct AuthCommand {
    pub command: AuthSubcommand,
}

pub enum AuthSubcommand {
    Test,
    Whoami,
}

pub struct JoinCommand {
    pub channel: String,
}

pub struct LeaveCommand {
    pub channel: String,
}

pub struct MembersCommand {
    pub channel: String,
    pub limit: String,
}

pub struct PinCommand {
    pub command: PinSubcommand,
}

pub enum PinSubcommand {
    Add(PinTargetArgs),
    Remove(PinTargetArgs),
    List { channel: String },
}

pub struct PinTargetArgs {
    pub channel: String,
    pub timestamp: String,
}

pub struct ReminderCommand {
    pub command: ReminderSubcommand,
}

pub enum ReminderSubcommand {
    Add { text: String, at: Option<String>, after: Option<String> },
    List,
    Delete { id: String },
    Complete { id: String },
}

pub struct ScheduledCommand {
    pub command: ScheduledSubcommand,
}

pub enum ScheduledSubcommand {
    List { channel: Option<String>, limit: String },
    Cancel { channel: String, id: String },
}

pub struct SendEphemeralCommand {
    pub channel: String,
    pub user: String,
    pub message: String,
    pub thread: Option<String>,
}

pub struct UsergroupsCommand {
    pub command: UsergroupsSubcommand,
}

pub enum UsergroupsSubcommand {
    List { include_disabled: bool },
    Members { id: Option<String>, handle: Option<String> },
}

pub struct UsersCommand {
    pub command: UsersSubcommand,
}

pub enum UsersSubcommand {
    List { limit: String },
    Info { id: String },
    Lookup { email: String },
    Presence { id: Option<String>, name: Option<String> },
}

pub const ERR_TIMING_REQUIRED: &'static str = "You must specify either --at or --after";
pub const ERR_TIMING_CONFLICT: &'static str = "Cannot use both --at and --after";
pub const ERR_AFTER: &'static str = "--after must be a positive integer (minutes)";
pub const ERR_UNRESOLVED_TIME: &'static str = "Could not resolve reminder time. Use --at or --after option.";
pub const ERR_PRESENCE_TARGET_MISSING: &'static str = "You must specify either --id or --name";
pub const ERR_PRESENCE_TARGET_CONFLICT: &'static str = "Cannot use both --id and --name";
pub const ERR_MEMBERS_TARGET_MISSING: &'static str = "You must specify either --id or --handle";
pub const ERR_MEMBERS_TARGET_CONFLICT: &'static str = "Cannot use both --id and --handle";
pub const ERR_PIN_TIMESTAMP: &'static str = crate::common::ERR_INVALID_MESSAGE_TS;

/// When a reminder is due: `--at` (a date-time) or `--after` (minutes from `now`),
/// exactly one of them.
pub fn reminder_time(at: Option<&str>, after: Option<&str>, now: i64) -> (r: Result<i64, SlackCliError>)
    ensures
        (at is Some && after is Some) ==> is_validation(r, ERR_TIMING_CONFLICT),
        (at is None && after is None) ==> is_validation(r, ERR_TIMING_REQUIRED),
        after matches Some(m) ==> at is None ==> match positive_int(m@) {
            None => is_validation(r, ERR_AFTER),
            Some(n) => if i64::MIN <= now + 60 * n <= i64::MAX { r matches Ok(t) && t == now + 60 * n } else { is_validation(r, ERR_AFTER) },
        },
        at matches Some(a) ==> after is None ==> match schedule_known(a@) {
            Some(Some(v)) => r matches Ok(t) && t == v,
            Some(None) => is_validation(r, ERR_UNRESOLVED_TIME),
            None => r is Ok || is_validation(r, ERR_UNRESOLVED_TIME),
        },
{
    match (at, after) {
        (Some(_), Some(_)) => Err(SlackCliError::Validation(ERR_TIMING_CONFLICT.to_string())),
        (None, None) => Err(SlackCliError::Validation(ERR_TIMING_REQUIRED.to_string())),
        (None, Some(minutes)) => {
            let m = parse_positive_int(minutes, ERR_AFTER)?;
            let seconds: i64 = (m as i64) * 60;
            if now > i64::MAX - seconds {
                return Err(SlackCliError::Validation(ERR_AFTER.to_string()));
            }
            Ok(now + seconds)
        },
        (Some(raw), None) => parse_local_datetime(raw, ERR_UNRESOLVED_TIME),
    }
}

/// Which of two exclusive options names the target.
pub enum Either2 {
    First(String),
    Second(String),
}

/// Exactly one of two options; `missing` and `conflict` are their errors.
pub fn exactly_one(first: Option<String>, second: Option<String>, missing: &'static str, conflict: &'static str)
    -> (r: Result<Either2, SlackCliError>)
    ensures
        (first is Some && second is Some) ==> is_validation(r, conflict),
        (first is None && second is None) ==> is_validation(r, missing),
        first matches Some(a) ==> second is None ==> (r matches Ok(Either2::First(x)) && x@ == a@),
        second matches Some(b) ==> first is None ==> (r matches Ok(Either2::Second(x)) && x@ == b@),
{
    match (first, second) {
        (Some(_), Some(_)) => Err(SlackCliError::Validation(conflict.to_string())),
        (None, None) => Err(SlackCliError::Validation(missing.to_string())),
        (Some(a), None) => Ok(Either2::First(a)),
        (None, Some(b)) => Ok(Either2::Second(b)),
    }
}

/// The distinct warnings of a join answer: the top-level `warning`, then the strings of
/// `response_metadata.warnings`, each once, in order.
pub open spec fn warning_candidates(response: Json) -> Seq<Seq<char>> {
    let top = match json_str(json_get(response, "warning"@)) { Some(w) => seq![w], None => Seq::empty() };
    let listed = match json_get(response, "response_metadata"@) {
        Some(m) => match json_array(json_get(m, "warnings"@)) {
            Some(items) => strings_of(items),
            None => Seq::empty(),
        },
        None => Seq::empty(),
    };
    top + listed
}

/// The string items, in order.
pub open spec fn strings_of(items: Seq<Json>) -> Seq<Seq<char>>
    decreases items.len(),
{
    if items.len() == 0 {
        Seq::empty()
    } else {
        let rest = strings_of(items.drop_last());
        match items.last() { Json::Str(s) => rest.push(s@), _ => rest }
    }
}

/// Each text once, in order of first appearance.
pub open spec fn distinct_in_order(s: Seq<Seq<char>>) -> Seq<Seq<char>>
    decreases s.len(),
{
    if s.len() == 0 {
        Seq::empty()
    } else {
        let rest = distinct_in_order(s.drop_last());
        if rest.contains(s.last()) { rest } else { rest.push(s.last()) }
    }
}

fn push_distinct(seen: &mut Vec<String>, w: String)
    ensures
        views(final(seen)@) == (if views(old(seen)@).contains(w@) { views(old(seen)@) } else { views(old(seen)@).push(w@) }),
{
    let mut k: usize = 0;
    let mut known = false;
    while k < seen.len()
        invariant
            k <= seen.len(),
            known == exists|j: int| 0 <= j < k && views(seen@)[j] == w@,
        decreases seen.len() - k,
    {
        proof { assert(views(seen@)[k as int] == seen@[k as int]@); }
        if str_eq(seen[k].as_str(), w.as_str()) {
            known = true;
        }
        k = k + 1;
    }
    proof {
        if known {
            let j = choose|j: int| 0 <= j < seen.len() && views(seen@)[j] == w@;
            assert(views(seen@).contains(w@));
        } else {
            assert(!views(seen@).contains(w@));
        }
    }
    if !known {
        let ghost before = seen@;
        seen.push(w);
        proof { assert(views(seen@) =~= views(before).push(views(seen@).last())); }
    }
}

/// The warning lines of a join answer: `⚠ Warning: <text>`, each distinct warning once.
pub fn report_warnings(response: &Json) -> (r: Vec<String>)
    ensures
        views(r@) == distinct_in_order(warning_candidates(*response)).map_values(|w: Seq<char>| "⚠ Warning: "@ + single_line(w)),
{
    let mut all: Vec<String> = Vec::new();
    match response.get("warning") {
        Some(v) => match v.as_str() { Some(w) => all.push(w.clone()), None => {} },
        None => {},
    }
    let ghost top = views(all@);
    proof { assert(top == match json_str(json_get(*response, "warning"@)) { Some(w) => seq![w], None => Seq::<Seq<char>>::empty() }); }
    let items = match response.get("response_metadata") {
        Some(m) => match m.get("warnings") { Some(w) => w.as_array(), None => None },
        None => None,
    };
    match items {
        Some(items) => {
            let mut i: usize = 0;
            proof { assert(items@.take(0) =~= Seq::<Json>::empty()); assert(views(all@) =~= top + strings_of(items@.take(0))); }
            while i < items.len()
                invariant
                    i <= items.len(),
                    views(all@) == top + strings_of(items@.take(i as int)),
                decreases items.len() - i,
            {
                proof {
                    assert(items@.take(i + 1).drop_last() =~= items@.take(i as int));
                    assert(items@.take(i + 1).last() == items@[i as int]);
                }
                match &items[i] {
                    Json::Str(s) => {
                        let ghost before = views(all@);
                        all.push(s.clone());
                        proof { assert(views(all@) =~= before.push(s@)); }
                    },
                    _ => {},
                }
                i = i + 1;
            }
            proof { assert(items@.take(items.len() as int) =~= items@); }
        },
        None => {
            proof { assert(views(all@) =~= top + Seq::<Seq<char>>::empty()); }
        },
    }
    let ghost cands = views(all@);
    proof { assert(cands == warning_candidates(*response)); }
    let mut seen: Vec<String> = Vec::new();
    let mut j: usize = 0;
    proof { assert(cands.take(0) =~= Seq::<Seq<char>>::empty()); assert(views(seen@) =~= Seq::<Seq<char>>::empty()); }
    while j < all.len()
        invariant
            j <= all.len(),
            cands == views(all@),
            views(seen@) == distinct_in_order(cands.take(j as int)),
        decreases all.len() - j,
    {
        proof {
            assert(cands.take(j + 1).drop_last() =~= cands.take(j as int));
            assert(cands.take(j + 1).last() == all@[j as int]@);
        }
        push_distinct(&mut seen, all[j].clone());
        j = j + 1;
    }
    proof { assert(cands.take(all.len() as int) =~= cands); }
    let mut out: Vec<String> = Vec::new();
    let mut k: usize = 0;
    while k < seen.len()
        invariant
            k <= seen.len(),
            out@.len() == k,
            forall|x: int| 0 <= x < k ==> (#[trigger] out@[x])@ == "⚠ Warning: "@ + single_line(seen@[x]@),
        decreases seen.len() - k,
    {
        let mut line = "⚠ Warning: ".to_string();
        line.push_str(sanitize_single_line_text(seen[k].as_str()).as_str());
        out.push(line);
        k = k + 1;
    }
    proof {
        assert(views(out@) =~= views(seen@).map_values(|w: Seq<char>| "⚠ Warning: "@ + single_line(w)));
    }
    out
}

/// `✓ Ephemeral message sent to <channel>`.
pub fn ephemeral_success_message(channel: &str) -> (r: String)
    ensures
        r@ == "✓ Ephemeral message sent to "@ + channel_label_text(channel@),
{
    let mut r = "✓ Ephemeral message sent to ".to_string();
    r.push_str(channel_label(channel).as_str());
    r
}

/// `✓ Pin added to message in <channel>` / `✓ Pin removed from message in <channel>`.
pub fn pin_success_message(add: bool, channel: &str) -> (r: String)
    ensures
        r@ == "✓ Pin "@ + (if add { "added to"@ } else { "removed from"@ }) + " message in "@ + channel_label_text(channel@),
{
    let mut r = "✓ Pin ".to_string();
    r.push_str(if add { "added to" } else { "removed from" });
    r.push_str(" message in ");
    r.push_str(channel_label(channel).as_str());
    r
}

pub const DEFAULT_MEMBERS_LIMIT: &'static str = "100";
pub const ERR_MEMBERS_LIMIT: &'static str = "--limit must be a positive integer";
pub const MSG_NO_MEMBERS: &'static str = "No members found";
pub const MEMBERS_MAX_PAGE_SIZE: u32 = 1000;
pub const DEFAULT_SCHEDULED_LIMIT: &'static str = "50";
pub const ERR_SCHEDULED_LIMIT: &'static str = "--limit must be a positive integer";
pub const MSG_NO_SCHEDULED: &'static str = "No scheduled messages found";

/// A text of the user, on one line; empty when absent.
pub open spec fn one_line_field(user: Json, key: Seq<char>) -> Seq<char> {
    match json_str(json_get(user, key)) {
        Some(t) => single_line(t),
        None => Seq::empty(),
    }
}

/// A text field of a user on one line; empty when absent.
pub fn string_field(user: &Json, key: &str) -> (r: String)
    ensures
        r@ == one_line_field(*user, key@),
{
    match user.str_field(key) {
        Some(t) => sanitize_single_line_text(t.as_str()),
        None => String::new(),
    }
}

/// A member of `members`: its ID, name and real name, each on one line; `user` is the
/// `users.info` user (JSON `null` when the lookup failed).
pub fn member_entry(id: &str, user: &Json) -> (r: Json)
    ensures
        crate::cli::draft::string_object(r, seq![
            ("id"@, single_line(id@)),
            ("name"@, one_line_field(*user, "name"@)),
            ("real_name"@, one_line_field(*user, "real_name"@)),
        ]),
{
    let name = string_field(user, "name");
    let real_name = string_field(user, "real_name");
    let mut fields: Vec<(String, Json)> = Vec::new();
    fields.push(("id".to_string(), Json::Str(sanitize_single_line_text(id))));
    fields.push(("name".to_string(), Json::Str(name)));
    fields.push(("real_name".to_string(), Json::Str(real_name)));
    let r = Json::Object(fields);
    proof {
        assert(crate::cli::draft::string_object(r, seq![
            ("id"@, single_line(id@)),
            ("name"@, one_line_field(*user, "name"@)),
            ("real_name"@, one_line_field(*user, "real_name"@)),
        ]));
    }
    r
}

/// What `scheduled cancel` reports: `✓ Scheduled message <id> cancelled` and
/// `{ok: true, channel, scheduled_message_id}`.
pub fn scheduled_cancel_report(channel_id: &str, id: &str) -> (r: (Json, String))
    ensures
        r.1@ == "✓ Scheduled message "@ + id@ + " cancelled"@,
        r.0 is Object && r.0->Object_0@.len() == 3
            && r.0->Object_0@[0].0@ == "ok"@ && r.0->Object_0@[0].1 == Json::Bool(true)
            && r.0->Object_0@[1].0@ == "channel"@ && r.0->Object_0@[1].1 is Str && r.0->Object_0@[1].1->Str_0@ == channel_id@
            && r.0->Object_0@[2].0@ == "scheduled_message_id"@ && r.0->Object_0@[2].1 is Str && r.0->Object_0@[2].1->Str_0@ == id@,
{
    let mut message = "✓ Scheduled message ".to_string();
    message.push_str(id);
    message.push_str(" cancelled");
    let mut fields: Vec<(String, Json)> = Vec::new();
    fields.push(("ok".to_string(), Json::Bool(true)));
    fields.push(("channel".to_string(), Json::Str(channel_id.to_string())));
    fields.push(("scheduled_message_id".to_string(), Json::Str(id.to_string())));
    (Json::Object(fields), message)
}

/// The identity fields `auth whoami` keeps.
pub open spec fn whoami_keys() -> Seq<Seq<char>> {
    seq!["user"@, "user_id"@, "team"@, "team_id"@, "url"@]
}

/// `auth whoami`: the identity fields of `auth.test`, each `null` when absent.
pub fn whoami_value(response: &Json) -> (r: Json)
    ensures
        r is Object && r->Object_0@.len() == 5,
        forall|i: int| 0 <= i < 5 ==> {
            &&& (#[trigger] r->Object_0@[i]).0@ == whoami_keys()[i]
            &&& jview(r->Object_0@[i].1) == match json_get(*response, whoami_keys()[i]) {
                Some(v) => jview(v),
                None => JsonView::Null,
            }
        },
{
    let keys: [&str; 5] = ["user", "user_id", "team", "team_id", "url"];
    let mut fields: Vec<(String, Json)> = Vec::new();
    let mut i: usize = 0;
    proof {
        reveal_strlit("user"); reveal_strlit("user_id"); reveal_strlit("team"); reveal_strlit("team_id"); reveal_strlit("url");
    }
    while i < 5
        invariant
            i <= 5,
            fields@.len() == i,
            keys@ == seq!["user", "user_id", "team", "team_id", "url"],
            forall|k: int| 0 <= k < i ==> {
                &&& (#[trigger] fields@[k]).0@ == whoami_keys()[k]
                &&& jview(fields@[k].1) == match json_get(*response, whoami_keys()[k]) {
                    Some(v) => jview(v),
                    None => JsonView::Null,
                }
            },
        decreases 5 - i,
    {
        let key = keys[i];
        let v = match response.get(key) {
            Some(x) => x.deep_clone(),
            None => Json::Null,
        };
        fields.push((key.to_string(), v));
        i = i + 1;
    }
    Json::Object(fields)
}

} // verus!
