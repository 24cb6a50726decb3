//! `send`: a message to a channel or a DM, now or scheduled.
//!
//! The arguments are checked in a fixed order and only the first violation is
//! reported. A channel is first used as given; only when Slack answers
//! `channel_not_found` is the name looked up and the message sent once more.

use vstd::prelude::*;
use crate::cli::{parse_positive_int, positive_int};
use crate::common::{
    channel_id_like, channel_label, channel_label_text, is_channel_id, is_message_ts, message_ts_like, INVALID_TIMESTAMP,
};
use crate::error::SlackCliError;
use crate::json::{json_array_check, json_get, json_bool, json_text_is_array, str_field, Json};
use crate::strings::{
    all_digits, chars_of, parse_i64, parse_i64_spec, str_eq, string_from_chars, to_lowercase, trim, trimmed, unicode_lowercase,
};
use crate::time::{
    local_seconds, naive_date_parses, naive_datetime_parses, parse_naive_date, parse_naive_datetime, rfc3339_instant, rfc3339_seconds, start_of_day, utc_format, utc_text, PATTERN_ISO_MILLIS,
};

verus! {

broadcast use vstd::string::group_string_axioms;

pub const ERR_NO_TARGET: &'static str = "You must specify one of: --channel, --user, or --email";
pub const ERR_CHANNEL_WITH_DM: &'static str = "Cannot use --channel with --user or --email";
pub const ERR_USER_AND_EMAIL: &'static str = "Cannot use --user and --email together";
pub const ERR_NO_MESSAGE: &'static str = "You must specify either --message or --file";
pub const ERR_MESSAGE_AND_FILE: &'static str = "Cannot use both --message and --file";
pub const ERR_BOTH_BLOCKS: &'static str = "Cannot use both --blocks and --blocks-file";
pub const ERR_INVALID_BLOCKS: &'static str = "Invalid blocks JSON: must be a valid JSON array";
pub const ERR_INVALID_THREAD_TS: &'static str = "Invalid thread timestamp format";
pub const ERR_BOTH_SCHEDULE: &'static str = "Cannot use both --at and --after";
pub const ERR_INVALID_AT: &'static str = "Invalid schedule time format. Use Unix timestamp (seconds) or ISO 8601 date-time";
pub const ERR_PAST_SCHEDULE: &'static str = "Schedule time must be in the future";
pub const ERR_INVALID_AFTER: &'static str = "--after must be a positive integer (minutes)";
/// The Slack error code that sends a channel name through the lookup.
pub const CHANNEL_NOT_FOUND: &'static str = "channel_not_found";
/// Page size when listing users to find one by name.
pub const USER_LOOKUP_PAGE_SIZE: u32 = 200;
/// Stands for the DM channel on a dry run, where `conversations.open` is not sent.
pub const DRY_RUN_CHANNEL: &'static str = "(dry-run)";

pub struct SendCommand {
    pub channel: Option<String>,
    pub user: Option<String>,
    pub email: Option<String>,
    pub message: Option<String>,
    pub file: Option<String>,
    pub blocks: Option<String>,
    pub blocks_file: Option<String>,
    pub thread: Option<String>,
    pub at: Option<String>,
    pub after: Option<String>,
}

/// Where the message goes: exactly one of the three.
pub enum Target {
    Channel(String),
    User(String),
    Email(String),
}

pub open spec fn is_validation<T>(r: Result<T, SlackCliError>, msg: &'static str) -> bool {
    r matches Err(e) && e matches SlackCliError::Validation(m) && m@ == msg@
}

/// Picks the target; several or none is an error.
pub fn validate_target(cmd: &SendCommand) -> (r: Result<Target, SlackCliError>)
    ensures
        (cmd.channel is None && cmd.user is None && cmd.email is None) ==> is_validation(r, ERR_NO_TARGET),
        (cmd.channel is Some && (cmd.user is Some || cmd.email is Some)) ==> is_validation(r, ERR_CHANNEL_WITH_DM),
        (cmd.channel is None && cmd.user is Some && cmd.email is Some) ==> is_validation(r, ERR_USER_AND_EMAIL),
        cmd.channel matches Some(c) ==> ((cmd.user is None && cmd.email is None) ==> (r matches Ok(Target::Channel(t)) && t@ == c@)),
        cmd.user matches Some(u) ==> ((cmd.channel is None && cmd.email is None) ==> (r matches Ok(Target::User(t)) && t@ == u@)),
        cmd.email matches Some(m) ==> ((cmd.channel is None && cmd.user is None) ==> (r matches Ok(Target::Email(t)) && t@ == m@)),
{
    match (&cmd.channel, &cmd.user, &cmd.email) {
        (None, None, None) => Err(SlackCliError::Validation(ERR_NO_TARGET.to_string())),
        (Some(_), Some(_), _) | (Some(_), _, Some(_)) => Err(SlackCliError::Validation(ERR_CHANNEL_WITH_DM.to_string())),
        (None, Some(_), Some(_)) => Err(SlackCliError::Validation(ERR_USER_AND_EMAIL.to_string())),
        (Some(channel), None, None) => Ok(Target::Channel(channel.clone())),
        (None, Some(user), None) => Ok(Target::User(user.clone())),
        (None, None, Some(email)) => Ok(Target::Email(email.clone())),
    }
}

/// A body is needed (a message, a file or blocks), and not both a message and a file.
pub fn validate_message_or_file(cmd: &SendCommand) -> (r: Result<(), SlackCliError>)
    ensures
        ({
            let has_body = cmd.message is Some || cmd.file is Some || cmd.blocks is Some || cmd.blocks_file is Some;
            &&& !has_body ==> is_validation(r, ERR_NO_MESSAGE)
            &&& (has_body && cmd.message is Some && cmd.file is Some) ==> is_validation(r, ERR_MESSAGE_AND_FILE)
            &&& (has_body && !(cmd.message is Some && cmd.file is Some)) ==> r is Ok
        }),
{
    let has_body = cmd.message.is_some() || cmd.file.is_some() || cmd.blocks.is_some() || cmd.blocks_file.is_some();
    if !has_body {
        return Err(SlackCliError::Validation(ERR_NO_MESSAGE.to_string()));
    }
    if cmd.message.is_some() && cmd.file.is_some() {
        return Err(SlackCliError::Validation(ERR_MESSAGE_AND_FILE.to_string()));
    }
    Ok(())
}

/// `--blocks` and `--blocks-file` exclude each other, and `--blocks` must be a JSON array;
/// the checked text is handed back.
pub fn validate_blocks(cmd: &SendCommand) -> (r: Result<Option<String>, SlackCliError>)
    ensures
        (cmd.blocks is Some && cmd.blocks_file is Some) ==> is_validation(r, ERR_BOTH_BLOCKS),
        (cmd.blocks is None) ==> r == Ok::<Option<String>, SlackCliError>(None),
        cmd.blocks matches Some(b) ==> cmd.blocks_file is None ==> (
            if json_text_is_array(b@) == Some(true) {
                r matches Ok(Some(t)) && t@ == b@
            } else {
                is_validation(r, ERR_INVALID_BLOCKS)
            }),
{
    if cmd.blocks.is_some() && cmd.blocks_file.is_some() {
        return Err(SlackCliError::Validation(ERR_BOTH_BLOCKS.to_string()));
    }
    match &cmd.blocks {
        None => Ok(None),
        Some(raw) => match json_array_check(raw.as_str()) {
            Some(true) => Ok(Some(raw.clone())),
            _ => Err(SlackCliError::Validation(ERR_INVALID_BLOCKS.to_string())),
        },
    }
}

/// `--thread` must be a message timestamp (`1234567890.123456`) when given.
pub fn validate_thread_ts(thread: Option<&str>) -> (r: Result<(), SlackCliError>)
    ensures
        thread matches Some(t) ==> (!message_ts_like(t@) ==> is_validation(r, ERR_INVALID_THREAD_TS)),
        (thread is None || (thread matches Some(t) && message_ts_like(t@))) ==> r is Ok,
{
    match thread {
        Some(value) => {
            if !is_message_ts(value) {
                Err(SlackCliError::Validation(ERR_INVALID_THREAD_TS.to_string()))
            } else {
                Ok(())
            }
        },
        None => Ok(()),
    }
}

/// The wall-clock forms read in local time, tried in this order before a bare date.
pub const WALL_T_SECONDS: &'static str = "%Y-%m-%dT%H:%M:%S";
pub const WALL_T_MINUTES: &'static str = "%Y-%m-%dT%H:%M";
pub const WALL_SECONDS: &'static str = "%Y-%m-%d %H:%M:%S";
pub const WALL_MINUTES: &'static str = "%Y-%m-%d %H:%M";
pub const WALL_DATE: &'static str = "%Y-%m-%d";

/// Whether `t` reads as one of the wall-clock forms.
pub open spec fn wall_clock_parses(t: Seq<char>) -> bool {
    ||| naive_datetime_parses(t, WALL_T_SECONDS@)
    ||| naive_datetime_parses(t, WALL_T_MINUTES@)
    ||| naive_datetime_parses(t, WALL_SECONDS@)
    ||| naive_datetime_parses(t, WALL_MINUTES@)
    ||| naive_date_parses(t, WALL_DATE@)
}

/// What reading a schedule time is known to give: `Some(Some(seconds))`,
/// `Some(None)` when it is certainly refused, `None` when it reads as a wall-clock time,
/// whose instant depends on the machine's time zone.
pub open spec fn schedule_known(raw: Seq<char>) -> Option<Option<int>> {
    let t = trim(raw);
    if t.len() > 0 && all_digits(t) {
        Some(parse_i64_spec(t))
    } else if rfc3339_instant(t) is Some {
        Some(rfc3339_instant(t))
    } else if wall_clock_parses(t) {
        None
    } else {
        Some(None)
    }
}

pub open spec fn validation_text<T>(r: Result<T, SlackCliError>, msg: Seq<char>) -> bool {
    r matches Err(e) && e matches SlackCliError::Validation(m) && m@ == msg
}

/// Reads a date-time: Unix seconds, RFC 3339, `YYYY-MM-DD[THH:MM[:SS]]`,
/// `YYYY-MM-DD HH:MM[:SS]` or `YYYY-MM-DD`; a time without a zone is local time.
/// Anything else is the error `message`.
pub fn parse_local_datetime(raw: &str, message: &str) -> (r: Result<i64, SlackCliError>)
    ensures
        match schedule_known(raw@) {
            Some(Some(v)) => r matches Ok(p) && p == v,
            Some(None) => validation_text(r, message@),
            None => r is Ok || validation_text(r, message@),
        },
{
    let t = trimmed(raw);
    let v = chars_of(t.as_str());
    if v.len() > 0 && all_digit_chars(&v) {
        return match parse_i64(t.as_str()) {
            Some(n) => Ok(n),
            None => Err(SlackCliError::Validation(message.to_string())),
        };
    }
    match rfc3339_seconds(t.as_str()) {
        Some(s) => return Ok(s),
        None => {},
    }
    match parse_wall_clock(t.as_str()) {
        Some(naive) => match local_seconds(&naive) {
            Some(s) => Ok(s),
            None => Err(SlackCliError::Validation(message.to_string())),
        },
        None => Err(SlackCliError::Validation(message.to_string())),
    }
}

/// The wall-clock forms, in the order they are tried.
pub enum WallForm {
    /// `YYYY-MM-DDTHH:MM:SS`
    TSeconds,
    /// `YYYY-MM-DDTHH:MM`
    TMinutes,
    /// `YYYY-MM-DD HH:MM:SS`
    Seconds,
    /// `YYYY-MM-DD HH:MM`
    Minutes,
    /// `YYYY-MM-DD`, taken at midnight.
    Date,
}

impl WallForm {
    /// The place of the form in the order they are tried.
    pub open spec fn rank(self) -> nat {
        match self {
            WallForm::TSeconds => 0,
            WallForm::TMinutes => 1,
            WallForm::Seconds => 2,
            WallForm::Minutes => 3,
            WallForm::Date => 4,
        }
    }

    /// Whether the form gives a time of day.
    pub open spec fn has_time(self) -> bool {
        !(self is Date)
    }

    /// Whether the form gives seconds.
    pub open spec fn has_seconds(self) -> bool {
        self is TSeconds || self is Seconds
    }
}

/// Whether `t` reads in form `f`.
pub open spec fn form_reads(f: WallForm, t: Seq<char>) -> bool {
    match f {
        WallForm::TSeconds => naive_datetime_parses(t, WALL_T_SECONDS@),
        WallForm::TMinutes => naive_datetime_parses(t, WALL_T_MINUTES@),
        WallForm::Seconds => naive_datetime_parses(t, WALL_SECONDS@),
        WallForm::Minutes => naive_datetime_parses(t, WALL_MINUTES@),
        WallForm::Date => naive_date_parses(t, WALL_DATE@),
    }
}

/// Whether `f` is the first form that reads `t`.
pub open spec fn is_first_form(f: WallForm, t: Seq<char>) -> bool {
    form_reads(f, t) && forall|g: WallForm| #[trigger] g.rank() < f.rank() ==> !form_reads(g, t)
}

/// The form a wall-clock text is read in: the first that reads it.
pub fn wall_clock_form(t: &str) -> (r: Option<WallForm>)
    ensures
        r matches Some(f) ==> is_first_form(f, t@),
        r is None <==> !wall_clock_parses(t@),
{
    if parse_naive_datetime(t, WALL_T_SECONDS).is_some() {
        return Some(WallForm::TSeconds);
    }
    if parse_naive_datetime(t, WALL_T_MINUTES).is_some() {
        return Some(WallForm::TMinutes);
    }
    if parse_naive_datetime(t, WALL_SECONDS).is_some() {
        return Some(WallForm::Seconds);
    }
    if parse_naive_datetime(t, WALL_MINUTES).is_some() {
        return Some(WallForm::Minutes);
    }
    if parse_naive_date(t, WALL_DATE).is_some() {
        return Some(WallForm::Date);
    }
    None
}

/// A text that carries a time of day is read with it: when a form with hours and
/// minutes reads the text, the form chosen has them too and comes no later, so a bare
/// date (taken at midnight) is used only when no form with a time reads the text; and
/// a text that reads with seconds is read with seconds unless an earlier form reads it.
pub proof fn law_time_of_day_is_read(t: Seq<char>, f: WallForm, g: WallForm)
    requires
        is_first_form(f, t),
        form_reads(g, t),
    ensures
        f.rank() <= g.rank(),
        g.has_time() ==> f.has_time(),
        (g.has_seconds() && forall|e: WallForm| e.rank() < g.rank() ==> !form_reads(e, t)) ==> f == g,
{
    assert(!(g.rank() < f.rank()));
}

/// The date-time of `t` in the form `f` reads it in; a bare date is taken at midnight.
fn read_in_form(t: &str, f: WallForm) -> (r: Option<chrono::NaiveDateTime>)
    requires
        form_reads(f, t@),
    ensures
        r is Some,
{
    match f {
        WallForm::TSeconds => parse_naive_datetime(t, WALL_T_SECONDS),
        WallForm::TMinutes => parse_naive_datetime(t, WALL_T_MINUTES),
        WallForm::Seconds => parse_naive_datetime(t, WALL_SECONDS),
        WallForm::Minutes => parse_naive_datetime(t, WALL_MINUTES),
        WallForm::Date => match parse_naive_date(t, WALL_DATE) {
            Some(date) => start_of_day(&date),
            None => None,
        },
    }
}

/// The date-time of `t` in the first wall-clock form that reads it.
fn parse_wall_clock(t: &str) -> (r: Option<chrono::NaiveDateTime>)
    ensures
        r is Some <==> wall_clock_parses(t@),
{
    match wall_clock_form(t) {
        Some(f) => read_in_form(t, f),
        None => None,
    }
}

/// Reads a schedule time (`--at`).
pub fn parse_schedule_time(raw: &str) -> (r: Result<i64, SlackCliError>)
    ensures
        match schedule_known(raw@) {
            Some(Some(v)) => r matches Ok(p) && p == v,
            Some(None) => is_validation(r, ERR_INVALID_AT),
            None => r is Ok || is_validation(r, ERR_INVALID_AT),
        },
{
    parse_local_datetime(raw, ERR_INVALID_AT)
}

fn all_digit_chars(v: &Vec<char>) -> (r: bool)
    ensures
        r == all_digits(v@),
{
    let mut i: usize = 0;
    while i < v.len()
        invariant
            i <= v.len(),
            forall|k: int| 0 <= k < i ==> crate::strings::is_ascii_digit(#[trigger] v@[k]),
        decreases v.len() - i,
    {
        if !('0' <= v[i] && v[i] <= '9') {
            return false;
        }
        i = i + 1;
    }
    true
}

/// When the message is to be posted: `--at` and `--after` exclude each other; `--at` must
/// lie after `now`; `--after` counts minutes from `now`. Neither means right away.
pub fn resolve_post_at(at: Option<&str>, after: Option<&str>, now: i64) -> (r: Result<Option<i64>, SlackCliError>)
    ensures
        (at is Some && after is Some) ==> is_validation(r, ERR_BOTH_SCHEDULE),
        (at is None && after is None) ==> r == Ok::<Option<i64>, SlackCliError>(None),
        at matches Some(a) ==> after is None ==> match schedule_known(a@) {
            Some(Some(v)) => if v <= now { is_validation(r, ERR_PAST_SCHEDULE) } else { r matches Ok(Some(p)) && p == v },
            Some(None) => is_validation(r, ERR_INVALID_AT),
            None => is_validation(r, ERR_INVALID_AT) || is_validation(r, ERR_PAST_SCHEDULE)
                || (r matches Ok(Some(p)) && p > now),
        },
        after matches Some(m) ==> at is None ==> match positive_int(m@) {
            Some(n) => if i64::MIN <= now + 60 * n <= i64::MAX {
                r matches Ok(Some(p)) && p == now + 60 * n
            } else {
                is_validation(r, ERR_INVALID_AFTER)
            },
            None => is_validation(r, ERR_INVALID_AFTER),
        },
{
    if at.is_some() && after.is_some() {
        return Err(SlackCliError::Validation(ERR_BOTH_SCHEDULE.to_string()));
    }
    match at {
        Some(a) => {
            let post_at = parse_schedule_time(a)?;
            if post_at <= now {
                return Err(SlackCliError::Validation(ERR_PAST_SCHEDULE.to_string()));
            }
            return Ok(Some(post_at));
        },
        None => {},
    }
    match after {
        Some(m) => {
            let minutes = parse_positive_int(m, ERR_INVALID_AFTER)?;
            let seconds: i64 = (minutes as i64) * 60;
            if now > i64::MAX - seconds {
                return Err(SlackCliError::Validation(ERR_INVALID_AFTER.to_string()));
            }
            Ok(Some(now + seconds))
        },
        None => Ok(None),
    }
}

/// The instant as `YYYY-MM-DDTHH:MM:SS.mmmZ`, or `(invalid timestamp)` out of range.
pub open spec fn iso_millis_text(seconds: int) -> Seq<char> {
    match utc_text(seconds, PATTERN_ISO_MILLIS@) {
        Some(t) => t,
        None => INVALID_TIMESTAMP@,
    }
}

pub fn format_iso8601_millis(unix_seconds: i64) -> (r: String)
    ensures
        r@ == iso_millis_text(unix_seconds as int),
{
    match utc_format(unix_seconds, PATTERN_ISO_MILLIS) {
        Some(t) => t,
        None => INVALID_TIMESTAMP.to_string(),
    }
}

/// What `send` has settled before it talks to Slack.
pub struct SendPlan {
    pub target: Target,
    /// The checked `--blocks` text.
    pub inline_blocks: Option<String>,
    /// When to post, as Unix seconds; `None` posts right away.
    pub post_at: Option<i64>,
}

/// The target named by exactly one of `--channel`, `--user` and `--email`.
pub open spec fn target_matches(cmd: SendCommand, t: Target) -> bool {
    match t {
        Target::Channel(c) => cmd.channel matches Some(x) && x@ == c@ && cmd.user is None && cmd.email is None,
        Target::User(u) => cmd.user matches Some(x) && x@ == u@ && cmd.channel is None && cmd.email is None,
        Target::Email(m) => cmd.email matches Some(x) && x@ == m@ && cmd.channel is None && cmd.user is None,
    }
}

/// The error of the target check, if any.
pub open spec fn target_error(cmd: SendCommand) -> Option<&'static str> {
    if cmd.channel is None && cmd.user is None && cmd.email is None {
        Some(ERR_NO_TARGET)
    } else if cmd.channel is Some && (cmd.user is Some || cmd.email is Some) {
        Some(ERR_CHANNEL_WITH_DM)
    } else if cmd.user is Some && cmd.email is Some {
        Some(ERR_USER_AND_EMAIL)
    } else {
        None
    }
}

/// The error of the body check, if any.
pub open spec fn body_error(cmd: SendCommand) -> Option<&'static str> {
    if !(cmd.message is Some || cmd.file is Some || cmd.blocks is Some || cmd.blocks_file is Some) {
        Some(ERR_NO_MESSAGE)
    } else if cmd.message is Some && cmd.file is Some {
        Some(ERR_MESSAGE_AND_FILE)
    } else {
        None
    }
}

/// The error of the blocks check, if any.
pub open spec fn blocks_error(cmd: SendCommand) -> Option<&'static str> {
    if cmd.blocks is Some && cmd.blocks_file is Some {
        Some(ERR_BOTH_BLOCKS)
    } else {
        match cmd.blocks {
            Some(b) => if json_text_is_array(b@) == Some(true) { None } else { Some(ERR_INVALID_BLOCKS) },
            None => None,
        }
    }
}

/// The error of the thread check, if any.
pub open spec fn thread_error(cmd: SendCommand) -> Option<&'static str> {
    match cmd.thread {
        Some(t) => if message_ts_like(t@) { None } else { Some(ERR_INVALID_THREAD_TS) },
        None => None,
    }
}

/// All checks of `send`, in order: target, body, blocks, thread, schedule. The first
/// that fails decides the error.
pub fn validate_send(cmd: &SendCommand, now: i64) -> (r: Result<SendPlan, SlackCliError>)
    ensures
        target_error(*cmd) matches Some(m) ==> is_validation(r, m),
        target_error(*cmd) is None ==> (body_error(*cmd) matches Some(m) ==> is_validation(r, m)),
        (target_error(*cmd) is None && body_error(*cmd) is None) ==> (blocks_error(*cmd) matches Some(m) ==> is_validation(r, m)),
        (target_error(*cmd) is None && body_error(*cmd) is None && blocks_error(*cmd) is None)
            ==> (thread_error(*cmd) matches Some(m) ==> is_validation(r, m)),
        (target_error(*cmd) is None && body_error(*cmd) is None && blocks_error(*cmd) is None && thread_error(*cmd) is None) ==> {
            &&& (cmd.at is Some && cmd.after is Some) ==> is_validation(r, ERR_BOTH_SCHEDULE)
            &&& (cmd.at is None && cmd.after is None) ==> (r matches Ok(p) && p.post_at is None)
            &&& cmd.after matches Some(m) ==> cmd.at is None ==> match positive_int(m@) {
                Some(n) => if i64::MIN <= now + 60 * n <= i64::MAX {
                    r matches Ok(p) && p.post_at == Some((now + 60 * n) as i64)
                } else {
                    is_validation(r, ERR_INVALID_AFTER)
                },
                None => is_validation(r, ERR_INVALID_AFTER),
            }
            &&& cmd.at matches Some(a) ==> cmd.after is None ==> match schedule_known(a@) {
                Some(Some(v)) => if v <= now { is_validation(r, ERR_PAST_SCHEDULE) } else { r matches Ok(p) && p.post_at == Some(v as i64) },
                Some(None) => is_validation(r, ERR_INVALID_AT),
                None => is_validation(r, ERR_INVALID_AT) || is_validation(r, ERR_PAST_SCHEDULE)
                    || (r matches Ok(p) && p.post_at matches Some(x) && x > now),
            }
        },
        r matches Ok(p) ==> {
            &&& target_error(*cmd) is None && body_error(*cmd) is None && blocks_error(*cmd) is None && thread_error(*cmd) is None
            &&& target_matches(*cmd, p.target)
            &&& match cmd.blocks {
                Some(b) => p.inline_blocks matches Some(t) && t@ == b@,
                None => p.inline_blocks is None,
            }
        },
{
    let target = validate_target(cmd)?;
    validate_message_or_file(cmd)?;
    let inline_blocks = validate_blocks(cmd)?;
    let thread = match &cmd.thread {
        Some(t) => Some(t.as_str()),
        None => None,
    };
    validate_thread_ts(thread)?;
    let at = match &cmd.at {
        Some(t) => Some(t.as_str()),
        None => None,
    };
    let after = match &cmd.after {
        Some(t) => Some(t.as_str()),
        None => None,
    };
    let post_at = resolve_post_at(at, after, now)?;
    Ok(SendPlan { target, inline_blocks, post_at })
}

/// The API method: `chat.scheduleMessage` for a scheduled message, else `chat.postMessage`.
pub fn send_method(post_at: Option<i64>) -> (r: &'static str)
    ensures
        r@ == (if post_at is Some { "chat.scheduleMessage"@ } else { "chat.postMessage"@ }),
{
    if post_at.is_some() { "chat.scheduleMessage" } else { "chat.postMessage" }
}

/// The success message: scheduled, sent to a channel, or sent as a DM.
pub open spec fn send_success_text(post_at: Option<i64>, to_channel: bool, label: Seq<char>) -> Seq<char> {
    match post_at {
        Some(p) => "✓ Message scheduled to "@ + label + " at "@ + iso_millis_text(p as int),
        None => if to_channel {
            "✓ Message sent successfully to "@ + label
        } else {
            "✓ DM sent to "@ + label
        },
    }
}

pub fn send_success_message(post_at: Option<i64>, target: &Target, label: &str) -> (r: String)
    ensures
        r@ == send_success_text(post_at, target is Channel, label@),
{
    match post_at {
        Some(p) => {
            let mut r = "✓ Message scheduled to ".to_string();
            r.push_str(label);
            r.push_str(" at ");
            r.push_str(format_iso8601_millis(p).as_str());
            r
        },
        None => match target {
            Target::Channel(_) => {
                let mut r = "✓ Message sent successfully to ".to_string();
                r.push_str(label);
                r
            },
            _ => {
                let mut r = "✓ DM sent to ".to_string();
                r.push_str(label);
                r
            },
        },
    }
}

/// Whether a failed post to `raw_channel` is retried after looking the name up: only
/// on `channel_not_found`, and only when the value is not already a channel ID.
pub fn should_look_up_channel(error: &SlackCliError, raw_channel: &str) -> (r: bool)
    ensures
        r == (error matches SlackCliError::Api { code, .. } && code@ == CHANNEL_NOT_FOUND@
            && !channel_id_like(raw_channel@)),
{
    match error {
        SlackCliError::Api { code, .. } => str_eq(code.as_str(), CHANNEL_NOT_FOUND) && !is_channel_id(raw_channel),
        _ => false,
    }
}

/// A user name without one leading `@`.
pub open spec fn bare_user_name(user: Seq<char>) -> Seq<char> {
    if user.len() > 0 && user[0] == '@' { user.drop_first() } else { user }
}

pub fn strip_user_sigil(user: &str) -> (r: String)
    ensures
        r@ == bare_user_name(user@),
{
    let v = chars_of(user);
    if v.len() > 0 && v[0] == '@' {
        let r = string_from_chars(&v, 1, v.len());
        proof { assert(v@.subrange(1, v.len() as int) =~= user@.drop_first()); }
        r
    } else {
        user.to_string()
    }
}

/// `User '<name>' not found`.
pub open spec fn user_not_found_text(name: Seq<char>) -> Seq<char> {
    "User '"@ + name + "' not found"@
}

pub fn user_not_found(name: &str) -> (r: SlackCliError)
    ensures
        r matches SlackCliError::Validation(m) && m@ == user_not_found_text(name@),
{
    let mut m = "User '".to_string();
    m.push_str(name);
    m.push_str("' not found");
    SlackCliError::Validation(m)
}

/// Whether a member's `name` equals `wanted` ignoring case.
pub open spec fn member_named(member: Json, wanted: Seq<char>) -> bool {
    str_field(member, "name"@) matches Some(n) && unicode_lowercase(n) == unicode_lowercase(wanted)
}

/// The first member named `wanted` (ignoring case).
pub open spec fn first_member_named(members: Seq<Json>, wanted: Seq<char>) -> Option<int>
    decreases members.len(),
{
    if members.len() == 0 {
        None
    } else if member_named(members[0], wanted) {
        Some(0)
    } else {
        match first_member_named(members.drop_first(), wanted) {
            Some(i) => Some(i + 1),
            None => None,
        }
    }
}

proof fn lemma_first_member_step(members: Seq<Json>, wanted: Seq<char>, i: int)
    requires
        0 <= i < members.len(),
        forall|k: int| 0 <= k < i ==> !member_named(#[trigger] members[k], wanted),
    ensures
        first_member_named(members, wanted) == (if member_named(members[i], wanted) { Some(i) } else {
            match first_member_named(members.subrange(i + 1, members.len() as int), wanted) {
                Some(j) => Some(j + i + 1),
                None => None::<int>,
            }
        }),
    decreases i,
{
    if i > 0 {
        let rest = members.drop_first();
        assert forall|k: int| 0 <= k < i - 1 implies !member_named(#[trigger] rest[k], wanted) by {
            assert(rest[k] == members[k + 1]);
        }
        lemma_first_member_step(rest, wanted, i - 1);
        assert(rest.subrange(i, rest.len() as int) =~= members.subrange(i + 1, members.len() as int));
        assert(rest[i - 1] == members[i]);
        assert(!member_named(members[0], wanted));
    }
}

/// The ID of the first member called `name` (ignoring case); `None` when there is none
/// or when that member has no ID.
pub open spec fn member_id_by_name(members: Seq<Json>, name: Seq<char>) -> Option<Seq<char>> {
    match first_member_named(members, name) {
        Some(i) => str_field(members[i], "id"@),
        None => None,
    }
}

/// A user is found by the `name` field: the first member whose `name` equals the wanted
/// name ignoring case gives its ID, whatever its other fields say.
pub proof fn law_user_found_by_name(members: Seq<Json>, wanted: Seq<char>, i: int)
    requires
        0 <= i < members.len(),
        str_field(members[i], "name"@) matches Some(n) && unicode_lowercase(n) == unicode_lowercase(wanted),
        forall|k: int| 0 <= k < i ==> !(str_field(#[trigger] members[k], "name"@) matches Some(n)
            && unicode_lowercase(n) == unicode_lowercase(wanted)),
    ensures
        member_id_by_name(members, wanted) == str_field(members[i], "id"@),
{
    assert forall|k: int| 0 <= k < i implies !member_named(#[trigger] members[k], wanted) by {
        assert(!(str_field(members[k], "name"@) matches Some(n) && unicode_lowercase(n) == unicode_lowercase(wanted)));
    }
    lemma_first_member_step(members, wanted, i);
}

/// No user is found when no member's `name` equals the wanted name ignoring case.
pub proof fn law_no_user_without_that_name(members: Seq<Json>, wanted: Seq<char>)
    requires
        forall|k: int| 0 <= k < members.len() ==> !(str_field(#[trigger] members[k], "name"@) matches Some(n)
            && unicode_lowercase(n) == unicode_lowercase(wanted)),
    ensures
        member_id_by_name(members, wanted) is None,
{
    assert forall|k: int| 0 <= k < members.len() implies !member_named(#[trigger] members[k], wanted) by {
        assert(!(str_field(members[k], "name"@) matches Some(n) && unicode_lowercase(n) == unicode_lowercase(wanted)));
    }
    lemma_none_named(members, wanted);
}

pub fn find_user_id(members: &Vec<Json>, name: &str) -> (r: Option<String>)
    ensures
        match r {
            Some(id) => member_id_by_name(members@, name@) == Some(id@),
            None => member_id_by_name(members@, name@) is None,
        },
{
    let wanted = to_lowercase(name);
    let mut i: usize = 0;
    while i < members.len()
        invariant
            i <= members.len(),
            wanted@ == unicode_lowercase(name@),
            forall|k: int| 0 <= k < i ==> !member_named(#[trigger] members@[k], name@),
        decreases members.len() - i,
    {
        let m = &members[i];
        let hit = match m.str_field("name") {
            Some(n) => str_eq(to_lowercase(n.as_str()).as_str(), wanted.as_str()),
            None => false,
        };
        if hit {
            proof {
                lemma_first_member_step(members@, name@, i as int);
            }
            return match m.str_field("id") {
                Some(id) => Some(id.clone()),
                None => None,
            };
        }
        i = i + 1;
    }
    proof {
        lemma_none_named(members@, name@);
    }
    None
}

proof fn lemma_none_named(members: Seq<Json>, wanted: Seq<char>)
    requires
        forall|k: int| 0 <= k < members.len() ==> !member_named(#[trigger] members[k], wanted),
    ensures
        first_member_named(members, wanted) is None,
    decreases members.len(),
{
    if members.len() > 0 {
        let rest = members.drop_first();
        assert forall|k: int| 0 <= k < rest.len() implies !member_named(#[trigger] rest[k], wanted) by {
            assert(rest[k] == members[k + 1]);
        }
        assert(!member_named(members[0], wanted));
        lemma_none_named(rest, wanted);
    }
}

/// The DM channel from a `conversations.open` answer: the dry-run marker on a dry run,
/// else `channel.id`; an answer without one is the API error `no_dm_channel`.
pub open spec fn dm_channel(response: Json) -> Option<Seq<char>> {
    if json_bool(json_get(response, "dry_run"@)) == Some(true) {
        Some(DRY_RUN_CHANNEL@)
    } else {
        match json_get(response, "channel"@) {
            Some(c) => str_field(c, "id"@),
            None => None,
        }
    }
}

pub fn dm_channel_from_response(response: &Json) -> (r: Result<String, SlackCliError>)
    ensures
        match dm_channel(*response) {
            Some(c) => r matches Ok(s) && s@ == c,
            None => r matches Err(e) && e matches SlackCliError::Api { status, code, needed }
                && status == 200 && code@ == "no_dm_channel"@ && needed@.len() == 0,
        },
{
    let dry = match response.get("dry_run") {
        Some(v) => v.as_bool(),
        None => None,
    };
    if dry == Some(true) {
        return Ok(DRY_RUN_CHANNEL.to_string());
    }
    let id = match response.get("channel") {
        Some(c) => c.str_field("id"),
        None => None,
    };
    match id {
        Some(s) => Ok(s.clone()),
        None => Err(SlackCliError::Api { status: 200, code: "no_dm_channel".to_string(), needed: Vec::new() }),
    }
}

/// How the success message names the target: a channel as a label, a user as
/// `@<name>` (one leading `@` dropped first), an email address as given.
pub open spec fn target_label_text(target: Target) -> Seq<char> {
    match target {
        Target::Channel(c) => channel_label_text(c@),
        Target::User(u) => seq!['@'] + bare_user_name(u@),
        Target::Email(e) => e@,
    }
}

pub fn target_label(target: &Target) -> (r: String)
    ensures
        r@ == target_label_text(*target),
{
    match target {
        Target::Channel(c) => channel_label(c.as_str()),
        Target::User(u) => {
            let mut r = "@".to_string();
            r.push_str(strip_user_sigil(u.as_str()).as_str());
            proof { reveal_strlit("@"); }
            r
        },
        Target::Email(e) => e.clone(),
    }
}

/// The user ID of a `users.lookupByEmail` answer; `User '<email>' not found` without one.
pub fn email_user_id(response: &Json, email: &str) -> (r: Result<String, SlackCliError>)
    ensures
        match json_get(*response, "user"@) {
            Some(u) => match str_field(u, "id"@) {
                Some(id) => r matches Ok(v) && v@ == id,
                None => r matches Err(e) && e matches SlackCliError::Validation(m) && m@ == user_not_found_text(email@),
            },
            None => r matches Err(e) && e matches SlackCliError::Validation(m) && m@ == user_not_found_text(email@),
        },
{
    match response.get("user") {
        Some(u) => match u.str_field("id") {
            Some(id) => Ok(id.clone()),
            None => Err(user_not_found(email)),
        },
        None => Err(user_not_found(email)),
    }
}

} // verus!
