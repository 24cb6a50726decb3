//! The commands' arguments as plain values, and the decisions each command makes
//! before and after it talks to Slack.
//!
//! Parsing the command line is the program's business; the library receives the parsed
//! arguments and validates them here with the same rules and messages.

pub mod reaction;
pub mod send;
pub mod edit;
pub mod invite;
pub mod draft;
pub mod search;
pub mod channels;
pub mod channel;
pub mod bookmark;
pub mod canvas;
pub mod config_cmd;
pub mod history;
pub mod unread;
pub mod upload;
pub mod download;
pub mod others;
pub mod users;
pub mod usergroups;
pub mod pin;
pub mod reminder;

use vstd::prelude::*;
use crate::error::SlackCliError;
use crate::sanitize::{sanitize_single_line_text, single_line};
use crate::strings::{all_digits, digits_value, is_ascii_digit, parse_u32, parse_u32_spec, starts_with_char, trim, trimmed};

verus! {

broadcast use vstd::string::group_string_axioms;

/// The output formats.
#[derive(Clone, Copy, PartialEq, Eq, Structural, Debug)]
pub enum OutputFormat {
    Table,
    Json,
    Csv,
    Yaml,
    Tsv,
    /// Only the identifiers of the records.
    IdOnly,
}

/// The name under which a format is chosen on the command line.
pub open spec fn format_named(name: Seq<char>) -> Option<OutputFormat> {
    if name == "table"@ {
        Some(OutputFormat::Table)
    } else if name == "json"@ {
        Some(OutputFormat::Json)
    } else if name == "csv"@ {
        Some(OutputFormat::Csv)
    } else if name == "yaml"@ {
        Some(OutputFormat::Yaml)
    } else if name == "tsv"@ {
        Some(OutputFormat::Tsv)
    } else if name == "id-only"@ {
        Some(OutputFormat::IdOnly)
    } else {
        None
    }
}

impl OutputFormat {
    /// The format called `name`; another name is refused with
    /// `Unknown output format: <name>`.
    pub fn from_name(name: &str) -> (r: Result<OutputFormat, String>)
        ensures
            format_named(name@) matches Some(f) ==> r == Ok::<OutputFormat, String>(f),
            format_named(name@) is None ==> (r matches Err(m) && m@ == "Unknown output format: "@ + name@),
    {
        if crate::strings::str_eq(name, "table") {
            Ok(OutputFormat::Table)
        } else if crate::strings::str_eq(name, "json") {
            Ok(OutputFormat::Json)
        } else if crate::strings::str_eq(name, "csv") {
            Ok(OutputFormat::Csv)
        } else if crate::strings::str_eq(name, "yaml") {
            Ok(OutputFormat::Yaml)
        } else if crate::strings::str_eq(name, "tsv") {
            Ok(OutputFormat::Tsv)
        } else if crate::strings::str_eq(name, "id-only") {
            Ok(OutputFormat::IdOnly)
        } else {
            let mut m = "Unknown output format: ".to_string();
            m.push_str(name);
            Err(m)
        }
    }
}

/// Options that every command accepts.
pub struct GlobalOpts {
    pub token: Option<String>,
    pub profile: Option<String>,
    pub format: OutputFormat,
    pub json: bool,
    pub dry_run: bool,
    pub no_color: bool,
}

impl GlobalOpts {
    /// The defaults: table output, nothing else set.
    pub fn defaults() -> (r: GlobalOpts)
        ensures
            r.token is None,
            r.profile is None,
            r.format == OutputFormat::Table,
            !r.json,
            !r.dry_run,
            !r.no_color,
    {
        GlobalOpts { token: None, profile: None, format: OutputFormat::Table, json: false, dry_run: false, no_color: false }
    }

    /// The format in effect: `--json` wins over `--format`.
    pub open spec fn effective_format(&self) -> OutputFormat {
        if self.json { OutputFormat::Json } else { self.format }
    }

    pub fn output_format(&self) -> (r: OutputFormat)
        ensures
            r == self.effective_format(),
    {
        if self.json {
            OutputFormat::Json
        } else {
            self.format
        }
    }
}

/// The value of a strictly positive integer flag: after trimming surrounding
/// whitespace, the text must be non-empty, all ASCII digits, and denote a number from
/// 1 to `u32::MAX`; any other character (a sign included) is refused.
pub open spec fn positive_int(raw: Seq<char>) -> Option<nat> {
    let t = trim(raw);
    if t.len() > 0 && all_digits(t) && 0 < digits_value(t) <= u32::MAX {
        Some(digits_value(t))
    } else {
        None
    }
}

/// Parses a numeric flag such as `--limit`; `message` is the flag's own error text.
pub fn parse_positive_int(raw: &str, message: &str) -> (r: Result<u32, SlackCliError>)
    ensures
        positive_int(raw@) matches Some(n) ==> (r matches Ok(v) && v == n),
        positive_int(raw@) is None ==> (r matches Err(e) && e matches SlackCliError::Validation(m) && m@ == message@),
{
    let t = trimmed(raw);
    if starts_with_char(t.as_str(), '+') {
        proof { assert(!is_ascii_digit(t@[0])); assert(!all_digits(trim(raw@))); }
        return Err(SlackCliError::Validation(message.to_string()));
    }
    match parse_u32(t.as_str()) {
        Some(n) => {
            if n == 0 {
                Err(SlackCliError::Validation(message.to_string()))
            } else {
                Ok(n)
            }
        },
        None => Err(SlackCliError::Validation(message.to_string())),
    }
}

/// What a write command prints once Slack accepted the request.
pub enum SuccessOutput {
    /// Nothing: a dry run in table format claims no success.
    Nothing,
    /// The success message, on one line.
    Line(String),
    /// `{"ok": true, "dry_run": true}` in the requested format, in place of a result.
    DryRunEnvelope,
    /// Slack's response in the requested format.
    Data,
}

/// The one-line success message of a write command; nothing on a dry run, since no
/// request went out.
pub fn success_line(global: &GlobalOpts, message: &str) -> (r: Option<String>)
    ensures
        global.dry_run ==> r is None,
        !global.dry_run ==> (r matches Some(l) && l@ == single_line(message@)),
{
    if global.dry_run {
        None
    } else {
        Some(sanitize_single_line_text(message))
    }
}

/// The output of a write command: a table shows the message, other formats the data;
/// a dry run never claims success, and marks machine-readable output as not sent.
pub fn success_output(global: &GlobalOpts, message: &str) -> (r: SuccessOutput)
    ensures
        ({
            let table = global.effective_format() == OutputFormat::Table;
            if global.dry_run {
                if table { r is Nothing } else { r is DryRunEnvelope }
            } else if table {
                r matches SuccessOutput::Line(l) && l@ == single_line(message@)
            } else {
                r is Data
            }
        }),
{
    let table = global.output_format() == OutputFormat::Table;
    if global.dry_run {
        if table { SuccessOutput::Nothing } else { SuccessOutput::DryRunEnvelope }
    } else if table {
        SuccessOutput::Line(sanitize_single_line_text(message))
    } else {
        SuccessOutput::Data
    }
}

/// A parsed command line.
pub struct Cli {
    pub command: Command,
    pub global: GlobalOpts,
}

/// The commands.
pub enum Command {
    Config(config_cmd::ConfigCommand),
    Auth(others::AuthCommand),
    Send(send::SendCommand),
    SendEphemeral(others::SendEphemeralCommand),
    Edit(edit::EditCommand),
    Delete(edit::DeleteCommand),
    History(history::HistoryCommand),
    Unread(unread::UnreadCommand),
    Channels(channels::ChannelsCommand),
    Channel(channel::ChannelCommand),
    Join(others::JoinCommand),
    Leave(others::LeaveCommand),
    Invite(invite::InviteCommand),
    Members(others::MembersCommand),
    Search(search::SearchCommand),
    Users(others::UsersCommand),
    Usergroups(others::UsergroupsCommand),
    Reaction(reaction::ReactionCommand),
    Pin(others::PinCommand),
    Upload(upload::UploadCommand),
    Download(download::DownloadCommand),
    Canvas(canvas::CanvasCommand),
    Bookmark(bookmark::BookmarkCommand),
    Draft(draft::DraftCommand),
    Scheduled(others::ScheduledCommand),
    Reminder(others::ReminderCommand),
}

impl Command {
    /// Whether the command needs an API client: every command but `config`, and `draft`
    /// only for `send`.
    pub fn needs_client(&self) -> (r: bool)
        ensures
            r == match self {
                Command::Config(_) => false,
                Command::Draft(d) => d.command is Send,
                _ => true,
            },
    {
        match self {
            Command::Config(_) => false,
            Command::Draft(d) => d.needs_client(),
            _ => true,
        }
    }
}

} // verus!
