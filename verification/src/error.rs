//! Error values and exit codes.
//!
//! Slack reports failures in the body (`"ok": false`, `"error": "channel_not_found"`)
//! even on HTTP 200, so an API error keeps the Slack error code as its primary datum.
//! Failures of the transport, the file system and JSON decoding carry their message.

use vstd::prelude::*;
use crate::strings::{
    decimal, join, join_strings, push_decimal, split_char, split_on, trim, trimmed, views,
};

verus! {

broadcast use vstd::string::group_string_axioms;

pub const CODE_CONFIGURATION: &'static str = "CONFIGURATION_ERROR";
pub const CODE_VALIDATION: &'static str = "VALIDATION_ERROR";
pub const CODE_API: &'static str = "API_ERROR";
pub const CODE_FILE: &'static str = "FILE_ERROR";

#[derive(Debug)]
pub enum SlackCliError {
    NotAuthenticated,
    /// Slack answered `ok: false`; `code` is the Slack error code, `needed` the
    /// missing scopes reported with `missing_scope`.
    Api { status: u16, code: String, needed: Vec<String> },
    RateLimited { retry_after: u64 },
    /// A message composed by the command itself (printed without the `API Error:` prefix).
    NotFound(String),
    Configuration(String),
    Validation(String),
    File(String),
    Pagination(String),
    InvalidId(String),
    /// A transport failure, with its message.
    Http(String),
    /// A file-system failure, with its message.
    Io(String),
    /// A JSON decoding failure, with its message.
    Json(String),
}

/// Which `code()` a variant reports.
pub enum ErrorCode {
    Configuration,
    Validation,
    Api,
    File,
}

pub open spec fn error_code(e: SlackCliError) -> Option<ErrorCode> {
    match e {
        SlackCliError::Configuration(_) | SlackCliError::NotAuthenticated => Some(ErrorCode::Configuration),
        SlackCliError::Validation(_) | SlackCliError::InvalidId(_) => Some(ErrorCode::Validation),
        SlackCliError::Api { .. } | SlackCliError::RateLimited { .. } | SlackCliError::NotFound(_) => Some(ErrorCode::Api),
        SlackCliError::File(_) => Some(ErrorCode::File),
        _ => None,
    }
}

pub open spec fn code_text(c: ErrorCode) -> &'static str {
    match c {
        ErrorCode::Configuration => CODE_CONFIGURATION,
        ErrorCode::Validation => CODE_VALIDATION,
        ErrorCode::Api => CODE_API,
        ErrorCode::File => CODE_FILE,
    }
}

/// `API Error: <code>`, followed by ` (needed: a, b)` when scopes are missing.
pub open spec fn api_error_text(code: Seq<char>, needed: Seq<Seq<char>>) -> Seq<char> {
    if needed.len() == 0 {
        "API Error: "@ + code
    } else {
        "API Error: "@ + code + " (needed: "@ + join(needed, ", "@) + ")"@
    }
}

/// The human-readable message of each error.
pub open spec fn error_message(e: SlackCliError) -> Seq<char> {
    match e {
        SlackCliError::NotAuthenticated => "Not authenticated. Run `slack-cli config set --token-stdin` first."@,
        SlackCliError::Api { code, needed, .. } => api_error_text(code@, views(needed@)),
        SlackCliError::RateLimited { retry_after } => "Rate limited. Retry after "@ + decimal(retry_after as nat) + "s"@,
        SlackCliError::Pagination(m) => "Pagination error: "@ + m@,
        SlackCliError::InvalidId(m) => "Invalid ID format: "@ + m@,
        SlackCliError::NotFound(m) | SlackCliError::Configuration(m) | SlackCliError::Validation(m)
        | SlackCliError::File(m) | SlackCliError::Http(m) | SlackCliError::Io(m) | SlackCliError::Json(m) => m@,
    }
}

/// Formats the message of an API error.
pub fn format_api_error(code: &str, needed: &Vec<String>) -> (r: String)
    ensures
        r@ == api_error_text(code@, views(needed@)),
{
    let mut r = "API Error: ".to_string();
    r.push_str(code);
    if needed.len() > 0 {
        r.push_str(" (needed: ");
        let joined = join_strings(needed, ", ");
        r.push_str(joined.as_str());
        r.push_str(")");
    }
    r
}

impl SlackCliError {
    /// The error class code (`API_ERROR`, ...); `None` for variants without one.
    pub fn code(&self) -> (r: Option<&'static str>)
        ensures
            r == (match error_code(*self) {
                Some(c) => Some(code_text(c)),
                None => None,
            }),
    {
        match self {
            SlackCliError::Configuration(_) | SlackCliError::NotAuthenticated => Some(CODE_CONFIGURATION),
            SlackCliError::Validation(_) | SlackCliError::InvalidId(_) => Some(CODE_VALIDATION),
            SlackCliError::Api { .. } | SlackCliError::RateLimited { .. } | SlackCliError::NotFound(_) => Some(CODE_API),
            SlackCliError::File(_) => Some(CODE_FILE),
            _ => None,
        }
    }

    /// The process exit status: every failure exits with 1.
    pub fn exit_code(&self) -> (r: i32)
        ensures
            r == 1,
    {
        1
    }

    /// The message shown to the user.
    pub fn message(&self) -> (r: String)
        ensures
            r@ == error_message(*self),
    {
        match self {
            SlackCliError::NotAuthenticated => "Not authenticated. Run `slack-cli config set --token-stdin` first.".to_string(),
            SlackCliError::Api { code, needed, .. } => format_api_error(code.as_str(), needed),
            SlackCliError::RateLimited { retry_after } => {
                let mut r = "Rate limited. Retry after ".to_string();
                push_decimal(&mut r, *retry_after);
                r.push_str("s");
                r
            },
            SlackCliError::Pagination(m) => {
                let mut r = "Pagination error: ".to_string();
                r.push_str(m.as_str());
                r
            },
            SlackCliError::InvalidId(m) => {
                let mut r = "Invalid ID format: ".to_string();
                r.push_str(m.as_str());
                r
            },
            SlackCliError::NotFound(m) | SlackCliError::Configuration(m) | SlackCliError::Validation(m)
            | SlackCliError::File(m) | SlackCliError::Http(m) | SlackCliError::Io(m) | SlackCliError::Json(m) => m.clone(),
        }
    }
}

/// The error body Slack sends: `{ "ok": false, "error": ..., "needed": ..., "provided": ... }`.
pub struct ErrorResponse {
    pub error: Option<String>,
    pub needed: Option<String>,
    pub provided: Option<String>,
}

/// The trimmed, non-empty pieces of a list of comma-separated fields.
pub open spec fn nonempty_trimmed(parts: Seq<Seq<char>>) -> Seq<Seq<char>>
    decreases parts.len(),
{
    if parts.len() == 0 {
        Seq::empty()
    } else {
        let rest = nonempty_trimmed(parts.drop_last());
        if trim(parts.last()).len() > 0 { rest.push(trim(parts.last())) } else { rest }
    }
}

/// The scopes listed in a `needed` field: split at commas, trimmed, empty pieces dropped.
pub open spec fn scope_list(needed: Option<String>) -> Seq<Seq<char>> {
    match needed {
        Some(n) => nonempty_trimmed(split_on(n@, ',')),
        None => Seq::empty(),
    }
}

pub open spec fn error_code_or_unknown(error: Option<String>) -> Seq<char> {
    match error {
        Some(e) => e@,
        None => "unknown_error"@,
    }
}

/// The pieces of a comma-separated list, each trimmed, empty ones dropped.
pub fn comma_items(s: &str) -> (r: Vec<String>)
    ensures
        views(r@) == nonempty_trimmed(split_on(s@, ',')),
{
    let mut out: Vec<String> = Vec::new();
    let parts = split_char(s, ',');
    let mut i: usize = 0;
    proof {
        assert(views(parts@).take(0) =~= Seq::<Seq<char>>::empty());
        assert(views(out@) =~= Seq::<Seq<char>>::empty());
    }
    while i < parts.len()
        invariant
            i <= parts.len(),
            views(out@) == nonempty_trimmed(views(parts@).take(i as int)),
        decreases parts.len() - i,
    {
        let t = trimmed(parts[i].as_str());
        proof {
            assert(views(parts@).take(i + 1).drop_last() =~= views(parts@).take(i as int));
            assert(views(parts@).take(i + 1).last() == parts@[i as int]@);
        }
        if !t.is_empty() {
            let ghost before = out@;
            out.push(t);
            proof {
                assert(views(out@) =~= views(before).push(t@));
            }
        }
        i = i + 1;
    }
    proof {
        assert(views(parts@).take(parts.len() as int) =~= views(parts@));
    }
    out
}

impl ErrorResponse {
    /// The missing scopes: `needed` split at commas, each trimmed, empty ones dropped.
    pub fn needed_scopes(&self) -> (r: Vec<String>)
        ensures
            views(r@) == scope_list(self.needed),
    {
        let mut out: Vec<String> = Vec::new();
        match &self.needed {
            None => {
                proof {
                    assert(views(out@) =~= Seq::<Seq<char>>::empty());
                }
                out
            },
            Some(n) => comma_items(n.as_str()),
        }
    }

    /// The API error this body stands for; a missing code reads `unknown_error`.
    pub fn into_error(self, status: u16) -> (r: SlackCliError)
        ensures
            r matches SlackCliError::Api { status: s, code, needed } && s == status
                && code@ == error_code_or_unknown(self.error)
                && views(needed@) == scope_list(self.needed),
    {
        let needed = self.needed_scopes();
        let code = match self.error {
            Some(e) => e,
            None => "unknown_error".to_string(),
        };
        SlackCliError::Api { status, code, needed }
    }
}

} // verus!
