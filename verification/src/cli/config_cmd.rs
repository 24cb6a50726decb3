//! `config`: profiles and tokens. Nothing here talks to Slack.

use vstd::prelude::*;
use crate::cli::send::is_validation;
use crate::config::{mask_token, masked, ProfileEntry};
use crate::error::SlackCliError;
use crate::json::Json;
use crate::strings::{trim, trimmed};

verus! {

broadcast use vstd::string::group_string_axioms;

pub const ERR_BOTH_TOKEN_SOURCES: &'static str = "Cannot use --token and --token-stdin together";
pub const ERR_EMPTY_STDIN: &'static str = "No token received from stdin";
pub const ERR_EMPTY_PROMPT: &'static str = "Token cannot be empty";
pub const ERR_NO_TOKEN: &'static str = "No token provided. Use --token-stdin, set SLACK_CLI_TOKEN, or run this command in an interactive terminal.";
pub const WARN_TOKEN_FLAG: &'static str = "Warning: --token may leak secrets via shell history/process list. Prefer --token-stdin or interactive input.";
pub const MSG_NO_PROFILES: &'static str = "No profiles found. Use \"slack-cli config set --token <token>\" to create one.";
pub const TOKEN_ENV_VAR: &'static str = "SLACK_CLI_TOKEN";

pub struct ConfigCommand {
    pub command: ConfigSubcommand,
}

pub enum ConfigSubcommand {
    SetToken { token_stdin: bool },
    Get,
    Profiles,
    Use { profile: String },
    Current,
    Clear,
}

/// The value trimmed; blank is the error `message`.
pub fn non_empty(value: &str, message: &str) -> (r: Result<String, SlackCliError>)
    ensures
        trim(value@).len() == 0 ==> (r matches Err(e) && e matches SlackCliError::Validation(m) && m@ == message@),
        trim(value@).len() > 0 ==> (r matches Ok(t) && t@ == trim(value@)),
{
    let t = trimmed(value);
    if t.is_empty() {
        return Err(SlackCliError::Validation(message.to_string()));
    }
    Ok(t)
}

/// Where `config set` takes the token from, in order of precedence.
pub enum TokenSource {
    /// Read standard input to its end.
    Stdin,
    /// The `--token` flag (with a warning about shell history).
    Flag(String),
    /// The environment variable, else an interactive prompt.
    EnvironmentOrPrompt,
}

/// `--token` and `--token-stdin` exclude each other; stdin wins over the flag, the
/// flag over the environment and the prompt.
pub fn token_source(flag_token: Option<&str>, token_stdin: bool) -> (r: Result<TokenSource, SlackCliError>)
    ensures
        (flag_token is Some && token_stdin) ==> is_validation(r, ERR_BOTH_TOKEN_SOURCES),
        (flag_token is None && token_stdin) ==> r matches Ok(TokenSource::Stdin),
        flag_token matches Some(t) ==> (!token_stdin ==> (r matches Ok(TokenSource::Flag(f)) && f@ == t@)),
        (flag_token is None && !token_stdin) ==> r matches Ok(TokenSource::EnvironmentOrPrompt),
{
    if flag_token.is_some() && token_stdin {
        return Err(SlackCliError::Validation(ERR_BOTH_TOKEN_SOURCES.to_string()));
    }
    if token_stdin {
        return Ok(TokenSource::Stdin);
    }
    match flag_token {
        Some(t) => Ok(TokenSource::Flag(t.to_string())),
        None => Ok(TokenSource::EnvironmentOrPrompt),
    }
}

/// The token from the environment, when it is not blank (trimmed).
pub fn env_token(value: Option<&str>) -> (r: Option<String>)
    ensures
        match value {
            Some(v) => if trim(v@).len() > 0 { r matches Some(t) && t@ == trim(v@) } else { r is None },
            None => r is None,
        },
{
    match value {
        Some(v) => {
            let t = trimmed(v);
            if t.is_empty() { None } else { Some(t) }
        },
        None => None,
    }
}

/// `✓ Token saved successfully for profile "<profile>"`.
pub fn token_saved_message(profile: &str) -> (r: String)
    ensures
        r@ == "✓ Token saved successfully for profile \""@ + profile@ + "\""@,
{
    let mut r = "✓ Token saved successfully for profile \"".to_string();
    r.push_str(profile);
    r.push_str("\"");
    r
}

/// `✓ Switched to profile "<profile>"`.
pub fn switched_message(profile: &str) -> (r: String)
    ensures
        r@ == "✓ Switched to profile \""@ + profile@ + "\""@,
{
    let mut r = "✓ Switched to profile \"".to_string();
    r.push_str(profile);
    r.push_str("\"");
    r
}

/// `✓ Profile "<profile>" cleared successfully`.
pub fn cleared_message(profile: &str) -> (r: String)
    ensures
        r@ == "✓ Profile \""@ + profile@ + "\" cleared successfully"@,
{
    let mut r = "✓ Profile \"".to_string();
    r.push_str(profile);
    r.push_str("\" cleared successfully");
    r
}

/// `{"profile", "token" (masked), "updatedAt"}` for `config get`.
pub fn config_value(profile: &str, token: &str, updated_at: &str) -> (r: Json)
    ensures
        r is Object && r->Object_0@.len() == 3
            && r->Object_0@[0].0@ == "profile"@ && r->Object_0@[0].1 is Str && r->Object_0@[0].1->Str_0@ == profile@
            && r->Object_0@[1].0@ == "token"@ && r->Object_0@[1].1 is Str && r->Object_0@[1].1->Str_0@ == masked(token@)
            && r->Object_0@[2].0@ == "updatedAt"@ && r->Object_0@[2].1 is Str && r->Object_0@[2].1->Str_0@ == updated_at@,
{
    let mut fields: Vec<(String, Json)> = Vec::new();
    fields.push(("profile".to_string(), Json::Str(profile.to_string())));
    fields.push(("token".to_string(), Json::Str(mask_token(token))));
    fields.push(("updatedAt".to_string(), Json::Str(updated_at.to_string())));
    Json::Object(fields)
}

/// The rows of `config profiles`: name, whether it is the default, the stored token
/// masked, and when it was set.
pub fn profiles_value(entries: &Vec<ProfileEntry>) -> (r: Vec<Json>)
    ensures
        r@.len() == entries@.len(),
        forall|i: int| 0 <= i < r@.len() ==> {
            let o = #[trigger] r@[i];
            &&& o is Object && o->Object_0@.len() == 4
            &&& o->Object_0@[0].0@ == "profile"@ && o->Object_0@[0].1 is Str && o->Object_0@[0].1->Str_0@ == entries@[i].name@
            &&& o->Object_0@[1].0@ == "default"@ && o->Object_0@[1].1 == Json::Bool(entries@[i].is_default)
            &&& o->Object_0@[2].0@ == "token"@ && o->Object_0@[2].1 is Str && o->Object_0@[2].1->Str_0@ == masked(entries@[i].token@)
            &&& o->Object_0@[3].0@ == "updatedAt"@ && o->Object_0@[3].1 is Str && o->Object_0@[3].1->Str_0@ == entries@[i].updated_at@
        },
{
    let mut out: Vec<Json> = Vec::new();
    let mut i: usize = 0;
    while i < entries.len()
        invariant
            i <= entries.len(),
            out@.len() == i,
            forall|k: int| 0 <= k < i ==> {
                let o = #[trigger] out@[k];
                &&& o is Object && o->Object_0@.len() == 4
                &&& o->Object_0@[0].0@ == "profile"@ && o->Object_0@[0].1 is Str && o->Object_0@[0].1->Str_0@ == entries@[k].name@
                &&& o->Object_0@[1].0@ == "default"@ && o->Object_0@[1].1 == Json::Bool(entries@[k].is_default)
                &&& o->Object_0@[2].0@ == "token"@ && o->Object_0@[2].1 is Str && o->Object_0@[2].1->Str_0@ == masked(entries@[k].token@)
                &&& o->Object_0@[3].0@ == "updatedAt"@ && o->Object_0@[3].1 is Str && o->Object_0@[3].1->Str_0@ == entries@[k].updated_at@
            },
        decreases entries.len() - i,
    {
        let e = &entries[i];
        let mut fields: Vec<(String, Json)> = Vec::new();
        fields.push(("profile".to_string(), Json::Str(e.name.clone())));
        fields.push(("default".to_string(), Json::Bool(e.is_default)));
        fields.push(("token".to_string(), Json::Str(mask_token(e.token.as_str()))));
        fields.push(("updatedAt".to_string(), Json::Str(e.updated_at.clone())));
        out.push(Json::Object(fields));
        i = i + 1;
    }
    out
}

} // verus!
