//! `edit` and `delete`: changing or removing a message that was sent.

use vstd::prelude::*;
use crate::cli::send::is_validation;
use crate::common::{channel_label, channel_label_text, is_message_ts, message_ts_like, ERR_INVALID_MESSAGE_TS};
use crate::error::SlackCliError;
use crate::json::{json_array_check, json_get, json_str, json_text_is_array, Json};

verus! {

broadcast use vstd::string::group_string_axioms;

pub const ERR_INVALID_TS: &'static str = ERR_INVALID_MESSAGE_TS;
pub const ERR_MESSAGE_OR_FILE: &'static str = "You must specify either --message or --file";
pub const ERR_BOTH_MESSAGE_AND_FILE: &'static str = "Cannot use both --message and --file";
pub const ERR_BOTH_BLOCKS: &'static str = "Cannot use both --blocks and --blocks-file";
pub const ERR_INVALID_BLOCKS_JSON: &'static str = "Invalid blocks JSON: must be a valid JSON array";
pub const ERR_BLOCKS_NOT_ARRAY: &'static str = "blocks must be a JSON array";

pub struct EditCommand {
    pub channel: String,
    pub ts: String,
    pub message: Option<String>,
    pub file: Option<String>,
    pub blocks: Option<String>,
    pub blocks_file: Option<String>,
}

pub struct DeleteCommand {
    pub channel: String,
    pub ts: String,
}

/// `--ts` must read `1234567890.123456`.
pub fn validate_message_ts(ts: &str) -> (r: Result<(), SlackCliError>)
    ensures
        message_ts_like(ts@) ==> r is Ok,
        !message_ts_like(ts@) ==> is_validation(r, ERR_INVALID_TS),
{
    if is_message_ts(ts) {
        Ok(())
    } else {
        Err(SlackCliError::Validation(ERR_INVALID_TS.to_string()))
    }
}

/// Both a message and a file is an error, checked first; then some body is needed
/// (blocks alone will do).
pub fn validate_message_or_file(
    message: Option<&str>,
    file: Option<&str>,
    blocks: Option<&str>,
    blocks_file: Option<&str>,
) -> (r: Result<(), SlackCliError>)
    ensures
        (message is Some && file is Some) ==> is_validation(r, ERR_BOTH_MESSAGE_AND_FILE),
        (message is None && file is None && blocks is None && blocks_file is None) ==> is_validation(r, ERR_MESSAGE_OR_FILE),
        (!(message is Some && file is Some) && (message is Some || file is Some || blocks is Some || blocks_file is Some)) ==> r is Ok,
{
    if message.is_some() && file.is_some() {
        return Err(SlackCliError::Validation(ERR_BOTH_MESSAGE_AND_FILE.to_string()));
    }
    if message.is_none() && file.is_none() && blocks.is_none() && blocks_file.is_none() {
        return Err(SlackCliError::Validation(ERR_MESSAGE_OR_FILE.to_string()));
    }
    Ok(())
}

/// `--blocks` and `--blocks-file` exclude each other; `--blocks` must be a JSON array,
/// and its checked text is handed back.
pub fn validate_blocks_options(blocks: Option<&str>, blocks_file: Option<&str>) -> (r: Result<Option<String>, SlackCliError>)
    ensures
        (blocks is Some && blocks_file is Some) ==> is_validation(r, ERR_BOTH_BLOCKS),
        blocks is None ==> r == Ok::<Option<String>, SlackCliError>(None),
        blocks matches Some(b) ==> blocks_file is None ==> (if json_text_is_array(b@) == Some(true) {
            r matches Ok(Some(t)) && t@ == b@
        } else {
            is_validation(r, ERR_INVALID_BLOCKS_JSON)
        }),
{
    if blocks.is_some() && blocks_file.is_some() {
        return Err(SlackCliError::Validation(ERR_BOTH_BLOCKS.to_string()));
    }
    match blocks {
        None => Ok(None),
        Some(raw) => match json_array_check(raw) {
            Some(true) => Ok(Some(raw.to_string())),
            _ => Err(SlackCliError::Validation(ERR_INVALID_BLOCKS_JSON.to_string())),
        },
    }
}

/// The checks of `edit`, in order: timestamp, body, blocks. The checked `--blocks` text
/// is handed back.
pub fn validate_edit(cmd: &EditCommand) -> (r: Result<Option<String>, SlackCliError>)
    ensures
        !message_ts_like(cmd.ts@) ==> is_validation(r, ERR_INVALID_TS),
        message_ts_like(cmd.ts@) ==> (if cmd.message is Some && cmd.file is Some {
            is_validation(r, ERR_BOTH_MESSAGE_AND_FILE)
        } else if cmd.message is None && cmd.file is None && cmd.blocks is None && cmd.blocks_file is None {
            is_validation(r, ERR_MESSAGE_OR_FILE)
        } else if cmd.blocks is Some && cmd.blocks_file is Some {
            is_validation(r, ERR_BOTH_BLOCKS)
        } else {
            match cmd.blocks {
                None => r == Ok::<Option<String>, SlackCliError>(None),
                Some(b) => if json_text_is_array(b@) == Some(true) {
                    r matches Ok(Some(t)) && t@ == b@
                } else {
                    is_validation(r, ERR_INVALID_BLOCKS_JSON)
                },
            }
        }),
{
    validate_message_ts(cmd.ts.as_str())?;
    let message = match &cmd.message { Some(s) => Some(s.as_str()), None => None };
    let file = match &cmd.file { Some(s) => Some(s.as_str()), None => None };
    let blocks = match &cmd.blocks { Some(s) => Some(s.as_str()), None => None };
    let blocks_file = match &cmd.blocks_file { Some(s) => Some(s.as_str()), None => None };
    validate_message_or_file(message, file, blocks, blocks_file)?;
    validate_blocks_options(blocks, blocks_file)
}

/// `Error reading blocks file <path>: blocks must be a JSON array`.
pub open spec fn blocks_not_array_text(path: Seq<char>) -> Seq<char> {
    "Error reading blocks file "@ + path + ": "@ + ERR_BLOCKS_NOT_ARRAY@
}

/// Checks the contents of a blocks file: not JSON is the message of an invalid
/// `--blocks`, JSON that is not an array names the file.
pub fn check_blocks_file(path: &str, contents: &str) -> (r: Result<(), SlackCliError>)
    ensures
        json_text_is_array(contents@) == Some(true) ==> r is Ok,
        json_text_is_array(contents@) is None ==> (r matches Err(e) && e matches SlackCliError::File(m) && m@ == ERR_INVALID_BLOCKS_JSON@),
        json_text_is_array(contents@) == Some(false) ==> (r matches Err(e) && e matches SlackCliError::File(m) && m@ == blocks_not_array_text(path@)),
{
    match json_array_check(contents) {
        Some(true) => Ok(()),
        Some(false) => {
            let mut m = "Error reading blocks file ".to_string();
            m.push_str(path);
            m.push_str(": ");
            m.push_str(ERR_BLOCKS_NOT_ARRAY);
            Err(SlackCliError::File(m))
        },
        None => Err(SlackCliError::File(ERR_INVALID_BLOCKS_JSON.to_string())),
    }
}

/// `{"channel", "ts"}` of a write: what the API answered, else what was sent (as on a
/// dry run).
pub open spec fn message_result_view(response: Json, channel_id: Seq<char>, ts: Seq<char>) -> (Seq<char>, Seq<char>) {
    (
        match json_str(json_get(response, "channel"@)) { Some(c) => c, None => channel_id },
        match json_str(json_get(response, "ts"@)) { Some(t) => t, None => ts },
    )
}

/// The object `{"channel": .., "ts": ..}`.
pub open spec fn channel_ts_object(v: Json, channel: Seq<char>, ts: Seq<char>) -> bool {
    &&& v matches Json::Object(fields)
    &&& fields@.len() == 2
    &&& fields@[0].0@ == "channel"@
    &&& fields@[0].1 == Json::Str(fields@[0].1->Str_0)
    &&& fields@[0].1->Str_0@ == channel
    &&& fields@[1].0@ == "ts"@
    &&& fields@[1].1 == Json::Str(fields@[1].1->Str_0)
    &&& fields@[1].1->Str_0@ == ts
}

pub fn message_result(response: &Json, channel_id: &str, ts: &str) -> (r: Json)
    ensures
        channel_ts_object(r, message_result_view(*response, channel_id@, ts@).0, message_result_view(*response, channel_id@, ts@).1),
{
    let channel = match response.get("channel") {
        Some(v) => match v.as_str() { Some(s) => s.clone(), None => channel_id.to_string() },
        None => channel_id.to_string(),
    };
    let t = match response.get("ts") {
        Some(v) => match v.as_str() { Some(s) => s.clone(), None => ts.to_string() },
        None => ts.to_string(),
    };
    let mut fields: Vec<(String, Json)> = Vec::new();
    fields.push(("channel".to_string(), Json::Str(channel)));
    fields.push(("ts".to_string(), Json::Str(t)));
    Json::Object(fields)
}

/// `✓ Message updated successfully in <channel>`.
pub fn edit_success_message(channel: &str) -> (r: String)
    ensures
        r@ == "✓ Message updated successfully in "@ + channel_label_text(channel@),
{
    let mut r = "✓ Message updated successfully in ".to_string();
    r.push_str(channel_label(channel).as_str());
    r
}

/// `✓ Message deleted successfully from <channel>`.
pub fn delete_success_message(channel: &str) -> (r: String)
    ensures
        r@ == "✓ Message deleted successfully from "@ + channel_label_text(channel@),
{
    let mut r = "✓ Message deleted successfully from ".to_string();
    r.push_str(channel_label(channel).as_str());
    r
}

} // verus!
