//! `reaction add` / `reaction remove`: emoji reactions on a message.

use vstd::prelude::*;
use crate::common::{channel_label, channel_label_text, message_ts_like, is_message_ts, ERR_INVALID_MESSAGE_TS};
use crate::error::SlackCliError;
use crate::sanitize::{sanitize_single_line_text, single_line};
use crate::strings::{chars_of, string_from_chars, trim, trimmed};

verus! {

broadcast use vstd::string::group_string_axioms;

/// The message of a malformed `--timestamp`: the same as for `edit` and `delete`.
pub const ERR_INVALID_TIMESTAMP: &'static str = ERR_INVALID_MESSAGE_TS;
pub const ERR_EMPTY_EMOJI: &'static str = "--emoji must not be empty";

pub struct ReactionCommand {
    pub command: ReactionSubcommand,
}

pub enum ReactionSubcommand {
    Add(ReactionArgs),
    Remove(ReactionArgs),
}

pub struct ReactionArgs {
    pub channel: String,
    pub timestamp: String,
    pub emoji: String,
}

/// Checks `--timestamp` against the fixed form `1234567890.123456`.
pub fn validate_message_timestamp(raw: &str) -> (r: Result<(), SlackCliError>)
    ensures
        message_ts_like(raw@) <==> r is Ok,
        r matches Err(e) ==> e matches SlackCliError::Validation(m) && m@ == ERR_INVALID_TIMESTAMP@,
{
    if is_message_ts(raw) {
        Ok(())
    } else {
        Err(SlackCliError::Validation(ERR_INVALID_TIMESTAMP.to_string()))
    }
}

/// The emoji name without one leading and one trailing colon, after trimming.
pub open spec fn normalized_emoji(raw: Seq<char>) -> Seq<char> {
    let t = trim(raw);
    let head = if t.len() > 0 && t[0] == ':' { t.drop_first() } else { t };
    if head.len() > 0 && head.last() == ':' { head.drop_last() } else { head }
}

/// Drops one colon at each end of an emoji name; colons inside (skin tones) stay.
pub fn normalize_emoji(raw: &str) -> (r: String)
    ensures
        r@ == normalized_emoji(raw@),
{
    let t = trimmed(raw);
    let v = chars_of(t.as_str());
    let mut from: usize = 0;
    let mut to: usize = v.len();
    if to > 0 && v[0] == ':' {
        from = 1;
    }
    if to > from && v[to - 1] == ':' {
        to = to - 1;
    }
    let r = string_from_chars(&v, from, to);
    proof {
        let tt = trim(raw@);
        let head = if tt.len() > 0 && tt[0] == ':' { tt.drop_first() } else { tt };
        assert(head =~= v@.subrange(from as int, v.len() as int));
        if head.len() > 0 && head.last() == ':' {
            assert(head.drop_last() =~= v@.subrange(from as int, to as int));
        } else {
            assert(head =~= v@.subrange(from as int, to as int));
        }
    }
    r
}

/// The request a reaction command makes, once its arguments are checked.
pub struct ReactionRequest {
    /// `reactions.add` or `reactions.remove`.
    pub method: String,
    /// The channel as given (a name is resolved before the call).
    pub channel: String,
    pub timestamp: String,
    /// The normalised emoji name.
    pub emoji: String,
    /// `added to` or `removed from`, for the success message.
    pub verb: String,
}

/// Checks the arguments in order (timestamp, then emoji) and builds the request.
pub fn plan_reaction(cmd: ReactionCommand) -> (r: Result<ReactionRequest, SlackCliError>)
    ensures
        ({
            let (args, add) = match cmd.command {
                ReactionSubcommand::Add(a) => (a, true),
                ReactionSubcommand::Remove(a) => (a, false),
            };
            if !message_ts_like(args.timestamp@) {
                r matches Err(e) && e matches SlackCliError::Validation(m) && m@ == ERR_INVALID_TIMESTAMP@
            } else if normalized_emoji(args.emoji@).len() == 0 {
                r matches Err(e) && e matches SlackCliError::Validation(m) && m@ == ERR_EMPTY_EMOJI@
            } else {
                r matches Ok(q) && {
                    &&& q.method@ == (if add { "reactions.add"@ } else { "reactions.remove"@ })
                    &&& q.verb@ == (if add { "added to"@ } else { "removed from"@ })
                    &&& q.channel@ == args.channel@
                    &&& q.timestamp@ == args.timestamp@
                    &&& q.emoji@ == normalized_emoji(args.emoji@)
                }
            }
        }),
{
    let (args, method, verb) = match cmd.command {
        ReactionSubcommand::Add(a) => (a, "reactions.add", "added to"),
        ReactionSubcommand::Remove(a) => (a, "reactions.remove", "removed from"),
    };
    validate_message_timestamp(args.timestamp.as_str())?;
    let emoji = normalize_emoji(args.emoji.as_str());
    if emoji.is_empty() {
        return Err(SlackCliError::Validation(ERR_EMPTY_EMOJI.to_string()));
    }
    Ok(ReactionRequest {
        method: method.to_string(),
        channel: args.channel,
        timestamp: args.timestamp,
        emoji,
        verb: verb.to_string(),
    })
}

/// `✓ Reaction :<emoji>: <verb> message in <channel>`, the emoji sanitised to one line.
pub open spec fn reaction_success_text(q_emoji: Seq<char>, verb: Seq<char>, channel: Seq<char>) -> Seq<char> {
    "✓ Reaction :"@ + single_line(q_emoji) + ": "@ + verb + " message in "@ + channel_label_text(channel)
}

pub fn reaction_success_message(q: &ReactionRequest) -> (r: String)
    ensures
        r@ == reaction_success_text(q.emoji@, q.verb@, q.channel@),
{
    let mut r = "✓ Reaction :".to_string();
    r.push_str(sanitize_single_line_text(q.emoji.as_str()).as_str());
    r.push_str(": ");
    r.push_str(q.verb.as_str());
    r.push_str(" message in ");
    r.push_str(channel_label(q.channel.as_str()).as_str());
    r
}

} // verus!
