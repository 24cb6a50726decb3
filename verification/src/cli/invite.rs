//! `invite`: users into a channel, by ID or by name.

use vstd::prelude::*;
use crate::cli::send::{bare_user_name, is_validation, member_id_by_name, find_user_id, strip_user_sigil};
use crate::common::{channel_label, channel_label_text};
use crate::error::{comma_items, nonempty_trimmed, SlackCliError};
use crate::json::{json_array, json_bool, json_get, json_str, Json};
use crate::sanitize::{sanitize_single_line_text, single_line};
use crate::strings::{all_upper_or_digit, chars_of, split_on, views};

verus! {

broadcast use vstd::string::group_string_axioms;

pub const ERR_NO_USERS: &'static str = "At least one valid user ID is required";
/// Page size when listing users to resolve names.
pub const USER_LOOKUP_PAGE_SIZE: u32 = 200;

pub struct InviteCommand {
    pub channel: String,
    pub users: String,
    pub force: bool,
}

/// The references in `--users`: split at commas, trimmed, empty ones dropped; none
/// left is an error.
pub fn parse_user_references(raw: &str) -> (r: Result<Vec<String>, SlackCliError>)
    ensures
        nonempty_trimmed(split_on(raw@, ',')).len() == 0 ==> is_validation(r, ERR_NO_USERS),
        nonempty_trimmed(split_on(raw@, ',')).len() > 0 ==> (r matches Ok(v) && views(v@) == nonempty_trimmed(split_on(raw@, ','))),
{
    let items = comma_items(raw);
    if items.len() == 0 {
        return Err(SlackCliError::Validation(ERR_NO_USERS.to_string()));
    }
    Ok(items)
}

/// A reference without one leading `@`.
pub fn strip_at(reference: &str) -> (r: String)
    ensures
        r@ == bare_user_name(reference@),
{
    strip_user_sigil(reference)
}

/// An ID as `invite` recognises one: `U` and eight or more upper-case letters or digits.
pub open spec fn invite_user_id_like(s: Seq<char>) -> bool {
    s.len() >= 9 && s[0] == 'U' && all_upper_or_digit(s.drop_first())
}

pub fn is_user_id(value: &str) -> (r: bool)
    ensures
        r == invite_user_id_like(value@),
{
    let v = chars_of(value);
    if v.len() < 9 || v[0] != 'U' {
        return false;
    }
    let mut i: usize = 1;
    while i < v.len()
        invariant
            1 <= i <= v.len(),
            v@ == value@,
            forall|k: int| 1 <= k < i ==> crate::strings::is_ascii_upper(#[trigger] v@[k]) || crate::strings::is_ascii_digit(v@[k]),
        decreases v.len() - i,
    {
        let c = v[i];
        if !(('A' <= c && c <= 'Z') || ('0' <= c && c <= '9')) {
            proof { assert(v@.drop_first()[i - 1] == v@[i as int]); }
            return false;
        }
        i = i + 1;
    }
    proof {
        assert forall|k: int| 0 <= k < v@.drop_first().len() implies
            crate::strings::is_ascii_upper(#[trigger] v@.drop_first()[k]) || crate::strings::is_ascii_digit(v@.drop_first()[k]) by {
            assert(v@.drop_first()[k] == v@[k + 1]);
        }
    }
    true
}

/// Whether some reference is a name, so that the user list must be fetched.
pub open spec fn needs_lookup(refs: Seq<Seq<char>>) -> bool {
    exists|i: int| 0 <= i < refs.len() && !invite_user_id_like(bare_user_name(#[trigger] refs[i]))
}

pub fn needs_user_lookup(references: &Vec<String>) -> (r: bool)
    ensures
        r == needs_lookup(views(references@)),
{
    let mut i: usize = 0;
    while i < references.len()
        invariant
            i <= references.len(),
            forall|k: int| 0 <= k < i ==> invite_user_id_like(bare_user_name(#[trigger] views(references@)[k])),
        decreases references.len() - i,
    {
        let name = strip_at(references[i].as_str());
        if !is_user_id(name.as_str()) {
            proof { assert(views(references@)[i as int] == references@[i as int]@); }
            return true;
        }
        proof { assert(views(references@)[i as int] == references@[i as int]@); }
        i = i + 1;
    }
    false
}

/// What one reference resolves to: an ID as is, else the ID of the user of that name.
pub open spec fn resolved_reference(reference: Seq<char>, users: Seq<Json>) -> Option<Seq<char>> {
    let name = bare_user_name(reference);
    if invite_user_id_like(name) { Some(name) } else { member_id_by_name(users, name) }
}

/// `User '<name>' not found`, the name sanitised to one line.
pub open spec fn unknown_user_text(name: Seq<char>) -> Seq<char> {
    "User '"@ + single_line(name) + "' not found"@
}

/// Resolves every reference against `users` (the workspace's user list, fetched only
/// when some reference is a name); the first one that resolves to nothing is an error.
pub fn resolve_user_ids(references: &Vec<String>, users: &Vec<Json>) -> (r: Result<Vec<String>, SlackCliError>)
    ensures
        r matches Ok(ids) ==> (ids@.len() == references@.len()
            && forall|i: int| 0 <= i < ids@.len() ==> resolved_reference(references@[i]@, users@) == Some(#[trigger] ids@[i]@)),
        r matches Err(e) ==> exists|i: int| 0 <= i < references@.len()
            && (#[trigger] resolved_reference(references@[i]@, users@)) is None
            && (forall|k: int| 0 <= k < i ==> (#[trigger] resolved_reference(references@[k]@, users@)) is Some)
            && (e matches SlackCliError::Validation(m) && m@ == unknown_user_text(bare_user_name(references@[i]@))),
        (forall|i: int| 0 <= i < references@.len() ==> (#[trigger] resolved_reference(references@[i]@, users@)) is Some) ==> r is Ok,
{
    let mut ids: Vec<String> = Vec::new();
    let mut i: usize = 0;
    while i < references.len()
        invariant
            i <= references.len(),
            ids@.len() == i,
            forall|k: int| 0 <= k < i ==> resolved_reference(references@[k]@, users@) == Some(#[trigger] ids@[k]@),
        decreases references.len() - i,
    {
        let name = strip_at(references[i].as_str());
        if is_user_id(name.as_str()) {
            ids.push(name);
        } else {
            match find_user_id(users, name.as_str()) {
                Some(id) => ids.push(id),
                None => {
                    let mut m = "User '".to_string();
                    m.push_str(sanitize_single_line_text(name.as_str()).as_str());
                    m.push_str("' not found");
                    proof {
                        assert(resolved_reference(references@[i as int]@, users@) is None);
                        assert forall|k: int| 0 <= k < i implies (#[trigger] resolved_reference(references@[k]@, users@)) is Some by {
                            assert(resolved_reference(references@[k]@, users@) == Some(ids@[k]@));
                        }
                    }
                    return Err(SlackCliError::Validation(m));
                },
            }
        }
        i = i + 1;
    }
    Ok(ids)
}

/// The warnings of a forced invitation: one per entry of `errors` that is not `ok`,
/// naming the user (or `unknown`) and the reason (or `unknown_error`).
pub open spec fn warning_text(entry: Json) -> Seq<char> {
    let user = match json_str(json_get(entry, "user"@)) { Some(u) => u, None => "unknown"@ };
    let reason = match json_str(json_get(entry, "error"@)) { Some(e) => e, None => "unknown_error"@ };
    "⚠ Warning: could not invite "@ + single_line(user) + ": "@ + single_line(reason)
}

pub open spec fn entry_failed(entry: Json) -> bool {
    json_bool(json_get(entry, "ok"@)) != Some(true)
}

/// The warnings for the failed entries, in order.
pub open spec fn invite_warning_texts(entries: Seq<Json>) -> Seq<Seq<char>>
    decreases entries.len(),
{
    if entries.len() == 0 {
        Seq::empty()
    } else {
        let rest = invite_warning_texts(entries.drop_last());
        if entry_failed(entries.last()) { rest.push(warning_text(entries.last())) } else { rest }
    }
}

pub fn invite_warnings(response: &Json) -> (r: Vec<String>)
    ensures
        views(r@) == match json_array(json_get(*response, "errors"@)) {
            Some(entries) => invite_warning_texts(entries),
            None => Seq::empty(),
        },
{
    let mut out: Vec<String> = Vec::new();
    let entries = match response.get("errors") {
        Some(v) => match v.as_array() {
            Some(a) => a,
            None => {
                proof { assert(views(out@) =~= Seq::<Seq<char>>::empty()); }
                return out;
            },
        },
        None => {
            proof { assert(views(out@) =~= Seq::<Seq<char>>::empty()); }
            return out;
        },
    };
    let mut i: usize = 0;
    proof { assert(entries@.take(0) =~= Seq::<Json>::empty()); assert(views(out@) =~= Seq::<Seq<char>>::empty()); }
    while i < entries.len()
        invariant
            i <= entries.len(),
            views(out@) == invite_warning_texts(entries@.take(i as int)),
        decreases entries.len() - i,
    {
        let entry = &entries[i];
        proof {
            assert(entries@.take(i + 1).drop_last() =~= entries@.take(i as int));
            assert(entries@.take(i + 1).last() == entries@[i as int]);
        }
        let ok = match entry.get("ok") { Some(v) => v.as_bool(), None => None };
        if ok != Some(true) {
            let user = match entry.get("user") {
                Some(v) => match v.as_str() { Some(s) => s.clone(), None => "unknown".to_string() },
                None => "unknown".to_string(),
            };
            let reason = match entry.get("error") {
                Some(v) => match v.as_str() { Some(s) => s.clone(), None => "unknown_error".to_string() },
                None => "unknown_error".to_string(),
            };
            let mut line = "⚠ Warning: could not invite ".to_string();
            line.push_str(sanitize_single_line_text(user.as_str()).as_str());
            line.push_str(": ");
            line.push_str(sanitize_single_line_text(reason.as_str()).as_str());
            let ghost before = out@;
            out.push(line);
            proof { assert(views(out@) =~= views(before).push(line@)); }
        }
        i = i + 1;
    }
    proof { assert(entries@.take(entries.len() as int) =~= entries@); }
    out
}

/// `✓ Invited user(s) to channel <channel>`.
pub fn invite_success_message(channel: &str) -> (r: String)
    ensures
        r@ == "✓ Invited user(s) to channel "@ + channel_label_text(channel@),
{
    let mut r = "✓ Invited user(s) to channel ".to_string();
    r.push_str(channel_label(channel).as_str());
    r
}

} // verus!
