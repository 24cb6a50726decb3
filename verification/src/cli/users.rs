//! `users`: the rows printed for workspace users, and finding a user by name.

use vstd::prelude::*;
use crate::cli::OutputFormat;
use crate::cli::draft::string_object;
use crate::cli::send::{bare_user_name, strip_user_sigil};
use crate::client::take_field;
use crate::error::SlackCliError;
use crate::json::{json_bool, json_get, str_field, Json};
use crate::strings::{str_eq, to_lowercase, trim, trimmed, unicode_lowercase};

verus! {

broadcast use vstd::string::group_string_axioms;

pub const USERS_PAGE_SIZE: u32 = 200;
pub const DEFAULT_LIST_LIMIT: &'static str = "100";
pub const ERR_LIMIT: &'static str = "--limit must be a positive integer";
pub const MSG_NO_USERS: &'static str = "No users found";

/// A text, or nothing.
pub open spec fn or_empty(v: Option<Seq<char>>) -> Seq<char> {
    match v {
        Some(s) => s,
        None => Seq::empty(),
    }
}

/// `value[key]` when it is a string, else the empty text.
pub open spec fn text_at(value: Json, key: Seq<char>) -> Seq<char> {
    or_empty(str_field(value, key))
}

/// `user.profile[key]` when it is a string, else the empty text.
pub open spec fn profile_text(user: Json, key: Seq<char>) -> Seq<char> {
    match json_get(user, "profile"@) {
        Some(p) => text_at(p, key),
        None => Seq::empty(),
    }
}

/// `real_name` at the top level, else the one in the profile.
pub open spec fn real_name_text(user: Json) -> Seq<char> {
    if text_at(user, "real_name"@).len() == 0 {
        profile_text(user, "real_name"@)
    } else {
        text_at(user, "real_name"@)
    }
}

/// `Yes` for `true`, `No` for anything else.
pub open spec fn yes_no_text(v: Option<Json>) -> Seq<char> {
    if json_bool(v) == Some(true) { "Yes"@ } else { "No"@ }
}

/// The columns of a user in the table listing.
pub open spec fn user_row_fields(user: Json) -> Seq<(Seq<char>, Seq<char>)> {
    seq![
        ("id"@, text_at(user, "id"@)),
        ("name"@, text_at(user, "name"@)),
        ("real_name"@, real_name_text(user)),
        ("email"@, profile_text(user, "email"@)),
        ("is_bot"@, yes_no_text(json_get(user, "is_bot"@))),
        ("deleted"@, yes_no_text(json_get(user, "deleted"@))),
    ]
}

/// The labelled rows of `users info` in a table.
pub open spec fn detail_rows(user: Json) -> Seq<(Seq<char>, Seq<char>)> {
    seq![
        ("ID"@, text_at(user, "id"@)),
        ("Name"@, text_at(user, "name"@)),
        ("Real Name"@, real_name_text(user)),
        ("Display Name"@, profile_text(user, "display_name"@)),
        ("Email"@, profile_text(user, "email"@)),
        ("Title"@, profile_text(user, "title"@)),
        ("Timezone"@, text_at(user, "tz"@) + " ("@ + text_at(user, "tz_label"@) + ")"@),
        ("Status"@, trim(profile_text(user, "status_emoji"@) + " "@ + profile_text(user, "status_text"@))),
        ("Admin"@, yes_no_text(json_get(user, "is_admin"@))),
        ("Bot"@, yes_no_text(json_get(user, "is_bot"@))),
        ("Deleted"@, yes_no_text(json_get(user, "deleted"@))),
    ]
}

/// A `{field, value}` row.
pub open spec fn field_row_ok(r: Json, field: Seq<char>, value: Seq<char>) -> bool {
    string_object(r, seq![("field"@, field), ("value"@, value)])
}

pub fn string_at(value: &Json, key: &str) -> (r: String)
    ensures
        r@ == text_at(*value, key@),
{
    match value.str_field(key) {
        Some(s) => s.clone(),
        None => String::new(),
    }
}

pub fn profile_at(user: &Json, key: &str) -> (r: String)
    ensures
        r@ == profile_text(*user, key@),
{
    match user.get("profile") {
        Some(p) => string_at(p, key),
        None => String::new(),
    }
}

/// A user's real name: the top-level one, else the one in the profile.
pub fn real_name(user: &Json) -> (r: String)
    ensures
        r@ == real_name_text(*user),
{
    let top = string_at(user, "real_name");
    if top.is_empty() {
        profile_at(user, "real_name")
    } else {
        top
    }
}

pub fn yes_no(value: Option<&Json>) -> (r: &'static str)
    ensures
        r@ == yes_no_text(match value { Some(v) => Some(*v), None => None }),
{
    let b = match value {
        Some(v) => v.as_bool(),
        None => None,
    };
    match b {
        Some(true) => "Yes",
        _ => "No",
    }
}

/// A `{field, value}` row of a detail table.
pub fn field_row(field: &str, value: String) -> (r: Json)
    ensures
        field_row_ok(r, field@, value@),
{
    let mut fields: Vec<(String, Json)> = Vec::new();
    fields.push(("field".to_string(), Json::Str(field.to_string())));
    fields.push(("value".to_string(), Json::Str(value)));
    let r = Json::Object(fields);
    proof { assert(string_object(r, seq![("field"@, field@), ("value"@, value@)])); }
    r
}

/// The table row of one user.
pub fn user_row(user: &Json) -> (r: Json)
    ensures
        string_object(r, user_row_fields(*user)),
{
    let mut fields: Vec<(String, Json)> = Vec::new();
    fields.push(("id".to_string(), Json::Str(string_at(user, "id"))));
    fields.push(("name".to_string(), Json::Str(string_at(user, "name"))));
    fields.push(("real_name".to_string(), Json::Str(real_name(user))));
    fields.push(("email".to_string(), Json::Str(profile_at(user, "email"))));
    fields.push(("is_bot".to_string(), Json::Str(yes_no(user.get("is_bot")).to_string())));
    fields.push(("deleted".to_string(), Json::Str(yes_no(user.get("deleted")).to_string())));
    let r = Json::Object(fields);
    proof { assert(string_object(r, user_row_fields(*user))); }
    r
}

/// The output of `users list`: the table gets the documented columns, other formats the
/// users as Slack sent them.
pub fn list_value(users: Vec<Json>, format: OutputFormat) -> (r: Json)
    ensures
        format != OutputFormat::Table ==> r == Json::Array(users),
        format == OutputFormat::Table ==> (r is Array && r->Array_0@.len() == users@.len()
            && forall|i: int| 0 <= i < users@.len() ==> string_object(#[trigger] r->Array_0@[i], user_row_fields(users@[i]))),
{
    if format != OutputFormat::Table {
        return Json::Array(users);
    }
    let mut rows: Vec<Json> = Vec::new();
    let mut i: usize = 0;
    while i < users.len()
        invariant
            i <= users.len(),
            rows@.len() == i,
            forall|k: int| 0 <= k < i ==> string_object(#[trigger] rows@[k], user_row_fields(users@[k])),
        decreases users.len() - i,
    {
        rows.push(user_row(&users[i]));
        i = i + 1;
    }
    Json::Array(rows)
}

/// The output of `users info` and `users lookup`: labelled rows in a table, the user as
/// Slack sent it otherwise.
pub fn user_detail_value(user: Json, format: OutputFormat) -> (r: Json)
    ensures
        format != OutputFormat::Table ==> r == user,
        format == OutputFormat::Table ==> (r is Array && r->Array_0@.len() == detail_rows(user).len()
            && forall|i: int| 0 <= i < detail_rows(user).len()
                ==> field_row_ok(#[trigger] r->Array_0@[i], detail_rows(user)[i].0, detail_rows(user)[i].1)),
{
    if format != OutputFormat::Table {
        return user;
    }
    let mut timezone = string_at(&user, "tz");
    timezone.push_str(" (");
    timezone.push_str(string_at(&user, "tz_label").as_str());
    timezone.push_str(")");
    let mut status = profile_at(&user, "status_emoji");
    status.push_str(" ");
    status.push_str(profile_at(&user, "status_text").as_str());
    let status = trimmed(status.as_str());
    let mut rows: Vec<Json> = Vec::new();
    rows.push(field_row("ID", string_at(&user, "id")));
    rows.push(field_row("Name", string_at(&user, "name")));
    rows.push(field_row("Real Name", real_name(&user)));
    rows.push(field_row("Display Name", profile_at(&user, "display_name")));
    rows.push(field_row("Email", profile_at(&user, "email")));
    rows.push(field_row("Title", profile_at(&user, "title")));
    rows.push(field_row("Timezone", timezone));
    rows.push(field_row("Status", status));
    rows.push(field_row("Admin", yes_no(user.get("is_admin")).to_string()));
    rows.push(field_row("Bot", yes_no(user.get("is_bot")).to_string()));
    rows.push(field_row("Deleted", yes_no(user.get("deleted")).to_string()));
    let r = Json::Array(rows);
    proof {
        let d = detail_rows(user);
        assert forall|i: int| 0 <= i < d.len() implies field_row_ok(#[trigger] r->Array_0@[i], d[i].0, d[i].1) by {
            if i == 0 {} else if i == 1 {} else if i == 2 {} else if i == 3 {} else if i == 4 {}
            else if i == 5 {} else if i == 6 {} else if i == 7 {} else if i == 8 {} else if i == 9 {} else {}
        }
    }
    r
}

/// The `user` of a `users.info` or `users.lookupByEmail` answer; the whole answer when it
/// has none.
pub fn user_of(response: Json) -> (r: Json)
    ensures
        r == match json_get(response, "user"@) {
            Some(u) => u,
            None => response,
        },
{
    if response.get("user").is_some() {
        match take_field(response, "user") {
            Some(u) => u,
            None => Json::Null,
        }
    } else {
        response
    }
}

/// `{user, presence}`, in every format.
pub fn presence_value(user_id: &str, presence: Json) -> (r: Json)
    ensures
        r is Object && r->Object_0@.len() == 2
            && r->Object_0@[0].0@ == "user"@ && r->Object_0@[0].1 is Str
            && r->Object_0@[0].1->Str_0@ == user_id@
            && r->Object_0@[1].0@ == "presence"@ && r->Object_0@[1].1 == presence,
{
    let mut fields: Vec<(String, Json)> = Vec::new();
    fields.push(("user".to_string(), Json::Str(user_id.to_string())));
    fields.push(("presence".to_string(), presence));
    Json::Object(fields)
}

/// Whether `item[key]`, lower-cased, is `target`.
pub open spec fn key_matches(item: Json, key: Seq<char>, target: Seq<char>) -> bool {
    unicode_lowercase(text_at(item, key)) == target
}

/// The first item from `i` on whose `key`, lower-cased, is `target`.
pub open spec fn first_key_match(items: Seq<Json>, key: Seq<char>, target: Seq<char>, i: int) -> Option<int>
    decreases items.len() - i,
{
    if i < 0 || i >= items.len() {
        None
    } else if key_matches(items[i], key, target) {
        Some(i)
    } else {
        first_key_match(items, key, target, i + 1)
    }
}

/// Position of the first item whose `key`, lower-cased, is `target`.
pub fn find_by_lowercase(items: &Vec<Json>, key: &str, target: &str) -> (r: Option<usize>)
    ensures
        match r {
            Some(i) => first_key_match(items@, key@, target@, 0) == Some(i as int) && i < items@.len(),
            None => first_key_match(items@, key@, target@, 0) is None,
        },
{
    let mut i: usize = 0;
    while i < items.len()
        invariant
            i <= items.len(),
            first_key_match(items@, key@, target@, 0) == first_key_match(items@, key@, target@, i as int),
        decreases items.len() - i,
    {
        let name = string_at(&items[i], key);
        let lowered = to_lowercase(name.as_str());
        if str_eq(lowered.as_str(), target) {
            return Some(i);
        }
        i = i + 1;
    }
    None
}

/// The ID of the item found by `key`, when it has a non-empty one.
pub open spec fn found_id(items: Seq<Json>, key: Seq<char>, target: Seq<char>) -> Option<Seq<char>> {
    match first_key_match(items, key, target, 0) {
        Some(i) => if text_at(items[i], "id"@).len() > 0 { Some(text_at(items[i], "id"@)) } else { None },
        None => None,
    }
}

/// `User '<name>' not found`.
pub open spec fn user_not_found_text(name: Seq<char>) -> Seq<char> {
    "User '"@ + name + "' not found"@
}

/// The ID of the user called `name` (one leading `@` dropped), compared without regard
/// to case; the first user so named decides.
pub fn find_user_id_by_name(users: &Vec<Json>, name: &str) -> (r: Result<String, SlackCliError>)
    ensures
        ({
            let stripped = bare_user_name(name@);
            match found_id(users@, "name"@, unicode_lowercase(stripped)) {
                Some(id) => r matches Ok(v) && v@ == id,
                None => r matches Err(e) && e matches SlackCliError::Validation(m) && m@ == user_not_found_text(stripped),
            }
        }),
{
    let stripped = strip_user_sigil(name);
    let target = to_lowercase(stripped.as_str());
    match find_by_lowercase(users, "name", target.as_str()) {
        Some(i) => {
            let id = string_at(&users[i], "id");
            if !id.is_empty() {
                return Ok(id);
            }
        },
        None => {},
    }
    let mut m = "User '".to_string();
    m.push_str(stripped.as_str());
    m.push_str("' not found");
    Err(SlackCliError::Validation(m))
}

} // verus!
