//! `usergroups`: the listing of user groups, their members, and finding a group by
//! handle.

use vstd::prelude::*;
use crate::cli::OutputFormat;
use crate::cli::draft::string_object;
use crate::cli::send::{bare_user_name, strip_user_sigil};
use crate::cli::users::{find_by_lowercase, found_id, real_name, real_name_text, string_at, text_at};
use crate::error::SlackCliError;
use crate::json::{json_get, jview, Json, JsonView};
use crate::strings::{to_lowercase, unicode_lowercase};

verus! {

broadcast use vstd::string::group_string_axioms;

pub const MSG_NO_USERGROUPS: &'static str = "No usergroups found";
pub const MSG_NO_MEMBERS: &'static str = "No members found";

/// The first fields are texts with these names and values.
pub open spec fn string_prefix(fields: Seq<(String, Json)>, want: Seq<(Seq<char>, Seq<char>)>) -> bool {
    &&& want.len() <= fields.len()
    &&& forall|i: int| 0 <= i < want.len() ==> {
        &&& (#[trigger] fields[i]).0@ == want[i].0
        &&& fields[i].1 is Str
        &&& fields[i].1->Str_0@ == want[i].1
    }
}

/// The table row of one group: the four texts, then `user_count` as Slack sent it (the
/// empty text when absent).
pub open spec fn group_row_ok(r: Json, group: Json) -> bool {
    &&& r is Object
    &&& r->Object_0@.len() == 5
    &&& string_prefix(r->Object_0@, seq![
            ("id"@, text_at(group, "id"@)),
            ("handle"@, text_at(group, "handle"@)),
            ("name"@, text_at(group, "name"@)),
            ("description"@, text_at(group, "description"@)),
        ])
    &&& r->Object_0@[4].0@ == "user_count"@
    &&& jview(r->Object_0@[4].1) == match json_get(group, "user_count"@) {
            Some(v) => jview(v),
            None => JsonView::Str(Seq::empty()),
        }
}

pub fn group_row(group: &Json) -> (r: Json)
    ensures
        group_row_ok(r, *group),
{
    let count = match group.get("user_count") {
        Some(v) => v.deep_clone(),
        None => Json::Str(String::new()),
    };
    let mut fields: Vec<(String, Json)> = Vec::new();
    fields.push(("id".to_string(), Json::Str(string_at(group, "id"))));
    fields.push(("handle".to_string(), Json::Str(string_at(group, "handle"))));
    fields.push(("name".to_string(), Json::Str(string_at(group, "name"))));
    fields.push(("description".to_string(), Json::Str(string_at(group, "description"))));
    fields.push(("user_count".to_string(), count));
    let r = Json::Object(fields);
    proof {
        assert(string_prefix(r->Object_0@, seq![
            ("id"@, text_at(*group, "id"@)),
            ("handle"@, text_at(*group, "handle"@)),
            ("name"@, text_at(*group, "name"@)),
            ("description"@, text_at(*group, "description"@)),
        ]));
    }
    r
}

/// The output of `usergroups list`: the documented columns in a table, the groups as
/// Slack sent them otherwise.
pub fn list_value(groups: Vec<Json>, format: OutputFormat) -> (r: Json)
    ensures
        format != OutputFormat::Table ==> r == Json::Array(groups),
        format == OutputFormat::Table ==> (r is Array && r->Array_0@.len() == groups@.len()
            && forall|i: int| 0 <= i < groups@.len() ==> group_row_ok(#[trigger] r->Array_0@[i], groups@[i])),
{
    if format != OutputFormat::Table {
        return Json::Array(groups);
    }
    let mut rows: Vec<Json> = Vec::new();
    let mut i: usize = 0;
    while i < groups.len()
        invariant
            i <= groups.len(),
            rows@.len() == i,
            forall|k: int| 0 <= k < i ==> group_row_ok(#[trigger] rows@[k], groups@[k]),
        decreases groups.len() - i,
    {
        rows.push(group_row(&groups[i]));
        i = i + 1;
    }
    Json::Array(rows)
}

/// The fields of a member row: ID, name and real name (empty when the user could not be
/// looked up).
pub open spec fn member_fields(id: Seq<char>, user: Option<Json>) -> Seq<(Seq<char>, Seq<char>)> {
    match user {
        Some(u) => seq![("id"@, id), ("name"@, text_at(u, "name"@)), ("real_name"@, real_name_text(u))],
        None => seq![("id"@, id), ("name"@, Seq::empty()), ("real_name"@, Seq::empty())],
    }
}

/// The row of one member; `user` is the looked-up user, `None` when the lookup failed.
pub fn member_value(id: &str, user: Option<&Json>) -> (r: Json)
    ensures
        string_object(r, member_fields(id@, match user { Some(u) => Some(*u), None => None })),
{
    let (name, full_name) = match user {
        Some(u) => (string_at(u, "name"), real_name(u)),
        None => (String::new(), String::new()),
    };
    let mut fields: Vec<(String, Json)> = Vec::new();
    fields.push(("id".to_string(), Json::Str(id.to_string())));
    fields.push(("name".to_string(), Json::Str(name)));
    fields.push(("real_name".to_string(), Json::Str(full_name)));
    let r = Json::Object(fields);
    proof { assert(string_object(r, member_fields(id@, match user { Some(u) => Some(*u), None => None }))); }
    r
}

/// The texts among `items`, in order.
pub open spec fn texts_in(items: Seq<Json>) -> Seq<Seq<char>>
    decreases items.len(),
{
    if items.len() == 0 {
        Seq::empty()
    } else {
        let rest = texts_in(items.drop_last());
        match items.last() {
            Json::Str(t) => rest.push(t@),
            _ => rest,
        }
    }
}

/// The user IDs of a `usergroups.users.list` answer: the texts of its `users` array.
pub fn member_ids(response: &Json) -> (r: Vec<String>)
    ensures
        crate::strings::views(r@) == match json_get(*response, "users"@) {
            Some(Json::Array(items)) => texts_in(items@),
            _ => Seq::empty(),
        },
{
    let mut ids: Vec<String> = Vec::new();
    match response.get("users") {
        Some(Json::Array(items)) => {
            let mut i: usize = 0;
            proof { assert(items@.take(0) =~= Seq::<Json>::empty()); }
            while i < items.len()
                invariant
                    i <= items.len(),
                    crate::strings::views(ids@) == texts_in(items@.take(i as int)),
                decreases items.len() - i,
            {
                proof {
                    assert(items@.take(i + 1).drop_last() =~= items@.take(i as int));
                    assert(items@.take(i + 1).last() == items@[i as int]);
                }
                match &items[i] {
                    Json::Str(t) => {
                        let ghost before = ids@;
                        ids.push(t.clone());
                        proof { assert(crate::strings::views(ids@) =~= crate::strings::views(before).push(t@)); }
                    },
                    _ => {},
                }
                i = i + 1;
            }
            proof { assert(items@.take(items.len() as int) =~= items@); }
        },
        _ => {},
    }
    ids
}

/// `Usergroup '@<handle>' not found`.
pub open spec fn usergroup_not_found_text(handle: Seq<char>) -> Seq<char> {
    "Usergroup '@"@ + handle + "' not found"@
}

/// The ID of the group with `handle` (one leading `@` dropped), compared without regard
/// to case; the first group so named decides.
pub fn find_usergroup_id_by_handle(groups: &Vec<Json>, handle: &str) -> (r: Result<String, SlackCliError>)
    ensures
        ({
            let stripped = bare_user_name(handle@);
            match found_id(groups@, "handle"@, unicode_lowercase(stripped)) {
                Some(id) => r matches Ok(v) && v@ == id,
                None => r matches Err(e) && e matches SlackCliError::Validation(m) && m@ == usergroup_not_found_text(stripped),
            }
        }),
{
    let stripped = strip_user_sigil(handle);
    let target = to_lowercase(stripped.as_str());
    match find_by_lowercase(groups, "handle", target.as_str()) {
        Some(i) => {
            let id = string_at(&groups[i], "id");
            if !id.is_empty() {
                return Ok(id);
            }
        },
        None => {},
    }
    let mut m = "Usergroup '@".to_string();
    m.push_str(stripped.as_str());
    m.push_str("' not found");
    Err(SlackCliError::Validation(m))
}

} // verus!
