//! `draft`: messages kept locally in `~/.slack-cli/drafts.json` until they are sent.
//!
//! Only `draft send` talks to Slack. The store is read and written by the caller; the
//! library decides what the drafts become and what is shown. Records keep their keys in
//! the order `channel`/`user`, `message`, `thread`, `id`, `createdAt`.

use vstd::prelude::*;
use crate::cli::send::{bare_user_name, is_validation, strip_user_sigil};
use crate::cli::OutputFormat;
use crate::client::is_dry_run_answer;
use crate::common::{channel_id_like, is_channel_id, is_message_ts, message_ts_like};
use crate::config::{home_dir, join_path, joined_path, now_iso8601, CONFIG_DIR_NAME, ERR_NO_HOME};
use crate::crypto::random_bytes;
use crate::error::SlackCliError;
use crate::hexcodec::{encode_hex, hex_encode};
use crate::json::{json_get, str_field, Json};
use crate::sanitize::{sanitize_terminal, sanitize_terminal_text};
use crate::strings::{chars_of, starts_with_char, str_eq, string_from_chars};

verus! {

broadcast use vstd::string::group_string_axioms;

pub const ERR_NO_TARGET: &'static str = "Either --channel or --user must be specified";
pub const ERR_BOTH_TARGETS: &'static str = "Cannot specify both --channel and --user";
pub const ERR_INVALID_THREAD_TS: &'static str = "Invalid thread timestamp format";
pub const MSG_NO_DRAFTS: &'static str = "No drafts found";
pub const DRAFTS_FILE_NAME: &'static str = "drafts.json";
/// Width of the message column of `draft list` in a table, in characters.
pub const MESSAGE_PREVIEW_CHARS: usize = 60;
/// How many random IDs are tried before saving gives up. Every executable loop here has
/// a bound that shrinks; collisions beyond it need nearly all 2^32 IDs in use.
pub const ID_ATTEMPTS: u32 = 1000000;
pub const ERR_NO_FREE_ID: &'static str = "Could not pick an unused draft ID";

pub struct DraftCommand {
    pub command: DraftSubcommand,
}

pub enum DraftSubcommand {
    Save { channel: Option<String>, user: Option<String>, message: String, thread: Option<String> },
    List,
    Show { id: String },
    Send { id: String, keep: bool },
    Delete { id: String },
}

impl DraftCommand {
    /// Whether the subcommand talks to Slack: only `send` does.
    pub fn needs_client(&self) -> (r: bool)
        ensures
            r == (self.command is Send),
    {
        match self.command {
            DraftSubcommand::Send { .. } => true,
            _ => false,
        }
    }
}

/// Where the drafts are kept.
pub struct DraftStore {
    pub dir: String,
}

impl DraftStore {
    /// The store in `~/.slack-cli`; without a home directory, a configuration error.
    pub fn new() -> (r: Result<DraftStore, SlackCliError>)
        ensures
            r matches Ok(s) ==> exists|home: Seq<char>| s.dir@ == #[trigger] joined_path(home, CONFIG_DIR_NAME@),
            r matches Err(e) ==> (e matches SlackCliError::Configuration(m) && m@ == ERR_NO_HOME@),
    {
        match home_dir() {
            Some(h) => {
                let dir = join_path(h.as_str(), CONFIG_DIR_NAME);
                proof { assert(dir@ == joined_path(h@, CONFIG_DIR_NAME@)); }
                Ok(DraftStore { dir })
            },
            None => Err(SlackCliError::Configuration(ERR_NO_HOME.to_string())),
        }
    }

    /// The store in `dir`.
    pub fn with_dir(dir: String) -> (r: DraftStore)
        ensures
            r.dir@ == dir@,
    {
        DraftStore { dir }
    }

    /// `<dir>/drafts.json`.
    pub fn path(&self) -> (r: String)
        ensures
            r@ == joined_path(self.dir@, DRAFTS_FILE_NAME@),
    {
        join_path(self.dir.as_str(), DRAFTS_FILE_NAME)
    }
}

/// A string field of a draft.
pub open spec fn draft_field(draft: Json, key: Seq<char>) -> Option<Seq<char>> {
    str_field(draft, key)
}

/// An entry counts as a draft when it is an object with string `id` and `message`.
pub open spec fn is_draft_like(entry: Json) -> bool {
    entry is Object && str_field(entry, "id"@) is Some && str_field(entry, "message"@) is Some
}

pub fn draft_like(entry: &Json) -> (r: bool)
    ensures
        r == is_draft_like(*entry),
{
    match entry {
        Json::Object(_) => entry.str_field("id").is_some() && entry.str_field("message").is_some(),
        _ => false,
    }
}

/// The drafts in order, entries that are not drafts dropped.
pub open spec fn keep_drafts(entries: Seq<Json>) -> Seq<Json>
    decreases entries.len(),
{
    if entries.len() == 0 {
        Seq::empty()
    } else {
        let rest = keep_drafts(entries.drop_last());
        if is_draft_like(entries.last()) { rest.push(entries.last()) } else { rest }
    }
}

/// The drafts of a parsed file: the draft-like entries of an array; nothing otherwise.
pub open spec fn drafts_of(parsed: Json) -> Seq<Json> {
    match parsed {
        Json::Array(entries) => keep_drafts(entries@),
        _ => Seq::empty(),
    }
}

pub fn drafts_from(parsed: Json) -> (r: Vec<Json>)
    ensures
        r@ == drafts_of(parsed),
{
    match parsed {
        Json::Array(entries) => {
            let ghost all = entries@;
            let mut rest = entries;
            let mut out: Vec<Json> = Vec::new();
            let mut i: usize = 0;
            let n = rest.len();
            proof { assert(all.take(0) =~= Seq::<Json>::empty()); assert(rest@ =~= all.subrange(0, all.len() as int)); }
            while rest.len() > 0
                invariant
                    all.len() <= usize::MAX,
                    i + rest@.len() == all.len(),
                    rest@ == all.subrange(i as int, all.len() as int),
                    out@ == keep_drafts(all.take(i as int)),
                decreases rest.len(),
            {
                let e = rest.remove(0);
                proof {
                    assert(all[i as int] == e);
                    assert(all.take(i + 1).drop_last() =~= all.take(i as int));
                    assert(all.take(i + 1).last() == e);
                    assert(rest@ =~= all.subrange(i + 1, all.len() as int));
                }
                if draft_like(&e) {
                    out.push(e);
                }
                i = i + 1;
            }
            proof { assert(all.take(all.len() as int) =~= all); }
            out
        },
        _ => Vec::new(),
    }
}

/// The position of the first draft whose `id` is `id`.
pub open spec fn draft_index(drafts: Seq<Json>, id: Seq<char>) -> Option<int> {
    if exists|i: int| 0 <= i < drafts.len() && draft_field(#[trigger] drafts[i], "id"@) == Some(id) {
        Some(choose|i: int| 0 <= i < drafts.len() && draft_field(#[trigger] drafts[i], "id"@) == Some(id)
            && forall|k: int| 0 <= k < i ==> draft_field(#[trigger] drafts[k], "id"@) != Some(id))
    } else {
        None
    }
}

/// The first draft with the given `id`.
pub fn find_draft(drafts: &Vec<Json>, id: &str) -> (r: Option<usize>)
    ensures
        match r {
            Some(i) => i < drafts@.len() && draft_field(drafts@[i as int], "id"@) == Some(id@)
                && forall|k: int| 0 <= k < i ==> draft_field(#[trigger] drafts@[k], "id"@) != Some(id@),
            None => forall|k: int| 0 <= k < drafts@.len() ==> draft_field(#[trigger] drafts@[k], "id"@) != Some(id@),
        },
{
    let mut i: usize = 0;
    while i < drafts.len()
        invariant
            i <= drafts.len(),
            forall|k: int| 0 <= k < i ==> draft_field(#[trigger] drafts@[k], "id"@) != Some(id@),
        decreases drafts.len() - i,
    {
        let hit = match drafts[i].str_field("id") {
            Some(s) => str_eq(s.as_str(), id),
            None => false,
        };
        if hit {
            return Some(i);
        }
        i = i + 1;
    }
    None
}

/// The drafts other than those with `id`.
pub open spec fn without_id(drafts: Seq<Json>, id: Seq<char>) -> Seq<Json> {
    drafts.filter(|d: Json| draft_field(d, "id"@) != Some(id))
}

/// `Draft not found: <id>`, the ID stripped of terminal controls.
pub open spec fn draft_not_found_text(id: Seq<char>) -> Seq<char> {
    "Draft not found: "@ + sanitize_terminal(id)
}

pub fn draft_not_found(id: &str) -> (r: SlackCliError)
    ensures
        r matches SlackCliError::Validation(m) && m@ == draft_not_found_text(id@),
{
    let mut m = "Draft not found: ".to_string();
    m.push_str(sanitize_terminal_text(id).as_str());
    SlackCliError::Validation(m)
}

/// Removes the drafts with `id`; removing nothing is the error `Draft not found`.
pub fn delete_draft(drafts: Vec<Json>, id: &str) -> (r: Result<Vec<Json>, SlackCliError>)
    ensures
        (forall|k: int| 0 <= k < drafts@.len() ==> draft_field(#[trigger] drafts@[k], "id"@) != Some(id@))
            ==> (r matches Err(e) && e matches SlackCliError::Validation(m) && m@ == draft_not_found_text(id@)),
        (exists|k: int| 0 <= k < drafts@.len() && draft_field(#[trigger] drafts@[k], "id"@) == Some(id@))
            ==> (r matches Ok(rest) && rest@ == without_id(drafts@, id@)),
{
    let ghost all = drafts@;
    let mut out: Vec<Json> = Vec::new();
    let mut removed = false;
    let mut rest = drafts;
    let mut i: usize = 0;
    let n = rest.len();
    proof {
        assert(all.take(0).filter(|d: Json| draft_field(d, "id"@) != Some(id@)) =~= Seq::<Json>::empty());
        assert(rest@ =~= all.subrange(0, all.len() as int));
    }
    while rest.len() > 0
        invariant
            all.len() <= usize::MAX,
            i + rest@.len() == all.len(),
            rest@ == all.subrange(i as int, all.len() as int),
            out@ == all.take(i as int).filter(|d: Json| draft_field(d, "id"@) != Some(id@)),
            removed == exists|k: int| 0 <= k < i && draft_field(#[trigger] all[k], "id"@) == Some(id@),
        decreases rest.len(),
    {
        let e = rest.remove(0);
        proof {
            assert(all[i as int] == e);
            assert(rest@ =~= all.subrange(i + 1, all.len() as int));
            all.take(i as int).lemma_filter_push(e, |d: Json| draft_field(d, "id"@) != Some(id@));
            assert(all.take(i as int).push(e) =~= all.take(i + 1));
        }
        let same = match e.str_field("id") {
            Some(s) => str_eq(s.as_str(), id),
            None => false,
        };
        if same {
            removed = true;
        } else {
            out.push(e);
        }
        i = i + 1;
    }
    proof {
        assert(all.take(all.len() as int) =~= all);
    }
    if !removed {
        return Err(draft_not_found(id));
    }
    Ok(out)
}

/// The target of `draft save`: exactly one of a channel and a user.
pub fn check_draft_target(channel: Option<&str>, user: Option<&str>) -> (r: Result<(), SlackCliError>)
    ensures
        (channel is None && user is None) ==> is_validation(r, ERR_NO_TARGET),
        (channel is Some && user is Some) ==> is_validation(r, ERR_BOTH_TARGETS),
        (channel is Some != user is Some) ==> r is Ok,
{
    match (channel, user) {
        (None, None) => Err(SlackCliError::Validation(ERR_NO_TARGET.to_string())),
        (Some(_), Some(_)) => Err(SlackCliError::Validation(ERR_BOTH_TARGETS.to_string())),
        _ => Ok(()),
    }
}

/// `--thread` must be a message timestamp when given.
pub fn validate_thread_ts(thread: Option<&str>) -> (r: Result<(), SlackCliError>)
    ensures
        thread matches Some(t) ==> (!message_ts_like(t@) ==> is_validation(r, ERR_INVALID_THREAD_TS)),
        (thread is None || (thread matches Some(t) && message_ts_like(t@))) ==> r is Ok,
{
    match thread {
        Some(value) => if !is_message_ts(value) {
            Err(SlackCliError::Validation(ERR_INVALID_THREAD_TS.to_string()))
        } else {
            Ok(())
        },
        None => Ok(()),
    }
}

/// The keys of a new draft record, in their order, with their values.
pub open spec fn record_fields(channel: Option<Seq<char>>, user: Option<Seq<char>>, message: Seq<char>,
    thread: Option<Seq<char>>, id: Seq<char>, created_at: Seq<char>) -> Seq<(Seq<char>, Seq<char>)>
{
    let a: Seq<(Seq<char>, Seq<char>)> = match channel { Some(c) => seq![("channel"@, c)], None => Seq::empty() };
    let b = match user { Some(u) => a.push(("user"@, u)), None => a };
    let c = b.push(("message"@, message));
    let d = match thread { Some(t) => c.push(("thread"@, t)), None => c };
    d.push(("id"@, id)).push(("createdAt"@, created_at))
}

/// An object whose fields are the given keys with string values, in order.
pub open spec fn string_object(v: Json, fields: Seq<(Seq<char>, Seq<char>)>) -> bool {
    &&& v is Object
    &&& v->Object_0@.len() == fields.len()
    &&& forall|i: int| 0 <= i < fields.len() ==> {
        &&& (#[trigger] v->Object_0@[i]).0@ == fields[i].0
        &&& v->Object_0@[i].1 is Str
        &&& v->Object_0@[i].1->Str_0@ == fields[i].1
    }
}

fn push_str_field(fields: &mut Vec<(String, Json)>, key: &str, value: String)
    ensures
        final(fields)@.len() == old(fields)@.len() + 1,
        forall|i: int| 0 <= i < old(fields)@.len() ==> final(fields)@[i] == old(fields)@[i],
        final(fields)@.last().0@ == key@,
        final(fields)@.last().1 == Json::Str(value),
{
    fields.push((key.to_string(), Json::Str(value)));
}

/// The record of a new draft.
pub fn draft_record(channel: Option<&str>, user: Option<&str>, message: &str, thread: Option<&str>,
    id: String, created_at: String) -> (r: Json)
    ensures
        string_object(r, record_fields(
            match channel { Some(c) => Some(c@), None => None },
            match user { Some(u) => Some(u@), None => None },
            message@,
            match thread { Some(t) => Some(t@), None => None },
            id@, created_at@)),
{
    let ghost want = record_fields(
        match channel { Some(c) => Some(c@), None => None },
        match user { Some(u) => Some(u@), None => None },
        message@,
        match thread { Some(t) => Some(t@), None => None },
        id@, created_at@);
    let mut fields: Vec<(String, Json)> = Vec::new();
    match channel { Some(c) => push_str_field(&mut fields, "channel", c.to_string()), None => {} }
    match user { Some(u) => push_str_field(&mut fields, "user", u.to_string()), None => {} }
    push_str_field(&mut fields, "message", message.to_string());
    match thread { Some(t) => push_str_field(&mut fields, "thread", t.to_string()), None => {} }
    push_str_field(&mut fields, "id", id);
    push_str_field(&mut fields, "createdAt", created_at);
    let r = Json::Object(fields);
    proof {
        assert(string_object(r, want));
    }
    r
}

/// A field of an object built from `fields` reads back as its value, when no earlier
/// field has the same key.
proof fn lemma_string_object_field(v: Json, fields: Seq<(Seq<char>, Seq<char>)>, i: int)
    requires
        string_object(v, fields),
        0 <= i < fields.len(),
        forall|k: int| 0 <= k < i ==> (#[trigger] fields[k]).0 != fields[i].0,
    ensures
        str_field(v, fields[i].0) == Some(fields[i].1),
{
    let fs = v->Object_0@;
    assert forall|k: int| 0 <= k < i implies #[trigger] fs[k].0@ != fields[i].0 by {
        assert(fs[k].0@ == fields[k].0);
    }
    crate::json::lemma_field_index_scan(fs, fields[i].0, i);
    assert(fs[i].0@ == fields[i].0);
}

/// A record of a new draft is a draft, and its `id` reads back as the ID it was made with.
proof fn lemma_record_is_draft(r: Json, channel: Option<Seq<char>>, user: Option<Seq<char>>, message: Seq<char>,
    thread: Option<Seq<char>>, id: Seq<char>, created_at: Seq<char>)
    requires
        string_object(r, record_fields(channel, user, message, thread, id, created_at)),
    ensures
        draft_field(r, "id"@) == Some(id),
        is_draft_like(r),
{
    reveal_strlit("id");
    reveal_strlit("channel");
    reveal_strlit("user");
    reveal_strlit("message");
    reveal_strlit("thread");
    let f = record_fields(channel, user, message, thread, id, created_at);
    let a: Seq<(Seq<char>, Seq<char>)> = match channel { Some(c) => seq![("channel"@, c)], None => Seq::empty() };
    let b = match user { Some(u) => a.push(("user"@, u)), None => a };
    let c = b.push(("message"@, message));
    let d = match thread { Some(t) => c.push(("thread"@, t)), None => c };
    assert(f == d.push(("id"@, id)).push(("createdAt"@, created_at)));
    assert(forall|k: int| 0 <= k < a.len() ==> (#[trigger] a[k]).0 == "channel"@);
    assert(forall|k: int| 0 <= k < b.len() ==> (#[trigger] b[k]).0 == "channel"@ || b[k].0 == "user"@);
    assert(forall|k: int| 0 <= k < c.len() ==> (#[trigger] c[k]).0 == "channel"@ || c[k].0 == "user"@ || c[k].0 == "message"@);
    assert(forall|k: int| 0 <= k < d.len() ==> (#[trigger] d[k]).0 == "channel"@ || d[k].0 == "user"@
        || d[k].0 == "message"@ || d[k].0 == "thread"@);
    let idx = d.len() as int;
    assert(f[idx] == ("id"@, id));
    assert forall|k: int| 0 <= k < idx implies (#[trigger] f[k]).0 != f[idx].0 by {
        assert(f[k] == d[k]);
        assert("channel"@ != "id"@ && "user"@ != "id"@ && "message"@ != "id"@ && "thread"@ != "id"@) by {
            assert("channel"@.len() != "id"@.len());
            assert("user"@[0] != "id"@[0]);
            assert("message"@.len() != "id"@.len());
            assert("thread"@.len() != "id"@.len());
        }
    }
    lemma_string_object_field(r, f, idx);
    let m = b.len() as int;
    assert(f[m] == ("message"@, message));
    assert forall|k: int| 0 <= k < m implies (#[trigger] f[k]).0 != f[m].0 by {
        assert(f[k] == b[k]);
        assert("channel"@ != "message"@ && "user"@ != "message"@) by {
            assert("channel"@[0] != "message"@[0]);
            assert("user"@.len() != "message"@.len());
        }
    }
    lemma_string_object_field(r, f, m);
}

proof fn lemma_filter_keeps_all(s: Seq<Json>, pred: spec_fn(Json) -> bool)
    requires
        forall|i: int| 0 <= i < s.len() ==> pred(#[trigger] s[i]),
    ensures
        s.filter(pred) == s,
    decreases s.len(),
{
    reveal(Seq::filter);
    if s.len() > 0 {
        lemma_filter_keeps_all(s.drop_last(), pred);
        assert(s.drop_last().push(s.last()) =~= s);
    }
}

/// A draft that `save_draft` appended is a draft, `draft show`/`draft send` find it by the
/// ID that was returned, and `draft delete` of that ID leaves the drafts there were before.
pub proof fn law_saved_draft_is_found_and_deleted(
    before: Seq<Json>,
    saved: Json,
    channel: Option<Seq<char>>,
    user: Option<Seq<char>>,
    message: Seq<char>,
    thread: Option<Seq<char>>,
    id: Seq<char>,
    created_at: Seq<char>,
)
    requires
        string_object(saved, record_fields(channel, user, message, thread, id, created_at)),
        forall|k: int| 0 <= k < before.len() ==> draft_field(#[trigger] before[k], "id"@) != Some(id),
    ensures
        is_draft_like(saved),
        draft_index(before.push(saved), id) == Some(before.len() as int),
        without_id(before.push(saved), id) == before,
{
    lemma_record_is_draft(saved, channel, user, message, thread, id, created_at);
    let all = before.push(saved);
    let n = before.len() as int;
    assert(all[n] == saved);
    assert(forall|k: int| 0 <= k < n ==> #[trigger] all[k] == before[k]);
    assert(0 <= n < all.len() && draft_field(all[n], "id"@) == Some(id));
    assert(forall|k: int| 0 <= k < n ==> draft_field(#[trigger] all[k], "id"@) != Some(id));
    let j = draft_index(all, id)->0;
    assert(draft_index(all, id) is Some);
    assert(j == n) by {
        if j < n {
            assert(draft_field(all[j], "id"@) != Some(id));
        }
    }
    let pred = |d: Json| draft_field(d, "id"@) != Some(id);
    reveal(Seq::filter);
    assert(all.drop_last() =~= before);
    assert(!pred(all.last()));
    assert(all.filter(pred) == before.filter(pred));
    lemma_filter_keeps_all(before, pred);
}

/// Whether `id` is the hex spelling of four bytes, the form a drawn ID has.
pub open spec fn is_draft_id(id: Seq<char>) -> bool {
    exists|b: Seq<u8>| b.len() == 4 && id == #[trigger] hex_encode(b)
}

/// Whether no draft has an ID of the drawn form, so that no draw can collide.
pub open spec fn no_drawn_ids(drafts: Seq<Json>) -> bool {
    forall|k: int| 0 <= k < drafts.len() ==>
        (#[trigger] draft_field(drafts[k], "id"@) matches Some(x) ==> !is_draft_id(x))
}

/// The ID spelled by the drawn `bytes`, unless a draft has it already.
pub fn candidate_id(existing: &Vec<Json>, bytes: &[u8]) -> (r: Option<String>)
    ensures
        r is Some <==> forall|k: int| 0 <= k < existing@.len() ==> draft_field(#[trigger] existing@[k], "id"@) != Some(hex_encode(bytes@)),
        r matches Some(id) ==> id@ == hex_encode(bytes@),
{
    let id = encode_hex(bytes);
    match find_draft(existing, id.as_str()) {
        None => Some(id),
        Some(_) => None,
    }
}

/// An eight-digit hex ID that no draft has; random, drawn again on a collision. The
/// draws stop after `ID_ATTEMPTS` collisions, which can only happen when nearly every one
/// of the 2^32 IDs is taken; a store without IDs of this form never sees that error.
pub fn generate_id(existing: &Vec<Json>) -> (r: Result<String, SlackCliError>)
    ensures
        r matches Ok(id) ==> forall|k: int| 0 <= k < existing@.len() ==> draft_field(#[trigger] existing@[k], "id"@) != Some(id@),
        r matches Ok(id) ==> is_draft_id(id@),
        r matches Err(e) ==> (e matches SlackCliError::File(m) && m@ == ERR_NO_FREE_ID@),
        no_drawn_ids(existing@) ==> r is Ok,
{
    let mut attempts: u32 = 0;
    while attempts < ID_ATTEMPTS
        invariant
            attempts <= ID_ATTEMPTS,
            no_drawn_ids(existing@) ==> attempts == 0,
        decreases ID_ATTEMPTS - attempts,
    {
        let bytes = random_bytes(4);
        match candidate_id(existing, bytes.as_slice()) {
            Some(id) => {
                proof { assert(id@ == hex_encode(bytes@)); }
                return Ok(id);
            },
            None => {
                proof {
                    if no_drawn_ids(existing@) {
                        let k = choose|k: int| 0 <= k < existing@.len()
                            && draft_field(#[trigger] existing@[k], "id"@) == Some(hex_encode(bytes@));
                        assert(draft_field(existing@[k], "id"@) matches Some(x) ==> !is_draft_id(x));
                        assert(is_draft_id(hex_encode(bytes@)));
                    }
                }
            },
        }
        attempts = attempts + 1;
    }
    Err(SlackCliError::File(ERR_NO_FREE_ID.to_string()))
}

/// Adds a draft at the end of `drafts`: the target is checked first, then an unused
/// ID is drawn and the current time taken. Returns the new ID and the time.
pub fn save_draft(drafts: &mut Vec<Json>, channel: Option<&str>, user: Option<&str>, message: &str, thread: Option<&str>)
    -> (r: Result<(String, String), SlackCliError>)
    ensures
        (channel is None && user is None) ==> is_validation(r, ERR_NO_TARGET),
        (channel is Some && user is Some) ==> is_validation(r, ERR_BOTH_TARGETS),
        (channel is Some != user is Some) ==> (r is Ok
            || (r matches Err(e) && e matches SlackCliError::File(m) && m@ == ERR_NO_FREE_ID@)),
        (channel is Some != user is Some) && no_drawn_ids(old(drafts)@) ==> r is Ok,
        r is Err ==> final(drafts)@ == old(drafts)@,
        r matches Ok((id, created_at)) ==> {
            &&& final(drafts)@.len() == old(drafts)@.len() + 1
            &&& final(drafts)@.drop_last() == old(drafts)@
            &&& string_object(final(drafts)@.last(), record_fields(
                    match channel { Some(c) => Some(c@), None => None },
                    match user { Some(u) => Some(u@), None => None },
                    message@,
                    match thread { Some(t) => Some(t@), None => None },
                    id@, created_at@))
            &&& forall|k: int| 0 <= k < old(drafts)@.len() ==> draft_field(#[trigger] old(drafts)@[k], "id"@) != Some(id@)
            &&& is_draft_id(id@)
        },
{
    check_draft_target(channel, user)?;
    let id = generate_id(drafts)?;
    let created_at = now_iso8601();
    let record = draft_record(channel, user, message, thread, id.clone(), created_at.clone());
    let ghost before = drafts@;
    drafts.push(record);
    proof { assert(drafts@.drop_last() =~= before); }
    Ok((id, created_at))
}

/// How a draft's target is shown: `@user` without a doubled `@`, else the channel with
/// `#` added unless it has one or is an ID; terminal controls are stripped first.
pub open spec fn target_text(draft: Json) -> Seq<char> {
    match draft_field(draft, "user"@) {
        Some(u) => seq!['@'] + bare_user_name(sanitize_terminal(u)),
        None => {
            let c = sanitize_terminal(match draft_field(draft, "channel"@) { Some(c) => c, None => Seq::empty() });
            if (c.len() > 0 && c[0] == '#') || channel_id_like(c) { c } else { seq!['#'] + c }
        },
    }
}

fn field_or_empty(draft: &Json, key: &str) -> (r: String)
    ensures
        r@ == match draft_field(*draft, key@) { Some(v) => v, None => Seq::empty() },
{
    match draft.str_field(key) {
        Some(v) => v.clone(),
        None => String::new(),
    }
}

pub fn format_target(draft: &Json) -> (r: String)
    ensures
        r@ == target_text(*draft),
{
    match draft.str_field("user") {
        Some(u) => {
            let name = strip_user_sigil(sanitize_terminal_text(u.as_str()).as_str());
            proof { reveal_strlit("@"); }
            let mut r = "@".to_string();
            r.push_str(name.as_str());
            r
        },
        None => {
            let c = sanitize_terminal_text(field_or_empty(draft, "channel").as_str());
            if starts_with_char(c.as_str(), '#') || is_channel_id(c.as_str()) {
                c
            } else {
                proof { reveal_strlit("#"); }
                let mut r = "#".to_string();
                r.push_str(c.as_str());
                r
            }
        },
    }
}

/// At most `max` characters; when cut, `...` follows.
pub open spec fn truncated_chars(s: Seq<char>, max: nat) -> Seq<char> {
    if s.len() <= max { s } else { s.take(max as int) + "..."@ }
}

pub fn truncate(value: &str, max_chars: usize) -> (r: String)
    ensures
        r@ == truncated_chars(value@, max_chars as nat),
{
    let v = chars_of(value);
    if v.len() <= max_chars {
        return value.to_string();
    }
    let mut r = string_from_chars(&v, 0, max_chars);
    r.push_str("...");
    proof { assert(v@.subrange(0, max_chars as int) =~= value@.take(max_chars as int)); }
    r
}

/// The row of `draft` in the table of `draft list`.
pub open spec fn is_list_row(draft: Json, row: Json) -> bool {
    string_object(row, seq![
        ("id"@, sanitize_terminal(match draft_field(draft, "id"@) { Some(v) => v, None => Seq::empty() })),
        ("target"@, target_text(draft)),
        ("created_at"@, match draft_field(draft, "createdAt"@) { Some(v) => v, None => Seq::empty() }),
        ("message"@, truncated_chars(sanitize_terminal(match draft_field(draft, "message"@) { Some(v) => v, None => Seq::empty() }), MESSAGE_PREVIEW_CHARS as nat)),
    ])
}

/// The row of `draft list` in a table: id, target, created_at, message (cut to sixty
/// characters).
pub fn list_row(draft: &Json) -> (r: Json)
    ensures
        is_list_row(*draft, r),
{
    let message = sanitize_terminal_text(field_or_empty(draft, "message").as_str());
    let mut fields: Vec<(String, Json)> = Vec::new();
    push_str_field(&mut fields, "id", sanitize_terminal_text(field_or_empty(draft, "id").as_str()));
    push_str_field(&mut fields, "target", format_target(draft));
    push_str_field(&mut fields, "created_at", field_or_empty(draft, "createdAt"));
    push_str_field(&mut fields, "message", truncate(message.as_str(), MESSAGE_PREVIEW_CHARS));
    Json::Object(fields)
}

/// What `draft list` shows.
pub enum DraftListing {
    /// A line of text.
    Line(String),
    /// A value written in the chosen format.
    Value(Json),
}

/// `draft list`: in a table, one row per draft, or the line `No drafts found` when there
/// are none; in the other formats the drafts as they are stored (an empty array when
/// there are none).
pub fn list_drafts(drafts: Vec<Json>, format: OutputFormat) -> (r: DraftListing)
    ensures
        format is Table && drafts@.len() == 0 ==> (r matches DraftListing::Line(l) && l@ == MSG_NO_DRAFTS@),
        format is Table && drafts@.len() > 0 ==> (r matches DraftListing::Value(Json::Array(rows))
            && rows@.len() == drafts@.len()
            && forall|k: int| 0 <= k < rows@.len() ==> is_list_row(drafts@[k], #[trigger] rows@[k])),
        !(format is Table) ==> (r matches DraftListing::Value(Json::Array(items)) && items@ == drafts@),
{
    match format {
        OutputFormat::Table => {
            if drafts.len() == 0 {
                return DraftListing::Line(MSG_NO_DRAFTS.to_string());
            }
            let mut rows: Vec<Json> = Vec::new();
            let mut i: usize = 0;
            while i < drafts.len()
                invariant
                    i <= drafts.len(),
                    rows@.len() == i,
                    forall|k: int| 0 <= k < i ==> is_list_row(drafts@[k], #[trigger] rows@[k]),
                decreases drafts.len() - i,
            {
                rows.push(list_row(&drafts[i]));
                i = i + 1;
            }
            DraftListing::Value(Json::Array(rows))
        },
        _ => DraftListing::Value(Json::Array(drafts)),
    }
}

/// The text of `draft show` in a table.
pub open spec fn show_text(draft: Json) -> Seq<char> {
    let or_empty = |k: Seq<char>| match draft_field(draft, k) { Some(v) => v, None => Seq::empty() };
    "id: "@ + sanitize_terminal(or_empty("id"@)) + "\n"@
        + "target: "@ + target_text(draft) + "\n"@
        + (match draft_field(draft, "thread"@) { Some(t) => "thread: "@ + sanitize_terminal(t) + "\n"@, None => Seq::empty() })
        + "created_at: "@ + sanitize_terminal(or_empty("createdAt"@)) + "\n"@
        + "---\n"@
        + sanitize_terminal(or_empty("message"@)) + "\n"@
}

/// `draft show` ends with the whole message, however long: a `---` line, then the
/// message with terminal controls stripped, then a newline. Only the list row is cut.
pub proof fn law_show_ends_with_the_whole_message(draft: Json)
    ensures
        exists|head: Seq<char>| #[trigger] show_text(draft) == head + "---\n"@
            + sanitize_terminal(match draft_field(draft, "message"@) { Some(m) => m, None => Seq::empty() }) + "\n"@,
{
    let or_empty = |k: Seq<char>| match draft_field(draft, k) { Some(v) => v, None => Seq::empty() };
    let head = "id: "@ + sanitize_terminal(or_empty("id"@)) + "\n"@
        + "target: "@ + target_text(draft) + "\n"@
        + (match draft_field(draft, "thread"@) { Some(t) => "thread: "@ + sanitize_terminal(t) + "\n"@, None => Seq::empty() })
        + "created_at: "@ + sanitize_terminal(or_empty("createdAt"@)) + "\n"@;
    assert(show_text(draft) == head + "---\n"@ + sanitize_terminal(or_empty("message"@)) + "\n"@);
}

pub fn render_show(draft: &Json) -> (r: String)
    ensures
        r@ == show_text(*draft),
{
    let mut out = "id: ".to_string();
    out.push_str(sanitize_terminal_text(field_or_empty(draft, "id").as_str()).as_str());
    out.push_str("\n");
    out.push_str("target: ");
    out.push_str(format_target(draft).as_str());
    out.push_str("\n");
    match draft.str_field("thread") {
        Some(t) => {
            out.push_str("thread: ");
            out.push_str(sanitize_terminal_text(t.as_str()).as_str());
            out.push_str("\n");
        },
        None => {},
    }
    out.push_str("created_at: ");
    out.push_str(sanitize_terminal_text(field_or_empty(draft, "createdAt").as_str()).as_str());
    out.push_str("\n");
    out.push_str("---\n");
    out.push_str(sanitize_terminal_text(field_or_empty(draft, "message").as_str()).as_str());
    out.push_str("\n");
    out
}

/// `✓ Draft saved (id: <id>, target: <target>)`.
pub fn saved_message(draft: &Json) -> (r: String)
    ensures
        r@ == "✓ Draft saved (id: "@ + (match draft_field(*draft, "id"@) { Some(v) => v, None => Seq::empty() })
            + ", target: "@ + target_text(*draft) + ")"@,
{
    let mut r = "✓ Draft saved (id: ".to_string();
    r.push_str(field_or_empty(draft, "id").as_str());
    r.push_str(", target: ");
    r.push_str(format_target(draft).as_str());
    r.push_str(")");
    r
}

/// `✓ Draft sent to <target>`.
pub fn sent_message(draft: &Json) -> (r: String)
    ensures
        r@ == "✓ Draft sent to "@ + target_text(*draft),
{
    let mut r = "✓ Draft sent to ".to_string();
    r.push_str(format_target(draft).as_str());
    r
}

/// `✓ Draft <id> deleted`.
pub fn deleted_message(id: &str) -> (r: String)
    ensures
        r@ == "✓ Draft "@ + sanitize_terminal(id@) + " deleted"@,
{
    let mut r = "✓ Draft ".to_string();
    r.push_str(sanitize_terminal_text(id).as_str());
    r.push_str(" deleted");
    r
}

/// Where a saved draft goes: to a user (without a leading `@`) when it names one, else
/// to its channel.
pub enum DraftDestination {
    User(String),
    Channel(String),
}

pub open spec fn no_destination_text(id: Seq<char>) -> Seq<char> {
    "Draft "@ + sanitize_terminal(id) + " has neither a channel nor a user to send to"@
}

pub fn draft_destination(draft: &Json, id: &str) -> (r: Result<DraftDestination, SlackCliError>)
    ensures
        match draft_field(*draft, "user"@) {
            Some(u) => r matches Ok(DraftDestination::User(n)) && n@ == bare_user_name(u),
            None => match draft_field(*draft, "channel"@) {
                Some(c) => r matches Ok(DraftDestination::Channel(x)) && x@ == c,
                None => (r matches Err(e) && e matches SlackCliError::Validation(m) && m@ == no_destination_text(id@)),
            },
        },
{
    match draft.str_field("user") {
        Some(u) => Ok(DraftDestination::User(strip_user_sigil(u.as_str()))),
        None => match draft.str_field("channel") {
            Some(c) => Ok(DraftDestination::Channel(c.clone())),
            None => {
                let mut m = "Draft ".to_string();
                m.push_str(sanitize_terminal_text(id).as_str());
                m.push_str(" has neither a channel nor a user to send to");
                Err(SlackCliError::Validation(m))
            },
        },
    }
}

/// After `draft send`: the draft is deleted unless `--keep` was given or the send was a
/// dry run.
pub fn delete_after_send(keep: bool, response: &Json) -> (r: bool)
    ensures
        r == deletes_after_send(keep, *response),
{
    let dry = match response.get("dry_run") { Some(v) => v.as_bool(), None => None };
    !keep && dry != Some(true)
}

/// Whether a sent draft is deleted: unless `--keep`, or the answer reports a dry run.
pub open spec fn deletes_after_send(keep: bool, response: Json) -> bool {
    !keep && crate::json::json_bool(json_get(response, "dry_run"@)) != Some(true)
}

/// A dry run never deletes a draft: the answer standing in for the post reports it.
pub proof fn law_dry_run_keeps_the_draft(keep: bool, answer: Json)
    requires
        is_dry_run_answer(answer),
    ensures
        !deletes_after_send(keep, answer),
{
    reveal_strlit("ok");
    reveal_strlit("dry_run");
    let fields = answer->Object_0@;
    assert(fields[0].0@.len() == 2 && "dry_run"@.len() == 7);
    assert(fields[1].0@ == "dry_run"@);
    assert(fields.drop_first()[0] == fields[1]);
    assert(crate::json::field_index(fields.drop_first(), "dry_run"@) == Some(0int));
    assert(crate::json::field_index(fields, "dry_run"@) == Some(1int));
}

/// The body `draft send` posts: the draft's message (empty when absent), its thread
/// when it has one, then the channel it goes to.
pub open spec fn send_body_fields(draft: Json, channel: Seq<char>) -> Seq<(Seq<char>, Seq<char>)> {
    let text = match draft_field(draft, "message"@) { Some(m) => m, None => Seq::empty() };
    let head = match draft_field(draft, "thread"@) {
        Some(t) => seq![("text"@, text), ("thread_ts"@, t)],
        None => seq![("text"@, text)],
    };
    head.push(("channel"@, channel))
}

pub fn draft_send_body(draft: &Json, channel: &str) -> (r: Json)
    ensures
        string_object(r, send_body_fields(*draft, channel@)),
{
    let ghost want = send_body_fields(*draft, channel@);
    let text = match draft.str_field("message") { Some(m) => m.clone(), None => String::new() };
    let mut fields: Vec<(String, Json)> = Vec::new();
    push_str_field(&mut fields, "text", text);
    match draft.str_field("thread") {
        Some(t) => push_str_field(&mut fields, "thread_ts", t.clone()),
        None => {},
    }
    push_str_field(&mut fields, "channel", channel.to_string());
    let r = Json::Object(fields);
    proof { assert(string_object(r, want)); }
    r
}

} // verus!
