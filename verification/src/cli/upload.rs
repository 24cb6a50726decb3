//! `upload`: a file or a snippet into a channel, through Slack's external upload flow.

use vstd::prelude::*;
use crate::cli::send::is_validation;
use crate::client::{same_origin, urls_share_origin};
use crate::common::{channel_label, channel_label_text, is_message_ts, message_ts_like};
use crate::error::SlackCliError;
use crate::json::{json_array, json_get, jview, str_field, Json, JsonView};
use crate::strings::{str_eq, ends_with_text};

verus! {

broadcast use vstd::string::group_string_axioms;

pub const ERR_NO_SOURCE: &'static str = "You must specify either --file or --content";
pub const ERR_BOTH_SOURCES: &'static str = "Cannot use both --file and --content";
pub const ERR_INVALID_THREAD: &'static str = "Invalid thread timestamp format";
pub const DEFAULT_CONTENT_FILENAME: &'static str = "file.txt";
pub const UPLOAD_FIELD_NAME: &'static str = "body";
pub const UPLOAD_PART_FILENAME: &'static str = "Untitled";
pub const UPLOAD_PART_MIME: &'static str = "application/octet-stream";
pub const GET_UPLOAD_URL_METHOD: &'static str = "files.getUploadURLExternal";
pub const COMPLETE_UPLOAD_METHOD: &'static str = "files.completeUploadExternal";

pub struct UploadCommand {
    pub channel: String,
    pub file: Option<String>,
    pub content: Option<String>,
    pub filename: Option<String>,
    pub title: Option<String>,
    pub message: Option<String>,
    pub filetype: Option<String>,
    pub thread: Option<String>,
}

/// `--thread` must be a message timestamp when given.
pub fn validate_thread_ts(thread: Option<&str>) -> (r: Result<(), SlackCliError>)
    ensures
        thread matches Some(t) ==> (!message_ts_like(t@) ==> is_validation(r, ERR_INVALID_THREAD)),
        (thread is None || (thread matches Some(t) && message_ts_like(t@))) ==> r is Ok,
{
    match thread {
        Some(ts) => if is_message_ts(ts) { Ok(()) } else { Err(SlackCliError::Validation(ERR_INVALID_THREAD.to_string())) },
        None => Ok(()),
    }
}

/// What is uploaded.
pub enum PayloadSource {
    /// The file at this path.
    File(String),
    /// This text.
    Content(String),
}

/// Exactly one of `--file` and `--content`.
pub fn payload_source(cmd: &UploadCommand) -> (r: Result<PayloadSource, SlackCliError>)
    ensures
        (cmd.file is Some && cmd.content is Some) ==> is_validation(r, ERR_BOTH_SOURCES),
        (cmd.file is None && cmd.content is None) ==> is_validation(r, ERR_NO_SOURCE),
        cmd.file matches Some(p) ==> (cmd.content is None ==> (r matches Ok(PayloadSource::File(x)) && x@ == p@)),
        cmd.content matches Some(c) ==> (cmd.file is None ==> (r matches Ok(PayloadSource::Content(x)) && x@ == c@)),
{
    match (&cmd.file, &cmd.content) {
        (Some(_), Some(_)) => Err(SlackCliError::Validation(ERR_BOTH_SOURCES.to_string())),
        (None, None) => Err(SlackCliError::Validation(ERR_NO_SOURCE.to_string())),
        (Some(p), None) => Ok(PayloadSource::File(p.clone())),
        (None, Some(c)) => Ok(PayloadSource::Content(c.clone())),
    }
}

/// What `std::path::Path::file_name` takes as the last component of `path`.
pub uninterp spec fn path_file_name(path: Seq<char>) -> Option<Seq<char>>;

/// `Path::new(path).file_name()`, as text. Named: it depends on `path` alone.
#[verifier::external_body]
fn file_name_of(path: &str) -> (r: Option<String>)
    ensures
        match r {
            Some(n) => path_file_name(path@) == Some(n@),
            None => path_file_name(path@) is None,
        },
{
    std::path::Path::new(path).file_name().map(|n| n.to_string_lossy().into_owned())
}

/// The last component of a path, or the path itself when it has none.
pub fn basename(path: &str) -> (r: String)
    ensures
        r@ == match path_file_name(path@) { Some(n) => n, None => path@ },
{
    match file_name_of(path) {
        Some(n) => n,
        None => path.to_string(),
    }
}

/// The name the upload goes under: `--filename`, else the file's base name, else
/// `file.txt` for a snippet.
pub fn upload_filename(filename: &Option<String>, source: &PayloadSource) -> (r: String)
    ensures
        r@ == match filename {
            Some(f) => f@,
            None => match source {
                PayloadSource::File(p) => match path_file_name(p@) { Some(n) => n, None => p@ },
                PayloadSource::Content(_) => DEFAULT_CONTENT_FILENAME@,
            },
        },
{
    match filename {
        Some(f) => f.clone(),
        None => match source {
            PayloadSource::File(p) => basename(p.as_str()),
            PayloadSource::Content(_) => DEFAULT_CONTENT_FILENAME.to_string(),
        },
    }
}

/// `File not found: <path>`.
pub fn file_not_found(path: &str) -> (r: SlackCliError)
    ensures
        r matches SlackCliError::File(m) && m@ == "File not found: "@ + path@,
{
    let mut m = "File not found: ".to_string();
    m.push_str(path);
    SlackCliError::File(m)
}

/// A non-empty string field of an answer; its absence is the API error `missing_<key>`.
pub fn required_str(response: &Json, key: &str) -> (r: Result<String, SlackCliError>)
    ensures
        match str_field(*response, key@) {
            Some(v) if v.len() > 0 => r matches Ok(x) && x@ == v,
            _ => r matches Err(e) && e matches SlackCliError::Api { status, code, needed }
                && status == 200 && code@ == "missing_"@ + key@ && needed@.len() == 0,
        },
{
    match response.str_field(key) {
        Some(v) => if !v.is_empty() { return Ok(v.clone()); },
        None => {},
    }
    let mut code = "missing_".to_string();
    code.push_str(key);
    Err(SlackCliError::Api { status: 200, code, needed: Vec::new() })
}

/// The scheme and host `url` reads in a URL.
pub uninterp spec fn url_scheme_host(text: Seq<char>) -> Option<(Seq<char>, Option<Seq<char>>)>;

/// `url::Url::parse(text)` taken apart into `scheme()` and `host_str()`. Named: it
/// depends on `text` alone.
#[verifier::external_body]
pub(crate) fn scheme_and_host(text: &str) -> (r: Option<(String, Option<String>)>)
    ensures
        match r {
            Some((s, h)) => url_scheme_host(text@) == Some((s@, match h { Some(x) => Some(x@), None => None })),
            None => url_scheme_host(text@) is None,
        },
{
    url::Url::parse(text).ok().map(|u| (u.scheme().to_string(), u.host_str().map(|h| h.to_string())))
}

/// Whether a host is Slack's: `slack.com` or one of its subdomains.
pub open spec fn slack_host(h: Seq<char>) -> bool {
    h == "slack.com"@ || (h.len() >= 10 && h.skip(h.len() - 10) == ".slack.com"@)
}

/// Where the file data may go: the API's own origin, or an `https` URL on a Slack host.
pub open spec fn trusted_upload(url: Seq<char>, base: Seq<char>) -> bool {
    urls_share_origin(url, base) || (url_scheme_host(url) matches Some((s, Some(h))) && s == "https"@ && slack_host(h))
}

pub fn is_trusted_upload_url(url: &str, base: &str) -> (r: bool)
    ensures
        r == trusted_upload(url@, base@),
{
    if same_origin(url, base) {
        return true;
    }
    match scheme_and_host(url) {
        Some((scheme, Some(host))) => {
            if !str_eq(scheme.as_str(), "https") {
                return false;
            }
            proof { reveal_strlit(".slack.com"); }
            str_eq(host.as_str(), "slack.com") || ends_with_text(host.as_str(), ".slack.com")
        },
        _ => false,
    }
}

/// `✓ File uploaded successfully to <channel>`.
pub fn upload_success_message(channel: &str) -> (r: String)
    ensures
        r@ == "✓ File uploaded successfully to "@ + channel_label_text(channel@),
{
    let mut r = "✓ File uploaded successfully to ".to_string();
    r.push_str(channel_label(channel).as_str());
    r
}

/// The keys of a file kept in the output, in this order.
pub open spec fn file_keys() -> Seq<Seq<char>> {
    seq!["id"@, "name"@, "title"@, "permalink"@, "permalink_public"@, "url_private"@]
}

/// The fields of `file` among `keys` that are present and not null, in the keys' order.
pub open spec fn picked_fields(file: Json, keys: Seq<Seq<char>>) -> Seq<(Seq<char>, JsonView)>
    decreases keys.len(),
{
    if keys.len() == 0 {
        Seq::empty()
    } else {
        let rest = picked_fields(file, keys.drop_last());
        match json_get(file, keys.last()) {
            Some(v) if !(v is Null) => rest.push((keys.last(), jview(v))),
            _ => rest,
        }
    }
}

/// The file with only the six documented keys, those that are present and not null.
pub fn pick_file_fields(file: &Json) -> (r: Json)
    ensures
        jview(r) == JsonView::Object(picked_fields(*file, file_keys())),
{
    let keys: [&str; 6] = ["id", "name", "title", "permalink", "permalink_public", "url_private"];
    let mut out: Vec<(String, Json)> = Vec::new();
    let mut i: usize = 0;
    proof {
        assert(file_keys().take(0) =~= Seq::<Seq<char>>::empty());
    }
    while i < 6
        invariant
            i <= 6,
            keys@.len() == 6,
            forall|k: int| 0 <= k < 6 ==> (#[trigger] keys@[k])@ == file_keys()[k],
            crate::json::jfields(out@, out@.len() as int) == picked_fields(*file, file_keys().take(i as int)),
        decreases 6 - i,
    {
        proof {
            assert(file_keys().take(i + 1).drop_last() =~= file_keys().take(i as int));
            assert(file_keys().take(i + 1).last() == file_keys()[i as int]);
        }
        match file.get(keys[i]) {
            Some(v) => {
                match v {
                    Json::Null => {},
                    _ => {
                        let c = v.deep_clone();
                        let ghost before = out@;
                        out.push((keys[i].to_string(), c));
                        proof {
                            crate::json::lemma_jfields_prefix(out@, before, before.len() as int);
                        }
                    },
                }
            },
            None => {},
        }
        i = i + 1;
    }
    proof { assert(file_keys().take(6) =~= file_keys()); }
    Json::Object(out)
}

/// The uploaded files of a completion answer, each cut down to the documented keys;
/// empty when the answer has no `files` array.
pub fn collect_files(response: &Json) -> (r: Vec<Json>)
    ensures
        ({
            let files = match json_array(json_get(*response, "files"@)) { Some(f) => f, None => Seq::empty() };
            &&& r@.len() == files.len()
            &&& forall|i: int| 0 <= i < files.len() ==>
                    jview(#[trigger] r@[i]) == JsonView::Object(picked_fields(files[i], file_keys()))
        }),
{
    let mut out: Vec<Json> = Vec::new();
    match response.get("files") {
        Some(Json::Array(files)) => {
            let mut i: usize = 0;
            while i < files.len()
                invariant
                    i <= files.len(),
                    out@.len() == i,
                    forall|k: int| 0 <= k < i ==>
                        jview(#[trigger] out@[k]) == JsonView::Object(picked_fields(files@[k], file_keys())),
                decreases files.len() - i,
            {
                out.push(pick_file_fields(&files[i]));
                i = i + 1;
            }
        },
        _ => {},
    }
    out
}

} // verus!
