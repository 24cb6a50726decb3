//! `download`: a Slack file, by URL or by file ID.

use vstd::prelude::*;
use crate::cli::send::is_validation;
use crate::cli::upload::url_scheme_host;
use crate::client::{same_origin, urls_share_origin};
use crate::error::SlackCliError;
use crate::json::{json_get, str_field, Json};
use crate::strings::{chars_of, ends_with_text, str_eq, string_from_chars, views};

verus! {

broadcast use vstd::string::group_string_axioms;

pub const ERR_NO_TARGET: &'static str = "You must specify either --url or --id";
pub const ERR_BOTH_TARGETS: &'static str = "Cannot use both --url and --id";
pub const ERR_NO_DOWNLOAD_URL: &'static str = "No download URL found for this file";
pub const FILES_INFO_METHOD: &'static str = "files.info";
pub const FALLBACK_FILE_NAME: &'static str = "download";

pub struct DownloadCommand {
    pub url: Option<String>,
    pub id: Option<String>,
    pub output: Option<String>,
}

/// What is downloaded.
pub enum DownloadTarget {
    Url(String),
    FileId(String),
}

/// Exactly one of `--url` and `--id`.
pub fn download_target(cmd: &DownloadCommand) -> (r: Result<DownloadTarget, SlackCliError>)
    ensures
        (cmd.url is Some && cmd.id is Some) ==> is_validation(r, ERR_BOTH_TARGETS),
        (cmd.url is None && cmd.id is None) ==> is_validation(r, ERR_NO_TARGET),
        cmd.url matches Some(u) ==> (cmd.id is None ==> (r matches Ok(DownloadTarget::Url(x)) && x@ == u@)),
        cmd.id matches Some(i) ==> (cmd.url is None ==> (r matches Ok(DownloadTarget::FileId(x)) && x@ == i@)),
{
    match (&cmd.url, &cmd.id) {
        (Some(_), Some(_)) => Err(SlackCliError::Validation(ERR_BOTH_TARGETS.to_string())),
        (None, None) => Err(SlackCliError::Validation(ERR_NO_TARGET.to_string())),
        (Some(u), None) => Ok(DownloadTarget::Url(u.clone())),
        (None, Some(i)) => Ok(DownloadTarget::FileId(i.clone())),
    }
}

pub open spec fn non_empty_field(v: Json, key: Seq<char>) -> Option<Seq<char>> {
    match str_field(v, key) {
        Some(s) if s.len() > 0 => Some(s),
        _ => None,
    }
}

fn non_empty_str(v: &Json, key: &str) -> (r: Option<String>)
    ensures
        match r { Some(s) => non_empty_field(*v, key@) == Some(s@), None => non_empty_field(*v, key@) is None },
{
    match v.str_field(key) {
        Some(s) => if s.is_empty() { None } else { Some(s.clone()) },
        None => None,
    }
}

/// The download URL of a `files.info` answer (`url_private_download`, else
/// `url_private`) and the file's name (else the ID), made safe.
pub fn file_info_target(response: &Json, id: &str) -> (r: Result<(String, String), SlackCliError>)
    ensures
        ({
            let file = json_get(*response, "file"@);
            let url = match file {
                Some(f) => match non_empty_field(f, "url_private_download"@) {
                    Some(u) => Some(u),
                    None => non_empty_field(f, "url_private"@),
                },
                None => None,
            };
            let name = match file {
                Some(f) => match non_empty_field(f, "name"@) { Some(n) => n, None => id@ },
                None => id@,
            };
            match url {
                None => r matches Err(e) && e matches SlackCliError::File(m) && m@ == ERR_NO_DOWNLOAD_URL@,
                Some(u) => r matches Ok((x, n)) && x@ == u && n@ == safe_name_text(name),
            }
        }),
{
    let file = response.get("file");
    let url = match file {
        Some(f) => match non_empty_str(f, "url_private_download") {
            Some(u) => Some(u),
            None => non_empty_str(f, "url_private"),
        },
        None => None,
    };
    let url = match url {
        Some(u) => u,
        None => return Err(SlackCliError::File(ERR_NO_DOWNLOAD_URL.to_string())),
    };
    let name = match file {
        Some(f) => match non_empty_str(f, "name") { Some(n) => n, None => id.to_string() },
        None => id.to_string(),
    };
    Ok((url, safe_file_name(name.as_str())))
}

/// The position after the last `/` or `\`, or 0.
pub open spec fn after_last_separator(s: Seq<char>) -> int
    decreases s.len(),
{
    if s.len() == 0 {
        0
    } else if s.last() == '/' || s.last() == '\\' {
        s.len() as int
    } else {
        after_last_separator(s.drop_last())
    }
}

/// `s` without NUL characters at either end.
pub open spec fn trim_nul(s: Seq<char>) -> Seq<char>
    decreases s.len(),
{
    if s.len() > 0 && s[0] == '\0' {
        trim_nul(s.drop_first())
    } else if s.len() > 0 && s.last() == '\0' {
        trim_nul(s.drop_last())
    } else {
        s
    }
}

/// A name without directories: the part after the last `/` or `\`, without NULs at the
/// ends; `download` when that is empty, `.` or `..`.
pub open spec fn safe_name_text(raw: Seq<char>) -> Seq<char> {
    let base = trim_nul(raw.skip(after_last_separator(raw)));
    if base.len() == 0 || base == "."@ || base == ".."@ { FALLBACK_FILE_NAME@ } else { base }
}

/// No `/` or `\` in a text.
pub open spec fn no_separator(s: Seq<char>) -> bool {
    forall|j: int| 0 <= j < s.len() ==> #[trigger] s[j] != '/' && s[j] != '\\'
}

proof fn lemma_after_last_separator(s: Seq<char>)
    ensures
        0 <= after_last_separator(s) <= s.len(),
        no_separator(s.skip(after_last_separator(s))),
    decreases s.len(),
{
    if s.len() == 0 {
        assert(s.skip(0).len() == 0);
    } else if s.last() == '/' || s.last() == '\\' {
        assert(s.skip(s.len() as int).len() == 0);
    } else {
        lemma_after_last_separator(s.drop_last());
        let k = after_last_separator(s.drop_last());
        assert forall|j: int| 0 <= j < s.skip(k).len() implies #[trigger] s.skip(k)[j] != '/' && s.skip(k)[j] != '\\' by {
            if j < s.skip(k).len() - 1 {
                assert(s.skip(k)[j] == s.drop_last().skip(k)[j]);
            } else {
                assert(s.skip(k)[j] == s.last());
            }
        }
    }
}

proof fn lemma_trim_nul_keeps(s: Seq<char>)
    requires
        no_separator(s),
    ensures
        no_separator(trim_nul(s)),
    decreases s.len(),
{
    if s.len() > 0 && s[0] == '\0' {
        assert forall|j: int| 0 <= j < s.drop_first().len() implies #[trigger] s.drop_first()[j] != '/' && s.drop_first()[j] != '\\' by {
            assert(s.drop_first()[j] == s[j + 1]);
        }
        lemma_trim_nul_keeps(s.drop_first());
    } else if s.len() > 0 && s.last() == '\0' {
        assert forall|j: int| 0 <= j < s.drop_last().len() implies #[trigger] s.drop_last()[j] != '/' && s.drop_last()[j] != '\\' by {
            assert(s.drop_last()[j] == s[j]);
        }
        lemma_trim_nul_keeps(s.drop_last());
    }
}

/// A saved file name never leaves the current directory: it is not empty, holds no
/// `/` or `\`, and is neither `.` nor `..`.
pub proof fn law_safe_name_stays_here(raw: Seq<char>)
    ensures
        safe_name_text(raw).len() > 0,
        no_separator(safe_name_text(raw)),
        safe_name_text(raw) != "."@,
        safe_name_text(raw) != ".."@,
{
    lemma_after_last_separator(raw);
    lemma_trim_nul_keeps(raw.skip(after_last_separator(raw)));
    reveal_strlit("download");
    reveal_strlit(".");
    reveal_strlit("..");
    let base = trim_nul(raw.skip(after_last_separator(raw)));
    if base.len() == 0 || base == "."@ || base == ".."@ {
        assert(safe_name_text(raw) == FALLBACK_FILE_NAME@);
        assert("download"@.len() == 8);
        assert("download"@ != "."@);
        assert("download"@ != ".."@);
        assert(no_separator("download"@));
    }
}

pub fn safe_file_name(raw: &str) -> (r: String)
    ensures
        r@ == safe_name_text(raw@),
{
    let v = chars_of(raw);
    let mut start: usize = v.len();
    proof { assert(raw@.take(raw@.len() as int) =~= raw@); }
    while start > 0 && v[start - 1] != '/' && v[start - 1] != '\\'
        invariant
            start <= v.len(),
            v@ == raw@,
            after_last_separator(raw@) == after_last_separator(raw@.take(start as int)),
        decreases start,
    {
        proof {
            assert(raw@.take(start as int).drop_last() =~= raw@.take(start - 1));
        }
        start = start - 1;
    }
    proof {
        if start > 0 {
            assert(after_last_separator(raw@.take(start as int)) == start);
        } else {
            assert(raw@.take(0) =~= Seq::<char>::empty());
        }
        assert(raw@.take(raw@.len() as int) =~= raw@);
    }
    let mut lo: usize = start;
    let mut hi: usize = v.len();
    proof { assert(v@.subrange(lo as int, hi as int) =~= raw@.skip(start as int)); }
    while lo < hi && (v[lo] == '\0' || v[hi - 1] == '\0')
        invariant
            start <= lo <= hi <= v.len(),
            v@ == raw@,
            trim_nul(raw@.skip(start as int)) == trim_nul(v@.subrange(lo as int, hi as int)),
        decreases hi - lo,
    {
        if v[lo] == '\0' {
            proof { assert(v@.subrange(lo as int, hi as int).drop_first() =~= v@.subrange(lo + 1, hi as int)); }
            lo = lo + 1;
        } else {
            proof { assert(v@.subrange(lo as int, hi as int).drop_last() =~= v@.subrange(lo as int, hi - 1)); }
            hi = hi - 1;
        }
    }
    proof {
        let s = v@.subrange(lo as int, hi as int);
        assert(!(s.len() > 0 && s[0] == '\0'));
        assert(!(s.len() > 0 && s.last() == '\0'));
        assert(trim_nul(s) == s);
    }
    let base = string_from_chars(&v, lo, hi);
    if base.is_empty() || str_eq(base.as_str(), ".") || str_eq(base.as_str(), "..") {
        FALLBACK_FILE_NAME.to_string()
    } else {
        base
    }
}

/// The hex digit value of a byte.
pub open spec fn hex_byte_value(b: u8) -> Option<u8> {
    if 48 <= b <= 57 { Some((b - 48) as u8) }
    else if 97 <= b <= 102 { Some((b - 97 + 10) as u8) }
    else if 65 <= b <= 70 { Some((b - 65 + 10) as u8) }
    else { None }
}

pub fn hex_value(byte: u8) -> (r: Option<u8>)
    ensures
        r == hex_byte_value(byte),
{
    if 48 <= byte && byte <= 57 { Some(byte - 48) }
    else if 97 <= byte && byte <= 102 { Some(byte - 97 + 10) }
    else if 65 <= byte && byte <= 70 { Some(byte - 65 + 10) }
    else { None }
}

/// Percent-decoding of bytes: `%` and two hex digits (not at the very end) become one
/// byte; everything else is kept.
pub open spec fn percent_decoded(b: Seq<u8>) -> Seq<u8>
    decreases b.len(),
{
    if b.len() == 0 {
        Seq::empty()
    } else if b[0] == 37 && 2 < b.len() && hex_byte_value(b[1]) is Some && hex_byte_value(b[2]) is Some {
        seq![(hex_byte_value(b[1])->0 * 16 + hex_byte_value(b[2])->0) as u8] + percent_decoded(b.skip(3))
    } else {
        seq![b[0]] + percent_decoded(b.drop_first())
    }
}

/// What `String::from_utf8_lossy` makes of bytes.
pub uninterp spec fn utf8_lossy_text(b: Seq<u8>) -> Seq<char>;

/// `String::from_utf8_lossy(bytes).into_owned()`. Named: it depends on the bytes alone.
#[verifier::external_body]
fn from_utf8_lossy(bytes: &[u8]) -> (r: String)
    ensures
        r@ == utf8_lossy_text(bytes@),
{
    String::from_utf8_lossy(bytes).into_owned()
}

/// Decodes `%XX` escapes in a URL path segment, reading the result as UTF-8 with
/// replacement characters.
pub fn percent_decode(raw: &str) -> (r: String)
    ensures
        r@ == utf8_lossy_text(percent_decoded(vstd::utf8::encode_utf8(raw@))),
{
    let bytes = raw.as_bytes();
    let ghost all = bytes@;
    let mut decoded: Vec<u8> = Vec::new();
    let mut i: usize = 0;
    proof { assert(all.skip(0) =~= all); }
    while i < bytes.len()
        invariant
            i <= bytes.len(),
            bytes@ == all,
            decoded@ + percent_decoded(all.skip(i as int)) == percent_decoded(all),
        decreases bytes.len() - i,
    {
        let ghost rest = all.skip(i as int);
        if bytes[i] == 37u8 && bytes.len() - i > 2 {
            match (hex_value(bytes[i + 1]), hex_value(bytes[i + 2])) {
                (Some(high), Some(low)) => {
                    proof {
                        assert(rest[0] == 37u8 && rest[1] == bytes@[i + 1] && rest[2] == bytes@[i + 2]);
                        assert(rest.skip(3) =~= all.skip(i + 3));
                        assert(high * 16 + low < 256) by (nonlinear_arith) requires high < 16, low < 16;
                    }
                    let ghost before = decoded@;
                    decoded.push(high * 16 + low);
                    proof {
                        assert(decoded@ + percent_decoded(all.skip(i + 3)) =~= before + percent_decoded(rest));
                    }
                    i = i + 3;
                    continue;
                },
                _ => {},
            }
        }
        proof {
            assert(rest[0] == bytes@[i as int]);
            assert(rest.drop_first() =~= all.skip(i + 1));
            if bytes.len() - i > 2 {
                assert(rest[1] == bytes@[i + 1] && rest[2] == bytes@[i + 2]);
            }
        }
        let ghost before = decoded@;
        decoded.push(bytes[i]);
        proof {
            assert(decoded@ + percent_decoded(all.skip(i + 1)) =~= before + percent_decoded(rest));
        }
        i = i + 1;
    }
    proof { assert(all.skip(bytes.len() as int) =~= Seq::<u8>::empty()); assert(decoded@ =~= percent_decoded(all)); }
    from_utf8_lossy(decoded.as_slice())
}

/// The path segments `url` reads in a URL (`Url::path_segments`); `None` when the URL
/// does not parse or cannot be a base.
pub uninterp spec fn url_path_segments(text: Seq<char>) -> Option<Seq<Seq<char>>>;

/// `Url::parse(text)`, then `path_segments()`, each segment as text. Named: it depends
/// on `text` alone.
#[verifier::external_body]
fn path_segments_of(text: &str) -> (r: Option<Vec<String>>)
    ensures
        match r {
            Some(v) => url_path_segments(text@) == Some(views(v@)),
            None => url_path_segments(text@) is None,
        },
{
    url::Url::parse(text).ok().and_then(|u| u.path_segments().map(|segments| segments.map(|x| x.to_string()).collect()))
}

/// The last non-empty segment.
pub open spec fn last_nonempty(segments: Seq<Seq<char>>) -> Option<Seq<char>>
    decreases segments.len(),
{
    if segments.len() == 0 {
        None
    } else if segments.last().len() > 0 {
        Some(segments.last())
    } else {
        last_nonempty(segments.drop_last())
    }
}

/// The last non-empty path segment of a URL, empty when there is none.
pub open spec fn url_last_segment(url: Seq<char>) -> Seq<char> {
    match url_path_segments(url) {
        Some(segments) => match last_nonempty(segments) { Some(s) => s, None => Seq::empty() },
        None => Seq::empty(),
    }
}

fn last_nonempty_segment(segments: Vec<String>) -> (r: String)
    ensures
        r@ == match last_nonempty(views(segments@)) { Some(s) => s, None => Seq::empty() },
{
    let ghost all = views(segments@);
    let mut i = segments.len();
    proof { assert(all.take(i as int) =~= all); }
    while i > 0
        invariant
            i <= segments.len(),
            all == views(segments@),
            last_nonempty(all) == last_nonempty(all.take(i as int)),
        decreases i,
    {
        proof {
            assert(all.take(i as int).last() == segments@[i - 1]@);
            assert(all.take(i as int).drop_last() =~= all.take(i - 1));
        }
        if segments[i - 1].unicode_len() > 0 {
            return segments[i - 1].clone();
        }
        i = i - 1;
    }
    proof { reveal_strlit(""); }
    "".to_string()
}

/// The name a URL's file is saved under: its last non-empty path segment, decoded and
/// made safe.
pub fn file_name_from_url(url: &str) -> (r: String)
    ensures
        r@ == safe_name_text(utf8_lossy_text(percent_decoded(vstd::utf8::encode_utf8(url_last_segment(url@))))),
{
    let last = match path_segments_of(url) {
        Some(segments) => last_nonempty_segment(segments),
        None => {
            proof { reveal_strlit(""); }
            "".to_string()
        },
    };
    safe_file_name(percent_decode(last.as_str()).as_str())
}

/// Whether a host serves Slack files: `slack.com`, `slack-files.com`, or a subdomain of
/// `slack.com`, `slack-edge.com` or `slack-files.com`.
pub open spec fn slack_file_host(h: Seq<char>) -> bool {
    h == "slack.com"@ || h == "slack-files.com"@
        || (h.len() >= 10 && h.skip(h.len() - 10) == ".slack.com"@)
        || (h.len() >= 15 && h.skip(h.len() - 15) == ".slack-edge.com"@)
        || (h.len() >= 16 && h.skip(h.len() - 16) == ".slack-files.com"@)
}

/// The token goes only to the API's origin or to `https` Slack file hosts.
pub open spec fn attaches_token(url: Seq<char>, base: Seq<char>) -> bool {
    urls_share_origin(url, base) || (url_scheme_host(url) matches Some((s, Some(h))) && s == "https"@ && slack_file_host(h))
}

pub fn should_attach_token(url: &str, base: &str) -> (r: bool)
    ensures
        r == attaches_token(url@, base@),
{
    if same_origin(url, base) {
        return true;
    }
    match crate::cli::upload::scheme_and_host(url) {
        Some((scheme, Some(host))) => {
            if !str_eq(scheme.as_str(), "https") {
                return false;
            }
            proof { reveal_strlit(".slack.com"); reveal_strlit(".slack-edge.com"); reveal_strlit(".slack-files.com"); }
            str_eq(host.as_str(), "slack.com") || str_eq(host.as_str(), "slack-files.com")
                || ends_with_text(host.as_str(), ".slack.com")
                || ends_with_text(host.as_str(), ".slack-edge.com")
                || ends_with_text(host.as_str(), ".slack-files.com")
        },
        _ => false,
    }
}

/// `✓ Downloaded: <name>`.
pub fn downloaded_message(file_name: &str) -> (r: String)
    ensures
        r@ == "✓ Downloaded: "@ + file_name@,
{
    let mut r = "✓ Downloaded: ".to_string();
    r.push_str(file_name);
    r
}

} // verus!
