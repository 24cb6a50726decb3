//! The decisions of the Slack Web API client: which page to ask for next, when to stop,
//! whether to retry and how long to wait. The program performs the HTTP exchanges and
//! hands each answer to these state machines.
//!
//! Slack reports errors in the body even on HTTP 200 (`"ok": false`), pages through
//! `response_metadata.next_cursor` (an empty cursor ends the listing), and signals rate
//! limits with HTTP 429 and `Retry-After`.

use vstd::prelude::*;
use crate::error::{ErrorResponse, SlackCliError, error_code_or_unknown, scope_list};
use crate::json::{json_bool, json_get, json_str, Json};
use crate::strings::{chars_of, split_char, split_on, str_eq, views};

verus! {

broadcast use vstd::string::group_string_axioms;

pub const DEFAULT_BASE_URL: &'static str = "https://slack.com/api/";
/// Retries after the first attempt.
pub const DEFAULT_MAX_RETRIES: u32 = 3;
pub const DEFAULT_CONCURRENCY: usize = 3;
/// Requests in flight while `unread` scans every channel.
pub const UNREAD_SCAN_CONCURRENCY: usize = 15;
/// A safety valve against endless paging.
pub const MAX_PAGES: u32 = 10000;
pub const CURSOR_PARAM: &'static str = "cursor";
pub const LIMIT_PARAM: &'static str = "limit";
pub const MAX_BACKOFF_SECS: u64 = 60;
/// The error code with which Slack reports a rate limit in a 200 answer.
pub const RATELIMITED_CODE: &'static str = "ratelimited";
pub const ERR_SAME_CURSOR: &'static str = "Server returned the same cursor twice";
pub const ERR_TOO_MANY_PAGES: &'static str = "Exceeded maximum page count (10000)";

/// How a listing is paged.
pub struct PaginationOpts {
    /// Items per request (Slack's `limit` parameter).
    pub page_size: Option<u32>,
    /// The cursor to start from.
    pub cursor: Option<String>,
    /// Follow the cursor to the end; without it and without `limit`, one page only.
    pub fetch_all: bool,
    /// At most this many items in all.
    pub limit: Option<u32>,
}

impl PaginationOpts {
    /// Nothing set: a single page.
    pub fn defaults() -> (r: PaginationOpts)
        ensures
            r.page_size is None && r.cursor is None && !r.fetch_all && r.limit is None,
    {
        PaginationOpts { page_size: None, cursor: None, fetch_all: false, limit: None }
    }

    /// Every page.
    pub fn all() -> (r: PaginationOpts)
        ensures
            r.page_size is None && r.cursor is None && r.fetch_all && r.limit is None,
    {
        PaginationOpts { page_size: None, cursor: None, fetch_all: true, limit: None }
    }

    pub open spec fn is_single_page(&self) -> bool {
        !self.fetch_all && self.limit is None
    }

    /// Whether the listing stops after one page: neither `fetch_all` nor a limit.
    pub fn single_page(&self) -> (r: bool)
        ensures
            r == self.is_single_page(),
    {
        !self.fetch_all && self.limit.is_none()
    }
}

/// The value at a dotted path (`channels`, `messages.matches`).
pub open spec fn lookup_keys(value: Json, keys: Seq<Seq<char>>) -> Option<Json>
    decreases keys.len(),
{
    if keys.len() == 0 {
        Some(value)
    } else {
        match json_get(value, keys[0]) {
            Some(v) => lookup_keys(v, keys.drop_first()),
            None => None,
        }
    }
}

pub open spec fn lookup_path_spec(value: Json, path: Seq<char>) -> Option<Json> {
    lookup_keys(value, split_on(path, '.'))
}

/// Moves the first field named `key` out of an object.
fn field_position(fields: &Vec<(String, Json)>, key: &str) -> (r: Option<usize>)
    ensures
        match r {
            Some(i) => crate::json::field_index(fields@, key@) == Some(i as int) && i < fields@.len(),
            None => crate::json::field_index(fields@, key@) is None,
        },
{
    let mut i: usize = 0;
    while i < fields.len()
        invariant
            i <= fields.len(),
            forall|k: int| 0 <= k < i ==> #[trigger] fields@[k].0@ != key@,
        decreases fields.len() - i,
    {
        if str_eq(fields[i].0.as_str(), key) {
            proof { crate::json::lemma_field_index_scan(fields@, key@, i as int); }
            return Some(i);
        }
        i = i + 1;
    }
    proof {
        crate::json::lemma_field_index_scan(fields@, key@, i as int);
        assert(fields@.subrange(i as int, fields@.len() as int) =~= Seq::<(String, Json)>::empty());
    }
    None
}

pub(crate) fn take_field(value: Json, key: &str) -> (r: Option<Json>)
    ensures
        r == json_get(value, key@),
{
    match value {
        Json::Object(fields) => {
            match field_position(&fields, key) {
                Some(i) => {
                    let ghost before = fields@;
                    let mut owned = fields;
                    let (_, v) = owned.remove(i);
                    proof { assert(v == before[i as int].1); }
                    Some(v)
                },
                None => None,
            }
        },
        _ => None,
    }
}

/// The array at `key`, moved out of `value`; empty when there is none.
pub fn take_array(value: Json, key: &str) -> (r: Vec<Json>)
    ensures
        r@ == match json_get(value, key@) {
            Some(Json::Array(items)) => items@,
            _ => Seq::empty(),
        },
{
    match take_field(value, key) {
        Some(Json::Array(items)) => items,
        _ => Vec::new(),
    }
}

/// The value at a dotted path, moved out of `value`.
pub fn take_path(value: Json, path: &str) -> (r: Option<Json>)
    ensures
        r == lookup_path_spec(value, path@),
{
    let keys = split_char(path, '.');
    let mut current = value;
    let mut i: usize = 0;
    proof { assert(views(keys@).skip(0) =~= views(keys@)); }
    while i < keys.len()
        invariant
            i <= keys.len(),
            views(keys@) == split_on(path@, '.'),
            lookup_keys(current, views(keys@).skip(i as int)) == lookup_path_spec(value, path@),
        decreases keys.len() - i,
    {
        proof {
            assert(views(keys@).skip(i as int)[0] == keys@[i as int]@);
            assert(views(keys@).skip(i as int).drop_first() =~= views(keys@).skip(i + 1));
        }
        match take_field(current, keys[i].as_str()) {
            Some(v) => { current = v; },
            None => return None,
        }
        i = i + 1;
    }
    proof { assert(views(keys@).skip(keys.len() as int) =~= Seq::<Seq<char>>::empty()); }
    Some(current)
}

/// `response_metadata.next_cursor`; empty and missing both end the listing.
pub open spec fn next_cursor_spec(response: Json) -> Option<Seq<char>> {
    match json_get(response, "response_metadata"@) {
        Some(m) => match json_str(json_get(m, "next_cursor"@)) {
            Some(c) if c.len() > 0 => Some(c),
            _ => None,
        },
        None => None,
    }
}

pub fn next_cursor(response: &Json) -> (r: Option<String>)
    ensures
        match r {
            Some(c) => next_cursor_spec(*response) == Some(c@),
            None => next_cursor_spec(*response) is None,
        },
{
    match response.get("response_metadata") {
        Some(m) => match m.str_field("next_cursor") {
            Some(c) => if c.is_empty() { None } else { Some(c.clone()) },
            None => None,
        },
        None => None,
    }
}

/// What to ask for next.
pub struct PageRequest {
    pub cursor: Option<String>,
    pub page_size: Option<u32>,
}

/// Whether paging goes on after a page.
#[derive(Debug)]
pub enum PageStep {
    Continue,
    Done,
}

/// The state of a paged listing.
pub struct Paginator {
    collected: Vec<Json>,
    cursor: Option<String>,
    previous_cursor: Option<String>,
    page_size: Option<u32>,
    single: bool,
    limit: u32,
    pages: u32,
}

impl Paginator {
    pub closed spec fn items(&self) -> Seq<Json> {
        self.collected@
    }

    pub closed spec fn limit_spec(&self) -> nat {
        self.limit as nat
    }

    pub closed spec fn pages_spec(&self) -> nat {
        self.pages as nat
    }

    pub closed spec fn cursor_spec(&self) -> Option<Seq<char>> {
        match self.cursor { Some(c) => Some(c@), None => None }
    }

    pub closed spec fn previous_spec(&self) -> Option<Seq<char>> {
        match self.previous_cursor { Some(c) => Some(c@), None => None }
    }

    pub closed spec fn single_spec(&self) -> bool {
        self.single
    }

    pub closed spec fn page_size_spec(&self) -> Option<u32> {
        self.page_size
    }

    /// Never more items than the limit, never more pages than `MAX_PAGES`.
    pub closed spec fn wf(&self) -> bool {
        &&& self.collected@.len() <= self.limit
        &&& self.pages <= MAX_PAGES
    }

    /// A listing never holds more items than its limit and never asks for more than
    /// `MAX_PAGES` pages, whatever the pages it was given.
    pub proof fn law_listing_is_bounded(&self)
        requires
            self.wf(),
        ensures
            self.items().len() <= self.limit_spec(),
            self.pages_spec() <= MAX_PAGES,
    {
    }

    /// A listing that has not asked for anything yet.
    pub fn start(opts: PaginationOpts) -> (r: Paginator)
        ensures
            r.wf(),
            r.items().len() == 0,
            r.pages_spec() == 0,
            r.limit_spec() == (match opts.limit { Some(l) => l as nat, None => u32::MAX as nat }),
            r.single_spec() == opts.is_single_page(),
            r.cursor_spec() == (match opts.cursor { Some(c) => Some(c@), None => None }),
            r.previous_spec() is None,
            r.page_size_spec() == opts.page_size,
    {
        let single = opts.single_page();
        let limit = match opts.limit { Some(l) => l, None => u32::MAX };
        Paginator {
            collected: Vec::new(),
            cursor: opts.cursor,
            previous_cursor: None,
            page_size: opts.page_size,
            single,
            limit,
            pages: 0,
        }
    }

    /// The next request; more than `MAX_PAGES` pages is an error.
    pub fn next_request(&mut self) -> (r: Result<PageRequest, SlackCliError>)
        requires
            old(self).wf(),
        ensures
            final(self).wf(),
            final(self).items() == old(self).items(),
            final(self).limit_spec() == old(self).limit_spec(),
            final(self).single_spec() == old(self).single_spec(),
            final(self).cursor_spec() == old(self).cursor_spec(),
            final(self).previous_spec() == old(self).previous_spec(),
            final(self).page_size_spec() == old(self).page_size_spec(),
            old(self).pages_spec() < MAX_PAGES ==> final(self).pages_spec() == old(self).pages_spec() + 1,
            old(self).pages_spec() < MAX_PAGES ==> (r matches Ok(q) && (match q.cursor { Some(c) => Some(c@), None => None }) == old(self).cursor_spec()
                && q.page_size == old(self).page_size_spec()),
            old(self).pages_spec() >= MAX_PAGES ==> (r matches Err(e) && e matches SlackCliError::Pagination(m) && m@ == ERR_TOO_MANY_PAGES@),
    {
        if self.pages >= MAX_PAGES {
            return Err(SlackCliError::Pagination(ERR_TOO_MANY_PAGES.to_string()));
        }
        self.pages = self.pages + 1;
        let cursor = match &self.cursor { Some(c) => Some(c.clone()), None => None };
        Ok(PageRequest { cursor, page_size: self.page_size })
    }

    /// Takes in one page: its items (at `results_key`) are added up to the limit. Paging
    /// stops at the limit, after a single page, or when there is no next cursor; a cursor
    /// equal to the one before is an error.
    pub fn take_page(&mut self, response: Json, results_key: &str) -> (r: Result<PageStep, SlackCliError>)
        requires
            old(self).wf(),
        ensures
            final(self).wf(),
            final(self).limit_spec() == old(self).limit_spec(),
            final(self).single_spec() == old(self).single_spec(),
            final(self).pages_spec() == old(self).pages_spec(),
            final(self).page_size_spec() == old(self).page_size_spec(),
            ({
                let page = match lookup_path_spec(response, results_key@) {
                    Some(Json::Array(items)) => items@,
                    _ => Seq::empty(),
                };
                let all = old(self).items() + page;
                let lim = old(self).limit_spec();
                let next = next_cursor_spec(response);
                &&& final(self).items() == capped_items(all, lim)
                &&& (all.len() >= lim || old(self).single_spec() || next is None) ==> (r matches Ok(PageStep::Done))
                &&& (all.len() < lim && !old(self).single_spec() && next is Some) ==> (
                    if next == old(self).previous_spec() {
                        (r matches Err(e) && e matches SlackCliError::Pagination(m) && m@ == ERR_SAME_CURSOR@)
                    } else {
                        (r matches Ok(PageStep::Continue) && final(self).cursor_spec() == next && final(self).previous_spec() == next)
                    })
            }),
    {
        let ghost resp = response;
        let next = next_cursor(&response);
        let page: Vec<Json> = match take_path(response, results_key) {
            Some(Json::Array(items)) => items,
            _ => Vec::new(),
        };
        let ghost page_spec = match lookup_path_spec(resp, results_key@) {
            Some(Json::Array(items)) => items@,
            _ => Seq::<Json>::empty(),
        };
        assert(page@ == page_spec);
        let ghost old_items = self.collected@;
        let ghost all = old_items + page@;
        let mut rest = page;
        let ghost pg = rest@;
        let mut i: usize = 0;
        let n = rest.len();
        while rest.len() > 0
            invariant
                pg.len() <= usize::MAX,
                i + rest@.len() == pg.len(),
                rest@ == pg.subrange(i as int, pg.len() as int),
                self.collected@ == old_items + pg.take(i as int),
                self.collected@.len() <= self.limit,
                self.limit == old(self).limit,
                self.single == old(self).single,
                self.pages == old(self).pages,
                self.pages <= MAX_PAGES,
                self.page_size == old(self).page_size,
                self.cursor == old(self).cursor,
                self.previous_cursor == old(self).previous_cursor,
                old_items == old(self).items(),
                resp == response,
                all == old_items + pg,
                pg == (match lookup_path_spec(resp, results_key@) {
                    Some(Json::Array(items)) => items@,
                    _ => Seq::<Json>::empty(),
                }),
            decreases rest.len(),
        {
            if self.collected.len() as u64 >= self.limit as u64 {
                proof {
                    assert(self.collected@ =~= all.take(self.limit as int));
                    assert(all.len() > self.limit);
                    assert(self.items() == (if all.len() <= old(self).limit_spec() { all } else { all.take(old(self).limit_spec() as int) }));
                }
                return Ok(PageStep::Done);
            }
            let item = rest.remove(0);
            proof {
                assert(pg[i as int] == item);
                assert(rest@ =~= pg.subrange(i + 1, pg.len() as int));
                assert(pg.take(i + 1) =~= pg.take(i as int).push(item));
            }
            self.collected.push(item);
            i = i + 1;
        }
        proof {
            assert(pg.take(pg.len() as int) =~= pg);
            assert(self.collected@ =~= all);
        }
        if self.single || self.collected.len() as u64 >= self.limit as u64 {
            return Ok(PageStep::Done);
        }
        let next = match next {
            Some(c) => c,
            None => return Ok(PageStep::Done),
        };
        let same = match &self.previous_cursor {
            Some(p) => str_eq(p.as_str(), next.as_str()),
            None => false,
        };
        if same {
            return Err(SlackCliError::Pagination(ERR_SAME_CURSOR.to_string()));
        }
        self.previous_cursor = Some(next.clone());
        self.cursor = Some(next);
        Ok(PageStep::Continue)
    }

    /// The items collected.
    pub fn finish(self) -> (r: Vec<Json>)
        ensures
            r@ == self.items(),
    {
        self.collected
    }
}

/// Items kept under a limit: all of them, or the first `limit`.
pub open spec fn capped_items(items: Seq<Json>, limit: nat) -> Seq<Json> {
    if items.len() <= limit { items } else { items.take(limit as int) }
}

/// The pages one after the other.
pub open spec fn concat_pages(pages: Seq<Seq<Json>>) -> Seq<Json>
    decreases pages.len(),
{
    if pages.len() == 0 { Seq::empty() } else { concat_pages(pages.drop_last()) + pages.last() }
}

/// What a listing holds after taking `pages` in turn, each step as `take_page` states it:
/// the items so far and the page, cut at the limit.
pub open spec fn after_pages(pages: Seq<Seq<Json>>, limit: nat) -> Seq<Json>
    decreases pages.len(),
{
    if pages.len() == 0 {
        Seq::empty()
    } else {
        capped_items(after_pages(pages.drop_last(), limit) + pages.last(), limit)
    }
}

/// A whole listing is the pages concatenated in order, cut at the limit: taking the
/// pages one by one keeps exactly the first `limit` items of all of them.
pub proof fn law_listing_is_the_pages_cut_at_the_limit(pages: Seq<Seq<Json>>, limit: nat)
    ensures
        after_pages(pages, limit) == capped_items(concat_pages(pages), limit),
    decreases pages.len(),
{
    if pages.len() > 0 {
        law_listing_is_the_pages_cut_at_the_limit(pages.drop_last(), limit);
        let a = concat_pages(pages.drop_last());
        let p = pages.last();
        if a.len() > limit {
            assert(capped_items(a, limit) + p =~= (a + p).take(limit as int) + p);
            assert((a.take(limit as int) + p).take(limit as int) =~= (a + p).take(limit as int));
        } else {
            assert(capped_items(a, limit) == a);
        }
    }
}

/// A random whole number in `0..=max` (`rand::thread_rng().gen_range(0..=max)`).
#[verifier::external_body]
fn random_up_to(max: u64) -> (r: u64)
    ensures
        r <= max,
{
    rand::Rng::gen_range(&mut rand::thread_rng(), 0..=max)
}

/// The wait before retry number `attempt`, before jitter: `retry_after` doubled per
/// attempt (at most 2^16 times), capped at a minute.
pub open spec fn base_backoff(retry_after: nat, attempt: nat) -> nat {
    let factor = vstd::arithmetic::power2::pow2(if attempt < 16 { attempt } else { 16 });
    let b = retry_after * factor;
    if b < MAX_BACKOFF_SECS { b } else { MAX_BACKOFF_SECS as nat }
}

/// The wait before a retry never shrinks from one attempt to the next, and never passes
/// a minute.
pub proof fn law_backoff_grows(retry_after: nat, attempt: nat)
    ensures
        base_backoff(retry_after, attempt) <= base_backoff(retry_after, attempt + 1),
        base_backoff(retry_after, attempt) <= MAX_BACKOFF_SECS,
{
    let e1: nat = if attempt < 16 { attempt } else { 16 };
    let e2: nat = if attempt + 1 < 16 { (attempt + 1) as nat } else { 16 };
    if e1 < e2 {
        vstd::arithmetic::power2::lemma_pow2_strictly_increases(e1, e2);
    }
    let p1 = vstd::arithmetic::power2::pow2(e1);
    let p2 = vstd::arithmetic::power2::pow2(e2);
    assert(p1 <= p2);
    assert(retry_after * p1 <= retry_after * p2) by (nonlinear_arith)
        requires p1 <= p2;
}

/// Whether `w` seconds lies in the jittered window around the backoff for `attempt`:
/// at least one second, within a fifth of the capped backoff either way.
pub open spec fn in_backoff_window(w: nat, retry_after: nat, attempt: nat) -> bool {
    let b = base_backoff(retry_after, attempt);
    let j = b / 5;
    &&& w >= 1
    &&& w <= (if b + j >= 1 { b + j } else { 1 })
    &&& (b >= j + 1 ==> w >= b - j)
}

/// Exponential backoff with ±20% jitter.
pub fn backoff_seconds(retry_after: u64, attempt: u32) -> (r: u64)
    ensures
        in_backoff_window(r as nat, retry_after as nat, attempt as nat),
{
    let shift: u32 = if attempt < 16 { attempt } else { 16 };
    let factor: u64 = 1u64 << (shift as u64);
    proof {
        vstd::arithmetic::power2::lemma2_to64();
        vstd::arithmetic::power2::lemma_pow2_strictly_increases(shift as nat, 17);
        assert(factor == vstd::arithmetic::power2::pow2(shift as nat)) by {
            vstd::bits::lemma_u64_shl_is_mul(1, shift as u64);
        }
    }
    let product: u64 = match retry_after.checked_mul(factor) {
        Some(p) => p,
        None => u64::MAX,
    };
    let backoff: u64 = if product < MAX_BACKOFF_SECS { product } else { MAX_BACKOFF_SECS };
    proof {
        if retry_after as int * factor as int > u64::MAX {
            assert(backoff == MAX_BACKOFF_SECS);
        }
    }
    proof {
        assert(backoff as nat == base_backoff(retry_after as nat, attempt as nat)) by (nonlinear_arith)
            requires
                factor == vstd::arithmetic::power2::pow2(shift as nat),
                shift as nat == (if attempt < 16 { attempt as nat } else { 16nat }),
                (retry_after as int * factor as int <= u64::MAX ==> product == retry_after * factor),
                (retry_after as int * factor as int > u64::MAX ==> product == u64::MAX),
                backoff == (if product < MAX_BACKOFF_SECS { product } else { MAX_BACKOFF_SECS }),
        ;
    }
    let jitter_range: u64 = backoff / 5;
    let jitter: u64 = if jitter_range > 0 { random_up_to(jitter_range * 2) } else { 0 };
    let waited: u64 = backoff + jitter;
    if waited > jitter_range && waited - jitter_range >= 1 {
        waited - jitter_range
    } else {
        1
    }
}

/// One HTTP exchange as the retry logic sees it.
pub enum HttpOutcome {
    /// HTTP 429, with the `Retry-After` seconds when the header held a number.
    TooManyRequests { retry_after: Option<u64> },
    /// A 2xx answer: its JSON body, the body read as an error response (all fields absent
    /// when it does not read as one), and the `Retry-After` seconds.
    Success { status: u16, body: Json, error_body: ErrorResponse, retry_after: Option<u64> },
    /// Another status, with the body read as an error response when it does.
    Failure { status: u16, parsed: Option<ErrorResponse> },
}

/// What the client does next.
pub enum RetryAction {
    /// The request is over, with this result.
    Finish(Result<Json, SlackCliError>),
    /// Wait this many seconds and send the request again.
    Wait(u64),
}

/// The retry state of one request.
pub struct RetryState {
    attempt: u32,
    last_wait: u64,
    max_retries: u32,
}

/// The seconds the backoff starts from: the `Retry-After` value, else one.
pub open spec fn retry_base(retry_after: Option<u64>) -> nat {
    match retry_after {
        Some(s) => s as nat,
        None => 1,
    }
}

/// The answer that stands in for a write request in a dry run:
/// `{"ok": true, "dry_run": true}`.
pub open spec fn is_dry_run_answer(v: Json) -> bool {
    &&& v is Object && v->Object_0@.len() == 2
    &&& v->Object_0@[0].0@ == "ok"@ && v->Object_0@[0].1 == Json::Bool(true)
    &&& v->Object_0@[1].0@ == "dry_run"@ && v->Object_0@[1].1 == Json::Bool(true)
}

/// What a write request gives without being sent: in a dry run the stand-in answer
/// (the request is only logged), else nothing and the request is sent.
pub fn dry_run_answer(dry_run: bool) -> (r: Option<Json>)
    ensures
        r is Some == dry_run,
        r matches Some(v) ==> is_dry_run_answer(v),
{
    if !dry_run {
        return None;
    }
    let mut fields: Vec<(String, Json)> = Vec::new();
    fields.push(("ok".to_string(), Json::Bool(true)));
    fields.push(("dry_run".to_string(), Json::Bool(true)));
    Some(Json::Object(fields))
}

/// `http_<status>`: the code of an error answer without a Slack error body.
pub open spec fn http_code(status: u16) -> Seq<char> {
    "http_"@ + crate::strings::decimal(status as nat)
}

/// Whether an error body stands for a rate limit.
pub open spec fn is_ratelimit_body(e: ErrorResponse) -> bool {
    e.error matches Some(c) && c@ == RATELIMITED_CODE@
}

/// The API error an error body stands for.
pub open spec fn api_error_of(r: SlackCliError, e: ErrorResponse, status: u16) -> bool {
    r matches SlackCliError::Api { status: s, code, needed } && s == status
        && code@ == error_code_or_unknown(e.error) && views(needed@) == scope_list(e.needed)
}

impl RetryState {
    pub closed spec fn attempt_spec(&self) -> nat {
        self.attempt as nat
    }

    pub closed spec fn max_spec(&self) -> nat {
        self.max_retries as nat
    }

    pub closed spec fn last_wait_spec(&self) -> nat {
        self.last_wait as nat
    }

    pub closed spec fn wf(&self) -> bool {
        self.attempt <= self.max_retries
    }

    /// A request is sent again at most `max_retries` times: every `Wait` counts one
    /// attempt, and the count never passes the maximum.
    pub proof fn law_retries_are_bounded(&self)
        requires
            self.wf(),
        ensures
            self.attempt_spec() <= self.max_spec(),
    {
    }

    /// A request answered by a rate limit every time is sent `max_retries + 1` times.
    /// `states` are the retry states before each request: each retry counts one attempt
    /// and keeps the maximum, and `on_outcome` retries only while attempts are left. So
    /// there are never more than `max_retries + 1` of them, the count of attempts is the
    /// number of requests before, and the rate limit after the last state ends the
    /// request exactly when `max_retries + 1` requests have been sent.
    pub proof fn law_rate_limited_requests_are_sent_max_plus_one_times(states: Seq<RetryState>)
        requires
            states.len() >= 1,
            states[0].attempt_spec() == 0,
            forall|i: int| 0 <= i < states.len() ==> (#[trigger] states[i]).wf(),
            forall|i: int| 1 <= i < states.len() ==> (#[trigger] states[i]).attempt_spec() == states[i - 1].attempt_spec() + 1
                && states[i].max_spec() == states[i - 1].max_spec(),
        ensures
            states.len() <= states[0].max_spec() + 1,
            states.last().attempt_spec() == states.len() - 1,
            states.last().max_spec() == states[0].max_spec(),
            (states.last().attempt_spec() == states.last().max_spec()) <==> states.len() == states[0].max_spec() + 1,
        decreases states.len(),
    {
        if states.len() > 1 {
            let front = states.drop_last();
            assert forall|i: int| 0 <= i < front.len() implies (#[trigger] front[i]).wf() by {
                assert(front[i] == states[i]);
            }
            assert forall|i: int| 1 <= i < front.len() implies (#[trigger] front[i]).attempt_spec() == front[i - 1].attempt_spec() + 1
                && front[i].max_spec() == front[i - 1].max_spec() by {
                assert(front[i] == states[i] && front[i - 1] == states[i - 1]);
            }
            Self::law_rate_limited_requests_are_sent_max_plus_one_times(front);
            let last = states[states.len() - 1];
            assert(last.wf());
            assert(last.attempt_spec() == front.last().attempt_spec() + 1);
        }
    }

    /// Before the first attempt; the wait reported when rate limits persist starts at one
    /// second.
    pub fn new(max_retries: u32) -> (r: RetryState)
        ensures
            r.wf(),
            r.attempt_spec() == 0,
            r.max_spec() == max_retries,
            r.last_wait_spec() == 1,
    {
        RetryState { attempt: 0, last_wait: 1, max_retries }
    }

    /// A rate limit: give up on the last attempt, else wait with backoff.
    fn rate_limited(&mut self, retry_after: Option<u64>) -> (r: RetryAction)
        requires
            old(self).wf(),
        ensures
            final(self).wf(),
            final(self).max_spec() == old(self).max_spec(),
            old(self).attempt_spec() == old(self).max_spec() ==> final(self).attempt_spec() == old(self).attempt_spec(),
            old(self).attempt_spec() == old(self).max_spec() ==> (r matches RetryAction::Finish(Err(SlackCliError::RateLimited { retry_after: w })) && w == old(self).last_wait_spec()),
            old(self).attempt_spec() < old(self).max_spec() ==> final(self).attempt_spec() == old(self).attempt_spec() + 1,
            old(self).attempt_spec() < old(self).max_spec() ==> (r matches RetryAction::Wait(w)
                && in_backoff_window(w as nat, retry_base(retry_after), old(self).attempt_spec())
                && w == final(self).last_wait_spec()),
            old(self).attempt_spec() == old(self).max_spec() ==> final(self).last_wait_spec() == old(self).last_wait_spec(),
    {
        if self.attempt == self.max_retries {
            return RetryAction::Finish(Err(SlackCliError::RateLimited { retry_after: self.last_wait }));
        }
        let base = match retry_after { Some(s) => s, None => 1 };
        self.last_wait = backoff_seconds(base, self.attempt);
        self.attempt = self.attempt + 1;
        RetryAction::Wait(self.last_wait)
    }

    /// Decides on one answer. A 429, or a 200 whose body reports `ratelimited`, is
    /// retried with backoff until the retries run out; a body with `"ok": false` is the
    /// API error it names; another status is the error of its body, or `http_<status>`.
    pub fn on_outcome(&mut self, outcome: HttpOutcome) -> (r: RetryAction)
        requires
            old(self).wf(),
        ensures
            final(self).wf(),
            final(self).max_spec() == old(self).max_spec(),
            r is Wait ==> final(self).attempt_spec() == old(self).attempt_spec() + 1,
            r is Finish ==> final(self).attempt_spec() == old(self).attempt_spec(),
            r is Finish ==> final(self).last_wait_spec() == old(self).last_wait_spec(),
            match outcome {
                HttpOutcome::TooManyRequests { retry_after } =>
                    if old(self).attempt_spec() == old(self).max_spec() {
                        r matches RetryAction::Finish(Err(SlackCliError::RateLimited { retry_after: w })) && w == old(self).last_wait_spec()
                    } else {
                        r matches RetryAction::Wait(w) && w == final(self).last_wait_spec()
                            && in_backoff_window(w as nat, retry_base(retry_after), old(self).attempt_spec())
                    },
                HttpOutcome::Success { status, body, error_body, retry_after } =>
                    if json_bool(json_get(body, "ok"@)) == Some(false) {
                        if is_ratelimit_body(error_body) {
                            if old(self).attempt_spec() == old(self).max_spec() {
                                r matches RetryAction::Finish(Err(SlackCliError::RateLimited { retry_after: w })) && w == old(self).last_wait_spec()
                            } else {
                                r matches RetryAction::Wait(w) && w == final(self).last_wait_spec()
                                    && in_backoff_window(w as nat, retry_base(retry_after), old(self).attempt_spec())
                            }
                        } else {
                            r matches RetryAction::Finish(Err(e)) && api_error_of(e, error_body, status)
                        }
                    } else {
                        r == RetryAction::Finish(Ok::<Json, SlackCliError>(body))
                    },
                HttpOutcome::Failure { status, parsed } => match parsed {
                    Some(eb) if eb.error is Some => (r matches RetryAction::Finish(Err(e)) && api_error_of(e, eb, status)),
                    _ => (r matches RetryAction::Finish(Err(SlackCliError::Api { status: s, code, needed }))
                        && s == status && code@ == http_code(status) && needed@.len() == 0),
                },
            },
    {
        match outcome {
            HttpOutcome::TooManyRequests { retry_after } => self.rate_limited(retry_after),
            HttpOutcome::Success { status, body, error_body, retry_after } => {
                let failed = match body.get("ok") { Some(v) => v.as_bool() == Some(false), None => false };
                if failed {
                    let limited = match &error_body.error {
                        Some(c) => str_eq(c.as_str(), RATELIMITED_CODE),
                        None => false,
                    };
                    if limited {
                        return self.rate_limited(retry_after);
                    }
                    return RetryAction::Finish(Err(error_body.into_error(status)));
                }
                RetryAction::Finish(Ok(body))
            },
            HttpOutcome::Failure { status, parsed } => {
                match parsed {
                    Some(eb) => {
                        if eb.error.is_some() {
                            return RetryAction::Finish(Err(eb.into_error(status)));
                        }
                    },
                    None => {},
                }
                let mut code = "http_".to_string();
                crate::strings::push_decimal(&mut code, status as u64);
                RetryAction::Finish(Err(SlackCliError::Api { status, code, needed: Vec::new() }))
            },
        }
    }
}

/// Whether `url` reads `text` as an absolute URL.
pub uninterp spec fn url_text_parses(text: Seq<char>) -> bool;

/// What `url` makes of `method` joined onto the base URL: the joined URL, or the parse
/// error's message.
pub uninterp spec fn url_join_result(base: Seq<char>, method: Seq<char>) -> Result<Seq<char>, Seq<char>>;

/// Whether two URLs have the same origin by `url`'s rules (opaque origins never match).
pub uninterp spec fn urls_share_origin(a: Seq<char>, b: Seq<char>) -> bool;

/// `url::Url::parse(text).is_ok()`. Named: it depends on `text` alone.
#[verifier::external_body]
fn url_parses(text: &str) -> (r: bool)
    ensures
        r == url_text_parses(text@),
{
    url::Url::parse(text).is_ok()
}

/// `Url::join` of `method` onto `base` (parsed with `Url::parse`), as text; the error's
/// message on failure. Named: it depends on its arguments alone.
#[verifier::external_body]
fn url_join(base: &str, method: &str) -> (r: Result<String, String>)
    ensures
        match r {
            Ok(u) => url_join_result(base@, method@) == Ok::<Seq<char>, Seq<char>>(u@),
            Err(m) => url_join_result(base@, method@) == Err::<Seq<char>, Seq<char>>(m@),
        },
{
    match url::Url::parse(base).and_then(|b| b.join(method)) {
        Ok(u) => Ok(u.to_string()),
        Err(e) => Err(e.to_string()),
    }
}

/// `Url::origin` of both, compared; unparsable text has no origin to share. Named: it
/// depends on its arguments alone.
#[verifier::external_body]
pub(crate) fn same_origin(a: &str, b: &str) -> (r: bool)
    ensures
        r == urls_share_origin(a@, b@),
{
    match (url::Url::parse(a), url::Url::parse(b)) {
        (Ok(x), Ok(y)) => x.origin() == y.origin(),
        _ => false,
    }
}

pub const ERR_INVALID_TOKEN: &'static str = "Invalid token: not a valid header value";

/// Whether bytes may stand in an HTTP header value: each is visible ASCII or above
/// (not DEL), or a tab.
pub open spec fn header_bytes_ok(b: Seq<u8>) -> bool {
    forall|i: int| 0 <= i < b.len() ==> ((b[i] >= 32 && b[i] != 127) || b[i] == 9)
}

/// `reqwest::header::HeaderValue::from_str(text).is_ok()`. The `http` crate's source
/// accepts the text exactly when each of its bytes passes `header_bytes_ok`.
#[verifier::external_body]
fn header_value_ok(text: &str) -> (r: bool)
    ensures
        r == header_bytes_ok(vstd::utf8::encode_utf8(text@)),
{
    reqwest::header::HeaderValue::from_str(text).is_ok()
}

/// A token is usable only when `Bearer <token>` can be sent as a header value.
pub fn check_token_header(token: &str) -> (r: Result<(), SlackCliError>)
    ensures
        header_bytes_ok(vstd::utf8::encode_utf8("Bearer "@ + token@)) <==> r is Ok,
        r matches Err(e) ==> (e matches SlackCliError::Configuration(m) && m@ == ERR_INVALID_TOKEN@),
{
    let mut header = "Bearer ".to_string();
    header.push_str(token);
    if header_value_ok(header.as_str()) {
        Ok(())
    } else {
        Err(SlackCliError::Configuration(ERR_INVALID_TOKEN.to_string()))
    }
}

pub const ERR_ABSOLUTE_METHOD: &'static str = "API method must be relative to the configured Slack API origin";
pub const ERR_ORIGIN_CHANGED: &'static str = "API method must not change the configured Slack API origin";

/// `API method must be a bare Slack method name, got: <method>`.
pub open spec fn bare_method_text(method: Seq<char>) -> Seq<char> {
    "API method must be a bare Slack method name, got: "@ + method
}

/// `Invalid API method <method>: <reason>`.
pub open spec fn invalid_method_text(method: Seq<char>, reason: Seq<char>) -> Seq<char> {
    "Invalid API method "@ + method + ": "@ + reason
}

pub open spec fn config_error<T>(r: Result<T, SlackCliError>, m: Seq<char>) -> bool {
    r matches Err(e) && e matches SlackCliError::Configuration(x) && x@ == m
}

/// The URL of an API method under `base`: the method must be a bare name (no URL, no
/// leading slash, no backslash) and must stay on the base URL's origin.
pub fn api_url(base: &str, method: &str) -> (r: Result<String, SlackCliError>)
    ensures
        url_text_parses(method@) ==> config_error(r, ERR_ABSOLUTE_METHOD@),
        (!url_text_parses(method@) && ((method@.len() > 0 && method@[0] == '/') || crate::strings::contains_block(method@, seq!['\\'])))
            ==> config_error(r, bare_method_text(method@)),
        (!url_text_parses(method@) && !((method@.len() > 0 && method@[0] == '/') || crate::strings::contains_block(method@, seq!['\\']))) ==>
            match url_join_result(base@, method@) {
                Err(reason) => config_error(r, invalid_method_text(method@, reason)),
                Ok(u) => if urls_share_origin(u, base@) {
                    r matches Ok(x) && x@ == u
                } else {
                    config_error(r, ERR_ORIGIN_CHANGED@)
                },
            },
{
    if url_parses(method) {
        return Err(SlackCliError::Configuration(ERR_ABSOLUTE_METHOD.to_string()));
    }
    let v = chars_of(method);
    let backslash = vec!['\\'];
    proof { assert(backslash@ =~= seq!['\\']); }
    if crate::strings::starts_with_char(method, '/') || crate::strings::contains_seq(&v, &backslash) {
        let mut m = "API method must be a bare Slack method name, got: ".to_string();
        m.push_str(method);
        return Err(SlackCliError::Configuration(m));
    }
    match url_join(base, method) {
        Err(reason) => {
            let mut m = "Invalid API method ".to_string();
            m.push_str(method);
            m.push_str(": ");
            m.push_str(reason.as_str());
            Err(SlackCliError::Configuration(m))
        },
        Ok(u) => {
            if !same_origin(u.as_str(), base) {
                return Err(SlackCliError::Configuration(ERR_ORIGIN_CHANGED.to_string()));
            }
            Ok(u)
        },
    }
}

} // verus!
