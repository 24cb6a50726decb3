//! Helpers shared by the commands: ID formats, channel labels, and resolving a channel
//! name against the conversation list.

use vstd::prelude::*;
use crate::error::SlackCliError;
use crate::json::{Json, str_field};
use crate::sanitize::{
    is_dropped_control, law_sanitize_is_idempotent, law_sanitized_text_has_no_controls,
    lemma_single_line_keeps_clean, sanitize_single_line_text, single_line,
};
use crate::strings::{
    all_digits, all_upper_or_digit, chars_of, contains_block, contains_seq, first_n, is_ascii_digit,
    is_ascii_upper, join, join_strings, seq_eq, to_lowercase, unicode_lowercase, views,
};
use crate::time::{utc_format, utc_rfc3339_millis, utc_rfc3339_text, utc_text, PATTERN_DATE};

verus! {

broadcast use vstd::string::group_string_axioms;

pub const CHANNEL_NOT_FOUND_CODE: &'static str = "channel_not_found";
pub const MISSING_SCOPE_CODE: &'static str = "missing_scope";
pub const INVALID_TIMESTAMP: &'static str = "(invalid timestamp)";
pub const ERR_INVALID_MESSAGE_TS: &'static str = "Invalid message timestamp format";
/// Candidates offered when a channel name is not found.
pub const SIMILAR_CHANNEL_LIMIT: usize = 5;

/// A channel ID: `C`, `D` or `G`, then at least eight upper-case letters or digits.
pub open spec fn channel_id_like(s: Seq<char>) -> bool {
    &&& s.len() >= 9
    &&& (s[0] == 'C' || s[0] == 'D' || s[0] == 'G')
    &&& all_upper_or_digit(s.drop_first())
}

/// A user ID: `U` or `W`, then at least eight upper-case letters or digits.
pub open spec fn user_id_like(s: Seq<char>) -> bool {
    &&& s.len() >= 9
    &&& (s[0] == 'U' || s[0] == 'W')
    &&& all_upper_or_digit(s.drop_first())
}

/// A message timestamp: ten digits, a dot, six digits.
pub open spec fn message_ts_like(s: Seq<char>) -> bool {
    &&& s.len() == 17
    &&& s[10] == '.'
    &&& all_digits(s.take(10))
    &&& all_digits(s.skip(11))
}

fn id_tail_ok(v: &Vec<char>) -> (r: bool)
    requires
        v.len() >= 1,
    ensures
        r == (v@.len() >= 9 && all_upper_or_digit(v@.drop_first())),
{
    if v.len() < 9 {
        return false;
    }
    let mut i: usize = 1;
    while i < v.len()
        invariant
            1 <= i <= v.len(),
            forall|k: int| 1 <= k < i ==> is_ascii_upper(#[trigger] v@[k]) || is_ascii_digit(v@[k]),
        decreases v.len() - i,
    {
        let c = v[i];
        if !(('A' <= c && c <= 'Z') || ('0' <= c && c <= '9')) {
            proof {
                assert(v@.drop_first()[i - 1] == v@[i as int]);
            }
            return false;
        }
        i = i + 1;
    }
    proof {
        assert forall|k: int| 0 <= k < v@.drop_first().len() implies
            is_ascii_upper(#[trigger] v@.drop_first()[k]) || is_ascii_digit(v@.drop_first()[k]) by {
            assert(v@.drop_first()[k] == v@[k + 1]);
        }
    }
    true
}

/// Whether `value` has the form of a channel ID (`C`/`D`/`G` and eight or more
/// upper-case letters or digits).
pub fn is_channel_id(value: &str) -> (r: bool)
    ensures
        r == channel_id_like(value@),
{
    let v = chars_of(value);
    if v.len() == 0 {
        return false;
    }
    let first = v[0];
    if !(first == 'C' || first == 'D' || first == 'G') {
        return false;
    }
    id_tail_ok(&v)
}

/// Whether `value` has the form of a user ID (`U`/`W` and eight or more upper-case
/// letters or digits).
pub fn is_user_id(value: &str) -> (r: bool)
    ensures
        r == user_id_like(value@),
{
    let v = chars_of(value);
    if v.len() == 0 {
        return false;
    }
    let first = v[0];
    if !(first == 'U' || first == 'W') {
        return false;
    }
    id_tail_ok(&v)
}

fn digits_between(v: &Vec<char>, from: usize, to: usize) -> (r: bool)
    requires
        from <= to <= v.len(),
    ensures
        r == all_digits(v@.subrange(from as int, to as int)),
{
    let mut i = from;
    while i < to
        invariant
            from <= i <= to <= v.len(),
            forall|k: int| from <= k < i ==> is_ascii_digit(#[trigger] v@[k]),
        decreases to - i,
    {
        if !('0' <= v[i] && v[i] <= '9') {
            proof {
                assert(v@.subrange(from as int, to as int)[i - from] == v@[i as int]);
            }
            return false;
        }
        i = i + 1;
    }
    proof {
        assert forall|k: int| 0 <= k < v@.subrange(from as int, to as int).len() implies
            is_ascii_digit(#[trigger] v@.subrange(from as int, to as int)[k]) by {
            assert(v@.subrange(from as int, to as int)[k] == v@[from + k]);
        }
    }
    true
}

/// Whether `value` is a message timestamp of the form `1234567890.123456`.
pub fn is_message_ts(value: &str) -> (r: bool)
    ensures
        r == message_ts_like(value@),
{
    let v = chars_of(value);
    if v.len() != 17 || v[10] != '.' {
        return false;
    }
    proof {
        assert(v@.subrange(0, 10) =~= v@.take(10));
        assert(v@.subrange(11, 17) =~= v@.skip(11));
    }
    digits_between(&v, 0, 10) && digits_between(&v, 11, 17)
}

/// The label of a channel in success messages: sanitised to one line, with `#` added
/// unless it already starts with `#` or is a channel ID.
pub open spec fn channel_label_text(input: Seq<char>) -> Seq<char> {
    let s = single_line(input);
    if (s.len() > 0 && s[0] == '#') || channel_id_like(s) {
        s
    } else {
        seq!['#'] + s
    }
}

/// Renders a channel reference for a success message without doubling the `#`.
pub fn channel_label(input: &str) -> (r: String)
    ensures
        r@ == channel_label_text(input@),
{
    let sanitized = sanitize_single_line_text(input);
    let v = chars_of(sanitized.as_str());
    if (v.len() > 0 && v[0] == '#') || is_channel_id(sanitized.as_str()) {
        sanitized
    } else {
        let mut r = String::new();
        r.push('#');
        r.push_str(sanitized.as_str());
        proof {
            assert(seq!['#'] + sanitized@ =~= Seq::<char>::empty().push('#') + sanitized@);
        }
        r
    }
}

/// A label is never decorated twice: labelling a label gives it back, so `#general`
/// and `general` both become `#general`, and an ID stays bare.
pub proof fn law_channel_label_is_stable(input: Seq<char>)
    ensures
        channel_label_text(channel_label_text(input)) == channel_label_text(input),
        channel_label_text(seq!['#'] + single_line(input)) == seq!['#'] + single_line(input),
{
    let s = single_line(input);
    law_sanitized_text_has_no_controls(input);
    law_sanitize_is_idempotent(input);
    let h = seq!['#'] + s;
    assert forall|j: int| 0 <= j < h.len() implies !is_dropped_control(#[trigger] h[j]) && h[j] != '\n' && h[j] != '\t' by {
        if j > 0 {
            assert(h[j] == s[j - 1]);
        }
    }
    lemma_single_line_keeps_clean(h);
    assert(h[0] == '#');
}

/// Index of the first `c` in `s`.
pub open spec fn first_index_of(s: Seq<char>, c: char) -> Option<int>
    decreases s.len(),
{
    if s.len() == 0 {
        None
    } else if s[0] == c {
        Some(0)
    } else {
        match first_index_of(s.drop_first(), c) {
            Some(i) => Some(i + 1),
            None => None,
        }
    }
}

/// `s` with its first `c` removed (`str::replacen(c, "", 1)`).
pub open spec fn without_first(s: Seq<char>, c: char) -> Seq<char> {
    match first_index_of(s, c) {
        Some(i) => s.take(i) + s.skip(i + 1),
        None => s,
    }
}

proof fn lemma_first_index_scan(s: Seq<char>, c: char, i: int)
    requires
        0 <= i <= s.len(),
        forall|k: int| 0 <= k < i ==> s[k] != c,
    ensures
        i < s.len() && s[i] == c ==> first_index_of(s, c) == Some(i),
        i == s.len() ==> first_index_of(s, c) is None,
    decreases i,
{
    if i > 0 {
        lemma_first_index_scan(s.drop_first(), c, i - 1);
    } else if s.len() == 0 {
    }
}

fn remove_first(v: &Vec<char>, c: char) -> (r: String)
    ensures
        r@ == without_first(v@, c),
{
    let mut i: usize = 0;
    while i < v.len() && v[i] != c
        invariant
            i <= v.len(),
            forall|k: int| 0 <= k < i ==> v@[k] != c,
        decreases v.len() - i,
    {
        i = i + 1;
    }
    proof {
        lemma_first_index_scan(v@, c, i as int);
    }
    if i == v.len() {
        proof {
            assert(v@.subrange(0, v.len() as int) =~= v@);
        }
        crate::strings::string_from_chars(v, 0, v.len())
    } else {
        let mut r = crate::strings::string_from_chars(v, 0, i);
        let rest = crate::strings::string_from_chars(v, i + 1, v.len());
        r.push_str(rest.as_str());
        proof {
            assert(v@.subrange(0, i as int) =~= v@.take(i as int));
            assert(v@.subrange(i + 1, v.len() as int) =~= v@.skip(i + 1));
        }
        r
    }
}

/// How a channel entry of `conversations.list` matches a name typed by the user:
/// its `name` is the input, or the input without its first `#`, or equal to it
/// ignoring case; or its `name_normalized` is the input.
pub open spec fn channel_matches(channel: Json, input: Seq<char>) -> bool {
    let name = str_field(channel, "name"@);
    let normalized = str_field(channel, "name_normalized"@);
    ||| name == Some(input)
    ||| name == Some(without_first(input, '#'))
    ||| (name is Some && unicode_lowercase(name->0) == unicode_lowercase(input))
    ||| normalized == Some(input)
}

/// Index of the first channel that matches `input`.
pub open spec fn first_matching(channels: Seq<Json>, input: Seq<char>) -> Option<int>
    decreases channels.len(),
{
    if channels.len() == 0 {
        None
    } else if channel_matches(channels[0], input) {
        Some(0)
    } else {
        match first_matching(channels.drop_first(), input) {
            Some(i) => Some(i + 1),
            None => None,
        }
    }
}

/// The ID found for `input`: the `id` of the first matching channel.
pub open spec fn found_channel_id(channels: Seq<Json>, input: Seq<char>) -> Option<Seq<char>> {
    match first_matching(channels, input) {
        Some(i) => str_field(channels[i], "id"@),
        None => None,
    }
}

proof fn lemma_first_matching_scan(channels: Seq<Json>, input: Seq<char>, i: int)
    requires
        0 <= i <= channels.len(),
        forall|k: int| 0 <= k < i ==> !channel_matches(#[trigger] channels[k], input),
    ensures
        i < channels.len() && channel_matches(channels[i], input) ==> first_matching(channels, input) == Some(i),
        i == channels.len() ==> first_matching(channels, input) is None,
    decreases i,
{
    if i > 0 {
        let rest = channels.drop_first();
        assert forall|k: int| 0 <= k < i - 1 implies !channel_matches(#[trigger] rest[k], input) by {
            assert(rest[k] == channels[k + 1]);
        }
        lemma_first_matching_scan(rest, input, i - 1);
        if i < channels.len() {
            assert(rest[i - 1] == channels[i]);
        }
        assert(!channel_matches(channels[0], input));
    }
}

fn same_text(a: &String, b: &Vec<char>) -> (r: bool)
    ensures
        r == (a@ == b@),
{
    let av = chars_of(a.as_str());
    seq_eq(&av, b)
}

fn channel_matches_exec(channel: &Json, input: &str, input_v: &Vec<char>, without_hash: &Vec<char>, lowered: &Vec<char>) -> (r: bool)
    requires
        input_v@ == input@,
        without_hash@ == without_first(input@, '#'),
        lowered@ == unicode_lowercase(input@),
    ensures
        r == channel_matches(*channel, input@),
{
    let name = channel.str_field("name");
    let normalized = channel.str_field("name_normalized");
    match name {
        Some(n) => {
            if same_text(n, input_v) || same_text(n, without_hash) {
                return true;
            }
            let nl = to_lowercase(n.as_str());
            if same_text(&nl, lowered) {
                return true;
            }
        },
        None => {},
    }
    match normalized {
        Some(m) => same_text(m, input_v),
        None => false,
    }
}

/// Looks `input` up in a conversation list the way the channel resolver does: by
/// exact name, by name without a leading `#`, by name ignoring case, or by the
/// normalized name; returns the `id` of the first channel that matches.
pub fn find_channel_id(channels: &Vec<Json>, input: &str) -> (r: Option<String>)
    ensures
        match r {
            Some(id) => found_channel_id(channels@, input@) == Some(id@),
            None => found_channel_id(channels@, input@) is None,
        },
{
    let input_v = chars_of(input);
    let without_hash_s = remove_first(&input_v, '#');
    let without_hash = chars_of(without_hash_s.as_str());
    let lowered_s = to_lowercase(input);
    let lowered = chars_of(lowered_s.as_str());
    let mut i: usize = 0;
    while i < channels.len()
        invariant
            i <= channels.len(),
            input_v@ == input@,
            without_hash@ == without_first(input@, '#'),
            lowered@ == unicode_lowercase(input@),
            forall|k: int| 0 <= k < i ==> !channel_matches(#[trigger] channels@[k], input@),
        decreases channels.len() - i,
    {
        if channel_matches_exec(&channels[i], input, &input_v, &without_hash, &lowered) {
            proof {
                lemma_first_matching_scan(channels@, input@, i as int);
            }
            return match channels[i].str_field("id") {
                Some(id) => Some(id.clone()),
                None => None,
            };
        }
        i = i + 1;
    }
    proof {
        lemma_first_matching_scan(channels@, input@, i as int);
    }
    None
}

/// Channel names offered as suggestions: every `name` that contains the lowered
/// input when lowered, sanitised to one line.
pub open spec fn similar_names(channels: Seq<Json>, lowered: Seq<char>) -> Seq<Seq<char>>
    decreases channels.len(),
{
    if channels.len() == 0 {
        Seq::empty()
    } else {
        let rest = similar_names(channels.drop_last(), lowered);
        match str_field(channels.last(), "name"@) {
            Some(n) => if contains_block(unicode_lowercase(n), lowered) {
                rest.push(single_line(n))
            } else {
                rest
            },
            None => rest,
        }
    }
}

/// The message for a channel name that could not be resolved.
pub open spec fn not_found_text(input: Seq<char>, channels: Seq<Json>) -> Seq<char> {
    let suggestions = first_n(similar_names(channels, unicode_lowercase(input)), SIMILAR_CHANNEL_LIMIT as int);
    let name = single_line(input);
    if suggestions.len() == 0 {
        "Channel '"@ + name + "' not found. Make sure you are a member of this channel."@
    } else {
        "Channel '"@ + name + "' not found. Did you mean one of these? "@ + join(suggestions, ", "@)
    }
}

/// The "channel not found" error, suggesting up to five channels whose names contain
/// the input (ignoring case).
pub fn not_found_error(input: &str, channels: &Vec<Json>) -> (r: SlackCliError)
    ensures
        r matches SlackCliError::NotFound(m) && m@ == not_found_text(input@, channels@),
{
    let lowered_s = to_lowercase(input);
    let lowered = chars_of(lowered_s.as_str());
    let mut suggestions: Vec<String> = Vec::new();
    let mut i: usize = 0;
    proof {
        assert(channels@.take(0) =~= Seq::<Json>::empty());
        assert(views(suggestions@) =~= Seq::<Seq<char>>::empty());
        assert(similar_names(Seq::<Json>::empty(), lowered@) =~= Seq::<Seq<char>>::empty());
    }
    while i < channels.len()
        invariant
            i <= channels.len(),
            lowered@ == unicode_lowercase(input@),
            views(suggestions@) == first_n(similar_names(channels@.take(i as int), lowered@), SIMILAR_CHANNEL_LIMIT as int),
            suggestions@.len() <= SIMILAR_CHANNEL_LIMIT,
        decreases channels.len() - i,
    {
        let ghost prev = similar_names(channels@.take(i as int), lowered@);
        proof {
            assert(channels@.take(i + 1).drop_last() =~= channels@.take(i as int));
            assert(channels@.take(i + 1).last() == channels@[i as int]);
        }
        match channels[i].str_field("name") {
            Some(n) => {
                let nl = to_lowercase(n.as_str());
                let nv = chars_of(nl.as_str());
                if contains_seq(&nv, &lowered) {
                    if suggestions.len() < SIMILAR_CHANNEL_LIMIT {
                        let s = sanitize_single_line_text(n.as_str());
                        let ghost before = suggestions@;
                        suggestions.push(s);
                        proof {
                            assert(views(suggestions@) =~= views(before).push(s@));
                            assert(first_n(prev.push(single_line(n@)), SIMILAR_CHANNEL_LIMIT as int)
                                =~= first_n(prev, SIMILAR_CHANNEL_LIMIT as int).push(single_line(n@)));
                        }
                    } else {
                        proof {
                            assert(first_n(prev.push(single_line(n@)), SIMILAR_CHANNEL_LIMIT as int)
                                =~= first_n(prev, SIMILAR_CHANNEL_LIMIT as int));
                        }
                    }
                }
            },
            None => {},
        }
        i = i + 1;
    }
    proof {
        assert(channels@.take(channels.len() as int) =~= channels@);
    }
    let name = sanitize_single_line_text(input);
    let mut m = "Channel '".to_string();
    m.push_str(name.as_str());
    if suggestions.len() == 0 {
        m.push_str("' not found. Make sure you are a member of this channel.");
    } else {
        m.push_str("' not found. Did you mean one of these? ");
        let joined = join_strings(&suggestions, ", ");
        m.push_str(joined.as_str());
    }
    SlackCliError::NotFound(m)
}

/// The channel type each scope unlocks in `conversations.list`.
pub open spec fn scope_channel_type(scope: Seq<char>) -> Option<Seq<char>> {
    if scope == "channels:read"@ {
        Some("public_channel"@)
    } else if scope == "groups:read"@ {
        Some("private_channel"@)
    } else if scope == "im:read"@ {
        Some("im"@)
    } else if scope == "mpim:read"@ {
        Some("mpim"@)
    } else {
        None
    }
}

/// The channel types blocked by the missing scopes.
pub open spec fn blocked_types(needed: Seq<Seq<char>>) -> Seq<Seq<char>>
    decreases needed.len(),
{
    if needed.len() == 0 {
        Seq::empty()
    } else {
        let rest = blocked_types(needed.drop_last());
        match scope_channel_type(needed.last()) {
            Some(t) => rest.push(t),
            None => rest,
        }
    }
}

/// The requested types that are not blocked, in order.
pub open spec fn unblocked(requested: Seq<Seq<char>>, blocked: Seq<Seq<char>>) -> Seq<Seq<char>>
    decreases requested.len(),
{
    if requested.len() == 0 {
        Seq::empty()
    } else {
        let rest = unblocked(requested.drop_last(), blocked);
        if blocked.contains(requested.last()) { rest } else { rest.push(requested.last()) }
    }
}

/// The types to retry a listing with after `missing_scope`: those the token can still
/// read, when that is a non-empty proper subset of the requested ones.
pub open spec fn fallback_types(error: SlackCliError, requested: Seq<Seq<char>>) -> Option<Seq<Seq<char>>> {
    match error {
        SlackCliError::Api { code, needed, .. } => {
            if code@ != MISSING_SCOPE_CODE@ {
                None
            } else {
                let blocked = blocked_types(views(needed@));
                let remaining = unblocked(requested, blocked);
                if blocked.len() == 0 || remaining.len() == 0 || remaining.len() == requested.len() {
                    None
                } else {
                    Some(remaining)
                }
            }
        },
        _ => None,
    }
}

fn scope_channel_type_exec(scope: &String) -> (r: Option<String>)
    ensures
        match r {
            Some(t) => scope_channel_type(scope@) == Some(t@),
            None => scope_channel_type(scope@) is None,
        },
{
    let v = chars_of(scope.as_str());
    let a = chars_of("channels:read");
    let b = chars_of("groups:read");
    let c = chars_of("im:read");
    let d = chars_of("mpim:read");
    if seq_eq(&v, &a) {
        Some("public_channel".to_string())
    } else if seq_eq(&v, &b) {
        Some("private_channel".to_string())
    } else if seq_eq(&v, &c) {
        Some("im".to_string())
    } else if seq_eq(&v, &d) {
        Some("mpim".to_string())
    } else {
        None
    }
}

fn contains_string(list: &Vec<String>, item: &String) -> (r: bool)
    ensures
        r == views(list@).contains(item@),
{
    let iv = chars_of(item.as_str());
    let mut i: usize = 0;
    while i < list.len()
        invariant
            i <= list.len(),
            iv@ == item@,
            forall|k: int| 0 <= k < i ==> #[trigger] list@[k]@ != item@,
        decreases list.len() - i,
    {
        if same_text(&list[i], &iv) {
            proof {
                assert(views(list@)[i as int] == item@);
            }
            return true;
        }
        i = i + 1;
    }
    proof {
        if views(list@).contains(item@) {
            let k = choose|k: int| 0 <= k < views(list@).len() && views(list@)[k] == item@;
            assert(list@[k]@ == item@);
        }
    }
    false
}

/// After a `missing_scope` failure of a channel listing, the channel types to retry
/// with: the requested ones minus those the missing scopes block. `None` when the
/// error is something else, when no requested type is blocked, or when all are.
pub fn fallback_lookup_types(error: &SlackCliError, requested: &Vec<String>) -> (r: Option<Vec<String>>)
    ensures
        match r {
            Some(v) => fallback_types(*error, views(requested@)) == Some(views(v@)),
            None => fallback_types(*error, views(requested@)) is None,
        },
{
    match error {
        SlackCliError::Api { code, needed, .. } => {
            let cv = chars_of(code.as_str());
            let mv = chars_of(MISSING_SCOPE_CODE);
            if !seq_eq(&cv, &mv) {
                return None;
            }
            let mut blocked: Vec<String> = Vec::new();
            let mut i: usize = 0;
            proof {
                assert(views(needed@).take(0) =~= Seq::<Seq<char>>::empty());
                assert(views(blocked@) =~= Seq::<Seq<char>>::empty());
            }
            while i < needed.len()
                invariant
                    i <= needed.len(),
                    views(blocked@) == blocked_types(views(needed@).take(i as int)),
                decreases needed.len() - i,
            {
                proof {
                    assert(views(needed@).take(i + 1).drop_last() =~= views(needed@).take(i as int));
                    assert(views(needed@).take(i + 1).last() == needed@[i as int]@);
                }
                match scope_channel_type_exec(&needed[i]) {
                    Some(t) => {
                        let ghost before = blocked@;
                        blocked.push(t);
                        proof {
                            assert(views(blocked@) =~= views(before).push(t@));
                        }
                    },
                    None => {},
                }
                i = i + 1;
            }
            proof {
                assert(views(needed@).take(needed.len() as int) =~= views(needed@));
            }
            if blocked.len() == 0 {
                return None;
            }
            let mut remaining: Vec<String> = Vec::new();
            let mut j: usize = 0;
            proof {
                assert(views(requested@).take(0) =~= Seq::<Seq<char>>::empty());
                assert(views(remaining@) =~= Seq::<Seq<char>>::empty());
            }
            while j < requested.len()
                invariant
                    j <= requested.len(),
                    views(remaining@) == unblocked(views(requested@).take(j as int), views(blocked@)),
                    remaining@.len() <= j,
                decreases requested.len() - j,
            {
                proof {
                    assert(views(requested@).take(j + 1).drop_last() =~= views(requested@).take(j as int));
                    assert(views(requested@).take(j + 1).last() == requested@[j as int]@);
                }
                if !contains_string(&blocked, &requested[j]) {
                    let ghost before = remaining@;
                    remaining.push(requested[j].clone());
                    proof {
                        assert(views(remaining@) =~= views(before).push(requested@[j as int]@));
                    }
                }
                j = j + 1;
            }
            proof {
                assert(views(requested@).take(requested.len() as int) =~= views(requested@));
            }
            if remaining.len() == 0 || remaining.len() == requested.len() {
                None
            } else {
                Some(remaining)
            }
        },
        _ => None,
    }
}

/// The UTC date (`YYYY-MM-DD`) of `seconds` after the epoch, `(invalid timestamp)`
/// outside chrono's range.
pub open spec fn unix_date_text(seconds: int) -> Seq<char> {
    match utc_text(seconds, PATTERN_DATE@) {
        Some(t) => t,
        None => INVALID_TIMESTAMP@,
    }
}

pub fn format_unix_date(seconds: i64) -> (r: String)
    ensures
        r@ == unix_date_text(seconds as int),
{
    match utc_format(seconds, PATTERN_DATE) {
        Some(t) => t,
        None => INVALID_TIMESTAMP.to_string(),
    }
}

/// `seconds` after the epoch as RFC 3339 in UTC with milliseconds and `Z`,
/// `(invalid timestamp)` outside chrono's range.
pub open spec fn unix_rfc3339_text(seconds: int) -> Seq<char> {
    match utc_rfc3339_text(seconds) {
        Some(t) => t,
        None => INVALID_TIMESTAMP@,
    }
}

pub fn format_unix_rfc3339(seconds: i64) -> (r: String)
    ensures
        r@ == unix_rfc3339_text(seconds as int),
{
    match utc_rfc3339_millis(seconds) {
        Some(t) => t,
        None => INVALID_TIMESTAMP.to_string(),
    }
}

/// Page size when listing channels to resolve a name.
pub const CHANNEL_LOOKUP_PAGE_SIZE: u32 = 1000;

/// The conversation types listed to resolve a channel name.
pub fn channel_lookup_types() -> (r: Vec<String>)
    ensures
        crate::strings::views(r@) == seq!["public_channel"@, "private_channel"@, "im"@, "mpim"@],
{
    let mut v: Vec<String> = Vec::new();
    v.push("public_channel".to_string());
    v.push("private_channel".to_string());
    v.push("im".to_string());
    v.push("mpim".to_string());
    proof { assert(crate::strings::views(v@) =~= seq!["public_channel"@, "private_channel"@, "im"@, "mpim"@]); }
    v
}

} // verus!
