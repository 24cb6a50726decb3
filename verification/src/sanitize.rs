//! Terminal sanitising of text that came from users or from the Slack API, so that
//! escape sequences in a message can never drive the terminal the output lands on.

use vstd::prelude::*;
use crate::strings::chars_of;
use crate::json::{Json, JsonView, jview, jviews, jfields};

verus! {

pub const ESC: char = '\u{1b}';
pub const BEL: char = '\u{7}';

/// Control characters that are dropped: C0 controls other than tab and newline,
/// DEL, and the C1 range.
pub open spec fn is_dropped_control(c: char) -> bool {
    (c < ' ' && c != '\t' && c != '\n') || c == '\u{7f}' || ('\u{80}' <= c && c <= '\u{9f}')
}

/// Parameter and intermediate bytes of a CSI sequence.
pub open spec fn is_csi_body(c: char) -> bool {
    ' ' <= c && c <= '?'
}

/// Final byte of a CSI sequence.
pub open spec fn is_csi_final(c: char) -> bool {
    '@' <= c && c <= '~'
}

/// Index just after the CSI body that starts at `k`.
pub open spec fn csi_body_end(s: Seq<char>, k: int) -> int
    decreases s.len() - k,
{
    if k < 0 || k >= s.len() || !is_csi_body(s[k]) {
        k
    } else {
        csi_body_end(s, k + 1)
    }
}

/// Index just after a CSI sequence whose body starts at `k`.
pub open spec fn csi_end(s: Seq<char>, k: int) -> int {
    let b = csi_body_end(s, k);
    if 0 <= b < s.len() && is_csi_final(s[b]) {
        b + 1
    } else {
        b
    }
}

/// Index just after an OSC sequence whose payload starts at `k`: the payload runs to
/// BEL or to the string terminator `ESC \`, or to the end of the text.
pub open spec fn osc_end(s: Seq<char>, k: int) -> int
    decreases s.len() - k,
{
    if k < 0 || k >= s.len() {
        s.len() as int
    } else if s[k] == BEL {
        k + 1
    } else if s[k] == ESC && k + 1 < s.len() && s[k + 1] == '\\' {
        k + 2
    } else {
        osc_end(s, k + 1)
    }
}

/// The sanitised form of `s[i..]`.
pub open spec fn sanitize_from(s: Seq<char>, i: int) -> Seq<char>
    decreases s.len() - i, 1int,
{
    if i < 0 || i >= s.len() {
        Seq::empty()
    } else if s[i] == ESC && i + 1 < s.len() && s[i + 1] == '[' {
        if i < csi_end(s, i + 2) <= s.len() { sanitize_from(s, csi_end(s, i + 2)) } else { Seq::empty() }
    } else if s[i] == ESC && i + 1 < s.len() && s[i + 1] == ']' {
        if i < osc_end(s, i + 2) <= s.len() { sanitize_from(s, osc_end(s, i + 2)) } else { Seq::empty() }
    } else if is_dropped_control(s[i]) {
        sanitize_from(s, i + 1)
    } else {
        seq![s[i]] + sanitize_from(s, i + 1)
    }
}

/// `s` with CSI and OSC escape sequences and dropped control characters removed.
pub open spec fn sanitize_terminal(s: Seq<char>) -> Seq<char> {
    sanitize_from(s, 0)
}

/// A single-line rendering: sanitised, with tabs and newlines shown as spaces.
pub open spec fn single_line(s: Seq<char>) -> Seq<char> {
    sanitize_terminal(s).map_values(|c: char| if c == '\t' || c == '\n' { ' ' } else { c })
}

proof fn lemma_sanitize_from_clean(s: Seq<char>, i: int)
    ensures
        forall|j: int| 0 <= j < sanitize_from(s, i).len() ==> !is_dropped_control(#[trigger] sanitize_from(s, i)[j]),
    decreases s.len() - i,
{
    if 0 <= i < s.len() {
        if s[i] == ESC && i + 1 < s.len() && s[i + 1] == '[' {
            if i < csi_end(s, i + 2) <= s.len() {
                lemma_sanitize_from_clean(s, csi_end(s, i + 2));
                assert(sanitize_from(s, i) == sanitize_from(s, csi_end(s, i + 2)));
            } else {
                assert(sanitize_from(s, i) == Seq::<char>::empty());
            }
        } else if s[i] == ESC && i + 1 < s.len() && s[i + 1] == ']' {
            if i < osc_end(s, i + 2) <= s.len() {
                lemma_sanitize_from_clean(s, osc_end(s, i + 2));
                assert(sanitize_from(s, i) == sanitize_from(s, osc_end(s, i + 2)));
            } else {
                assert(sanitize_from(s, i) == Seq::<char>::empty());
            }
        } else if is_dropped_control(s[i]) {
            lemma_sanitize_from_clean(s, i + 1);
            assert(sanitize_from(s, i) == sanitize_from(s, i + 1));
        } else {
            lemma_sanitize_from_clean(s, i + 1);
            let rest = sanitize_from(s, i + 1);
            assert forall|j: int| 0 <= j < sanitize_from(s, i).len() implies !is_dropped_control(#[trigger] sanitize_from(s, i)[j]) by {
                if j > 0 {
                    assert(sanitize_from(s, i)[j] == rest[j - 1]);
                }
            }
        }
    }
}

/// Sanitised text holds no control character that could drive a terminal: no escape,
/// no bell, no C1 control; only tabs and newlines remain of the C0 range. On one line,
/// tabs and newlines are gone too.
pub proof fn law_sanitized_text_has_no_controls(s: Seq<char>)
    ensures
        forall|j: int| 0 <= j < sanitize_terminal(s).len() ==> !is_dropped_control(#[trigger] sanitize_terminal(s)[j]),
        forall|j: int| 0 <= j < sanitize_terminal(s).len() ==> #[trigger] sanitize_terminal(s)[j] != ESC,
        forall|j: int| 0 <= j < single_line(s).len() ==> !is_dropped_control(#[trigger] single_line(s)[j])
            && single_line(s)[j] != '\n' && single_line(s)[j] != '\t',
{
    lemma_sanitize_from_clean(s, 0);
    assert forall|j: int| 0 <= j < sanitize_terminal(s).len() implies #[trigger] sanitize_terminal(s)[j] != ESC by {
        assert(!is_dropped_control(sanitize_terminal(s)[j]));
    }
    assert forall|j: int| 0 <= j < single_line(s).len() implies !is_dropped_control(#[trigger] single_line(s)[j])
        && single_line(s)[j] != '\n' && single_line(s)[j] != '\t' by {
        assert(!is_dropped_control(sanitize_terminal(s)[j]));
    }
}

proof fn lemma_clean_text_is_kept(s: Seq<char>, i: int)
    requires
        0 <= i <= s.len(),
        forall|j: int| 0 <= j < s.len() ==> !is_dropped_control(#[trigger] s[j]),
    ensures
        sanitize_from(s, i) == s.skip(i),
    decreases s.len() - i,
{
    if i < s.len() {
        assert(!is_dropped_control(s[i]));
        assert(s[i] != ESC);
        lemma_clean_text_is_kept(s, i + 1);
        assert(seq![s[i]] + s.skip(i + 1) =~= s.skip(i));
    } else {
        assert(s.skip(i) =~= Seq::<char>::empty());
    }
}

/// Sanitising is idempotent: text that was sanitised once is left as it is, so a value
/// that passes through two sanitising steps shows the same.
pub proof fn law_sanitize_is_idempotent(s: Seq<char>)
    ensures
        sanitize_terminal(sanitize_terminal(s)) == sanitize_terminal(s),
        sanitize_terminal(single_line(s)) == single_line(s),
        single_line(single_line(s)) == single_line(s),
{
    law_sanitized_text_has_no_controls(s);
    lemma_clean_text_is_kept(sanitize_terminal(s), 0);
    assert(sanitize_terminal(s).skip(0) =~= sanitize_terminal(s));
    lemma_clean_text_is_kept(single_line(s), 0);
    assert(single_line(s).skip(0) =~= single_line(s));
    lemma_single_line_keeps_clean(single_line(s));
}

/// Text without controls, tabs or newlines is its own single-line rendering.
pub(crate) proof fn lemma_single_line_keeps_clean(t: Seq<char>)
    requires
        forall|j: int| 0 <= j < t.len() ==> !is_dropped_control(#[trigger] t[j]) && t[j] != '\n' && t[j] != '\t',
    ensures
        single_line(t) == t,
{
    lemma_clean_text_is_kept(t, 0);
    assert(t.skip(0) =~= t);
    assert(single_line(t) =~= t);
}

fn csi_end_exec(v: &Vec<char>, k: usize) -> (r: usize)
    requires
        k <= v.len(),
    ensures
        r == csi_end(v@, k as int),
        k <= r <= v.len(),
{
    let mut b = k;
    while b < v.len() && ' ' <= v[b] && v[b] <= '?'
        invariant
            k <= b <= v.len(),
            csi_body_end(v@, k as int) == csi_body_end(v@, b as int),
        decreases v.len() - b,
    {
        b = b + 1;
    }
    if b < v.len() && '@' <= v[b] && v[b] <= '~' {
        b + 1
    } else {
        b
    }
}

fn osc_end_exec(v: &Vec<char>, k: usize) -> (r: usize)
    requires
        k <= v.len(),
    ensures
        r == osc_end(v@, k as int),
        k <= r <= v.len(),
{
    let mut j = k;
    while j < v.len()
        invariant
            k <= j <= v.len(),
            osc_end(v@, k as int) == osc_end(v@, j as int),
        decreases v.len() - j,
    {
        if v[j] == BEL {
            return j + 1;
        }
        if v[j] == ESC && j + 1 < v.len() && v[j + 1] == '\\' {
            return j + 2;
        }
        j = j + 1;
    }
    v.len()
}

fn is_dropped_control_exec(c: char) -> (r: bool)
    ensures
        r == is_dropped_control(c),
{
    (c < ' ' && c != '\t' && c != '\n') || c == '\u{7f}' || ('\u{80}' <= c && c <= '\u{9f}')
}

/// Removes terminal escape sequences (CSI `ESC [ ... final`, OSC `ESC ] ... BEL` or
/// `ESC ] ... ESC \`) and control characters other than tab and newline.
pub fn sanitize_terminal_text(input: &str) -> (r: String)
    ensures
        r@ == sanitize_terminal(input@),
{
    let v = chars_of(input);
    let mut out = String::new();
    let mut i: usize = 0;
    while i < v.len()
        invariant
            i <= v.len(),
            v@ == input@,
            out@ + sanitize_from(v@, i as int) == sanitize_terminal(v@),
        decreases v.len() - i,
    {
        let c = v[i];
        if c == ESC && i + 1 < v.len() && v[i + 1] == '[' {
            let e = csi_end_exec(&v, i + 2);
            i = e;
        } else if c == ESC && i + 1 < v.len() && v[i + 1] == ']' {
            let e = osc_end_exec(&v, i + 2);
            i = e;
        } else if is_dropped_control_exec(c) {
            i = i + 1;
        } else {
            proof {
                assert(out@.push(c) + sanitize_from(v@, i + 1) =~= out@ + (seq![c] + sanitize_from(v@, i + 1)));
            }
            out.push(c);
            i = i + 1;
        }
    }
    proof {
        assert(out@ + Seq::<char>::empty() =~= out@);
    }
    out
}

/// Sanitises for a one-line message: like [`sanitize_terminal_text`], with tabs and
/// newlines turned into spaces.
pub fn sanitize_single_line_text(input: &str) -> (r: String)
    ensures
        r@ == single_line(input@),
{
    let s = sanitize_terminal_text(input);
    let v = chars_of(s.as_str());
    let mut out = String::new();
    let mut i: usize = 0;
    while i < v.len()
        invariant
            i <= v.len(),
            v@ == sanitize_terminal(input@),
            out@ == single_line(input@).take(i as int),
        decreases v.len() - i,
    {
        let c = v[i];
        if c == '\t' || c == '\n' {
            out.push(' ');
        } else {
            out.push(c);
        }
        proof {
            assert(single_line(input@).take(i + 1) =~= single_line(input@).take(i as int).push(
                single_line(input@)[i as int],
            ));
        }
        i = i + 1;
    }
    proof {
        assert(out@ =~= single_line(input@));
    }
    out
}

/// A value with every text in it, at any depth, sanitised; keys and other values kept.
pub open spec fn sanitized_json(v: Json) -> JsonView
    decreases v, 0int,
{
    match v {
        Json::Str(t) => JsonView::Str(sanitize_terminal(t@)),
        Json::Array(items) => {
            proof { assert(decreases_to!(v => items)); assert(decreases_to!(items => items@)); }
            JsonView::Array(sanitized_items(items@, items@.len() as int))
        },
        Json::Object(fields) => {
            proof { assert(decreases_to!(v => fields)); assert(decreases_to!(fields => fields@)); }
            JsonView::Object(sanitized_fields(fields@, fields@.len() as int))
        },
        _ => jview(v),
    }
}

/// The sanitised views of the first `n` items.
pub open spec fn sanitized_items(items: Seq<Json>, n: int) -> Seq<JsonView>
    decreases items, n,
{
    if n <= 0 || n > items.len() {
        Seq::empty()
    } else {
        sanitized_items(items, n - 1).push(sanitized_json(items[n - 1]))
    }
}

/// The sanitised views of the first `n` fields.
pub open spec fn sanitized_fields(fields: Seq<(String, Json)>, n: int) -> Seq<(Seq<char>, JsonView)>
    decreases fields, n,
{
    if n <= 0 || n > fields.len() {
        Seq::empty()
    } else {
        proof { assert(decreases_to!(fields => fields[n - 1])); assert(decreases_to!(fields[n - 1] => fields[n - 1].1)); }
        sanitized_fields(fields, n - 1).push((fields[n - 1].0@, sanitized_json(fields[n - 1].1)))
    }
}

proof fn lemma_items_sanitized(out: Seq<Json>, items: Seq<Json>, n: int)
    requires
        0 <= n <= out.len(),
        n <= items.len(),
        forall|k: int| 0 <= k < n ==> jview(#[trigger] out[k]) == sanitized_json(items[k]),
    ensures
        jviews(out, n) == sanitized_items(items, n),
    decreases n,
{
    if n > 0 {
        lemma_items_sanitized(out, items, n - 1);
    }
}

proof fn lemma_fields_sanitized(out: Seq<(String, Json)>, fields: Seq<(String, Json)>, n: int)
    requires
        0 <= n <= out.len(),
        n <= fields.len(),
        forall|k: int| 0 <= k < n ==> (#[trigger] out[k]).0@ == fields[k].0@ && jview(out[k].1) == sanitized_json(fields[k].1),
    ensures
        jfields(out, n) == sanitized_fields(fields, n),
    decreases n,
{
    if n > 0 {
        lemma_fields_sanitized(out, fields, n - 1);
    }
}

/// Sanitises every text inside a JSON value, so that data printed as JSON, YAML or a
/// table cannot carry terminal escapes.
pub fn sanitize_value(value: &Json) -> (r: Json)
    ensures
        jview(r) == sanitized_json(*value),
    decreases *value,
{
    match value {
        Json::Str(t) => Json::Str(sanitize_terminal_text(t.as_str())),
        Json::Array(items) => {
            let mut out: Vec<Json> = Vec::new();
            let mut i: usize = 0;
            while i < items.len()
                invariant
                    i <= items.len(),
                    out@.len() == i,
                    forall|k: int| 0 <= k < i ==> jview(#[trigger] out@[k]) == sanitized_json(items@[k]),
                    decreases_to!(*value => items),
                decreases items.len() - i,
            {
                proof {
                    assert(decreases_to!(items => items@));
                    assert(decreases_to!(items@ => items@[i as int]));
                }
                let c = sanitize_value(&items[i]);
                out.push(c);
                i = i + 1;
            }
            proof { lemma_items_sanitized(out@, items@, items@.len() as int); }
            Json::Array(out)
        },
        Json::Object(fields) => {
            let mut out: Vec<(String, Json)> = Vec::new();
            let mut i: usize = 0;
            while i < fields.len()
                invariant
                    i <= fields.len(),
                    out@.len() == i,
                    forall|k: int| 0 <= k < i ==> (#[trigger] out@[k]).0@ == fields@[k].0@ && jview(out@[k].1) == sanitized_json(fields@[k].1),
                    decreases_to!(*value => fields),
                decreases fields.len() - i,
            {
                proof {
                    assert(decreases_to!(fields => fields@));
                    assert(decreases_to!(fields@ => fields@[i as int]));
                    assert(decreases_to!(fields@[i as int] => fields@[i as int].1));
                }
                let c = sanitize_value(&fields[i].1);
                out.push((fields[i].0.clone(), c));
                i = i + 1;
            }
            proof { lemma_fields_sanitized(out@, fields@, fields@.len() as int); }
            Json::Object(out)
        },
        _ => value.deep_clone(),
    }
}

} // verus!
