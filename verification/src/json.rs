//! A JSON value as the rest of the library reads it: what the Slack API returns and
//! what the commands print. Objects keep their fields in order.

use vstd::prelude::*;
use crate::strings::seq_eq;
use crate::strings::chars_of;

verus! {

/// A JSON number, kept exactly: integers as integers, anything else as its text.
#[derive(Debug)]
pub enum JsonNumber {
    Int(i64),
    UInt(u64),
    Float(String),
}

#[derive(Debug)]
pub enum Json {
    Null,
    Bool(bool),
    Number(JsonNumber),
    Str(String),
    Array(Vec<Json>),
    Object(Vec<(String, Json)>),
}

/// Index of the first field named `key`.
pub open spec fn field_index(fields: Seq<(String, Json)>, key: Seq<char>) -> Option<int>
    decreases fields.len(),
{
    if fields.len() == 0 {
        None
    } else if fields[0].0@ == key {
        Some(0)
    } else {
        match field_index(fields.drop_first(), key) {
            Some(i) => Some(i + 1),
            None => None,
        }
    }
}

/// `value[key]` for an object; `None` for other values and missing keys.
pub open spec fn json_get(value: Json, key: Seq<char>) -> Option<Json> {
    match value {
        Json::Object(fields) => match field_index(fields@, key) {
            Some(i) => Some(fields@[i].1),
            None => None,
        },
        _ => None,
    }
}

/// The text of a string value.
pub open spec fn json_str(value: Option<Json>) -> Option<Seq<char>> {
    match value {
        Some(Json::Str(s)) => Some(s@),
        _ => None,
    }
}

/// The boolean of a `true`/`false` value.
pub open spec fn json_bool(value: Option<Json>) -> Option<bool> {
    match value {
        Some(Json::Bool(b)) => Some(b),
        _ => None,
    }
}

/// The elements of an array value.
pub open spec fn json_array(value: Option<Json>) -> Option<Seq<Json>> {
    match value {
        Some(Json::Array(items)) => Some(items@),
        _ => None,
    }
}

/// The integer of a number that fits an `i64`.
pub open spec fn json_i64(value: Option<Json>) -> Option<int> {
    match value {
        Some(Json::Number(JsonNumber::Int(n))) => Some(n as int),
        Some(Json::Number(JsonNumber::UInt(n))) => if n <= i64::MAX { Some(n as int) } else { None },
        _ => None,
    }
}

/// The integer of a number that fits a `u64`.
pub open spec fn json_u64(value: Option<Json>) -> Option<nat> {
    match value {
        Some(Json::Number(JsonNumber::Int(n))) => if n >= 0 { Some(n as nat) } else { None },
        Some(Json::Number(JsonNumber::UInt(n))) => Some(n as nat),
        _ => None,
    }
}

/// `value[key]` as text.
pub open spec fn str_field(value: Json, key: Seq<char>) -> Option<Seq<char>> {
    json_str(json_get(value, key))
}

/// A found field lies within the fields.
pub proof fn lemma_field_index_bounds(fields: Seq<(String, Json)>, key: Seq<char>)
    ensures
        field_index(fields, key) matches Some(i) ==> 0 <= i < fields.len() && fields[i].0@ == key,
    decreases fields.len(),
{
    if fields.len() > 0 && fields[0].0@ != key {
        lemma_field_index_bounds(fields.drop_first(), key);
        match field_index(fields.drop_first(), key) {
            Some(j) => { assert(fields.drop_first()[j] == fields[j + 1]); },
            None => {},
        }
    }
}

pub proof fn lemma_field_index_scan(fields: Seq<(String, Json)>, key: Seq<char>, i: int)
    requires
        0 <= i <= fields.len(),
        forall|k: int| 0 <= k < i ==> #[trigger] fields[k].0@ != key,
    ensures
        field_index(fields, key) == (if i < fields.len() && fields[i].0@ == key { Some(i) } else {
            match field_index(fields.subrange(i, fields.len() as int), key) {
                Some(j) => Some(j + i),
                None => None,
            }
        }),
    decreases i,
{
    if i == 0 {
        assert(fields.subrange(0, fields.len() as int) =~= fields);
        if fields.len() > 0 && fields[0].0@ == key {
        } else {
            match field_index(fields, key) {
                Some(j) => {},
                None => {},
            }
        }
    } else {
        let rest = fields.drop_first();
        assert forall|k: int| 0 <= k < i - 1 implies #[trigger] rest[k].0@ != key by {
            assert(rest[k] == fields[k + 1]);
        }
        lemma_field_index_scan(rest, key, i - 1);
        assert(rest.subrange(i - 1, rest.len() as int) =~= fields.subrange(i, fields.len() as int));
        assert(fields[0].0@ != key);
        if i < fields.len() {
            assert(rest[i - 1] == fields[i]);
        }
    }
}

impl Json {
    /// `value.get(key)`: the field of an object.
    pub fn get(&self, key: &str) -> (r: Option<&Json>)
        ensures
            match r {
                Some(v) => json_get(*self, key@) == Some(*v),
                None => json_get(*self, key@) is None,
            },
    {
        match self {
            Json::Object(fields) => {
                let kv = chars_of(key);
                let mut i: usize = 0;
                while i < fields.len()
                    invariant
                        i <= fields.len(),
                        kv@ == key@,
                        *self == Json::Object(*fields),
                        forall|k: int| 0 <= k < i ==> #[trigger] fields@[k].0@ != key@,
                    decreases fields.len() - i,
                {
                    let name = chars_of(fields[i].0.as_str());
                    if seq_eq(&name, &kv) {
                        proof {
                            assert(fields@[i as int].0@ == key@);
                            lemma_field_index_scan(fields@, key@, i as int);
                            assert(field_index(fields@, key@) == Some(i as int));
                            assert(json_get(*self, key@) == Some(fields@[i as int].1));
                        }
                        return Some(&fields[i].1);
                    }
                    i = i + 1;
                }
                proof {
                    lemma_field_index_scan(fields@, key@, i as int);
                    assert(fields@.subrange(i as int, fields@.len() as int) =~= Seq::<(String, Json)>::empty());
                }
                None
            },
            _ => None,
        }
    }

    /// The text of a string value.
    pub fn as_str(&self) -> (r: Option<&String>)
        ensures
            match r {
                Some(s) => json_str(Some(*self)) == Some(s@),
                None => json_str(Some(*self)) is None,
            },
    {
        match self {
            Json::Str(s) => Some(s),
            _ => None,
        }
    }

    /// The boolean of a `true`/`false` value.
    pub fn as_bool(&self) -> (r: Option<bool>)
        ensures
            r == json_bool(Some(*self)),
    {
        match self {
            Json::Bool(b) => Some(*b),
            _ => None,
        }
    }

    /// The elements of an array value.
    pub fn as_array(&self) -> (r: Option<&Vec<Json>>)
        ensures
            match r {
                Some(v) => json_array(Some(*self)) == Some(v@),
                None => json_array(Some(*self)) is None,
            },
    {
        match self {
            Json::Array(items) => Some(items),
            _ => None,
        }
    }

    /// The integer of a number that fits an `i64`.
    pub fn as_i64(&self) -> (r: Option<i64>)
        ensures
            match r {
                Some(n) => json_i64(Some(*self)) == Some(n as int),
                None => json_i64(Some(*self)) is None,
            },
    {
        match self {
            Json::Number(JsonNumber::Int(n)) => Some(*n),
            Json::Number(JsonNumber::UInt(n)) => if *n <= i64::MAX as u64 { Some(*n as i64) } else { None },
            _ => None,
        }
    }

    /// The integer of a number that fits a `u64`.
    pub fn as_u64(&self) -> (r: Option<u64>)
        ensures
            match r {
                Some(n) => json_u64(Some(*self)) == Some(n as nat),
                None => json_u64(Some(*self)) is None,
            },
    {
        match self {
            Json::Number(JsonNumber::Int(n)) => if *n >= 0 { Some(*n as u64) } else { None },
            Json::Number(JsonNumber::UInt(n)) => Some(*n),
            _ => None,
        }
    }

    /// `value[key]` when it is a string.
    pub fn str_field(&self, key: &str) -> (r: Option<&String>)
        ensures
            match r {
                Some(s) => str_field(*self, key@) == Some(s@),
                None => str_field(*self, key@) is None,
            },
    {
        match self.get(key) {
            Some(v) => v.as_str(),
            None => None,
        }
    }
}

/// Whether `text` is JSON (`serde_json` reads it), and if so whether it is an array.
pub uninterp spec fn json_text_is_array(text: Seq<char>) -> Option<bool>;

/// `serde_json::from_str::<serde_json::Value>(text)`, told apart as not JSON, an array,
/// or another value. The result is named: it depends on `text` alone.
#[verifier::external_body]
pub(crate) fn json_array_check(text: &str) -> (r: Option<bool>)
    ensures
        r == json_text_is_array(text@),
{
    serde_json::from_str::<serde_json::Value>(text).ok().map(|v| v.is_array())
}

/// A JSON value as mathematics sees it: text as character sequences.
pub enum JsonView {
    Null,
    Bool(bool),
    Int(int),
    UInt(nat),
    Float(Seq<char>),
    Str(Seq<char>),
    Array(Seq<JsonView>),
    Object(Seq<(Seq<char>, JsonView)>),
}

/// The view of a value.
pub open spec fn jview(v: Json) -> JsonView
    decreases v, 0int,
{
    match v {
        Json::Null => JsonView::Null,
        Json::Bool(b) => JsonView::Bool(b),
        Json::Number(JsonNumber::Int(i)) => JsonView::Int(i as int),
        Json::Number(JsonNumber::UInt(u)) => JsonView::UInt(u as nat),
        Json::Number(JsonNumber::Float(t)) => JsonView::Float(t@),
        Json::Str(t) => JsonView::Str(t@),
        Json::Array(items) => {
            proof { assert(decreases_to!(v => items)); assert(decreases_to!(items => items@)); }
            JsonView::Array(jviews(items@, items@.len() as int))
        },
        Json::Object(fields) => {
            proof { assert(decreases_to!(v => fields)); assert(decreases_to!(fields => fields@)); }
            JsonView::Object(jfields(fields@, fields@.len() as int))
        },
    }
}

/// The views of the first `n` items.
pub open spec fn jviews(items: Seq<Json>, n: int) -> Seq<JsonView>
    decreases items, n,
{
    if n <= 0 || n > items.len() {
        Seq::empty()
    } else {
        jviews(items, n - 1).push(jview(items[n - 1]))
    }
}

/// The views of the first `n` fields.
pub open spec fn jfields(fields: Seq<(String, Json)>, n: int) -> Seq<(Seq<char>, JsonView)>
    decreases fields, n,
{
    if n <= 0 || n > fields.len() {
        Seq::empty()
    } else {
        proof { assert(decreases_to!(fields => fields[n - 1])); assert(decreases_to!(fields[n - 1] => fields[n - 1].1)); }
        jfields(fields, n - 1).push((fields[n - 1].0@, jview(fields[n - 1].1)))
    }
}

pub proof fn lemma_jviews_prefix(a: Seq<Json>, b: Seq<Json>, n: int)
    requires
        0 <= n <= a.len(),
        n <= b.len(),
        forall|k: int| 0 <= k < n ==> jview(#[trigger] a[k]) == jview(b[k]),
    ensures
        jviews(a, n) == jviews(b, n),
    decreases n,
{
    if n > 0 {
        lemma_jviews_prefix(a, b, n - 1);
    }
}

pub proof fn lemma_jfields_prefix(a: Seq<(String, Json)>, b: Seq<(String, Json)>, n: int)
    requires
        0 <= n <= a.len(),
        n <= b.len(),
        forall|k: int| 0 <= k < n ==> (#[trigger] a[k]).0@ == b[k].0@ && jview(a[k].1) == jview(b[k].1),
    ensures
        jfields(a, n) == jfields(b, n),
    decreases n,
{
    if n > 0 {
        lemma_jfields_prefix(a, b, n - 1);
    }
}

/// The views of a prefix, item by item.
pub proof fn lemma_jviews_index(items: Seq<Json>, n: int)
    requires
        0 <= n <= items.len(),
    ensures
        jviews(items, n).len() == n,
        forall|k: int| 0 <= k < n ==> #[trigger] jviews(items, n)[k] == jview(items[k]),
    decreases n,
{
    if n > 0 {
        lemma_jviews_index(items, n - 1);
    }
}

/// Appends a field to an object under construction; its view grows by that field.
pub fn push_field(fields: &mut Vec<(String, Json)>, key: &str, value: Json)
    ensures
        final(fields)@.len() == old(fields)@.len() + 1,
        jfields(final(fields)@, final(fields)@.len() as int)
            == jfields(old(fields)@, old(fields)@.len() as int).push((key@, jview(value))),
{
    let ghost before = fields@;
    let ghost v = value;
    fields.push((key.to_string(), value));
    proof {
        let after = fields@;
        assert forall|k: int| 0 <= k < before.len() implies (#[trigger] after[k]).0@ == before[k].0@ && jview(after[k].1) == jview(before[k].1) by {
            assert(after[k] == before[k]);
        }
        lemma_jfields_prefix(after, before, before.len() as int);
        assert(after[before.len() as int].1 == v);
    }
}

fn clone_number(n: &JsonNumber) -> (r: JsonNumber)
    ensures
        r == *n,
{
    match n {
        JsonNumber::Int(i) => JsonNumber::Int(*i),
        JsonNumber::UInt(u) => JsonNumber::UInt(*u),
        JsonNumber::Float(t) => JsonNumber::Float(t.clone()),
    }
}

impl Json {
    /// A copy of the value.
    pub fn deep_clone(&self) -> (r: Json)
        ensures
            jview(r) == jview(*self),
        decreases *self,
    {
        match self {
            Json::Null => Json::Null,
            Json::Bool(b) => Json::Bool(*b),
            Json::Number(n) => Json::Number(clone_number(n)),
            Json::Str(t) => Json::Str(t.clone()),
            Json::Array(items) => {
                let mut out: Vec<Json> = Vec::new();
                let mut i: usize = 0;
                while i < items.len()
                    invariant
                        i <= items.len(),
                        out@.len() == i,
                        forall|k: int| 0 <= k < i ==> jview(#[trigger] out@[k]) == jview(items@[k]),
                        decreases_to!(*self => items),
                    decreases items.len() - i,
                {
                    proof {
                        assert(decreases_to!(items => items@));
                        assert(decreases_to!(items@ => items@[i as int]));
                    }
                    let c = items[i].deep_clone();
                    out.push(c);
                    i = i + 1;
                }
                proof { lemma_jviews_prefix(out@, items@, items@.len() as int); }
                Json::Array(out)
            },
            Json::Object(fields) => {
                let mut out: Vec<(String, Json)> = Vec::new();
                let mut i: usize = 0;
                while i < fields.len()
                    invariant
                        i <= fields.len(),
                        out@.len() == i,
                        forall|k: int| 0 <= k < i ==> (#[trigger] out@[k]).0@ == fields@[k].0@ && jview(out@[k].1) == jview(fields@[k].1),
                        decreases_to!(*self => fields),
                    decreases fields.len() - i,
                {
                    proof {
                        assert(decreases_to!(fields => fields@));
                        assert(decreases_to!(fields@ => fields@[i as int]));
                        assert(decreases_to!(fields@[i as int] => fields@[i as int].1));
                    }
                    let c = fields[i].1.deep_clone();
                    out.push((fields[i].0.clone(), c));
                    i = i + 1;
                }
                proof { lemma_jfields_prefix(out@, fields@, fields@.len() as int); }
                Json::Object(out)
            },
        }
    }
}

} // verus!
