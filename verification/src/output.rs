//! Rendering values for the terminal: compact JSON text, CSV and TSV, a table, YAML,
//! and identifiers only. Pretty-printed JSON is written by the program itself.

use vstd::prelude::*;
use crate::cli::OutputFormat;
use crate::hexcodec::{hex_digit, nibble_char};
use crate::json::{jview, jviews, jfields, lemma_jviews_index, Json, JsonNumber, JsonView};
use crate::strings::{
    decimal, join, join_strings, push_decimal, push_signed_decimal, signed_decimal, str_eq, trim_end, trimmed_end, views,
};
use crate::width::{capped, display_width, text_width, truncate_display, truncated};

verus! {

broadcast use vstd::string::group_string_axioms;

/// How a character stands inside a JSON string: quote, backslash and the C0 controls
/// are escaped, the common ones by letter and the others as `\u00xx`.
pub open spec fn escaped_char(c: char) -> Seq<char> {
    if c == '"' {
        seq!['\\', '"']
    } else if c == '\\' {
        seq!['\\', '\\']
    } else if c == '\u{8}' {
        seq!['\\', 'b']
    } else if c == '\u{c}' {
        seq!['\\', 'f']
    } else if c == '\n' {
        seq!['\\', 'n']
    } else if c == '\r' {
        seq!['\\', 'r']
    } else if c == '\t' {
        seq!['\\', 't']
    } else if (c < ' ') {
        seq!['\\', 'u', '0', '0', hex_digit((c as nat) / 16), hex_digit((c as nat) % 16)]
    } else {
        seq![c]
    }
}

/// The escaped characters of a text.
pub open spec fn escaped(s: Seq<char>) -> Seq<char>
    decreases s.len(),
{
    if s.len() == 0 {
        Seq::empty()
    } else {
        escaped(s.drop_last()) + escaped_char(s.last())
    }
}

/// A text as a JSON string literal.
pub open spec fn quoted(s: Seq<char>) -> Seq<char> {
    seq!['"'] + escaped(s) + seq!['"']
}

/// Compact JSON text of a value: no spaces, fields in their order.
pub open spec fn json_text(v: JsonView) -> Seq<char>
    decreases v, 0int,
{
    match v {
        JsonView::Null => seq!['n', 'u', 'l', 'l'],
        JsonView::Bool(b) => if b { seq!['t', 'r', 'u', 'e'] } else { seq!['f', 'a', 'l', 's', 'e'] },
        JsonView::Int(n) => signed_decimal(n),
        JsonView::UInt(n) => decimal(n),
        JsonView::Float(t) => t,
        JsonView::Str(s) => quoted(s),
        JsonView::Array(items) => seq!['['] + items_text(items, items.len() as int) + seq![']'],
        JsonView::Object(fields) => seq!['{'] + fields_text(fields, fields.len() as int) + seq!['}'],
    }
}

/// The first `n` items, comma-separated.
pub open spec fn items_text(items: Seq<JsonView>, n: int) -> Seq<char>
    decreases items, n,
{
    if n <= 0 || n > items.len() {
        Seq::empty()
    } else if n == 1 {
        json_text(items[0])
    } else {
        items_text(items, n - 1) + seq![','] + json_text(items[n - 1])
    }
}

/// The first `n` fields as `"key":value`, comma-separated.
pub open spec fn fields_text(fields: Seq<(Seq<char>, JsonView)>, n: int) -> Seq<char>
    decreases fields, n,
{
    if n <= 0 || n > fields.len() {
        Seq::empty()
    } else {
        proof { assert(decreases_to!(fields => fields[n - 1])); }
        let field = quoted(fields[n - 1].0) + seq![':'] + json_text(fields[n - 1].1);
        if n == 1 { field } else { fields_text(fields, n - 1) + seq![','] + field }
    }
}

fn push_escaped_char(out: &mut String, c: char)
    ensures
        final(out)@ == old(out)@ + escaped_char(c),
{
    let ghost before = out@;
    if c == '"' {
        out.push('\\');
        out.push('"');
    } else if c == '\\' {
        out.push('\\');
        out.push('\\');
    } else if c == '\u{8}' {
        out.push('\\');
        out.push('b');
    } else if c == '\u{c}' {
        out.push('\\');
        out.push('f');
    } else if c == '\n' {
        out.push('\\');
        out.push('n');
    } else if c == '\r' {
        out.push('\\');
        out.push('r');
    } else if c == '\t' {
        out.push('\\');
        out.push('t');
    } else if (c < ' ') {
        let code = c as u32;
        proof { assert(code < 32); }
        let byte = code as u8;
        out.push('\\');
        out.push('u');
        out.push('0');
        out.push('0');
        out.push(nibble_char(byte / 16));
        out.push(nibble_char(byte % 16));
        proof { assert(byte as nat == c as nat); }
    } else {
        out.push(c);
    }
    proof { assert(out@ =~= before + escaped_char(c)); }
}

/// Appends `s` as a JSON string literal.
pub fn push_quoted(out: &mut String, s: &str)
    ensures
        final(out)@ == old(out)@ + quoted(s@),
{
    let ghost before = out@;
    let v = crate::strings::chars_of(s);
    out.push('"');
    let mut i: usize = 0;
    while i < v.len()
        invariant
            i <= v.len(),
            v@ == s@,
            out@ == before + seq!['"'] + escaped(s@.take(i as int)),
        decreases v.len() - i,
    {
        proof {
            assert(s@.take(i + 1).drop_last() =~= s@.take(i as int));
            assert(s@.take(i + 1).last() == v@[i as int]);
        }
        push_escaped_char(out, v[i]);
        proof {
            assert(out@ =~= before + seq!['"'] + escaped(s@.take(i + 1)));
        }
        i = i + 1;
    }
    out.push('"');
    proof {
        assert(s@.take(v.len() as int) =~= s@);
        assert(out@ =~= before + quoted(s@));
    }
}

proof fn lemma_items_text_prefix(a: Seq<JsonView>, b: Seq<JsonView>, n: int)
    requires
        0 <= n <= a.len(),
        n <= b.len(),
        forall|k: int| 0 <= k < n ==> #[trigger] a[k] == b[k],
    ensures
        items_text(a, n) == items_text(b, n),
    decreases n,
{
    if n > 1 {
        lemma_items_text_prefix(a, b, n - 1);
    }
}

proof fn lemma_fields_text_prefix(a: Seq<(Seq<char>, JsonView)>, b: Seq<(Seq<char>, JsonView)>, n: int)
    requires
        0 <= n <= a.len(),
        n <= b.len(),
        forall|k: int| 0 <= k < n ==> #[trigger] a[k] == b[k],
    ensures
        fields_text(a, n) == fields_text(b, n),
    decreases n,
{
    if n > 1 {
        lemma_fields_text_prefix(a, b, n - 1);
    }
}

proof fn lemma_jfields_index(fields: Seq<(String, Json)>, n: int)
    requires
        0 <= n <= fields.len(),
    ensures
        jfields(fields, n).len() == n,
        forall|k: int| 0 <= k < n ==> #[trigger] jfields(fields, n)[k] == (fields[k].0@, jview(fields[k].1)),
    decreases n,
{
    if n > 0 {
        lemma_jfields_index(fields, n - 1);
    }
}

/// Appends the compact JSON text of `v`.
pub fn write_json(v: &Json, out: &mut String)
    ensures
        final(out)@ == old(out)@ + json_text(jview(*v)),
    decreases *v,
{
    let ghost before = out@;
    match v {
        Json::Null => {
            out.push_str("null");
            proof { reveal_strlit("null"); assert(out@ =~= before + json_text(jview(*v))); }
        },
        Json::Bool(b) => {
            if *b {
                out.push_str("true");
                proof { reveal_strlit("true"); assert(out@ =~= before + json_text(jview(*v))); }
            } else {
                out.push_str("false");
                proof { reveal_strlit("false"); assert(out@ =~= before + json_text(jview(*v))); }
            }
        },
        Json::Number(JsonNumber::Int(n)) => push_signed_decimal(out, *n),
        Json::Number(JsonNumber::UInt(n)) => push_decimal(out, *n),
        Json::Number(JsonNumber::Float(t)) => out.push_str(t.as_str()),
        Json::Str(s) => push_quoted(out, s.as_str()),
        Json::Array(items) => {
            let ghost views = jviews(items@, items@.len() as int);
            proof { lemma_jviews_index(items@, items@.len() as int); }
            out.push('[');
            let mut i: usize = 0;
            while i < items.len()
                invariant
                    i <= items.len(),
                    views == jviews(items@, items@.len() as int),
                    views.len() == items@.len(),
                    forall|k: int| 0 <= k < items@.len() ==> #[trigger] views[k] == jview(items@[k]),
                    out@ == before + seq!['['] + items_text(views, i as int),
                    decreases_to!(*v => items),
                decreases items.len() - i,
            {
                proof {
                    assert(decreases_to!(items => items@));
                    assert(decreases_to!(items@ => items@[i as int]));
                }
                if i > 0 {
                    out.push(',');
                }
                write_json(&items[i], out);
                proof {
                    assert(out@ =~= before + seq!['['] + items_text(views, i + 1));
                }
                i = i + 1;
            }
            out.push(']');
            proof { assert(out@ =~= before + json_text(jview(*v))); }
        },
        Json::Object(fields) => {
            let ghost views = jfields(fields@, fields@.len() as int);
            proof { lemma_jfields_index(fields@, fields@.len() as int); }
            out.push('{');
            let mut i: usize = 0;
            while i < fields.len()
                invariant
                    i <= fields.len(),
                    views == jfields(fields@, fields@.len() as int),
                    views.len() == fields@.len(),
                    forall|k: int| 0 <= k < fields@.len() ==> #[trigger] views[k] == (fields@[k].0@, jview(fields@[k].1)),
                    out@ == before + seq!['{'] + fields_text(views, i as int),
                    decreases_to!(*v => fields),
                decreases fields.len() - i,
            {
                proof {
                    assert(decreases_to!(fields => fields@));
                    assert(decreases_to!(fields@ => fields@[i as int]));
                    assert(decreases_to!(fields@[i as int] => fields@[i as int].1));
                }
                if i > 0 {
                    out.push(',');
                }
                push_quoted(out, fields[i].0.as_str());
                out.push(':');
                write_json(&fields[i].1, out);
                proof {
                    assert(views[i as int] == (fields@[i as int].0@, jview(fields@[i as int].1)));
                    assert(out@ =~= before + seq!['{'] + fields_text(views, i + 1));
                }
                i = i + 1;
            }
            out.push('}');
            proof { assert(out@ =~= before + json_text(jview(*v))); }
        },
    }
}

/// The compact JSON text of a value.
pub fn json_string(v: &Json) -> (r: String)
    ensures
        r@ == json_text(jview(*v)),
{
    let mut out = String::new();
    write_json(v, &mut out);
    proof { assert(out@ =~= json_text(jview(*v))); }
    out
}

/// The text of a value in a cell or a field: nothing for null, a string as it is,
/// anything else as compact JSON.
pub open spec fn cell_text(v: JsonView) -> Seq<char> {
    match v {
        JsonView::Null => Seq::empty(),
        JsonView::Str(s) => s,
        _ => json_text(v),
    }
}

pub fn cell_string(v: &Json) -> (r: String)
    ensures
        r@ == cell_text(jview(*v)),
{
    match v {
        Json::Null => String::new(),
        Json::Str(s) => s.clone(),
        _ => json_string(v),
    }
}

/// The records of a value: the items of an array, or the value itself.
pub open spec fn records(v: JsonView) -> Seq<JsonView> {
    match v {
        JsonView::Array(items) => items,
        _ => seq![v],
    }
}

/// The value of the first field named `key`.
pub open spec fn view_field(fields: Seq<(Seq<char>, JsonView)>, key: Seq<char>) -> Option<JsonView>
    decreases fields.len(),
{
    if fields.len() == 0 {
        None
    } else if fields[0].0 == key {
        Some(fields[0].1)
    } else {
        view_field(fields.drop_first(), key)
    }
}

/// `cols` with the keys of `fields` added, each key once, in order.
pub open spec fn with_keys(cols: Seq<Seq<char>>, fields: Seq<(Seq<char>, JsonView)>) -> Seq<Seq<char>>
    decreases fields.len(),
{
    if fields.len() == 0 {
        cols
    } else {
        let c = with_keys(cols, fields.drop_last());
        if c.contains(fields.last().0) { c } else { c.push(fields.last().0) }
    }
}

/// The columns of a list of records: the keys of the objects among them, each once, in
/// order of first appearance.
pub open spec fn columns(rows: Seq<JsonView>) -> Seq<Seq<char>>
    decreases rows.len(),
{
    if rows.len() == 0 {
        Seq::empty()
    } else {
        let c = columns(rows.drop_last());
        match rows.last() {
            JsonView::Object(fields) => with_keys(c, fields),
            _ => c,
        }
    }
}

/// The text of a record in a column; empty when the record has no such field.
pub open spec fn cell_value(row: JsonView, col: Seq<char>) -> Seq<char> {
    match found_cell(row, col) {
        Some(t) => t,
        None => Seq::empty(),
    }
}

fn contains_text(cols: &Vec<String>, key: &str) -> (r: bool)
    ensures
        r == views(cols@).contains(key@),
{
    let mut i: usize = 0;
    while i < cols.len()
        invariant
            i <= cols.len(),
            forall|k: int| 0 <= k < i ==> views(cols@)[k] != key@,
        decreases cols.len() - i,
    {
        proof { assert(views(cols@)[i as int] == cols@[i as int]@); }
        if str_eq(cols[i].as_str(), key) {
            proof { assert(views(cols@)[i as int] == key@); }
            return true;
        }
        i = i + 1;
    }
    false
}

fn add_keys(cols: &mut Vec<String>, fields: &Vec<(String, Json)>)
    ensures
        views(final(cols)@) == with_keys(views(old(cols)@), jfields(fields@, fields@.len() as int)),
{
    let ghost start = views(cols@);
    let ghost fv = jfields(fields@, fields@.len() as int);
    proof { lemma_jfields_index(fields@, fields@.len() as int); }
    let mut i: usize = 0;
    proof { assert(fv.take(0) =~= Seq::<(Seq<char>, JsonView)>::empty()); }
    while i < fields.len()
        invariant
            i <= fields.len(),
            fv == jfields(fields@, fields@.len() as int),
            fv.len() == fields@.len(),
            forall|k: int| 0 <= k < fields@.len() ==> #[trigger] fv[k] == (fields@[k].0@, jview(fields@[k].1)),
            views(cols@) == with_keys(start, fv.take(i as int)),
        decreases fields.len() - i,
    {
        proof {
            assert(fv.take(i + 1).drop_last() =~= fv.take(i as int));
            assert(fv.take(i + 1).last() == fv[i as int]);
        }
        if !contains_text(cols, fields[i].0.as_str()) {
            let ghost before = cols@;
            cols.push(fields[i].0.clone());
            proof { assert(views(cols@) =~= views(before).push(fields@[i as int].0@)); }
        }
        i = i + 1;
    }
    proof { assert(fv.take(fields.len() as int) =~= fv); }
}

/// The columns of `rows`.
pub fn columns_of(rows: &Vec<Json>) -> (r: Vec<String>)
    ensures
        views(r@) == columns(jviews(rows@, rows@.len() as int)),
{
    let ghost rv = jviews(rows@, rows@.len() as int);
    proof { lemma_jviews_index(rows@, rows@.len() as int); }
    let mut cols: Vec<String> = Vec::new();
    let mut i: usize = 0;
    proof { assert(rv.take(0) =~= Seq::<JsonView>::empty()); assert(views(cols@) =~= Seq::<Seq<char>>::empty()); }
    while i < rows.len()
        invariant
            i <= rows.len(),
            rv == jviews(rows@, rows@.len() as int),
            rv.len() == rows@.len(),
            forall|k: int| 0 <= k < rows@.len() ==> #[trigger] rv[k] == jview(rows@[k]),
            views(cols@) == columns(rv.take(i as int)),
        decreases rows.len() - i,
    {
        proof {
            assert(rv.take(i + 1).drop_last() =~= rv.take(i as int));
            assert(rv.take(i + 1).last() == rv[i as int]);
        }
        match &rows[i] {
            Json::Object(fields) => add_keys(&mut cols, fields),
            _ => {},
        }
        i = i + 1;
    }
    proof { assert(rv.take(rows.len() as int) =~= rv); }
    cols
}

/// The text of a record's field, when the record is an object with that field.
pub open spec fn found_cell(row: JsonView, key: Seq<char>) -> Option<Seq<char>> {
    match row {
        JsonView::Object(fields) => match view_field(fields, key) {
            Some(v) => Some(cell_text(v)),
            None => None,
        },
        _ => None,
    }
}

fn find_cell(row: &Json, key: &str) -> (r: Option<String>)
    ensures
        match r {
            Some(t) => found_cell(jview(*row), key@) == Some(t@),
            None => found_cell(jview(*row), key@) is None,
        },
{
    match row {
        Json::Object(fields) => {
            let ghost fv = jfields(fields@, fields@.len() as int);
            proof {
                lemma_jfields_index(fields@, fields@.len() as int);
                assert(fv.skip(0) =~= fv);
                assert(jview(*row) == JsonView::Object(fv));
            }
            let mut k: usize = 0;
            while k < fields.len()
                invariant
                    k <= fields.len(),
                    jview(*row) == JsonView::Object(fv),
                    fv == jfields(fields@, fields@.len() as int),
                    fv.len() == fields@.len(),
                    forall|j: int| 0 <= j < fields@.len() ==> #[trigger] fv[j] == (fields@[j].0@, jview(fields@[j].1)),
                    view_field(fv, key@) == view_field(fv.skip(k as int), key@),
                decreases fields.len() - k,
            {
                proof {
                    assert(fv.skip(k as int)[0] == fv[k as int]);
                    assert(fv.skip(k as int).drop_first() =~= fv.skip(k + 1));
                }
                if str_eq(fields[k].0.as_str(), key) {
                    proof {
                        assert(fv.skip(k as int)[0].0 == key@);
                        assert(view_field(fv, key@) == Some(jview(fields@[k as int].1)));
                    }
                    return Some(cell_string(&fields[k].1));
                }
                k = k + 1;
            }
            proof {
                assert(fv.skip(fields.len() as int) =~= Seq::<(Seq<char>, JsonView)>::empty());
            }
            None
        },
        _ => None,
    }
}

fn cell_of(row: &Json, col: &str) -> (r: String)
    ensures
        r@ == cell_value(jview(*row), col@),
{
    match find_cell(row, col) {
        Some(t) => t,
        None => String::new(),
    }
}

/// Each `"` doubled.
pub open spec fn doubled_quotes(s: Seq<char>) -> Seq<char>
    decreases s.len(),
{
    if s.len() == 0 {
        Seq::empty()
    } else {
        doubled_quotes(s.drop_last()) + (if s.last() == '"' { seq!['"', '"'] } else { seq![s.last()] })
    }
}

/// A CSV field: quoted, with quotes doubled, when it holds a comma, a quote or a
/// newline.
pub open spec fn csv_field(s: Seq<char>) -> Seq<char> {
    if s.contains(',') || s.contains('"') || s.contains('\n') {
        seq!['"'] + doubled_quotes(s) + seq!['"']
    } else {
        s
    }
}

/// A TSV field: tabs and newlines become spaces.
pub open spec fn tsv_field(s: Seq<char>) -> Seq<char> {
    s.map_values(|c: char| if c == '\t' || c == '\n' { ' ' } else { c })
}

/// A field of CSV (`tsv` false) or TSV.
pub open spec fn delimited_field(s: Seq<char>, tsv: bool) -> Seq<char> {
    if tsv { tsv_field(s) } else { csv_field(s) }
}

pub open spec fn separator(tsv: bool) -> Seq<char> {
    if tsv { seq!['\t'] } else { seq![','] }
}

/// The header line: the columns as fields.
pub open spec fn header_line(cols: Seq<Seq<char>>, tsv: bool) -> Seq<char> {
    join(cols.map_values(|c: Seq<char>| delimited_field(c, tsv)), separator(tsv))
}

/// The line of a record: its cells, one per column.
pub open spec fn record_line(row: JsonView, cols: Seq<Seq<char>>, tsv: bool) -> Seq<char> {
    join(cols.map_values(|c: Seq<char>| delimited_field(cell_value(row, c), tsv)), separator(tsv))
}

/// The lines of the first `n` records, each ended by a newline.
pub open spec fn record_lines(rows: Seq<JsonView>, cols: Seq<Seq<char>>, tsv: bool, n: int) -> Seq<char>
    decreases n,
{
    if n <= 0 || n > rows.len() {
        Seq::empty()
    } else {
        record_lines(rows, cols, tsv, n - 1) + record_line(rows[n - 1], cols, tsv) + seq!['\n']
    }
}

/// The first `n` records written whole, one per line, when there are no columns.
pub open spec fn bare_lines(rows: Seq<JsonView>, tsv: bool, n: int) -> Seq<char>
    decreases n,
{
    if n <= 0 || n > rows.len() {
        Seq::empty()
    } else {
        bare_lines(rows, tsv, n - 1) + delimited_field(cell_text(rows[n - 1]), tsv) + seq!['\n']
    }
}

/// CSV or TSV of records: a header of the columns, then a line per record; records
/// without columns are written whole, one per line.
pub open spec fn rows_delimited(rows: Seq<JsonView>, tsv: bool) -> Seq<char> {
    let cols = columns(rows);
    if cols.len() == 0 {
        bare_lines(rows, tsv, rows.len() as int)
    } else {
        header_line(cols, tsv) + seq!['\n'] + record_lines(rows, cols, tsv, rows.len() as int)
    }
}

/// CSV (`tsv` false) or TSV of a value's records.
pub open spec fn delimited_text(v: JsonView, tsv: bool) -> Seq<char> {
    rows_delimited(records(v), tsv)
}

fn has_char(v: &Vec<char>, c: char) -> (r: bool)
    ensures
        r == v@.contains(c),
{
    let mut i: usize = 0;
    while i < v.len()
        invariant
            i <= v.len(),
            forall|k: int| 0 <= k < i ==> v@[k] != c,
        decreases v.len() - i,
    {
        if v[i] == c {
            proof { assert(v@[i as int] == c); }
            return true;
        }
        i = i + 1;
    }
    false
}

fn field_string(s: &str, tsv: bool) -> (r: String)
    ensures
        r@ == delimited_field(s@, tsv),
{
    let v = crate::strings::chars_of(s);
    if tsv {
        let mut out = String::new();
        let mut i: usize = 0;
        while i < v.len()
            invariant
                i <= v.len(),
                v@ == s@,
                out@ == tsv_field(s@).take(i as int),
            decreases v.len() - i,
        {
            let c = v[i];
            if c == '\t' || c == '\n' { out.push(' '); } else { out.push(c); }
            proof { assert(tsv_field(s@).take(i + 1) =~= tsv_field(s@).take(i as int).push(tsv_field(s@)[i as int])); }
            i = i + 1;
        }
        proof { assert(out@ =~= tsv_field(s@)); }
        out
    } else if has_char(&v, ',') || has_char(&v, '"') || has_char(&v, '\n') {
        let mut out = String::new();
        out.push('"');
        let mut i: usize = 0;
        proof { assert(s@.take(0) =~= Seq::<char>::empty()); }
        while i < v.len()
            invariant
                i <= v.len(),
                v@ == s@,
                out@ == seq!['"'] + doubled_quotes(s@.take(i as int)),
            decreases v.len() - i,
        {
            proof {
                assert(s@.take(i + 1).drop_last() =~= s@.take(i as int));
                assert(s@.take(i + 1).last() == v@[i as int]);
            }
            let c = v[i];
            if c == '"' {
                out.push('"');
                out.push('"');
            } else {
                out.push(c);
            }
            proof { assert(out@ =~= seq!['"'] + doubled_quotes(s@.take(i + 1))); }
            i = i + 1;
        }
        out.push('"');
        proof {
            assert(s@.take(v.len() as int) =~= s@);
            assert(out@ =~= seq!['"'] + doubled_quotes(s@) + seq!['"']);
        }
        out
    } else {
        s.to_string()
    }
}

fn separator_str(tsv: bool) -> (r: &'static str)
    ensures
        r@ == separator(tsv),
{
    proof { reveal_strlit("\t"); reveal_strlit(","); }
    if tsv { "\t" } else { "," }
}

fn header_string(cols: &Vec<String>, tsv: bool) -> (r: String)
    ensures
        r@ == header_line(views(cols@), tsv),
{
    let mut parts: Vec<String> = Vec::new();
    let mut i: usize = 0;
    while i < cols.len()
        invariant
            i <= cols.len(),
            views(parts@) == views(cols@).take(i as int).map_values(|c: Seq<char>| delimited_field(c, tsv)),
        decreases cols.len() - i,
    {
        let f = field_string(cols[i].as_str(), tsv);
        let ghost before = parts@;
        let ghost fv = f@;
        parts.push(f);
        proof {
            assert(views(cols@)[i as int] == cols@[i as int]@);
            assert(views(parts@) =~= views(before).push(fv));
            assert(views(cols@).take(i + 1) =~= views(cols@).take(i as int).push(views(cols@)[i as int]));
            assert(views(parts@) =~= views(cols@).take(i + 1).map_values(|c: Seq<char>| delimited_field(c, tsv)));
        }
        i = i + 1;
    }
    proof { assert(views(cols@).take(cols.len() as int) =~= views(cols@)); }
    join_strings(&parts, separator_str(tsv))
}

fn record_line_string(row: &Json, cols: &Vec<String>, tsv: bool) -> (r: String)
    ensures
        r@ == record_line(jview(*row), views(cols@), tsv),
{
    let mut parts: Vec<String> = Vec::new();
    let mut i: usize = 0;
    while i < cols.len()
        invariant
            i <= cols.len(),
            views(parts@) == views(cols@).take(i as int).map_values(|c: Seq<char>| delimited_field(cell_value(jview(*row), c), tsv)),
        decreases cols.len() - i,
    {
        let cell = cell_of(row, cols[i].as_str());
        let f = field_string(cell.as_str(), tsv);
        let ghost before = parts@;
        let ghost fv = f@;
        parts.push(f);
        proof {
            assert(views(cols@)[i as int] == cols@[i as int]@);
            assert(views(parts@) =~= views(before).push(fv));
            assert(views(cols@).take(i + 1) =~= views(cols@).take(i as int).push(views(cols@)[i as int]));
            assert(views(parts@) =~= views(cols@).take(i + 1).map_values(|c: Seq<char>| delimited_field(cell_value(jview(*row), c), tsv)));
        }
        i = i + 1;
    }
    proof { assert(views(cols@).take(cols.len() as int) =~= views(cols@)); }
    join_strings(&parts, separator_str(tsv))
}

fn rows_delimited_string(rows: &Vec<Json>, tsv: bool) -> (r: String)
    ensures
        r@ == rows_delimited(jviews(rows@, rows@.len() as int), tsv),
{
    let ghost rv = jviews(rows@, rows@.len() as int);
    proof { lemma_jviews_index(rows@, rows@.len() as int); }
    let cols = columns_of(rows);
    let mut out = String::new();
    if cols.len() == 0 {
        let mut i: usize = 0;
        while i < rows.len()
            invariant
                i <= rows.len(),
                rv == jviews(rows@, rows@.len() as int),
                rv.len() == rows@.len(),
                forall|k: int| 0 <= k < rows@.len() ==> #[trigger] rv[k] == jview(rows@[k]),
                out@ == bare_lines(rv, tsv, i as int),
            decreases rows.len() - i,
        {
            let cell = cell_string(&rows[i]);
            let f = field_string(cell.as_str(), tsv);
            out.push_str(f.as_str());
            out.push('\n');
            proof { assert(out@ =~= bare_lines(rv, tsv, i + 1)); }
            i = i + 1;
        }
    } else {
        let header = header_string(&cols, tsv);
        out.push_str(header.as_str());
        out.push('\n');
        let ghost head = out@;
        let mut i: usize = 0;
        proof { assert(out@ =~= head + record_lines(rv, views(cols@), tsv, 0)); }
        while i < rows.len()
            invariant
                i <= rows.len(),
                rv == jviews(rows@, rows@.len() as int),
                rv.len() == rows@.len(),
                forall|k: int| 0 <= k < rows@.len() ==> #[trigger] rv[k] == jview(rows@[k]),
                out@ == head + record_lines(rv, views(cols@), tsv, i as int),
            decreases rows.len() - i,
        {
            let line = record_line_string(&rows[i], &cols, tsv);
            out.push_str(line.as_str());
            out.push('\n');
            proof { assert(out@ =~= head + record_lines(rv, views(cols@), tsv, i + 1)); }
            i = i + 1;
        }
    }
    out
}

/// CSV (`tsv` false) or TSV text of a value.
pub fn delimited_string(v: &Json, tsv: bool) -> (r: String)
    ensures
        r@ == delimited_text(jview(*v), tsv),
{
    match v {
        Json::Array(items) => rows_delimited_string(items, tsv),
        _ => {
            let single = vec![v.deep_clone()];
            proof {
                lemma_jviews_index(single@, 1);
                assert(jviews(single@, 1) =~= seq![jview(*v)]);
            }
            rows_delimited_string(&single, tsv)
        },
    }
}

/// The widest a table cell is shown, in columns.
pub const MAX_CELL_WIDTH: usize = 60;

/// Text on one line: tabs and newlines become spaces.
pub open spec fn one_line_text(s: Seq<char>) -> Seq<char> {
    s.map_values(|c: char| if c == '\n' || c == '\t' { ' ' } else { c })
}

/// A cell's text on one line, cut to the cell width with `...`.
pub open spec fn fitted(s: Seq<char>) -> Seq<char> {
    truncated(one_line_text(s), MAX_CELL_WIDTH as nat, "..."@)
}

pub open spec fn spaces(n: nat) -> Seq<char> {
    Seq::new(n, |i: int| ' ')
}

pub open spec fn dashes(n: nat) -> Seq<char> {
    Seq::new(n, |i: int| '-')
}

/// `s` followed by spaces up to `to` columns.
pub open spec fn padded(s: Seq<char>, to: nat) -> Seq<char> {
    if capped(text_width(s)) < to { s + spaces((to - capped(text_width(s))) as nat) } else { s }
}

fn fit_string(s: &str) -> (r: String)
    ensures
        r@ == fitted(s@),
{
    let v = crate::strings::chars_of(s);
    let mut line = String::new();
    let mut i: usize = 0;
    while i < v.len()
        invariant
            i <= v.len(),
            v@ == s@,
            line@ == one_line_text(s@).take(i as int),
        decreases v.len() - i,
    {
        let c = v[i];
        if c == '\n' || c == '\t' { line.push(' '); } else { line.push(c); }
        proof { assert(one_line_text(s@).take(i + 1) =~= one_line_text(s@).take(i as int).push(one_line_text(s@)[i as int])); }
        i = i + 1;
    }
    proof { assert(line@ =~= one_line_text(s@)); }
    truncate_display(line.as_str(), MAX_CELL_WIDTH, "...")
}

fn repeat_char(c: char, n: usize) -> (r: String)
    ensures
        r@ == Seq::new(n as nat, |i: int| c),
{
    let mut r = String::new();
    let mut k: usize = 0;
    while k < n
        invariant
            k <= n,
            r@ == Seq::new(k as nat, |i: int| c),
        decreases n - k,
    {
        r.push(c);
        proof { assert(r@ =~= Seq::new((k + 1) as nat, |i: int| c)); }
        k = k + 1;
    }
    r
}

fn pad_string(s: String, to: usize) -> (r: String)
    ensures
        r@ == padded(s@, to as nat),
{
    let w = display_width(s.as_str());
    if w < to {
        let fill = repeat_char(' ', to - w);
        let mut r = s;
        r.push_str(fill.as_str());
        proof { assert(fill@ =~= spaces((to - w) as nat)); }
        r
    } else {
        s
    }
}

/// The width of the widest key.
pub open spec fn key_width(fields: Seq<(Seq<char>, JsonView)>) -> nat
    decreases fields.len(),
{
    if fields.len() == 0 {
        0
    } else {
        let a = key_width(fields.drop_last());
        let b = capped(text_width(fields.last().0));
        if a < b { b } else { a }
    }
}

/// The first `n` fields, each on a line: the key padded to `w`, two spaces, the value.
pub open spec fn object_lines(fields: Seq<(Seq<char>, JsonView)>, w: nat, n: int) -> Seq<char>
    decreases n,
{
    if n <= 0 || n > fields.len() {
        Seq::empty()
    } else {
        object_lines(fields, w, n - 1) + padded(fields[n - 1].0, w) + seq![' ', ' ']
            + fitted(cell_text(fields[n - 1].1)) + seq!['\n']
    }
}

/// The first `n` records without columns, each on a line.
pub open spec fn scalar_lines(rows: Seq<JsonView>, n: int) -> Seq<char>
    decreases n,
{
    if n <= 0 || n > rows.len() {
        Seq::empty()
    } else {
        scalar_lines(rows, n - 1) + fitted(cell_text(rows[n - 1])) + seq!['\n']
    }
}

/// The width of a column over the first `n` records: its header or its widest cell.
pub open spec fn column_width(rows: Seq<JsonView>, col: Seq<char>, n: int) -> nat
    decreases n,
{
    if n <= 0 || n > rows.len() {
        capped(text_width(col))
    } else {
        let a = column_width(rows, col, n - 1);
        let b = capped(text_width(fitted(cell_value(rows[n - 1], col))));
        if a < b { b } else { a }
    }
}

pub open spec fn column_widths(rows: Seq<JsonView>, cols: Seq<Seq<char>>) -> Seq<nat> {
    cols.map_values(|c: Seq<char>| column_width(rows, c, rows.len() as int))
}

/// The header: the columns padded to their widths, two spaces apart, without trailing
/// blanks.
pub open spec fn header_row(cols: Seq<Seq<char>>, ws: Seq<nat>) -> Seq<char> {
    trim_end(join(Seq::new(cols.len(), |i: int| padded(cols[i], ws[i])), "  "@))
}

/// The rule under the header: dashes as wide as each column.
pub open spec fn rule_row(ws: Seq<nat>) -> Seq<char> {
    join(ws.map_values(|w: nat| dashes(w)), "  "@)
}

/// A record's line: its cells padded to the column widths, without trailing blanks.
pub open spec fn table_row(row: JsonView, cols: Seq<Seq<char>>, ws: Seq<nat>) -> Seq<char> {
    trim_end(join(Seq::new(cols.len(), |i: int| padded(fitted(cell_value(row, cols[i])), ws[i])), "  "@))
}

pub open spec fn table_rows(rows: Seq<JsonView>, cols: Seq<Seq<char>>, ws: Seq<nat>, n: int) -> Seq<char>
    decreases n,
{
    if n <= 0 || n > rows.len() {
        Seq::empty()
    } else {
        table_rows(rows, cols, ws, n - 1) + table_row(rows[n - 1], cols, ws) + seq!['\n']
    }
}

/// A value as a table: an object as key/value lines; a list of records as a header, a
/// rule and a line per record (one record per line when they have no columns); any
/// other value as its text.
pub open spec fn table_text(v: JsonView) -> Seq<char> {
    match v {
        JsonView::Object(fields) => object_lines(fields, key_width(fields), fields.len() as int),
        JsonView::Array(items) => {
            let cols = columns(items);
            if cols.len() == 0 {
                scalar_lines(items, items.len() as int)
            } else {
                let ws = column_widths(items, cols);
                header_row(cols, ws) + seq!['\n'] + rule_row(ws) + seq!['\n'] + table_rows(items, cols, ws, items.len() as int)
            }
        },
        _ => cell_text(v) + seq!['\n'],
    }
}

fn object_table(fields: &Vec<(String, Json)>) -> (r: String)
    ensures
        ({
            let fv = jfields(fields@, fields@.len() as int);
            r@ == object_lines(fv, key_width(fv), fv.len() as int)
        }),
{
    let ghost fv = jfields(fields@, fields@.len() as int);
    proof { lemma_jfields_index(fields@, fields@.len() as int); }
    let mut w: usize = 0;
    let mut i: usize = 0;
    proof { assert(fv.take(0) =~= Seq::<(Seq<char>, JsonView)>::empty()); }
    while i < fields.len()
        invariant
            i <= fields.len(),
            fv == jfields(fields@, fields@.len() as int),
            fv.len() == fields@.len(),
            forall|k: int| 0 <= k < fields@.len() ==> #[trigger] fv[k] == (fields@[k].0@, jview(fields@[k].1)),
            w as nat == key_width(fv.take(i as int)),
        decreases fields.len() - i,
    {
        proof {
            assert(fv.take(i + 1).drop_last() =~= fv.take(i as int));
            assert(fv.take(i + 1).last() == fv[i as int]);
        }
        let kw = display_width(fields[i].0.as_str());
        if w < kw {
            w = kw;
        }
        i = i + 1;
    }
    proof { assert(fv.take(fields.len() as int) =~= fv); }
    let mut out = String::new();
    let mut k: usize = 0;
    while k < fields.len()
        invariant
            k <= fields.len(),
            fv == jfields(fields@, fields@.len() as int),
            fv.len() == fields@.len(),
            forall|j: int| 0 <= j < fields@.len() ==> #[trigger] fv[j] == (fields@[j].0@, jview(fields@[j].1)),
            w as nat == key_width(fv),
            out@ == object_lines(fv, w as nat, k as int),
        decreases fields.len() - k,
    {
        let key = pad_string(fields[k].0.clone(), w);
        let cell = cell_string(&fields[k].1);
        let value = fit_string(cell.as_str());
        out.push_str(key.as_str());
        out.push_str("  ");
        out.push_str(value.as_str());
        out.push('\n');
        proof {
            reveal_strlit("  ");
            assert(out@ =~= object_lines(fv, w as nat, k + 1));
        }
        k = k + 1;
    }
    out
}

fn cells_line(row: &Json, cols: &Vec<String>, ws: &Vec<usize>) -> (r: String)
    requires
        ws@.len() == cols@.len(),
    ensures
        r@ == table_row(jview(*row), views(cols@), ws@.map_values(|w: usize| w as nat)),
{
    let ghost wn = ws@.map_values(|w: usize| w as nat);
    let ghost f = |i: int| padded(fitted(cell_value(jview(*row), views(cols@)[i])), wn[i]);
    let mut parts: Vec<String> = Vec::new();
    let mut i: usize = 0;
    while i < cols.len()
        invariant
            i <= cols.len(),
            ws@.len() == cols@.len(),
            wn == ws@.map_values(|w: usize| w as nat),
            f == (|i: int| padded(fitted(cell_value(jview(*row), views(cols@)[i])), wn[i])),
            parts@.len() == i,
            forall|j: int| 0 <= j < i ==> #[trigger] parts@[j]@ == f(j),
        decreases cols.len() - i,
    {
        let cell = cell_of(row, cols[i].as_str());
        let fit = fit_string(cell.as_str());
        let p = pad_string(fit, ws[i]);
        proof { assert(views(cols@)[i as int] == cols@[i as int]@); assert(wn[i as int] == ws@[i as int] as nat); }
        parts.push(p);
        i = i + 1;
    }
    proof { assert(views(parts@) =~= Seq::new(cols@.len(), f)); }
    let joined = join_strings(&parts, "  ");
    trimmed_end(joined.as_str())
}

fn header_string_table(cols: &Vec<String>, ws: &Vec<usize>) -> (r: String)
    requires
        ws@.len() == cols@.len(),
    ensures
        r@ == header_row(views(cols@), ws@.map_values(|w: usize| w as nat)),
{
    let ghost wn = ws@.map_values(|w: usize| w as nat);
    let ghost f = |i: int| padded(views(cols@)[i], wn[i]);
    let mut parts: Vec<String> = Vec::new();
    let mut i: usize = 0;
    while i < cols.len()
        invariant
            i <= cols.len(),
            ws@.len() == cols@.len(),
            wn == ws@.map_values(|w: usize| w as nat),
            f == (|i: int| padded(views(cols@)[i], wn[i])),
            parts@.len() == i,
            forall|j: int| 0 <= j < i ==> #[trigger] parts@[j]@ == f(j),
        decreases cols.len() - i,
    {
        let p = pad_string(cols[i].clone(), ws[i]);
        proof { assert(views(cols@)[i as int] == cols@[i as int]@); assert(wn[i as int] == ws@[i as int] as nat); }
        parts.push(p);
        i = i + 1;
    }
    proof { assert(views(parts@) =~= Seq::new(cols@.len(), f)); }
    let joined = join_strings(&parts, "  ");
    trimmed_end(joined.as_str())
}

fn rule_string(ws: &Vec<usize>) -> (r: String)
    ensures
        r@ == rule_row(ws@.map_values(|w: usize| w as nat)),
{
    let ghost wn = ws@.map_values(|w: usize| w as nat);
    let mut parts: Vec<String> = Vec::new();
    let mut i: usize = 0;
    while i < ws.len()
        invariant
            i <= ws.len(),
            wn == ws@.map_values(|w: usize| w as nat),
            parts@.len() == i,
            forall|j: int| 0 <= j < i ==> #[trigger] parts@[j]@ == dashes(wn[j]),
        decreases ws.len() - i,
    {
        let p = repeat_char('-', ws[i]);
        proof { assert(p@ =~= dashes(wn[i as int])); }
        parts.push(p);
        i = i + 1;
    }
    proof { assert(views(parts@) =~= wn.map_values(|w: nat| dashes(w))); }
    join_strings(&parts, "  ")
}

fn column_width_of(rows: &Vec<Json>, col: &str) -> (r: usize)
    ensures
        r as nat == column_width(jviews(rows@, rows@.len() as int), col@, rows@.len() as int),
{
    let ghost rv = jviews(rows@, rows@.len() as int);
    proof { lemma_jviews_index(rows@, rows@.len() as int); }
    let mut w = display_width(col);
    let mut k: usize = 0;
    while k < rows.len()
        invariant
            k <= rows.len(),
            rv == jviews(rows@, rows@.len() as int),
            rv.len() == rows@.len(),
            forall|j: int| 0 <= j < rows@.len() ==> #[trigger] rv[j] == jview(rows@[j]),
            w as nat == column_width(rv, col@, k as int),
        decreases rows.len() - k,
    {
        let cell = cell_of(&rows[k], col);
        let fit = fit_string(cell.as_str());
        let cw = display_width(fit.as_str());
        if w < cw {
            w = cw;
        }
        k = k + 1;
    }
    w
}

fn rows_table(rows: &Vec<Json>) -> (r: String)
    ensures
        r@ == table_text(JsonView::Array(jviews(rows@, rows@.len() as int))),
{
    let ghost rv = jviews(rows@, rows@.len() as int);
    proof { lemma_jviews_index(rows@, rows@.len() as int); }
    let cols = columns_of(rows);
    let mut out = String::new();
    if cols.len() == 0 {
        let mut i: usize = 0;
        while i < rows.len()
            invariant
                i <= rows.len(),
                rv == jviews(rows@, rows@.len() as int),
                rv.len() == rows@.len(),
                forall|k: int| 0 <= k < rows@.len() ==> #[trigger] rv[k] == jview(rows@[k]),
                out@ == scalar_lines(rv, i as int),
            decreases rows.len() - i,
        {
            let cell = cell_string(&rows[i]);
            let fit = fit_string(cell.as_str());
            out.push_str(fit.as_str());
            out.push('\n');
            proof { assert(out@ =~= scalar_lines(rv, i + 1)); }
            i = i + 1;
        }
        return out;
    }
    let ghost cv = views(cols@);
    let mut ws: Vec<usize> = Vec::new();
    let mut c: usize = 0;
    while c < cols.len()
        invariant
            c <= cols.len(),
            cv == views(cols@),
            rv == jviews(rows@, rows@.len() as int),
            ws@.len() == c,
            forall|j: int| 0 <= j < c ==> #[trigger] ws@[j] as nat == column_width(rv, cv[j], rv.len() as int),
        decreases cols.len() - c,
    {
        let w = column_width_of(rows, cols[c].as_str());
        proof { assert(cv[c as int] == cols@[c as int]@); lemma_jviews_index(rows@, rows@.len() as int); }
        ws.push(w);
        c = c + 1;
    }
    let ghost wn = ws@.map_values(|w: usize| w as nat);
    proof {
        assert(wn =~= column_widths(rv, cv));
    }
    let header = header_string_table(&cols, &ws);
    let rule = rule_string(&ws);
    out.push_str(header.as_str());
    out.push('\n');
    out.push_str(rule.as_str());
    out.push('\n');
    let ghost head = out@;
    proof { assert(out@ =~= head + table_rows(rv, cv, wn, 0)); }
    let mut i: usize = 0;
    while i < rows.len()
        invariant
            i <= rows.len(),
            rv == jviews(rows@, rows@.len() as int),
            rv.len() == rows@.len(),
            forall|k: int| 0 <= k < rows@.len() ==> #[trigger] rv[k] == jview(rows@[k]),
            cv == views(cols@),
            ws@.len() == cols@.len(),
            wn == ws@.map_values(|w: usize| w as nat),
            out@ == head + table_rows(rv, cv, wn, i as int),
        decreases rows.len() - i,
    {
        let line = cells_line(&rows[i], &cols, &ws);
        out.push_str(line.as_str());
        out.push('\n');
        proof { assert(out@ =~= head + table_rows(rv, cv, wn, i + 1)); }
        i = i + 1;
    }
    out
}

/// A value as a table.
pub fn table_string(v: &Json) -> (r: String)
    ensures
        r@ == table_text(jview(*v)),
{
    match v {
        Json::Object(fields) => object_table(fields),
        Json::Array(items) => rows_table(items),
        _ => {
            let mut out = cell_string(v);
            out.push('\n');
            out
        },
    }
}

/// The identifier of a record: its `id`, else its `channelId`, else its `ts`.
pub open spec fn record_id(row: JsonView) -> Option<Seq<char>> {
    match found_cell(row, "id"@) {
        Some(t) => Some(t),
        None => match found_cell(row, "channelId"@) {
            Some(t) => Some(t),
            None => found_cell(row, "ts"@),
        },
    }
}

/// The identifiers of the first `n` records, one per line; records without one are
/// skipped.
pub open spec fn id_lines(rows: Seq<JsonView>, n: int) -> Seq<char>
    decreases n,
{
    if n <= 0 || n > rows.len() {
        Seq::empty()
    } else {
        match record_id(rows[n - 1]) {
            Some(t) => id_lines(rows, n - 1) + t + seq!['\n'],
            None => id_lines(rows, n - 1),
        }
    }
}

/// The identifiers of a value's records.
pub open spec fn ids_text(v: JsonView) -> Seq<char> {
    id_lines(records(v), records(v).len() as int)
}

fn id_of(row: &Json) -> (r: Option<String>)
    ensures
        match r {
            Some(t) => record_id(jview(*row)) == Some(t@),
            None => record_id(jview(*row)) is None,
        },
{
    match find_cell(row, "id") {
        Some(t) => Some(t),
        None => match find_cell(row, "channelId") {
            Some(t) => Some(t),
            None => find_cell(row, "ts"),
        },
    }
}

fn rows_ids(rows: &Vec<Json>) -> (r: String)
    ensures
        r@ == id_lines(jviews(rows@, rows@.len() as int), rows@.len() as int),
{
    let ghost rv = jviews(rows@, rows@.len() as int);
    proof { lemma_jviews_index(rows@, rows@.len() as int); }
    let mut out = String::new();
    let mut i: usize = 0;
    while i < rows.len()
        invariant
            i <= rows.len(),
            rv == jviews(rows@, rows@.len() as int),
            rv.len() == rows@.len(),
            forall|k: int| 0 <= k < rows@.len() ==> #[trigger] rv[k] == jview(rows@[k]),
            out@ == id_lines(rv, i as int),
        decreases rows.len() - i,
    {
        match id_of(&rows[i]) {
            Some(t) => {
                out.push_str(t.as_str());
                out.push('\n');
            },
            None => {},
        }
        proof { assert(out@ =~= id_lines(rv, i + 1)); }
        i = i + 1;
    }
    out
}

/// The identifiers of a value's records, one per line.
pub fn ids_string(v: &Json) -> (r: String)
    ensures
        r@ == ids_text(jview(*v)),
{
    match v {
        Json::Array(items) => {
            proof { lemma_jviews_index(items@, items@.len() as int); }
            rows_ids(items)
        },
        _ => {
            let single = vec![v.deep_clone()];
            proof {
                lemma_jviews_index(single@, 1);
                assert(jviews(single@, 1) =~= seq![jview(*v)]);
            }
            rows_ids(&single)
        },
    }
}

/// A non-empty list or object: written on the lines below its key.
pub open spec fn nested(v: JsonView) -> bool {
    ||| (v matches JsonView::Array(items) && items.len() > 0)
    ||| (v matches JsonView::Object(fields) && fields.len() > 0)
}

/// YAML of a value at the indentation `pad`: fields as `"key": value`, items as
/// `- value`, a non-empty list or object on the lines below, indented by two more
/// spaces; keys and strings are quoted as in JSON.
pub open spec fn yaml_text(v: JsonView, pad: Seq<char>) -> Seq<char>
    decreases v, 1int,
{
    match v {
        JsonView::Object(fields) => if fields.len() > 0 {
            yaml_fields(fields, pad, fields.len() as int)
        } else {
            pad + json_text(v) + seq!['\n']
        },
        JsonView::Array(items) => if items.len() > 0 {
            yaml_items(items, pad, items.len() as int)
        } else {
            pad + json_text(v) + seq!['\n']
        },
        _ => pad + json_text(v) + seq!['\n'],
    }
}

pub open spec fn yaml_fields(fields: Seq<(Seq<char>, JsonView)>, pad: Seq<char>, n: int) -> Seq<char>
    decreases fields, n,
{
    if n <= 0 || n > fields.len() {
        Seq::empty()
    } else {
        proof { assert(decreases_to!(fields => fields[n - 1])); }
        let (k, v) = fields[n - 1];
        yaml_fields(fields, pad, n - 1) + (if nested(v) {
            pad + quoted(k) + seq![':', '\n'] + yaml_text(v, pad + seq![' ', ' '])
        } else {
            pad + quoted(k) + seq![':', ' '] + json_text(v) + seq!['\n']
        })
    }
}

pub open spec fn yaml_items(items: Seq<JsonView>, pad: Seq<char>, n: int) -> Seq<char>
    decreases items, n,
{
    if n <= 0 || n > items.len() {
        Seq::empty()
    } else {
        let v = items[n - 1];
        yaml_items(items, pad, n - 1) + (if nested(v) {
            pad + seq!['-', '\n'] + yaml_text(v, pad + seq![' ', ' '])
        } else {
            pad + seq!['-', ' '] + json_text(v) + seq!['\n']
        })
    }
}

fn is_nested(v: &Json) -> (r: bool)
    ensures
        r == nested(jview(*v)),
{
    match v {
        Json::Array(items) => items.len() > 0,
        Json::Object(fields) => fields.len() > 0,
        _ => false,
    }
}

fn write_yaml(v: &Json, pad: &str, out: &mut String)
    ensures
        final(out)@ == old(out)@ + yaml_text(jview(*v), pad@),
    decreases *v,
{
    let ghost before = out@;
    match v {
        Json::Object(fields) => {
            if fields.len() == 0 {
                out.push_str(pad);
                write_json(v, out);
                out.push('\n');
                proof { assert(out@ =~= before + yaml_text(jview(*v), pad@)); }
                return;
            }
            let ghost fv = jfields(fields@, fields@.len() as int);
            proof { lemma_jfields_index(fields@, fields@.len() as int); }
            let mut deeper = pad.to_string();
            deeper.push_str("  ");
            proof { reveal_strlit("  "); assert(deeper@ =~= pad@ + seq![' ', ' ']); }
            let mut i: usize = 0;
            while i < fields.len()
                invariant
                    i <= fields.len(),
                    fv == jfields(fields@, fields@.len() as int),
                    fv.len() == fields@.len(),
                    forall|k: int| 0 <= k < fields@.len() ==> #[trigger] fv[k] == (fields@[k].0@, jview(fields@[k].1)),
                    deeper@ == pad@ + seq![' ', ' '],
                    out@ == before + yaml_fields(fv, pad@, i as int),
                    decreases_to!(*v => fields),
                decreases fields.len() - i,
            {
                proof {
                    assert(decreases_to!(fields => fields@));
                    assert(decreases_to!(fields@ => fields@[i as int]));
                    assert(decreases_to!(fields@[i as int] => fields@[i as int].1));
                }
                out.push_str(pad);
                push_quoted(out, fields[i].0.as_str());
                if is_nested(&fields[i].1) {
                    out.push(':');
                    out.push('\n');
                    write_yaml(&fields[i].1, deeper.as_str(), out);
                } else {
                    out.push(':');
                    out.push(' ');
                    write_json(&fields[i].1, out);
                    out.push('\n');
                }
                proof { assert(out@ =~= before + yaml_fields(fv, pad@, i + 1)); }
                i = i + 1;
            }
            proof { assert(jview(*v) == JsonView::Object(fv)); }
        },
        Json::Array(items) => {
            if items.len() == 0 {
                out.push_str(pad);
                write_json(v, out);
                out.push('\n');
                proof { assert(out@ =~= before + yaml_text(jview(*v), pad@)); }
                return;
            }
            let ghost iv = jviews(items@, items@.len() as int);
            proof { lemma_jviews_index(items@, items@.len() as int); }
            let mut deeper = pad.to_string();
            deeper.push_str("  ");
            proof { reveal_strlit("  "); assert(deeper@ =~= pad@ + seq![' ', ' ']); }
            let mut i: usize = 0;
            while i < items.len()
                invariant
                    i <= items.len(),
                    iv == jviews(items@, items@.len() as int),
                    iv.len() == items@.len(),
                    forall|k: int| 0 <= k < items@.len() ==> #[trigger] iv[k] == jview(items@[k]),
                    deeper@ == pad@ + seq![' ', ' '],
                    out@ == before + yaml_items(iv, pad@, i as int),
                    decreases_to!(*v => items),
                decreases items.len() - i,
            {
                proof {
                    assert(decreases_to!(items => items@));
                    assert(decreases_to!(items@ => items@[i as int]));
                }
                out.push_str(pad);
                if is_nested(&items[i]) {
                    out.push('-');
                    out.push('\n');
                    write_yaml(&items[i], deeper.as_str(), out);
                } else {
                    out.push('-');
                    out.push(' ');
                    write_json(&items[i], out);
                    out.push('\n');
                }
                proof { assert(out@ =~= before + yaml_items(iv, pad@, i + 1)); }
                i = i + 1;
            }
            proof { assert(jview(*v) == JsonView::Array(iv)); }
        },
        _ => {
            out.push_str(pad);
            write_json(v, out);
            out.push('\n');
            proof { assert(out@ =~= before + yaml_text(jview(*v), pad@)); }
        },
    }
}

/// YAML text of a value.
pub fn yaml_string(v: &Json) -> (r: String)
    ensures
        r@ == yaml_text(jview(*v), Seq::empty()),
{
    let mut out = String::new();
    proof { reveal_strlit(""); assert(""@ =~= Seq::<char>::empty()); }
    write_yaml(v, "", &mut out);
    proof { assert(out@ =~= yaml_text(jview(*v), Seq::empty())); }
    out
}

/// What a format other than JSON prints for a value; JSON is pretty-printed by the
/// program.
pub open spec fn rendered(v: JsonView, format: OutputFormat) -> Option<Seq<char>> {
    match format {
        OutputFormat::Json => None,
        OutputFormat::Table => Some(table_text(v)),
        OutputFormat::Csv => Some(delimited_text(v, false)),
        OutputFormat::Tsv => Some(delimited_text(v, true)),
        OutputFormat::Yaml => Some(yaml_text(v, Seq::empty())),
        OutputFormat::IdOnly => Some(ids_text(v)),
    }
}

pub fn render_text(v: &Json, format: OutputFormat) -> (r: Option<String>)
    ensures
        match r {
            Some(t) => rendered(jview(*v), format) == Some(t@),
            None => rendered(jview(*v), format) is None,
        },
{
    match format {
        OutputFormat::Json => None,
        OutputFormat::Table => Some(table_string(v)),
        OutputFormat::Csv => Some(delimited_string(v, false)),
        OutputFormat::Tsv => Some(delimited_string(v, true)),
        OutputFormat::Yaml => Some(yaml_string(v)),
        OutputFormat::IdOnly => Some(ids_string(v)),
    }
}

} // verus!
