//! Character-level building blocks shared by the text-processing code:
//! specifications of the standard string operations the crate relies on,
//! and small verified helpers over `Seq<char>`.

use vstd::prelude::*;

verus! {

broadcast use vstd::string::group_string_axioms;

/// `String::push`: the character is appended (std documents exactly this).
pub assume_specification[ String::push ](s: &mut String, ch: char)
    ensures
        final(s)@ == old(s)@.push(ch),
;

/// `String::push_str`: the text is appended.
pub assume_specification[ String::push_str ](s: &mut String, other: &str)
    ensures
        final(s)@ == old(s)@ + other@,
;

/// `String::is_empty`: true exactly when the string has no characters.
pub assume_specification[ String::is_empty ](s: &String) -> (r: bool)
    ensures
        r == (s@.len() == 0),
;

pub open spec fn is_ascii_digit(c: char) -> bool {
    '0' <= c && c <= '9'
}

pub open spec fn is_ascii_upper(c: char) -> bool {
    'A' <= c && c <= 'Z'
}

pub open spec fn is_ascii_hex_digit(c: char) -> bool {
    is_ascii_digit(c) || ('a' <= c && c <= 'f') || ('A' <= c && c <= 'F')
}

/// Every character of `s` is an ASCII digit.
pub open spec fn all_digits(s: Seq<char>) -> bool {
    forall|i: int| 0 <= i < s.len() ==> is_ascii_digit(#[trigger] s[i])
}

/// Every character of `s` is an ASCII upper-case letter or digit.
pub open spec fn all_upper_or_digit(s: Seq<char>) -> bool {
    forall|i: int| 0 <= i < s.len() ==> is_ascii_upper(#[trigger] s[i]) || is_ascii_digit(s[i])
}

/// Every character of `s` is an ASCII hex digit.
pub open spec fn all_hex(s: Seq<char>) -> bool {
    forall|i: int| 0 <= i < s.len() ==> is_ascii_hex_digit(#[trigger] s[i])
}

/// Whitespace as `char::is_whitespace` classifies it (Unicode `White_Space`).
pub open spec fn is_unicode_whitespace(c: char) -> bool {
    c == ' ' || ('\t' <= c && c <= '\r') || c == '\u{85}' || c == '\u{a0}' || c == '\u{1680}'
        || ('\u{2000}' <= c && c <= '\u{200a}') || c == '\u{2028}' || c == '\u{2029}'
        || c == '\u{202f}' || c == '\u{205f}' || c == '\u{3000}'
}

/// The character sequence with leading and trailing whitespace removed (`str::trim`).
pub open spec fn trim_start(s: Seq<char>) -> Seq<char>
    decreases s.len(),
{
    if s.len() > 0 && is_unicode_whitespace(s[0]) {
        trim_start(s.drop_first())
    } else {
        s
    }
}

pub open spec fn trim_end(s: Seq<char>) -> Seq<char>
    decreases s.len(),
{
    if s.len() > 0 && is_unicode_whitespace(s.last()) {
        trim_end(s.drop_last())
    } else {
        s
    }
}

pub open spec fn trim(s: Seq<char>) -> Seq<char> {
    trim_end(trim_start(s))
}

/// `needle` occurs in `hay` as a contiguous block.
pub open spec fn contains_block(hay: Seq<char>, needle: Seq<char>) -> bool {
    exists|i: int| 0 <= i && i + needle.len() <= hay.len() && #[trigger] hay.subrange(i, i + needle.len()) == needle
}

/// The characters of a string slice, in order.
pub fn chars_of(s: &str) -> (v: Vec<char>)
    ensures
        v@ == s@,
{
    let mut v: Vec<char> = Vec::new();
    for c in it: s.chars()
        invariant
            v@ == it.seq().take(it.index() as int),
    {
        v.push(c);
    }
    proof {
        assert(v@ =~= s@);
    }
    v
}

/// A string holding exactly the characters `v[from..to]`.
pub fn string_from_chars(v: &Vec<char>, from: usize, to: usize) -> (r: String)
    requires
        from <= to <= v.len(),
    ensures
        r@ == v@.subrange(from as int, to as int),
{
    let mut r = String::new();
    let mut i = from;
    while i < to
        invariant
            from <= i <= to <= v.len(),
            r@ == v@.subrange(from as int, i as int),
        decreases to - i,
    {
        r.push(v[i]);
        proof {
            assert(v@.subrange(from as int, i + 1) =~= v@.subrange(from as int, i as int).push(v@[i as int]));
        }
        i = i + 1;
    }
    r
}

/// A copy of `s` as an owned string.
pub fn owned(s: &str) -> (r: String)
    ensures
        r@ == s@,
{
    s.to_string()
}

/// Character-wise equality of two strings.
pub fn str_eq(a: &str, b: &str) -> (r: bool)
    ensures
        r == (a@ == b@),
{
    let av = chars_of(a);
    let bv = chars_of(b);
    seq_eq(&av, &bv)
}

pub fn seq_eq(av: &Vec<char>, bv: &Vec<char>) -> (r: bool)
    ensures
        r == (av@ == bv@),
{
    if av.len() != bv.len() {
        return false;
    }
    let mut i: usize = 0;
    while i < av.len()
        invariant
            av.len() == bv.len(),
            i <= av.len(),
            forall|k: int| 0 <= k < i ==> av@[k] == bv@[k],
        decreases av.len() - i,
    {
        if av[i] != bv[i] {
            return false;
        }
        i = i + 1;
    }
    proof {
        assert(av@ =~= bv@);
    }
    true
}

/// Whether `s` starts with the character `c`.
pub fn starts_with_char(s: &str, c: char) -> (r: bool)
    ensures
        r == (s@.len() > 0 && s@[0] == c),
{
    let v = chars_of(s);
    v.len() > 0 && v[0] == c
}

/// `s` with leading and trailing whitespace removed, as `str::trim` does.
pub fn trimmed(s: &str) -> (r: String)
    ensures
        r@ == trim(s@),
{
    let v = chars_of(s);
    let mut start: usize = 0;
    proof {
        assert(v@.subrange(0, v@.len() as int) =~= v@);
    }
    while start < v.len() && is_whitespace(v[start])
        invariant
            start <= v.len(),
            trim_start(v@) == trim_start(v@.subrange(start as int, v.len() as int)),
        decreases v.len() - start,
    {
        proof {
            let rest = v@.subrange(start as int, v.len() as int);
            assert(rest.drop_first() =~= v@.subrange(start + 1, v.len() as int));
        }
        start = start + 1;
    }
    let mut end: usize = v.len();
    proof {
        let rest = v@.subrange(start as int, v.len() as int);
        if rest.len() > 0 {
            assert(rest[0] == v@[start as int]);
        }
        assert(trim_start(rest) == rest);
    }
    while end > start && is_whitespace(v[end - 1])
        invariant
            start <= end <= v.len(),
            trim(v@) == trim_end(v@.subrange(start as int, end as int)),
        decreases end - start,
    {
        proof {
            let rest = v@.subrange(start as int, end as int);
            assert(rest.drop_last() =~= v@.subrange(start as int, end - 1));
        }
        end = end - 1;
    }
    proof {
        let rest = v@.subrange(start as int, end as int);
        if rest.len() > 0 {
            assert(rest.last() == v@[end - 1]);
        }
    }
    string_from_chars(&v, start, end)
}

/// `s` with trailing whitespace removed, as `str::trim_end` does.
pub fn trimmed_end(s: &str) -> (r: String)
    ensures
        r@ == trim_end(s@),
{
    let v = chars_of(s);
    let mut end: usize = v.len();
    proof { assert(v@.subrange(0, v.len() as int) =~= s@); }
    while end > 0 && is_whitespace(v[end - 1])
        invariant
            end <= v.len(),
            v@ == s@,
            trim_end(s@) == trim_end(v@.subrange(0, end as int)),
        decreases end,
    {
        proof {
            let rest = v@.subrange(0, end as int);
            assert(rest.drop_last() =~= v@.subrange(0, end - 1));
        }
        end = end - 1;
    }
    proof {
        let rest = v@.subrange(0, end as int);
        if rest.len() > 0 {
            assert(rest.last() == v@[end - 1]);
        }
    }
    string_from_chars(&v, 0, end)
}

/// `char::is_whitespace`.
pub fn is_whitespace(c: char) -> (r: bool)
    ensures
        r == is_unicode_whitespace(c),
{
    c == ' ' || ('\t' <= c && c <= '\r') || c == '\u{85}' || c == '\u{a0}' || c == '\u{1680}'
        || ('\u{2000}' <= c && c <= '\u{200a}') || c == '\u{2028}' || c == '\u{2029}'
        || c == '\u{202f}' || c == '\u{205f}' || c == '\u{3000}'
}

/// Whether `needle` occurs in `hay`.
pub fn contains_seq(hay: &Vec<char>, needle: &Vec<char>) -> (r: bool)
    ensures
        r == contains_block(hay@, needle@),
{
    if needle.len() > hay.len() {
        return false;
    }
    let mut i: usize = 0;
    while i <= hay.len() - needle.len()
        invariant
            needle.len() <= hay.len(),
            i <= hay.len() - needle.len() + 1,
            forall|k: int| 0 <= k < i ==> #[trigger] hay@.subrange(k, k + needle@.len()) != needle@,
        decreases hay.len() - i,
    {
        let mut j: usize = 0;
        let mut same = true;
        while j < needle.len()
            invariant
                j <= needle.len(),
                i + needle.len() <= hay.len(),
                same == (forall|k: int| 0 <= k < j ==> hay@[i + k] == needle@[k]),
            decreases needle.len() - j,
        {
            if hay[i + j] != needle[j] {
                same = false;
            }
            j = j + 1;
        }
        if same {
            proof {
                assert(hay@.subrange(i as int, i + needle@.len()) =~= needle@);
            }
            return true;
        }
        proof {
            if hay@.subrange(i as int, i + needle@.len()) == needle@ {
                let k = choose|k: int| 0 <= k < needle.len() && hay@[i + k] != needle@[k];
                assert(hay@.subrange(i as int, i + needle@.len())[k] == hay@[i + k]);
            }
        }
        i = i + 1;
    }
    proof {
        assert forall|k: int| 0 <= k && k + needle@.len() <= hay@.len()
            implies #[trigger] hay@.subrange(k, k + needle@.len()) != needle@ by {
            assert(k < i);
        }
    }
    false
}

/// The result of `str::to_lowercase` on the given characters (Unicode default case mapping).
pub uninterp spec fn unicode_lowercase(s: Seq<char>) -> Seq<char>;

/// Calls `str::to_lowercase`; the contract claims only that the result is a function of
/// the input characters (named `unicode_lowercase`).
#[verifier::external_body]
pub(crate) fn to_lowercase(s: &str) -> (r: String)
    ensures
        r@ == unicode_lowercase(s@),
{
    s.to_lowercase()
}

/// The decimal digit for `d < 10`.
pub open spec fn digit_char(d: nat) -> char {
    if d == 0 { '0' } else if d == 1 { '1' } else if d == 2 { '2' } else if d == 3 { '3' }
    else if d == 4 { '4' } else if d == 5 { '5' } else if d == 6 { '6' } else if d == 7 { '7' }
    else if d == 8 { '8' } else { '9' }
}

/// Decimal representation of a natural number, without leading zeros.
pub open spec fn decimal(n: nat) -> Seq<char>
    decreases n,
{
    if n < 10 {
        seq![digit_char(n)]
    } else {
        decimal(n / 10).push(digit_char(n % 10))
    }
}

/// Decimal representation of an integer, with a leading `-` when negative.
pub open spec fn signed_decimal(n: int) -> Seq<char> {
    if n < 0 { seq!['-'] + decimal((-n) as nat) } else { decimal(n as nat) }
}

fn digit_exec(d: u64) -> (c: char)
    requires
        d < 10,
    ensures
        c == digit_char(d as nat),
{
    if d == 0 { '0' } else if d == 1 { '1' } else if d == 2 { '2' } else if d == 3 { '3' }
    else if d == 4 { '4' } else if d == 5 { '5' } else if d == 6 { '6' } else if d == 7 { '7' }
    else if d == 8 { '8' } else { '9' }
}

/// Appends the decimal digits of `n` to `out`.
pub fn push_decimal(out: &mut String, n: u64)
    ensures
        final(out)@ == old(out)@ + decimal(n as nat),
    decreases n,
{
    if n < 10 {
        out.push(digit_exec(n));
        proof {
            assert(old(out)@.push(digit_char(n as nat)) =~= old(out)@ + seq![digit_char(n as nat)]);
        }
    } else {
        push_decimal(out, n / 10);
        out.push(digit_exec(n % 10));
        proof {
            assert(decimal(n as nat) == decimal((n / 10) as nat).push(digit_char((n % 10) as nat)));
            assert((old(out)@ + decimal((n / 10) as nat)).push(digit_char((n % 10) as nat))
                =~= old(out)@ + decimal((n / 10) as nat).push(digit_char((n % 10) as nat)));
        }
    }
}

/// Appends the decimal form of a signed integer to `out`.
pub fn push_signed_decimal(out: &mut String, n: i64)
    ensures
        final(out)@ == old(out)@ + signed_decimal(n as int),
{
    if n < 0 {
        out.push('-');
        let m: u64 = if n == i64::MIN { 9223372036854775808u64 } else { (-n) as u64 };
        push_decimal(out, m);
        proof {
            assert(old(out)@.push('-') + decimal(m as nat) =~= old(out)@ + (seq!['-'] + decimal(m as nat)));
        }
    } else {
        push_decimal(out, n as u64);
    }
}

/// Decimal text of `n`, as `i64::to_string` produces it.
pub fn i64_to_string(n: i64) -> (r: String)
    ensures
        r@ == signed_decimal(n as int),
{
    let mut r = String::new();
    push_signed_decimal(&mut r, n);
    proof {
        assert(Seq::<char>::empty() + signed_decimal(n as int) =~= signed_decimal(n as int));
    }
    r
}

pub open spec fn digit_value(c: char) -> nat {
    ((c as int) - ('0' as int)) as nat
}

/// Value of a string of decimal digits.
pub open spec fn digits_value(s: Seq<char>) -> nat
    decreases s.len(),
{
    if s.len() == 0 {
        0
    } else {
        digits_value(s.drop_last()) * 10 + digit_value(s.last())
    }
}

/// The magnitude text of an unsigned number as Rust's integer parser reads it:
/// an optional `+` followed by at least one decimal digit.
pub open spec fn unsigned_digits(s: Seq<char>) -> Option<Seq<char>> {
    let body = if s.len() > 0 && s[0] == '+' { s.drop_first() } else { s };
    if body.len() > 0 && all_digits(body) { Some(body) } else { None }
}

/// What `u32::from_str` returns for `s`, as a number when it succeeds.
pub open spec fn parse_u32_spec(s: Seq<char>) -> Option<nat> {
    match unsigned_digits(s) {
        Some(d) => if digits_value(d) <= u32::MAX { Some(digits_value(d)) } else { None },
        None => None,
    }
}

/// What `i64::from_str` returns for `s`: an optional sign, then at least one digit,
/// within the range of `i64`.
pub open spec fn parse_i64_spec(s: Seq<char>) -> Option<int> {
    if s.len() > 0 && s[0] == '-' {
        let body = s.drop_first();
        if body.len() > 0 && all_digits(body) && digits_value(body) <= 9223372036854775808 {
            Some(-(digits_value(body) as int))
        } else {
            None
        }
    } else {
        match unsigned_digits(s) {
            Some(d) => if digits_value(d) <= i64::MAX { Some(digits_value(d) as int) } else { None },
            None => None,
        }
    }
}

proof fn lemma_digits_value_monotone(s: Seq<char>, i: int)
    requires
        0 <= i <= s.len(),
        all_digits(s),
    ensures
        digits_value(s.take(i)) <= digits_value(s),
    decreases s.len() - i,
{
    if i < s.len() {
        lemma_digits_value_monotone(s, i + 1);
        assert(s.take(i + 1).drop_last() =~= s.take(i));
        assert(digits_value(s.take(i + 1)) == digits_value(s.take(i)) * 10 + digit_value(s[i]));
    } else {
        assert(s.take(i) =~= s);
    }
}

/// Value of the digit run `v[from..]`, or `None` when it exceeds `max` (all
/// characters must already be digits).
fn digits_up_to(v: &Vec<char>, from: usize, max: u64) -> (r: Option<u64>)
    requires
        from <= v.len(),
        all_digits(v@.subrange(from as int, v.len() as int)),
        max >= 9,
    ensures
        match r {
            Some(n) => n as nat == digits_value(v@.subrange(from as int, v.len() as int)) && n <= max,
            None => digits_value(v@.subrange(from as int, v.len() as int)) > max,
        },
{
    let ghost body = v@.subrange(from as int, v.len() as int);
    let mut acc: u64 = 0;
    let mut i = from;
    while i < v.len()
        invariant
            from <= i <= v.len(),
            body == v@.subrange(from as int, v.len() as int),
            all_digits(body),
            acc as nat == digits_value(body.take(i - from)),
            acc <= max,
            max >= 9,
        decreases v.len() - i,
    {
        proof {
            assert(body[i - from] == v@[i as int]);
            assert(is_ascii_digit(body[i - from]));
        }
        let d = (v[i] as u32 - '0' as u32) as u64;
        assert(d <= 9);
        proof {
            assert(body.take(i - from + 1).drop_last() =~= body.take(i - from));
            assert(body.take(i - from + 1).last() == v@[i as int]);
        }
        if acc > (max - d) / 10 {
            proof {
                assert(digits_value(body.take(i - from + 1)) == acc * 10 + d);
                assert(acc * 10 + d > max) by (nonlinear_arith)
                    requires acc > (max - d) / 10, d <= 9, d <= max || acc >= 0;
                lemma_digits_value_monotone(body, i - from + 1);
            }
            return None;
        }
        proof {
            assert(acc * 10 + d <= max) by (nonlinear_arith)
                requires acc <= (max - d) / 10, d <= max;
        }
        acc = acc * 10 + d;
        i = i + 1;
    }
    proof {
        assert(body.take(i - from) =~= body);
    }
    Some(acc)
}

fn all_digits_from(v: &Vec<char>, from: usize) -> (r: bool)
    requires
        from <= v.len(),
    ensures
        r == all_digits(v@.subrange(from as int, v.len() as int)),
{
    let mut i = from;
    while i < v.len()
        invariant
            from <= i <= v.len(),
            forall|k: int| from <= k < i ==> is_ascii_digit(#[trigger] v@[k]),
        decreases v.len() - i,
    {
        if !('0' <= v[i] && v[i] <= '9') {
            proof {
                assert(v@.subrange(from as int, v.len() as int)[i - from] == v@[i as int]);
            }
            return false;
        }
        i = i + 1;
    }
    proof {
        assert forall|k: int| 0 <= k < v@.subrange(from as int, v.len() as int).len()
            implies is_ascii_digit(#[trigger] v@.subrange(from as int, v.len() as int)[k]) by {
            assert(v@.subrange(from as int, v.len() as int)[k] == v@[from + k]);
        }
    }
    true
}

/// Parses an unsigned number no larger than `max` the way Rust's unsigned parsers do.
fn parse_unsigned_upto(s: &str, max: u64) -> (r: Option<u64>)
    requires
        max >= 9,
    ensures
        match r {
            Some(n) => unsigned_digits(s@) is Some && n as nat == digits_value(unsigned_digits(s@)->0) && n <= max,
            None => unsigned_digits(s@) is None || digits_value(unsigned_digits(s@)->0) > max,
        },
{
    let v = chars_of(s);
    let from: usize = if v.len() > 0 && v[0] == '+' { 1 } else { 0 };
    proof {
        if v.len() > 0 && v@[0] == '+' {
            assert(v@.subrange(1, v.len() as int) =~= s@.drop_first());
        } else {
            assert(v@.subrange(0, v.len() as int) =~= s@);
        }
    }
    if from == v.len() {
        return None;
    }
    if !all_digits_from(&v, from) {
        return None;
    }
    digits_up_to(&v, from, max)
}

/// `u32::from_str`.
pub fn parse_u32(s: &str) -> (r: Option<u32>)
    ensures
        r matches Some(n) ==> parse_u32_spec(s@) == Some(n as nat),
        r is None ==> parse_u32_spec(s@) is None,
{
    match parse_unsigned_upto(s, u32::MAX as u64) {
        Some(n) => Some(n as u32),
        None => None,
    }
}


/// `i64::from_str`.
pub fn parse_i64(s: &str) -> (r: Option<i64>)
    ensures
        r matches Some(n) ==> parse_i64_spec(s@) == Some(n as int),
        r is None ==> parse_i64_spec(s@) is None,
{
    let v = chars_of(s);
    if v.len() > 0 && v[0] == '-' {
        proof {
            assert(v@.subrange(1, v.len() as int) =~= s@.drop_first());
        }
        if v.len() == 1 || !all_digits_from(&v, 1) {
            return None;
        }
        match digits_up_to(&v, 1, 9223372036854775808u64) {
            Some(m) => {
                if m == 9223372036854775808u64 {
                    Some(i64::MIN)
                } else {
                    Some(-(m as i64))
                }
            },
            None => None,
        }
    } else {
        match parse_unsigned_upto(s, i64::MAX as u64) {
            Some(n) => Some(n as i64),
            None => None,
        }
    }
}

/// At most the first `n` elements of `s` (`Iterator::take`).
pub open spec fn first_n<A>(s: Seq<A>, n: int) -> Seq<A> {
    if s.len() <= n { s } else { s.take(n) }
}

/// The character sequences of a list of strings.
pub open spec fn views(v: Seq<String>) -> Seq<Seq<char>> {
    v.map_values(|s: String| s@)
}

/// `parts` joined with `sep` between neighbours (`[T]::join`).
pub open spec fn join(parts: Seq<Seq<char>>, sep: Seq<char>) -> Seq<char>
    decreases parts.len(),
{
    if parts.len() == 0 {
        Seq::empty()
    } else if parts.len() == 1 {
        parts[0]
    } else {
        join(parts.drop_last(), sep) + sep + parts.last()
    }
}

/// Joins `parts` with `sep`.
pub fn join_strings(parts: &Vec<String>, sep: &str) -> (r: String)
    ensures
        r@ == join(views(parts@), sep@),
{
    let mut r = String::new();
    let mut i: usize = 0;
    while i < parts.len()
        invariant
            i <= parts.len(),
            r@ == join(views(parts@).take(i as int), sep@),
        decreases parts.len() - i,
    {
        proof {
            assert(views(parts@).take(i + 1).drop_last() =~= views(parts@).take(i as int));
            assert(views(parts@).take(i + 1).last() == parts@[i as int]@);
        }
        if i > 0 {
            r.push_str(sep);
        } else {
            proof {
                assert(views(parts@).take(1) =~= seq![parts@[0]@]);
            }
        }
        r.push_str(parts[i].as_str());
        i = i + 1;
    }
    proof {
        assert(views(parts@).take(parts.len() as int) =~= views(parts@));
    }
    r
}

/// Pieces of `s` between occurrences of `sep` (`str::split` with a character).
pub open spec fn split_on(s: Seq<char>, sep: char) -> Seq<Seq<char>>
    decreases s.len(),
{
    if s.len() == 0 {
        seq![Seq::empty()]
    } else {
        let prev = split_on(s.drop_last(), sep);
        if s.last() == sep {
            prev.push(Seq::empty())
        } else {
            prev.update(prev.len() - 1, prev.last().push(s.last()))
        }
    }
}

pub proof fn lemma_split_on_nonempty(s: Seq<char>, sep: char)
    ensures
        split_on(s, sep).len() >= 1,
    decreases s.len(),
{
    if s.len() > 0 {
        lemma_split_on_nonempty(s.drop_last(), sep);
    }
}

/// Splits `s` at every `sep`.
pub fn split_char(s: &str, sep: char) -> (r: Vec<String>)
    ensures
        views(r@) == split_on(s@, sep),
{
    let v = chars_of(s);
    let mut pieces: Vec<String> = Vec::new();
    let mut start: usize = 0;
    let mut i: usize = 0;
    proof {
        assert(views(pieces@) =~= Seq::<Seq<char>>::empty());
        assert(v@.subrange(0, 0) =~= Seq::<char>::empty());
        assert(Seq::<Seq<char>>::empty().push(Seq::<char>::empty()) =~= seq![Seq::<char>::empty()]);
        assert(v@.take(0) =~= Seq::<char>::empty());
    }
    while i < v.len()
        invariant
            start <= i <= v.len(),
            v@ == s@,
            views(pieces@).push(v@.subrange(start as int, i as int)) == split_on(v@.take(i as int), sep),
        decreases v.len() - i,
    {
        proof {
            assert(v@.take(i + 1).drop_last() =~= v@.take(i as int));
            assert(v@.take(i + 1).last() == v@[i as int]);
            lemma_split_on_nonempty(v@.take(i as int), sep);
        }
        if v[i] == sep {
            let piece = string_from_chars(&v, start, i);
            let ghost before = pieces@;
            pieces.push(piece);
            proof {
                assert(views(pieces@) =~= views(before).push(v@.subrange(start as int, i as int)));
            }
            start = i + 1;
            proof {
                assert(v@.subrange(start as int, i + 1) =~= Seq::<char>::empty());
            }
        } else {
            proof {
                assert(v@.subrange(start as int, i + 1) =~= v@.subrange(start as int, i as int).push(v@[i as int]));
            }
        }
        i = i + 1;
    }
    let last = string_from_chars(&v, start, v.len());
    let ghost before = pieces@;
    pieces.push(last);
    proof {
        assert(views(pieces@) =~= views(before).push(v@.subrange(start as int, v.len() as int)));
        assert(v@.take(v.len() as int) =~= v@);
    }
    pieces
}

/// `c` does not occur in `s`.
pub open spec fn lacks(s: Seq<char>, c: char) -> bool {
    forall|i: int| 0 <= i < s.len() ==> #[trigger] s[i] != c
}

/// Appending text without separators extends the last piece.
pub proof fn lemma_split_append_plain(a: Seq<char>, b: Seq<char>, sep: char)
    requires
        lacks(b, sep),
    ensures
        split_on(a + b, sep) == split_on(a, sep).update(
            split_on(a, sep).len() - 1,
            split_on(a, sep).last() + b,
        ),
    decreases b.len(),
{
    lemma_split_on_nonempty(a, sep);
    if b.len() == 0 {
        assert(a + b =~= a);
        assert(split_on(a, sep).last() + b =~= split_on(a, sep).last());
        assert(split_on(a, sep).update(split_on(a, sep).len() - 1, split_on(a, sep).last()) =~= split_on(a, sep));
    } else {
        let b0 = b.drop_last();
        assert forall|i: int| 0 <= i < b0.len() implies #[trigger] b0[i] != sep by {
            assert(b0[i] == b[i]);
        }
        lemma_split_append_plain(a, b0, sep);
        assert((a + b).drop_last() =~= a + b0);
        assert((a + b).last() == b.last());
        assert(b.last() != sep);
        let prev = split_on(a + b0, sep);
        lemma_split_on_nonempty(a + b0, sep);
        assert(split_on(a + b, sep) == prev.update(prev.len() - 1, prev.last().push(b.last())));
        assert((split_on(a, sep).last() + b0).push(b.last()) =~= split_on(a, sep).last() + b);
        assert(split_on(a + b, sep) =~= split_on(a, sep).update(split_on(a, sep).len() - 1, split_on(a, sep).last() + b));
    }
}

/// Pieces of text without separators, joined by one separator each.
pub proof fn lemma_split_pieces(pieces: Seq<Seq<char>>, sep: char)
    requires
        pieces.len() >= 1,
        forall|i: int| 0 <= i < pieces.len() ==> lacks(#[trigger] pieces[i], sep),
    ensures
        split_on(join(pieces, seq![sep]), sep) == pieces,
    decreases pieces.len(),
{
    if pieces.len() == 1 {
        lemma_split_append_plain(Seq::empty(), pieces[0], sep);
        assert(Seq::<char>::empty() + pieces[0] =~= pieces[0]);
        assert(split_on(Seq::<char>::empty(), sep) =~= seq![Seq::<char>::empty()]);
        assert(seq![Seq::<char>::empty()].update(0, Seq::<char>::empty() + pieces[0]) =~= pieces);
    } else {
        let front = pieces.drop_last();
        assert forall|i: int| 0 <= i < front.len() implies lacks(#[trigger] front[i], sep) by {
            assert(front[i] == pieces[i]);
        }
        lemma_split_pieces(front, sep);
        let j = join(front, seq![sep]);
        assert(join(pieces, seq![sep]) == j + seq![sep] + pieces.last());
        assert(j + seq![sep] =~= j.push(sep));
        assert((j + seq![sep]).drop_last() =~= j);
        assert(split_on(j.push(sep), sep) == split_on(j, sep).push(Seq::empty()));
        lemma_split_append_plain(j.push(sep), pieces.last(), sep);
        assert(lacks(pieces[pieces.len() - 1], sep));
        assert(split_on(j.push(sep), sep).update(front.len() as int, Seq::<char>::empty() + pieces.last()) =~= pieces);
        assert(j.push(sep) + pieces.last() =~= j + seq![sep] + pieces.last());
    }
}

/// Whether `s` ends with `suffix`.
pub fn ends_with_text(s: &str, suffix: &str) -> (r: bool)
    ensures
        r == (s@.len() >= suffix@.len() && s@.skip(s@.len() - suffix@.len()) == suffix@),
{
    let v = chars_of(s);
    let w = chars_of(suffix);
    if w.len() > v.len() {
        return false;
    }
    let off = v.len() - w.len();
    let mut i: usize = 0;
    while i < w.len()
        invariant
            i <= w.len(),
            off + w.len() == v.len(),
            v@ == s@,
            w@ == suffix@,
            forall|k: int| 0 <= k < i ==> v@[off + k] == w@[k],
        decreases w.len() - i,
    {
        if v[off + i] != w[i] {
            proof { assert(s@.skip(s@.len() - suffix@.len())[i as int] == v@[off + i]); }
            return false;
        }
        i = i + 1;
    }
    proof { assert(s@.skip(s@.len() - suffix@.len()) =~= suffix@); }
    true
}

} // verus!
