//! Display width of text on a terminal (East Asian wide characters take two columns).

use vstd::prelude::*;
use crate::strings::chars_of;

verus! {

/// The width `unicode-width` assigns to a character, `None` for control characters.
pub uninterp spec fn unicode_char_width(c: char) -> Option<usize>;

/// `UnicodeWidthChar::width` from `unicode-width`. Besides naming the result, the
/// contract states what the crate's source shows: ASCII control characters and the
/// range U+007F..U+009F have no width, printable ASCII is one column, and no
/// character is wider than three columns.
#[verifier::external_body]
pub(crate) fn char_width(c: char) -> (r: Option<usize>)
    ensures
        r == unicode_char_width(c),
        c < ' ' || ('\u{7f}' <= c && c < '\u{a0}') ==> r is None,
        ' ' <= c && c < '\u{7f}' ==> r == Some(1usize),
        r matches Some(w) ==> w <= 3,
{
    unicode_width::UnicodeWidthChar::width(c)
}

/// Columns a character takes; characters without a width take none.
pub open spec fn columns(c: char) -> nat {
    match unicode_char_width(c) {
        Some(w) => w as nat,
        None => 0,
    }
}

/// Columns a text takes.
pub open spec fn text_width(s: Seq<char>) -> nat
    decreases s.len(),
{
    if s.len() == 0 {
        0
    } else {
        text_width(s.drop_last()) + columns(s.last())
    }
}

/// Length of the longest prefix of `s[i..]` whose width, added to `used`, stays
/// within `budget`, counted from `i`.
pub open spec fn fitting_end(s: Seq<char>, budget: nat, i: int, used: nat) -> int
    decreases s.len() - i,
{
    if i < 0 || i >= s.len() || used + columns(s[i]) > budget {
        i
    } else {
        fitting_end(s, budget, i + 1, used + columns(s[i]))
    }
}

/// Truncation to `max` columns: the text unchanged when it fits, otherwise the
/// widest prefix that leaves room for `suffix`, followed by `suffix`.
pub open spec fn truncated(s: Seq<char>, max: nat, suffix: Seq<char>) -> Seq<char> {
    if text_width(s) <= max {
        s
    } else {
        let budget: nat = if text_width(suffix) <= max { (max - text_width(suffix)) as nat } else { 0 };
        s.take(fitting_end(s, budget, 0, 0)) + suffix
    }
}

/// A width as a `usize`: the width itself, or `usize::MAX` when it is larger.
pub open spec fn capped(n: nat) -> nat {
    if n <= usize::MAX { n } else { usize::MAX as nat }
}

proof fn lemma_text_width_grows(s: Seq<char>, i: int)
    requires
        0 <= i < s.len(),
    ensures
        text_width(s.take(i + 1)) == text_width(s.take(i)) + columns(s[i]),
{
    assert(s.take(i + 1).drop_last() =~= s.take(i));
    assert(s.take(i + 1).last() == s[i]);
}

/// The width of `v`, `None` when it does not fit a `usize`.
fn width_checked(v: &Vec<char>) -> (r: Option<usize>)
    ensures
        r == (if text_width(v@) <= usize::MAX { Some(text_width(v@) as usize) } else { None::<usize> }),
{
    let mut total: usize = 0;
    let mut i: usize = 0;
    while i < v.len()
        invariant
            i <= v.len(),
            total == text_width(v@.take(i as int)),
        decreases v.len() - i,
    {
        let w = match char_width(v[i]) {
            Some(w) => w,
            None => 0,
        };
        proof {
            lemma_text_width_grows(v@, i as int);
            assert(w == columns(v@[i as int]));
        }
        if total > usize::MAX - w {
            proof { lemma_text_width_prefix(v@, i + 1); }
            return None;
        }
        total = total + w;
        i = i + 1;
    }
    proof {
        assert(v@.take(v.len() as int) =~= v@);
    }
    Some(total)
}

proof fn lemma_text_width_prefix(s: Seq<char>, i: int)
    requires
        0 <= i <= s.len(),
    ensures
        text_width(s.take(i)) <= text_width(s),
    decreases s.len() - i,
{
    if i < s.len() {
        lemma_text_width_prefix(s, i + 1);
        lemma_text_width_grows(s, i);
    } else {
        assert(s.take(i) =~= s);
    }
}

fn width_of(v: &Vec<char>) -> (r: usize)
    ensures
        r == capped(text_width(v@)),
{
    match width_checked(v) {
        Some(w) => w,
        None => usize::MAX,
    }
}

/// Columns `value` takes on a terminal (`usize::MAX` for a text wider than that).
pub fn display_width(value: &str) -> (r: usize)
    ensures
        r == capped(text_width(value@)),
{
    let v = chars_of(value);
    width_of(&v)
}

/// Truncates `value` to `max_width` columns, appending `suffix` when something was cut.
/// Works character by character, so it never splits a character.
pub fn truncate_display(value: &str, max_width: usize, suffix: &str) -> (r: String)
    ensures
        r@ == truncated(value@, max_width as nat, suffix@),
{
    let v = chars_of(value);
    match width_checked(&v) {
        Some(w) => if w <= max_width {
            return value.to_string();
        },
        None => {},
    }
    let sv = chars_of(suffix);
    let budget: usize = match width_checked(&sv) {
        Some(sw) => if sw <= max_width { max_width - sw } else { 0 },
        None => 0,
    };
    let mut used: usize = 0;
    let mut i: usize = 0;
    let mut stop = false;
    while i < v.len() && !stop
        invariant
            i <= v.len(),
            used <= budget,
            fitting_end(v@, budget as nat, 0, 0) == fitting_end(v@, budget as nat, i as int, used as nat),
            stop ==> i < v.len() && used + columns(v@[i as int]) > budget,
        decreases v.len() - i, if stop { 0int } else { 1int },
    {
        let w = match char_width(v[i]) {
            Some(w) => w,
            None => 0,
        };
        if w > budget - used {
            stop = true;
        } else {
            used = used + w;
            i = i + 1;
        }
    }
    let mut out = crate::strings::string_from_chars(&v, 0, i);
    out.push_str(suffix);
    proof {
        assert(v@.subrange(0, i as int) =~= v@.take(i as int));
    }
    out
}

/// Widths add up: the width of two texts side by side is the sum of their widths, and
/// the empty text takes no column.
pub proof fn law_text_width_adds(a: Seq<char>, b: Seq<char>)
    ensures
        text_width(a + b) == text_width(a) + text_width(b),
        text_width(Seq::<char>::empty()) == 0,
    decreases b.len(),
{
    if b.len() > 0 {
        law_text_width_adds(a, b.drop_last());
        assert((a + b).drop_last() =~= a + b.drop_last());
        assert((a + b).last() == b.last());
    } else {
        assert(a + b =~= a);
    }
}

proof fn lemma_fitting_end(s: Seq<char>, budget: nat, i: int, used: nat)
    requires
        0 <= i <= s.len(),
        used <= budget,
    ensures
        i <= fitting_end(s, budget, i, used) <= s.len(),
        text_width(s.take(fitting_end(s, budget, i, used))) + used <= budget + text_width(s.take(i)),
    decreases s.len() - i,
{
    if i < s.len() && used + columns(s[i]) <= budget {
        lemma_fitting_end(s, budget, i + 1, used + columns(s[i]));
        assert(s.take(i + 1).drop_last() =~= s.take(i));
        assert(s.take(i + 1).last() == s[i]);
    }
}

proof fn lemma_fitting_end_stops(s: Seq<char>, budget: nat, i: int, used: nat)
    requires
        0 <= i <= s.len(),
        used <= budget,
    ensures
        ({
            let j = fitting_end(s, budget, i, used);
            j < s.len() ==> text_width(s.take(j)) + columns(s[j]) + used > budget + text_width(s.take(i))
        }),
    decreases s.len() - i,
{
    if i < s.len() && used + columns(s[i]) <= budget {
        lemma_fitting_end_stops(s, budget, i + 1, used + columns(s[i]));
        lemma_text_width_grows(s, i);
    }
}

/// A truncated text never takes more columns than allowed, whenever the suffix itself
/// fits; a text that fits is left as it is.
pub proof fn law_truncation_fits(s: Seq<char>, max: nat, suffix: Seq<char>)
    requires
        text_width(suffix) <= max,
    ensures
        text_width(truncated(s, max, suffix)) <= max,
        text_width(s) <= max ==> truncated(s, max, suffix) == s,
{
    if text_width(s) > max {
        let budget: nat = (max - text_width(suffix)) as nat;
        lemma_fitting_end(s, budget, 0, 0);
        assert(s.take(0) =~= Seq::<char>::empty());
        law_text_width_adds(s.take(fitting_end(s, budget, 0, 0)), suffix);
    }
}

/// A truncated text keeps the longest prefix that fits: the kept prefix leaves room for
/// the suffix, and one more character would not.
pub proof fn law_truncation_keeps_longest_prefix(s: Seq<char>, max: nat, suffix: Seq<char>)
    requires
        text_width(s) > max,
    ensures
        ({
            let budget: nat = if text_width(suffix) <= max { (max - text_width(suffix)) as nat } else { 0 };
            let k = fitting_end(s, budget, 0, 0);
            &&& 0 <= k <= s.len()
            &&& truncated(s, max, suffix) == s.take(k) + suffix
            &&& text_width(s.take(k)) <= budget
            &&& (k < s.len() ==> text_width(s.take(k + 1)) > budget)
        }),
{
    let budget: nat = if text_width(suffix) <= max { (max - text_width(suffix)) as nat } else { 0 };
    lemma_fitting_end(s, budget, 0, 0);
    lemma_fitting_end_stops(s, budget, 0, 0);
    assert(s.take(0) =~= Seq::<char>::empty());
    let k = fitting_end(s, budget, 0, 0);
    if k < s.len() {
        lemma_text_width_grows(s, k);
    }
}

} // verus!
