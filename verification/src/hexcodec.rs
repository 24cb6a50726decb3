//! Lower-case hexadecimal text for byte strings, as stored in the token format.

use vstd::prelude::*;
use crate::strings::{all_hex, chars_of, is_ascii_hex_digit};

verus! {

/// The lower-case hex digit for `n < 16`.
pub open spec fn hex_digit(n: nat) -> char {
    if n < 10 { ((n + 48) as u8) as char } else { ((n + 87) as u8) as char }
}

/// The value of a hex digit (either case).
pub open spec fn hex_value(c: char) -> nat {
    if '0' <= c && c <= '9' {
        ((c as int) - 48) as nat
    } else if 'a' <= c && c <= 'f' {
        ((c as int) - 87) as nat
    } else {
        ((c as int) - 55) as nat
    }
}

/// Two lower-case hex digits per byte, high nibble first.
pub open spec fn hex_encode(b: Seq<u8>) -> Seq<char>
    decreases b.len(),
{
    if b.len() == 0 {
        Seq::empty()
    } else {
        hex_encode(b.drop_last()) + seq![hex_digit((b.last() / 16) as nat), hex_digit((b.last() % 16) as nat)]
    }
}

/// The bytes spelled by consecutive pairs of hex digits.
pub open spec fn hex_pairs(s: Seq<char>) -> Seq<u8>
    decreases s.len(),
{
    if s.len() < 2 {
        Seq::empty()
    } else {
        hex_pairs(s.take(s.len() - 2)).push((hex_value(s[s.len() - 2]) * 16 + hex_value(s[s.len() - 1])) as u8)
    }
}

/// Decoding as the `hex` crate does it: an even number of hex digits of either case.
pub open spec fn hex_decode(s: Seq<char>) -> Option<Seq<u8>> {
    if s.len() % 2 == 0 && all_hex(s) { Some(hex_pairs(s)) } else { None }
}

proof fn lemma_hex_digit(n: nat)
    requires
        n < 16,
    ensures
        is_ascii_hex_digit(hex_digit(n)),
        hex_value(hex_digit(n)) == n,
{
}

/// Encoding then decoding gives the bytes back.
pub proof fn lemma_hex_round_trip(b: Seq<u8>)
    ensures
        hex_encode(b).len() == 2 * b.len(),
        all_hex(hex_encode(b)),
        hex_decode(hex_encode(b)) == Some(b),
    decreases b.len(),
{
    if b.len() > 0 {
        lemma_hex_round_trip(b.drop_last());
        let x = b.last();
        let hi = (x / 16) as nat;
        let lo = (x % 16) as nat;
        lemma_hex_digit(hi);
        lemma_hex_digit(lo);
        let e = hex_encode(b);
        let prev = hex_encode(b.drop_last());
        assert(e == prev + seq![hex_digit(hi), hex_digit(lo)]);
        assert(e.take(e.len() - 2) =~= prev);
        assert(e[e.len() - 2] == hex_digit(hi));
        assert(e[e.len() - 1] == hex_digit(lo));
        assert(hi * 16 + lo == x) by (nonlinear_arith)
            requires hi == x / 16, lo == x % 16;
        assert(hex_pairs(e) =~= hex_pairs(prev).push(x));
        assert(b.drop_last().push(x) =~= b);
        assert forall|i: int| 0 <= i < e.len() implies is_ascii_hex_digit(#[trigger] e[i]) by {
            if i < prev.len() {
                assert(e[i] == prev[i]);
            }
        }
    }
}

pub(crate) fn nibble_char(n: u8) -> (c: char)
    requires
        n < 16,
    ensures
        c == hex_digit(n as nat),
{
    if n < 10 { (n + 48) as char } else { (n + 87) as char }
}

/// Lower-case hex text of `bytes` (`hex::encode`).
pub fn encode_hex(bytes: &[u8]) -> (r: String)
    ensures
        r@ == hex_encode(bytes@),
{
    let mut r = String::new();
    let mut i: usize = 0;
    while i < bytes.len()
        invariant
            i <= bytes.len(),
            r@ == hex_encode(bytes@.take(i as int)),
        decreases bytes.len() - i,
    {
        let x = bytes[i];
        r.push(nibble_char(x / 16));
        r.push(nibble_char(x % 16));
        proof {
            assert(bytes@.take(i + 1).drop_last() =~= bytes@.take(i as int));
            assert(bytes@.take(i + 1).last() == x);
            assert(r@ =~= hex_encode(bytes@.take(i as int)) + seq![hex_digit((x / 16) as nat), hex_digit((x % 16) as nat)]);
        }
        i = i + 1;
    }
    proof {
        assert(bytes@.take(bytes.len() as int) =~= bytes@);
    }
    r
}

fn hex_value_exec(c: char) -> (r: u8)
    requires
        is_ascii_hex_digit(c),
    ensures
        r as nat == hex_value(c),
        r < 16,
{
    if '0' <= c && c <= '9' {
        (c as u32 - 48) as u8
    } else if 'a' <= c && c <= 'f' {
        (c as u32 - 87) as u8
    } else {
        (c as u32 - 55) as u8
    }
}

/// Decodes hex text of either case (`hex::decode`); `None` for odd length or a
/// character that is not a hex digit.
pub fn decode_hex(s: &str) -> (r: Option<Vec<u8>>)
    ensures
        match r {
            Some(v) => hex_decode(s@) == Some(v@),
            None => hex_decode(s@) is None,
        },
{
    let v = chars_of(s);
    if v.len() % 2 != 0 {
        return None;
    }
    let mut k: usize = 0;
    while k < v.len()
        invariant
            k <= v.len(),
            v@ == s@,
            forall|j: int| 0 <= j < k ==> is_ascii_hex_digit(#[trigger] v@[j]),
        decreases v.len() - k,
    {
        let c = v[k];
        if !(('0' <= c && c <= '9') || ('a' <= c && c <= 'f') || ('A' <= c && c <= 'F')) {
            proof {
                assert(!is_ascii_hex_digit(s@[k as int]));
            }
            return None;
        }
        k = k + 1;
    }
    let mut out: Vec<u8> = Vec::new();
    let mut i: usize = 0;
    while i < v.len()
        invariant
            i <= v.len(),
            i % 2 == 0,
            v.len() % 2 == 0,
            all_hex(v@),
            out@ == hex_pairs(v@.take(i as int)),
        decreases v.len() - i,
    {
        let hi = hex_value_exec(v[i]);
        let lo = hex_value_exec(v[i + 1]);
        out.push(hi * 16 + lo);
        proof {
            let t = v@.take(i + 2);
            assert(t.take(t.len() - 2) =~= v@.take(i as int));
            assert(t[t.len() - 2] == v@[i as int]);
            assert(t[t.len() - 1] == v@[i + 1]);
        }
        i = i + 2;
    }
    proof {
        assert(v@.take(v.len() as int) =~= v@);
    }
    Some(out)
}

} // verus!
