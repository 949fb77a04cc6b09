//! Percent-decoding of URL components (`+` is a space, `%XX` a byte).

use vstd::prelude::*;

use crate::text::{chars_of, string_from_chars};

verus! {

/// The value of `c` read as a hexadecimal digit (`0-9`, `a-f`, `A-F`).
pub open spec fn hex_value(c: char) -> Option<u32> {
    if '0' <= c && c <= '9' {
        Some((c as u32 - '0' as u32) as u32)
    } else if 'a' <= c && c <= 'f' {
        Some((c as u32 - 'a' as u32 + 10) as u32)
    } else if 'A' <= c && c <= 'F' {
        Some((c as u32 - 'A' as u32 + 10) as u32)
    } else {
        None
    }
}

/// The digit value of `c`, or 0 when `c` is not a hexadecimal digit.
pub open spec fn hex_or_zero(c: char) -> u32 {
    match hex_value(c) {
        Some(v) => v,
        None => 0,
    }
}

/// The nibble read from position `i` of `s` after a `%`: 0 when the
/// input ends there or holds no hexadecimal digit there.
pub open spec fn nibble_at(s: Seq<char>, i: int) -> u32 {
    if i < s.len() { hex_or_zero(s[i]) } else { 0 }
}

/// The character with code point `b` (`char::from(u8)`).
pub open spec fn byte_char(b: u8) -> char {
    b as char
}

/// What decoding `s` yields: `+` becomes a space; `%` consumes up to two
/// following characters and yields the character whose code point is the
/// byte they spell in hexadecimal, a character that is no hex digit
/// counting as 0; every other character stands for itself.
pub open spec fn url_decoded(s: Seq<char>) -> Seq<char>
    decreases s.len(),
{
    if s.len() == 0 {
        Seq::empty()
    } else if s[0] == '+' {
        seq![' '] + url_decoded(s.drop_first())
    } else if s[0] == '%' {
        let b = (nibble_at(s, 1) * 16 + nibble_at(s, 2)) as u8;
        let used: int = if s.len() >= 3 { 3 } else { s.len() as int };
        seq![byte_char(b)] + url_decoded(s.skip(used))
    } else {
        seq![s[0]] + url_decoded(s.drop_first())
    }
}

/// Text with neither `+` nor `%` decodes to itself.
pub proof fn lemma_decode_plain(s: Seq<char>)
    requires
        forall|i: int| 0 <= i < s.len() ==> s[i] != '+' && s[i] != '%',
    ensures
        url_decoded(s) == s,
    decreases s.len(),
{
    if s.len() > 0 {
        lemma_decode_plain(s.drop_first());
        assert(s =~= seq![s[0]] + s.drop_first());
    }
}

/// `%` followed by two hexadecimal digits decodes to the character whose
/// code point is the byte they spell, and decoding goes on after them.
pub proof fn lemma_decode_escape(hi: char, lo: char, rest: Seq<char>)
    requires
        hex_value(hi) is Some,
        hex_value(lo) is Some,
    ensures
        url_decoded(seq!['%', hi, lo] + rest) == seq![
            byte_char((hex_value(hi)->0 * 16 + hex_value(lo)->0) as u8),
        ] + url_decoded(rest),
{
    let s = seq!['%', hi, lo] + rest;
    assert(s[0] == '%');
    assert(s[1] == hi);
    assert(s[2] == lo);
    assert(s.skip(3) =~= rest);
}

/// Text without `%` decodes on its own: what follows it decodes as if it
/// stood alone.
pub proof fn lemma_decode_concat(a: Seq<char>, b: Seq<char>)
    requires
        forall|i: int| 0 <= i < a.len() ==> a[i] != '%',
    ensures
        url_decoded(a + b) == url_decoded(a) + url_decoded(b),
    decreases a.len(),
{
    if a.len() > 0 {
        lemma_decode_concat(a.drop_first(), b);
        assert((a + b).drop_first() =~= a.drop_first() + b);
        assert((a + b)[0] == a[0]);
    } else {
        assert(a + b =~= b);
    }
}

/// The upper-case hexadecimal digit for `n` (below 16).
pub open spec fn hex_upper(n: int) -> char {
    if n < 10 {
        ((n + '0' as int) as u8) as char
    } else {
        ((n - 10 + 'A' as int) as u8) as char
    }
}

/// `t` with every character written as `%XX`, `XX` its code point in
/// upper-case hexadecimal (for characters below U+0100).
pub open spec fn percent_encoded(t: Seq<char>) -> Seq<char>
    decreases t.len(),
{
    if t.len() == 0 {
        Seq::empty()
    } else {
        seq!['%', hex_upper((t[0] as int) / 16), hex_upper((t[0] as int) % 16)] + percent_encoded(
            t.drop_first(),
        )
    }
}

proof fn lemma_hex_upper(n: int)
    requires
        0 <= n < 16,
    ensures
        hex_value(hex_upper(n)) == Some(n as u32),
{
}

proof fn lemma_low_char(c: char)
    requires
        (c as int) < 256,
    ensures
        0 <= (c as int),
        ((c as int) as u8) as char == c,
{
}

/// Percent-encoding every character of `t` (each below U+0100) as `%XX`
/// and then decoding gives `t` back.
pub proof fn lemma_decode_percent_encoded(t: Seq<char>)
    requires
        forall|i: int| 0 <= i < t.len() ==> (t[i] as int) < 256,
    ensures
        url_decoded(percent_encoded(t)) == t,
    decreases t.len(),
{
    if t.len() > 0 {
        let c = t[0];
        let hi = (c as int) / 16;
        let lo = (c as int) % 16;
        let v = c as int;
        lemma_low_char(c);
        assert(0 <= hi < 16 && 0 <= lo < 16 && hi * 16 + lo == v) by (nonlinear_arith)
            requires
                0 <= v < 256,
                hi == v / 16,
                lo == v % 16,
        ;
        assert((v as u8) as char == c);
        lemma_hex_upper(hi);
        lemma_hex_upper(lo);
        lemma_decode_percent_encoded(t.drop_first());
        lemma_decode_escape(hex_upper(hi), hex_upper(lo), percent_encoded(t.drop_first()));
        assert(((hi * 16 + lo) as u8) as char == c);
        assert(t =~= seq![c] + t.drop_first());
    }
}

/// The lower-case hexadecimal digit for `n` (below 16).
pub open spec fn hex_lower_digit(n: int) -> char {
    if n < 10 {
        ((n + '0' as int) as u8) as char
    } else {
        ((n - 10 + 'a' as int) as u8) as char
    }
}

/// `t` with every character written as `%xx`, `xx` its code point in
/// lower-case hexadecimal (for characters below U+0100).
pub open spec fn percent_encoded_lower(t: Seq<char>) -> Seq<char>
    decreases t.len(),
{
    if t.len() == 0 {
        Seq::empty()
    } else {
        seq!['%', hex_lower_digit((t[0] as int) / 16), hex_lower_digit((t[0] as int) % 16)]
            + percent_encoded_lower(t.drop_first())
    }
}

proof fn lemma_hex_lower_digit(n: int)
    requires
        0 <= n < 16,
    ensures
        hex_value(hex_lower_digit(n)) == Some(n as u32),
{
}

/// Lower-case hexadecimal digits read as well as upper-case ones:
/// percent-encoding every character of `t` (each below U+0100) as `%xx`
/// in lower case and then decoding gives `t` back.
pub proof fn lemma_decode_percent_encoded_lower(t: Seq<char>)
    requires
        forall|i: int| 0 <= i < t.len() ==> (t[i] as int) < 256,
    ensures
        url_decoded(percent_encoded_lower(t)) == t,
    decreases t.len(),
{
    if t.len() > 0 {
        let c = t[0];
        let hi = (c as int) / 16;
        let lo = (c as int) % 16;
        let v = c as int;
        lemma_low_char(c);
        assert(0 <= hi < 16 && 0 <= lo < 16 && hi * 16 + lo == v) by (nonlinear_arith)
            requires
                0 <= v < 256,
                hi == v / 16,
                lo == v % 16,
        ;
        lemma_hex_lower_digit(hi);
        lemma_hex_lower_digit(lo);
        lemma_decode_percent_encoded_lower(t.drop_first());
        lemma_decode_escape(hex_lower_digit(hi), hex_lower_digit(lo), percent_encoded_lower(t.drop_first()));
        assert(((hi * 16 + lo) as u8) as char == c);
        assert(t =~= seq![c] + t.drop_first());
    }
}

/// Every hexadecimal digit reads as its value: `0`–`9` as 0–9, and both
/// `a`–`f` and `A`–`F` as 10–15; no other character is a digit.
pub proof fn lemma_hex_digit_values(c: char)
    ensures
        '0' <= c <= '9' ==> hex_value(c) == Some((c as u32 - 48) as u32),
        'a' <= c <= 'f' ==> hex_value(c) == Some((c as u32 - 87) as u32),
        'A' <= c <= 'F' ==> hex_value(c) == Some((c as u32 - 55) as u32),
        !('0' <= c <= '9' || 'a' <= c <= 'f' || 'A' <= c <= 'F') ==> hex_value(c) is None,
{
}

/// Reads `c` as a hexadecimal digit.
pub fn hex_digit(c: char) -> (res: Option<u32>)
    ensures
        res == hex_value(c),
{
    if '0' <= c && c <= '9' {
        Some(c as u32 - '0' as u32)
    } else if 'a' <= c && c <= 'f' {
        Some(c as u32 - 'a' as u32 + 10)
    } else if 'A' <= c && c <= 'F' {
        Some(c as u32 - 'A' as u32 + 10)
    } else {
        None
    }
}

fn nibble(cs: &Vec<char>, i: usize, k: usize) -> (res: u32)
    requires
        i < cs.len(),
    ensures
        res == nibble_at(cs@, i + k),
        res < 16,
{
    if k < cs.len() - i {
        match hex_digit(cs[i + k]) {
            Some(v) => v,
            None => 0,
        }
    } else {
        0
    }
}

/// Percent-decodes the characters `cs` (see [`url_decoded`]).
pub fn decode_chars(cs: &Vec<char>) -> (out: Vec<char>)
    ensures
        out@ == url_decoded(cs@),
{
    let mut out: Vec<char> = Vec::new();
    let mut i: usize = 0;
    assert(cs@.skip(0) == cs@);
    while i < cs.len()
        invariant
            i <= cs.len(),
            url_decoded(cs@) == out@ + url_decoded(cs@.skip(i as int)),
        decreases cs.len() - i,
    {
        let ghost rest = cs@.skip(i as int);
        let c = cs[i];
        assert(rest[0] == c);
        if c == '+' {
            out.push(' ');
            i = i + 1;
            assert(rest.drop_first() == cs@.skip(i as int));
        } else if c == '%' {
            let hi = nibble(&cs, i, 1);
            let lo = nibble(&cs, i, 2);
            assert(nibble_at(rest, 1) == hi);
            assert(nibble_at(rest, 2) == lo);
            let b: u8 = (hi * 16 + lo) as u8;
            out.push(b as char);
            let ghost used: int = if rest.len() >= 3 { 3 } else { rest.len() as int };
            if cs.len() - i >= 3 {
                i = i + 3;
            } else {
                i = cs.len();
            }
            assert(rest.skip(used) == cs@.skip(i as int));
        } else {
            out.push(c);
            i = i + 1;
            assert(rest.drop_first() == cs@.skip(i as int));
        }
        assert(out@ + url_decoded(cs@.skip(i as int)) == url_decoded(cs@));
    }
    assert(cs@.skip(i as int) == Seq::<char>::empty());
    assert(out@ + Seq::<char>::empty() == out@);
    out
}

/// Percent-decodes `s`: `+` becomes a space and `%XX` the character whose
/// code point is the byte `XX`.
pub fn url_decode(s: &str) -> (res: String)
    ensures
        res@ == url_decoded(s@),
{
    let cs = chars_of(s);
    let out = decode_chars(&cs);
    string_from_chars(&out)
}

} // verus!
