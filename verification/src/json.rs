//! JSON text as `serde_json` writes it in compact form: string literals
//! and the arrays and objects built from them.

use vstd::prelude::*;

verus! {

/// The lower-case hexadecimal digit for `n` (below 16).
pub open spec fn hex_lower(n: int) -> char {
    if n < 10 {
        ((n + '0' as int) as u8) as char
    } else {
        ((n - 10 + 'a' as int) as u8) as char
    }
}

/// How `serde_json` writes the character `c` inside a string literal:
/// `"` and `\` behind a backslash, the control characters backspace, tab,
/// line feed, form feed and carriage return as `\b`, `\t`, `\n`, `\f`,
/// `\r`, the other characters below U+0020 as `\u00XX` in lower-case hex,
/// every other character as itself.
pub open spec fn json_escape_char(c: char) -> Seq<char> {
    if c == '"' {
        seq!['\\', '"']
    } else if c == '\\' {
        seq!['\\', '\\']
    } else if c == '\u{8}' {
        seq!['\\', 'b']
    } else if c == '\t' {
        seq!['\\', 't']
    } else if c == '\n' {
        seq!['\\', 'n']
    } else if c == '\u{c}' {
        seq!['\\', 'f']
    } else if c == '\r' {
        seq!['\\', 'r']
    } else if (c as int) < 0x20 {
        seq!['\\', 'u', '0', '0', hex_lower((c as int) / 16), hex_lower((c as int) % 16)]
    } else {
        seq![c]
    }
}

/// The characters of `s`, each written as in a JSON string literal.
pub open spec fn json_escaped(s: Seq<char>) -> Seq<char>
    decreases s.len(),
{
    if s.len() == 0 {
        Seq::empty()
    } else {
        json_escaped(s.drop_last()) + json_escape_char(s.last())
    }
}

/// The JSON string literal for `s`.
pub open spec fn json_quoted(s: Seq<char>) -> Seq<char> {
    seq!['"'] + json_escaped(s) + seq!['"']
}

/// `parts` written one after the other with `sep` between each two.
pub open spec fn join(parts: Seq<Seq<char>>, sep: Seq<char>) -> Seq<char>
    decreases parts.len(),
{
    if parts.len() == 0 {
        Seq::empty()
    } else if parts.len() == 1 {
        parts[0]
    } else {
        join(parts.drop_last(), sep) + sep + parts.last()
    }
}

/// The compact JSON array of the strings `items`.
pub open spec fn json_string_array(items: Seq<Seq<char>>) -> Seq<char> {
    seq!['['] + join(items.map_values(|s: Seq<char>| json_quoted(s)), seq![',']) + seq![']']
}

/// The compact JSON object member `"key":[...]`.
pub open spec fn json_member(g: (Seq<char>, Seq<Seq<char>>)) -> Seq<char> {
    json_quoted(g.0) + seq![':'] + json_string_array(g.1)
}

/// The compact JSON object whose members are `groups`, in order: each key
/// with its array of strings.
pub open spec fn json_object(groups: Seq<(Seq<char>, Seq<Seq<char>>)>) -> Seq<char> {
    seq!['{'] + join(groups.map_values(|g: (Seq<char>, Seq<Seq<char>>)| json_member(g)), seq![',']) + seq!['}']
}

} // verus!
