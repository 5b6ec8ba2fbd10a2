//! JSON text of plain values, as serde_json writes it.
use vstd::prelude::*;

verus! {

/// The character of a decimal digit `d` (`0 <= d < 10`).
pub open spec fn digit_char(d: nat) -> char {
    (48 + d) as char
}

/// Decimal notation of a natural number, without sign or leading zeros.
pub open spec fn decimal(n: nat) -> Seq<char>
    decreases n,
{
    if n < 10 {
        seq![digit_char(n)]
    } else {
        decimal(n / 10).push(digit_char(n % 10))
    }
}

/// The elements of `b` in decimal, separated by commas.
pub open spec fn decimals_joined(b: Seq<u8>) -> Seq<char>
    decreases b.len(),
{
    if b.len() == 0 {
        Seq::empty()
    } else if b.len() == 1 {
        decimal(b[0] as nat)
    } else {
        decimals_joined(b.drop_last()) + seq![','] + decimal(b.last() as nat)
    }
}

/// JSON array of small numbers: `[1,2,3]`.
pub open spec fn json_byte_list(b: Seq<u8>) -> Seq<char> {
    seq!['['] + decimals_joined(b) + seq![']']
}

/// The JSON arrays of each row, separated by commas.
pub open spec fn byte_lists_joined(rows: Seq<Seq<u8>>) -> Seq<char>
    decreases rows.len(),
{
    if rows.len() == 0 {
        Seq::empty()
    } else if rows.len() == 1 {
        json_byte_list(rows[0])
    } else {
        byte_lists_joined(rows.drop_last()) + seq![','] + json_byte_list(rows.last())
    }
}

/// JSON array of arrays of small numbers: `[[1,2],[3]]`.
pub open spec fn json_byte_rows(rows: Seq<Seq<u8>>) -> Seq<char> {
    seq!['['] + byte_lists_joined(rows) + seq![']']
}

/// A lowercase hexadecimal digit (`0 <= d < 16`).
pub open spec fn hex_digit(d: nat) -> char {
    if d < 10 {
        (48 + d) as char
    } else {
        (87 + d) as char
    }
}

/// How one character is written inside a JSON string: quote and backslash
/// are escaped with a backslash, the control characters backspace, tab, line
/// feed, form feed and carriage return by their short escapes, the other
/// control characters below 0x20 as `\u00` and two lowercase hex digits;
/// every other character is written as it is.
pub open spec fn json_escape(c: char) -> Seq<char> {
    if c == '"' {
        seq!['\\', '"']
    } else if c == '\\' {
        seq!['\\', '\\']
    } else if c == '\u{8}' {
        seq!['\\', 'b']
    } else if c == '\t' {
        seq!['\\', 't']
    } else if c == '\n' {
        seq!['\\', 'n']
    } else if c == '\u{c}' {
        seq!['\\', 'f']
    } else if c == '\r' {
        seq!['\\', 'r']
    } else if (c as nat) < 32 {
        seq!['\\', 'u', '0', '0', hex_digit((c as nat) / 16), hex_digit((c as nat) % 16)]
    } else {
        seq![c]
    }
}

/// Each character of `s` as written inside a JSON string.
pub open spec fn json_escaped(s: Seq<char>) -> Seq<char>
    decreases s.len(),
{
    if s.len() == 0 {
        Seq::empty()
    } else {
        json_escaped(s.drop_last()) + json_escape(s.last())
    }
}

/// What `serde_json::to_string` writes for a string: the string in double
/// quotes, each character escaped as `json_escape` says.
pub open spec fn json_string_literal(s: Seq<char>) -> Seq<char> {
    seq!['"'] + json_escaped(s) + seq!['"']
}

/// `serde_json::to_string` on a `u8`. serde_json writes integers with `itoa`
/// in plain decimal, and serialising an integer into memory cannot fail.
#[verifier::external_body]
pub(crate) fn json_of_u8(n: u8) -> (text: String)
    ensures
        text@ == decimal(n as nat),
{
    match serde_json::to_string(&n) {
        Ok(t) => t,
        Err(_) => String::new(),
    }
}

/// `serde_json::to_string` on a `usize`: plain decimal, as for `u8`.
#[verifier::external_body]
pub(crate) fn json_of_usize(n: usize) -> (text: String)
    ensures
        text@ == decimal(n as nat),
{
    match serde_json::to_string(&n) {
        Ok(t) => t,
        Err(_) => String::new(),
    }
}

/// `serde_json::to_string` on a `String`: the string in double quotes, with
/// serde_json's escape table applied to each character (it escapes only
/// ASCII bytes, so escaping by bytes and by characters agree).
#[verifier::external_body]
pub(crate) fn json_of_string(s: &String) -> (text: String)
    ensures
        text@ == json_string_literal(s@),
{
    match serde_json::to_string(s) {
        Ok(t) => t,
        Err(_) => String::new(),
    }
}

/// `serde_json::to_string` on a `Vec<Vec<u8>>`: a sequence of sequences,
/// written as nested JSON arrays of decimal numbers with no blanks.
#[verifier::external_body]
pub(crate) fn json_of_byte_rows(rows: &Vec<Vec<u8>>) -> (text: String)
    ensures
        text@ == json_byte_rows(rows.deep_view()),
{
    match serde_json::to_string(rows) {
        Ok(t) => t,
        Err(_) => String::new(),
    }
}

} // verus!
