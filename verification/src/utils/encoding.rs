use vstd::prelude::*;
use crate::utils::text::push_char;

verus! {

/// The lower-case hexadecimal digit for a value below sixteen.
pub open spec fn hex_digit(value: int) -> char {
    if value < 10 {
        (48 + value) as char
    } else {
        (87 + value) as char
    }
}

/// Lower-case hexadecimal text of a byte string: two digits for each byte,
/// the high half first.
pub open spec fn hex_text(bytes: Seq<u8>) -> Seq<char> {
    Seq::new(
        2 * bytes.len(),
        |i: int|
            if i % 2 == 0 {
                hex_digit(bytes[i / 2] as int / 16)
            } else {
                hex_digit(bytes[i / 2] as int % 16)
            },
    )
}

pub open spec fn is_hex_char(c: char) -> bool {
    ('0' <= c && c <= '9') || ('a' <= c && c <= 'f')
}

fn hex_char(value: u8) -> (c: char)
    requires
        value < 16,
    ensures
        c == hex_digit(value as int),
        is_hex_char(c),
{
    if value < 10 {
        (48 + value) as char
    } else {
        (87 + value) as char
    }
}

/// Encodes bytes as lower-case hexadecimal text.
pub fn hex_encode(bytes: &[u8]) -> (text: String)
    ensures
        text@ == hex_text(bytes@),
        text@.len() == 2 * bytes@.len(),
        forall|i: int| 0 <= i < text@.len() ==> is_hex_char(#[trigger] text@[i]),
{
    let mut text = String::new();
    let mut i: usize = 0;
    while i < bytes.len()
        invariant
            i <= bytes@.len(),
            text@ == hex_text(bytes@.take(i as int)),
            forall|k: int| 0 <= k < text@.len() ==> is_hex_char(#[trigger] text@[k]),
        decreases bytes.len() - i,
    {
        let b = bytes[i];
        let ghost before = text@;
        push_char(&mut text, hex_char(b / 16));
        push_char(&mut text, hex_char(b % 16));
        proof {
            assert(bytes@.take(i + 1) =~= bytes@.take(i as int).push(b));
            assert(text@ =~= hex_text(bytes@.take(i + 1)));
        }
        i += 1;
    }
    proof {
        assert(bytes@.take(i as int) =~= bytes@);
    }
    text
}

/// The character of the standard base64 alphabet for a value below 64.
pub open spec fn base64_digit(value: int) -> char {
    if value < 26 {
        (65 + value) as char
    } else if value < 52 {
        (71 + value) as char
    } else if value < 62 {
        (value - 4) as char
    } else if value == 62 {
        '+'
    } else {
        '/'
    }
}

pub open spec fn byte_at(bytes: Seq<u8>, i: int) -> int {
    if 0 <= i < bytes.len() {
        bytes[i] as int
    } else {
        0
    }
}

/// Length of the padded base64 text of `n` bytes.
pub open spec fn base64_len(n: nat) -> nat {
    4 * ((n + 2) / 3) as nat
}

/// The character at position `j` of the padded base64 text: every three
/// bytes give four characters, and a last group of one or two bytes is
/// filled up with `=`.
pub open spec fn base64_char_at(bytes: Seq<u8>, j: int) -> char {
    let first = 3 * (j / 4);
    let b0 = byte_at(bytes, first);
    let b1 = byte_at(bytes, first + 1);
    let b2 = byte_at(bytes, first + 2);
    if j % 4 == 0 {
        base64_digit(b0 / 4)
    } else if j % 4 == 1 {
        base64_digit((b0 % 4) * 16 + b1 / 16)
    } else if j % 4 == 2 {
        if first + 1 < bytes.len() {
            base64_digit((b1 % 16) * 4 + b2 / 64)
        } else {
            '='
        }
    } else {
        if first + 2 < bytes.len() {
            base64_digit(b2 % 64)
        } else {
            '='
        }
    }
}

/// Standard base64 text of a byte string, with padding.
pub open spec fn base64_text(bytes: Seq<u8>) -> Seq<char> {
    Seq::new(base64_len(bytes.len()), |j: int| base64_char_at(bytes, j))
}

pub open spec fn is_base64_char(c: char) -> bool {
    ('A' <= c && c <= 'Z') || ('a' <= c && c <= 'z') || ('0' <= c && c <= '9') || c == '+' || c
        == '/' || c == '='
}

fn base64_char(value: u8) -> (c: char)
    requires
        value < 64,
    ensures
        c == base64_digit(value as int),
        is_base64_char(c),
{
    if value < 26 {
        (65 + value) as char
    } else if value < 52 {
        (71 + value) as char
    } else if value < 62 {
        (value - 4) as char
    } else if value == 62 {
        '+'
    } else {
        '/'
    }
}

/// Encodes bytes as standard base64 text, with padding.
pub fn base64_encode(bytes: &[u8]) -> (text: String)
    ensures
        text@ == base64_text(bytes@),
        text@.len() == base64_len(bytes@.len()),
        forall|i: int| 0 <= i < text@.len() ==> is_base64_char(#[trigger] text@[i]),
{
    let mut text = String::new();
    let mut i: usize = 0;
    let n = bytes.len();
    while n - i >= 3
        invariant
            n == bytes@.len(),
            i <= n,
            i % 3 == 0,
            text@ == Seq::new((4 * (i / 3)) as nat, |j: int| base64_char_at(bytes@, j)),
            forall|k: int| 0 <= k < text@.len() ==> is_base64_char(#[trigger] text@[k]),
        decreases n - i,
    {
        let b0 = bytes[i];
        let b1 = bytes[i + 1];
        let b2 = bytes[i + 2];
        push_char(&mut text, base64_char(b0 / 4));
        push_char(&mut text, base64_char((b0 % 4) * 16 + b1 / 16));
        push_char(&mut text, base64_char((b1 % 16) * 4 + b2 / 64));
        push_char(&mut text, base64_char(b2 % 64));
        i += 3;
        assert(text@ =~= Seq::new((4 * (i / 3)) as nat, |j: int| base64_char_at(bytes@, j)));
    }
    if n - i == 1 {
        let b0 = bytes[i];
        push_char(&mut text, base64_char(b0 / 4));
        push_char(&mut text, base64_char((b0 % 4) * 16));
        push_char(&mut text, '=');
        push_char(&mut text, '=');
    } else if n - i == 2 {
        let b0 = bytes[i];
        let b1 = bytes[i + 1];
        push_char(&mut text, base64_char(b0 / 4));
        push_char(&mut text, base64_char((b0 % 4) * 16 + b1 / 16));
        push_char(&mut text, base64_char((b1 % 16) * 4));
        push_char(&mut text, '=');
    }
    assert(text@ =~= base64_text(bytes@));
    text
}

} // verus!
