//! Transport addresses: 6-byte MAC addresses, their comparison and display.

use vstd::prelude::*;

verus! {

/// The all-ones address used for broadcast frames.
pub const BROADCAST_MAC: [u8; 6] = [0xFF, 0xFF, 0xFF, 0xFF, 0xFF, 0xFF];

/// The character standing for the hex digit `n` (uppercase).
pub open spec fn hex_digit(n: u8) -> char {
    if n == 0 {
        '0'
    } else if n == 1 {
        '1'
    } else if n == 2 {
        '2'
    } else if n == 3 {
        '3'
    } else if n == 4 {
        '4'
    } else if n == 5 {
        '5'
    } else if n == 6 {
        '6'
    } else if n == 7 {
        '7'
    } else if n == 8 {
        '8'
    } else if n == 9 {
        '9'
    } else if n == 10 {
        'A'
    } else if n == 11 {
        'B'
    } else if n == 12 {
        'C'
    } else if n == 13 {
        'D'
    } else if n == 14 {
        'E'
    } else {
        'F'
    }
}

/// The two hex characters of one byte.
pub open spec fn hex_byte(b: u8) -> Seq<char> {
    seq![hex_digit(b / 16), hex_digit(b % 16)]
}

/// The canonical colon-separated rendering of a six-byte address.
pub open spec fn mac_chars(m: Seq<u8>) -> Seq<char>
    recommends
        m.len() == 6,
{
    hex_byte(m[0]) + seq![':'] + hex_byte(m[1]) + seq![':'] + hex_byte(m[2]) + seq![':']
        + hex_byte(m[3]) + seq![':'] + hex_byte(m[4]) + seq![':'] + hex_byte(m[5])
}

/// The one-character string for the hex digit `n`.
fn hex_str(n: u8) -> (s: &'static str)
    requires
        n < 16,
    ensures
        s@ == seq![hex_digit(n)],
{
    proof {
        reveal_strlit("0");
        reveal_strlit("1");
        reveal_strlit("2");
        reveal_strlit("3");
        reveal_strlit("4");
        reveal_strlit("5");
        reveal_strlit("6");
        reveal_strlit("7");
        reveal_strlit("8");
        reveal_strlit("9");
        reveal_strlit("A");
        reveal_strlit("B");
        reveal_strlit("C");
        reveal_strlit("D");
        reveal_strlit("E");
        reveal_strlit("F");
    }
    if n == 0 {
        "0"
    } else if n == 1 {
        "1"
    } else if n == 2 {
        "2"
    } else if n == 3 {
        "3"
    } else if n == 4 {
        "4"
    } else if n == 5 {
        "5"
    } else if n == 6 {
        "6"
    } else if n == 7 {
        "7"
    } else if n == 8 {
        "8"
    } else if n == 9 {
        "9"
    } else if n == 10 {
        "A"
    } else if n == 11 {
        "B"
    } else if n == 12 {
        "C"
    } else if n == 13 {
        "D"
    } else if n == 14 {
        "E"
    } else {
        "F"
    }
}

/// Appends the two hex characters of `b`.
fn append_hex_byte(s: &mut String, b: u8)
    ensures
        final(s)@ == old(s)@ + hex_byte(b),
{
    let hi = b / 16;
    let lo = b % 16;
    s.append(hex_str(hi));
    s.append(hex_str(lo));
}

/// Renders a six-byte address as the usual colon-separated uppercase hex
/// string.
pub fn format_mac(mac: &[u8; 6]) -> (text: String)
    ensures
        text@ == mac_chars(mac@),
{
    let mut text = String::new();
    append_hex_byte(&mut text, mac[0]);
    text.append(":");
    append_hex_byte(&mut text, mac[1]);
    text.append(":");
    append_hex_byte(&mut text, mac[2]);
    text.append(":");
    append_hex_byte(&mut text, mac[3]);
    text.append(":");
    append_hex_byte(&mut text, mac[4]);
    text.append(":");
    append_hex_byte(&mut text, mac[5]);
    proof {
        reveal_strlit(":");
        assert(text@ =~= mac_chars(mac@));
    }
    text
}

/// True when two addresses hold the same six bytes.
pub fn mac_eq(a: &[u8; 6], b: &[u8; 6]) -> (r: bool)
    ensures
        r <==> a@ =~= b@,
{
    let mut i: usize = 0;
    while i < 6
        invariant
            0 <= i <= 6,
            forall|j: int| 0 <= j < i ==> a@[j] == b@[j],
        decreases 6 - i,
    {
        if a[i] != b[i] {
            return false;
        }
        i += 1;
    }
    true
}

} // verus!
