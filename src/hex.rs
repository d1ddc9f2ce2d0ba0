//! Hexadecimal text to bytes and back.
use vstd::prelude::*;
use crate::amount::push_char;
use vstd::utf8::is_ascii_chars;

verus! {

pub open spec fn is_hex_digit(c: char) -> bool {
    ('0' <= c && c <= '9') || ('a' <= c && c <= 'f') || ('A' <= c && c <= 'F')
}

pub open spec fn hex_value(c: char) -> nat {
    if '0' <= c && c <= '9' {
        (c as int - '0' as int) as nat
    } else if 'a' <= c && c <= 'f' {
        (c as int - 'a' as int + 10) as nat
    } else {
        (c as int - 'A' as int + 10) as nat
    }
}

/// Lower-case hexadecimal digit for `n < 16`.
pub open spec fn hex_char(n: nat) -> char {
    if n < 10 {
        (n + '0' as int) as char
    } else {
        (n - 10 + 'a' as int) as char
    }
}

/// Bytes written as two lower-case hexadecimal digits each.
pub open spec fn hex_text(b: Seq<u8>) -> Seq<char>
    decreases b.len(),
{
    if b.len() == 0 {
        Seq::empty()
    } else {
        hex_text(b.drop_last()) + seq![hex_char(b.last() as nat / 16), hex_char(b.last() as nat % 16)]
    }
}

pub open spec fn is_hex_text(s: Seq<char>) -> bool {
    s.len() % 2 == 0 && forall|i: int| 0 <= i < s.len() ==> #[trigger] is_hex_digit(s[i])
}

/// The bytes that a hexadecimal text of even length stands for, the high
/// digit first; either case is read.
pub open spec fn hex_bytes(s: Seq<char>) -> Seq<u8> {
    Seq::new(s.len() / 2, |i: int| (hex_value(s[2 * i]) * 16 + hex_value(s[2 * i + 1])) as u8)
}

fn hex_digit_of(c: char) -> (r: Option<u8>)
    ensures
        r is Some <==> is_hex_digit(c),
        r matches Some(v) ==> v as nat == hex_value(c) && v < 16,
{
    if '0' <= c && c <= '9' {
        Some((c as u32 - 48) as u8)
    } else if 'a' <= c && c <= 'f' {
        Some((c as u32 - 87) as u8)
    } else if 'A' <= c && c <= 'F' {
        Some((c as u32 - 55) as u8)
    } else {
        None
    }
}

fn hex_char_of(n: u8) -> (c: char)
    requires
        n < 16,
    ensures
        c == hex_char(n as nat),
{
    if n < 10 {
        (n + 48u8) as char
    } else {
        (n + 87u8) as char
    }
}

/// Reads a hexadecimal text into bytes; `None` unless the text has an even
/// number of characters, all of them hexadecimal digits.
pub fn decode_hex(s: &str) -> (r: Option<Vec<u8>>)
    ensures
        r is Some <==> is_hex_text(s@),
        r matches Some(v) ==> v@ == hex_bytes(s@),
{
    let ghost t = s@;
    if !s.is_ascii() {
        proof {
            let i = choose|i: int| 0 <= i < t.len() && !('\0' <= #[trigger] t[i] <= '\u{7f}');
            assert(!is_hex_digit(t[i]));
        }
        return None;
    }
    let bytes = s.as_bytes();
    proof {
        vstd::string::is_ascii_spec_bytes(s);
    }
    let n = bytes.len();
    if n % 2 != 0 {
        return None;
    }
    let mut out: Vec<u8> = Vec::new();
    let mut i: usize = 0;
    while i < n / 2
        invariant
            n == t.len(),
            t == s@,
            n % 2 == 0,
            i <= n / 2,
            bytes@ == Seq::new(t.len(), |j: int| t[j] as u8),
            is_ascii_chars(t),
            forall|j: int| 0 <= j < 2 * i ==> #[trigger] is_hex_digit(t[j]),
            out@ == hex_bytes(t).take(i as int),
        decreases n / 2 - i,
    {
        proof {
            assert('\0' <= t[2 * i] <= '\u{7f}');
            assert('\0' <= t[2 * i + 1] <= '\u{7f}');
        }
        let hi = hex_digit_of(bytes[2 * i] as char);
        let lo = hex_digit_of(bytes[2 * i + 1] as char);
        match (hi, lo) {
            (Some(h), Some(l)) => {
                out.push(h * 16 + l);
                proof {
                    assert(out@ =~= hex_bytes(t).take(i + 1));
                    assert forall|j: int| 0 <= j < 2 * (i + 1) implies #[trigger] is_hex_digit(t[j]) by {
                        if j >= 2 * i {
                            assert(j == 2 * i || j == 2 * i + 1);
                        }
                    }
                }
                i = i + 1;
            }
            _ => {
                proof {
                    assert(2 * i + 1 < t.len());
                    if !is_hex_digit(t[2 * i]) {
                        assert(!is_hex_text(t));
                    } else {
                        assert(!is_hex_digit(t[2 * i + 1]));
                        assert(!is_hex_text(t));
                    }
                    assert(!is_hex_text(s@));
                }
                return None;
            }
        }
    }
    proof {
        assert(out@ =~= hex_bytes(t));
    }
    Some(out)
}

/// Writes bytes as lower-case hexadecimal text.
pub fn encode_hex(b: &[u8]) -> (r: String)
    ensures
        r@ == hex_text(b@),
{
    let mut s = String::new();
    let mut i: usize = 0;
    while i < b.len()
        invariant
            i <= b@.len(),
            s@ == hex_text(b@.take(i as int)),
        decreases b@.len() - i,
    {
        push_char(&mut s, hex_char_of(b[i] / 16));
        push_char(&mut s, hex_char_of(b[i] % 16));
        proof {
            assert(b@.take(i + 1).drop_last() =~= b@.take(i as int));
            assert(s@ =~= hex_text(b@.take(i + 1)));
        }
        i = i + 1;
    }
    proof {
        assert(b@.take(b@.len() as int) =~= b@);
    }
    s
}

} // verus!
