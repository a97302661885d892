//! Lowercase hexadecimal text for byte strings.
//!
//! Block hashes travel as `0x`-prefixed hex text over the chain RPC surface;
//! these are the character-level primitives behind that text form.

use vstd::prelude::*;
use vstd::string::StrSliceExecFns;
use vstd::string::StringExecFns;

verus! {

/// Numeric value of a lowercase hex digit; 16 when `c` is not one. The
/// canonical text forms of this library are lowercase, and decoding anything
/// else is rejected, so an uppercase digit counts as no digit here.
pub open spec fn hex_digit_value(c: char) -> int {
    if 48 <= c as int && c as int <= 57 {
        c as int - 48
    } else if 97 <= c as int && c as int <= 102 {
        c as int - 87
    } else {
        16
    }
}

/// Whether `c` is a lowercase hex digit.
pub open spec fn is_hex_digit(c: char) -> bool {
    hex_digit_value(c) < 16
}

/// Whether every character of `t` is a lowercase hex digit.
pub open spec fn all_hex(t: Seq<char>) -> bool {
    forall|i: int| 0 <= i < t.len() ==> is_hex_digit(#[trigger] t[i])
}

/// The lowercase hex digit for a value below sixteen.
pub open spec fn hex_char(n: int) -> char {
    if n == 0 {
        '0'
    } else if n == 1 {
        '1'
    } else if n == 2 {
        '2'
    } else if n == 3 {
        '3'
    } else if n == 4 {
        '4'
    } else if n == 5 {
        '5'
    } else if n == 6 {
        '6'
    } else if n == 7 {
        '7'
    } else if n == 8 {
        '8'
    } else if n == 9 {
        '9'
    } else if n == 10 {
        'a'
    } else if n == 11 {
        'b'
    } else if n == 12 {
        'c'
    } else if n == 13 {
        'd'
    } else if n == 14 {
        'e'
    } else {
        'f'
    }
}

/// Lowercase hex text of `bytes`: two digits per byte, high nibble first.
pub open spec fn hex_encode(bytes: Seq<u8>) -> Seq<char> {
    Seq::new(
        bytes.len() * 2,
        |i: int|
            if i % 2 == 0 {
                hex_char(bytes[i / 2] as int / 16)
            } else {
                hex_char(bytes[i / 2] as int % 16)
            },
    )
}

/// Bytes of an even-length, all-hex text: each pair of digits is one byte.
pub open spec fn hex_decode(t: Seq<char>) -> Seq<u8> {
    Seq::new((t.len() / 2) as nat, |i: int| (hex_digit_value(t[2 * i]) * 16 + hex_digit_value(t[2 * i + 1])) as u8)
}

/// A hex digit below sixteen reads back as itself.
pub proof fn lemma_hex_char_value(n: int)
    requires
        0 <= n < 16,
    ensures
        hex_digit_value(hex_char(n)) == n,
        is_hex_digit(hex_char(n)),
{
}

/// Law: decoding the hex text of any byte string yields the bytes back.
pub proof fn lemma_hex_round_trip(bytes: Seq<u8>)
    ensures
        all_hex(hex_encode(bytes)),
        hex_encode(bytes).len() == bytes.len() * 2,
        hex_decode(hex_encode(bytes)) == bytes,
{
    let enc = hex_encode(bytes);
    assert forall|i: int| 0 <= i < enc.len() implies is_hex_digit(#[trigger] enc[i]) by {
        if i % 2 == 0 {
            lemma_hex_char_value(bytes[i / 2] as int / 16);
        } else {
            lemma_hex_char_value(bytes[i / 2] as int % 16);
        }
    }
    assert forall|i: int| 0 <= i < bytes.len() implies #[trigger] hex_decode(enc)[i] == bytes[i] by {
        lemma_hex_char_value(bytes[i] as int / 16);
        lemma_hex_char_value(bytes[i] as int % 16);
        assert(enc[2 * i] == hex_char(bytes[i] as int / 16));
        assert(enc[2 * i + 1] == hex_char(bytes[i] as int % 16));
    }
    assert(hex_decode(enc) =~= bytes);
}

/// Value of one lowercase hex digit character, `None` otherwise.
pub fn hex_val(c: char) -> (r: Option<u8>)
    ensures
        is_hex_digit(c) ==> r == Some(hex_digit_value(c) as u8),
        !is_hex_digit(c) ==> r is None,
{
    let v = c as u32;
    if 48 <= v && v <= 57 {
        Some((v - 48) as u8)
    } else if 97 <= v && v <= 102 {
        Some((v - 87) as u8)
    } else {
        None
    }
}

/// One lowercase hex digit, as a one-character string slice.
pub fn hex_digit_str(n: u8) -> (r: &'static str)
    requires
        n < 16,
    ensures
        r@.len() == 1,
        r@[0] == hex_char(n as int),
{
    proof {
        reveal_strlit("0");
        reveal_strlit("1");
        reveal_strlit("2");
        reveal_strlit("3");
        reveal_strlit("4");
        reveal_strlit("5");
        reveal_strlit("6");
        reveal_strlit("7");
        reveal_strlit("8");
        reveal_strlit("9");
        reveal_strlit("a");
        reveal_strlit("b");
        reveal_strlit("c");
        reveal_strlit("d");
        reveal_strlit("e");
        reveal_strlit("f");
    }
    match n {
        0 => "0",
        1 => "1",
        2 => "2",
        3 => "3",
        4 => "4",
        5 => "5",
        6 => "6",
        7 => "7",
        8 => "8",
        9 => "9",
        10 => "a",
        11 => "b",
        12 => "c",
        13 => "d",
        14 => "e",
        _ => "f",
    }
}

/// Lowercase hex text of `bytes`.
pub fn encode_hex(bytes: &Vec<u8>) -> (r: String)
    ensures
        r@ == hex_encode(bytes@),
{
    let ghost enc = hex_encode(bytes@);
    let mut out = String::new();
    let mut i: usize = 0;
    while i < bytes.len()
        invariant
            i <= bytes@.len(),
            enc == hex_encode(bytes@),
            out@ == enc.take(2 * i as int),
        decreases bytes@.len() - i,
    {
        let b = bytes[i];
        out.append(hex_digit_str(b / 16));
        out.append(hex_digit_str(b % 16));
        proof {
            assert(out@ =~= enc.take(2 * (i + 1) as int));
        }
        i += 1;
    }
    proof {
        assert(out@ =~= enc);
    }
    out
}

/// Bytes of a hex text, `None` when a character is not a lowercase hex
/// digit or the length is odd.
pub fn decode_hex(s: &str, start: usize) -> (r: Option<Vec<u8>>)
    requires
        start <= s@.len(),
    ensures
        r is Some <==> (all_hex(s@.skip(start as int)) && s@.len() % 2 == start % 2),
        r matches Some(v) ==> v@ == hex_decode(s@.skip(start as int)),
{
    let n = s.unicode_len();
    let ghost t = s@.skip(start as int);
    if (n - start) % 2 != 0 {
        proof {
            assert(t.len() % 2 != 0);
            assert(hex_decode(t).len() * 2 != t.len());
        }
        return None;
    }
    let mut out: Vec<u8> = Vec::new();
    let mut i: usize = start;
    while i < n
        invariant
            start <= i <= n,
            n == s@.len(),
            (i - start) % 2 == 0,
            t == s@.skip(start as int),
            t.len() % 2 == 0,
            out@.len() * 2 == i - start,
            forall|j: int| start <= j < i ==> is_hex_digit(#[trigger] s@[j]),
            out@ == hex_decode(t).take(((i - start) / 2) as int),
        decreases n - i,
    {
        let hi = match hex_val(s.get_char(i)) {
            Some(v) => v,
            None => {
                proof {
                    assert(!is_hex_digit(t[i - start as int]));
                }
                return None;
            },
        };
        let lo = match hex_val(s.get_char(i + 1)) {
            Some(v) => v,
            None => {
                proof {
                    assert(!is_hex_digit(t[i + 1 - start as int]));
                }
                return None;
            },
        };
        out.push(hi * 16 + lo);
        proof {
            let k = ((i - start) / 2) as int;
            assert(t[2 * k] == s@[i as int]);
            assert(t[2 * k + 1] == s@[i as int + 1]);
            assert(out@ =~= hex_decode(t).take(k + 1));
        }
        i += 2;
    }
    proof {
        assert(out@ =~= hex_decode(t));
        assert forall|j: int| 0 <= j < t.len() implies is_hex_digit(#[trigger] t[j]) by {
            assert(t[j] == s@[start + j]);
        }
    }
    Some(out)
}

} // verus!
