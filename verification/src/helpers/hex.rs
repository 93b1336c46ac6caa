//! Hex strings, written and read by the library itself.
//!
//! Encoding yields two lower-case digits per byte; decoding accepts either
//! case and rejects odd-length or non-hex input. Decoding inverts
//! encoding, which [`lemma_hex_round_trip`] states and proves.

use vstd::prelude::*;

verus! {

/// The lower-case hex digit of a nibble.
pub open spec fn hex_char_of(n: u8) -> char {
    if n < 10 {
        (48 + n) as char
    } else {
        (87 + n) as char
    }
}

/// The hex rendering of a byte string: two digits per byte.
pub open spec fn hex_of(b: Seq<u8>) -> Seq<char>
    decreases b.len(),
{
    if b.len() == 0 {
        Seq::empty()
    } else {
        hex_of(b.drop_last()) + seq![
            hex_char_of(b.last() / 16),
            hex_char_of(b.last() % 16),
        ]
    }
}

/// The value of one hex digit, of either case; negative when the character
/// is no hex digit.
pub open spec fn hex_val(c: char) -> int {
    if 48 <= (c as u32) && (c as u32) <= 57 {
        (c as u32) - 48
    } else if 97 <= (c as u32) && (c as u32) <= 102 {
        (c as u32) - 87
    } else if 65 <= (c as u32) && (c as u32) <= 70 {
        (c as u32) - 55
    } else {
        -1
    }
}

/// The bytes a hex string denotes, or nothing when its length is odd or a
/// character is no hex digit.
pub open spec fn hex_decode_of(s: Seq<char>) -> Option<Seq<u8>>
    decreases s.len(),
{
    if s.len() % 2 == 1 {
        None
    } else if s.len() == 0 {
        Some(Seq::empty())
    } else {
        let hi = hex_val(s[s.len() - 2]);
        let lo = hex_val(s.last());
        if hi < 0 || lo < 0 {
            None
        } else {
            match hex_decode_of(s.drop_last().drop_last()) {
                Some(rest) => Some(rest + seq![(hi * 16 + lo) as u8]),
                None => None,
            }
        }
    }
}

/// The hex digit of a nibble, as a one-character string.
fn nibble_str(n: u8) -> (r: &'static str)
    requires
        n < 16,
    ensures
        r@ =~= seq![hex_char_of(n)],
{
    proof {
        reveal_strlit("0");
        reveal_strlit("1");
        reveal_strlit("2");
        reveal_strlit("3");
        reveal_strlit("4");
        reveal_strlit("5");
        reveal_strlit("6");
        reveal_strlit("7");
        reveal_strlit("8");
        reveal_strlit("9");
        reveal_strlit("a");
        reveal_strlit("b");
        reveal_strlit("c");
        reveal_strlit("d");
        reveal_strlit("e");
        reveal_strlit("f");
    }
    match n {
        0 => "0",
        1 => "1",
        2 => "2",
        3 => "3",
        4 => "4",
        5 => "5",
        6 => "6",
        7 => "7",
        8 => "8",
        9 => "9",
        10 => "a",
        11 => "b",
        12 => "c",
        13 => "d",
        14 => "e",
        _ => "f",
    }
}

/// Renders bytes as lower-case hex.
pub fn hex_encode(b: &Vec<u8>) -> (r: String)
    ensures
        r@ == hex_of(b@),
{
    let mut out = String::new();
    let mut i: usize = 0;
    while i < b.len()
        invariant
            i <= b@.len(),
            out@ =~= hex_of(b@.take(i as int)),
        decreases b@.len() - i,
    {
        let byte = b[i];
        out.append(nibble_str(byte / 16));
        out.append(nibble_str(byte % 16));
        proof {
            assert(b@.take(i as int + 1).drop_last() =~= b@.take(i as int));
            assert(out@ =~= hex_of(b@.take(i as int + 1)));
        }
        i = i + 1;
    }
    proof {
        assert(b@.take(b@.len() as int) =~= b@);
    }
    out
}

/// Reads one hex digit; fails on anything else.
fn hex_digit(c: char) -> (r: Option<u8>)
    ensures
        hex_val(c) >= 0 ==> r == Some(hex_val(c) as u8),
        hex_val(c) < 0 ==> r is None,
{
    let v = c as u32;
    if v >= 48 && v <= 57 {
        Some((v - 48) as u8)
    } else if v >= 97 && v <= 102 {
        Some((v - 87) as u8)
    } else if v >= 65 && v <= 70 {
        Some((v - 55) as u8)
    } else {
        None
    }
}

/// Decodes a hex string of either case.
pub fn hex_decode(s: &str) -> (r: Option<Vec<u8>>)
    ensures
        match r {
            Some(b) => hex_decode_of(s@) == Some(b@),
            None => hex_decode_of(s@) is None,
        },
{
    let n = s.unicode_len();
    if n % 2 == 1 {
        proof {
            assert(hex_decode_of(s@) is None);
        }
        return None;
    }
    let mut out: Vec<u8> = Vec::new();
    let mut i: usize = 0;
    while i < n
        invariant
            n == s@.len(),
            n % 2 == 0,
            i <= n,
            i % 2 == 0,
            hex_decode_of(s@.take(i as int)) == Some(out@),
        decreases n - i,
    {
        let hi = match hex_digit(s.get_char(i)) {
            Some(v) => v,
            None => {
                proof {
                    lemma_hex_decode_bad(s@, i as int);
                }
                return None;
            },
        };
        let lo = match hex_digit(s.get_char(i + 1)) {
            Some(v) => v,
            None => {
                proof {
                    lemma_hex_decode_bad(s@, i as int + 1);
                }
                return None;
            },
        };
        out.push(hi * 16 + lo);
        proof {
            let t = s@.take(i as int + 2);
            assert(t.drop_last().drop_last() =~= s@.take(i as int));
            assert(t[t.len() - 2] == s@[i as int] && t.last() == s@[i as int + 1]);
            assert(hex_decode_of(s@.take(i as int + 2)) == Some(out@));
        }
        i = i + 2;
    }
    proof {
        assert(s@.take(n as int) =~= s@);
    }
    Some(out)
}

/// A string with a non-digit at position `k` decodes to nothing.
pub proof fn lemma_hex_decode_bad(s: Seq<char>, k: int)
    requires
        0 <= k < s.len(),
        hex_val(s[k]) < 0,
    ensures
        hex_decode_of(s) is None,
    decreases s.len(),
{
    if s.len() % 2 == 1 {
    } else if s.len() == 0 {
    } else {
        if k < s.len() - 2 {
            lemma_hex_decode_bad(s.drop_last().drop_last(), k);
        }
    }
}

/// Decoding inverts encoding: the hex rendering of any byte string reads
/// back as exactly those bytes.
pub proof fn lemma_hex_round_trip(b: Seq<u8>)
    ensures
        hex_decode_of(hex_of(b)) == Some(b),
    decreases b.len(),
{
    if b.len() == 0 {
    } else {
        lemma_hex_round_trip(b.drop_last());
        let s = hex_of(b);
        assert(hex_of(b.drop_last()).len() % 2 == 0) by {
            lemma_hex_len_even(b.drop_last());
        }
        assert(s.drop_last().drop_last() =~= hex_of(b.drop_last()));
        assert(s[s.len() - 2] == hex_char_of(b.last() / 16));
        assert(s.last() == hex_char_of(b.last() % 16));
        lemma_hex_char_val(b.last() / 16);
        lemma_hex_char_val(b.last() % 16);
        assert(hex_decode_of(s).unwrap() =~= b);
    }
}

/// Every rendered digit reads back as its nibble.
pub proof fn lemma_hex_char_val(n: u8)
    requires
        n < 16,
    ensures
        hex_val(hex_char_of(n)) == n as int,
{
}

/// A decoded hex string yields one byte per digit pair.
pub proof fn lemma_hex_decode_len(s: Seq<char>)
    ensures
        hex_decode_of(s) matches Some(b) ==> 2 * b.len() == s.len(),
    decreases s.len(),
{
    if s.len() % 2 == 1 {
    } else if s.len() == 0 {
    } else {
        lemma_hex_decode_len(s.drop_last().drop_last());
    }
}

/// A hex rendering has even length: two digits per byte.
pub proof fn lemma_hex_len_even(b: Seq<u8>)
    ensures
        hex_of(b).len() == 2 * b.len(),
    decreases b.len(),
{
    if b.len() > 0 {
        lemma_hex_len_even(b.drop_last());
    }
}

} // verus!
