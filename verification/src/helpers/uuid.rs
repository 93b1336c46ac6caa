//! Account and report identifiers: hyphenated UUID strings.
//!
//! The library validates and canonicalises identifier strings itself; only
//! the generation of a fresh identifier draws on the outside randomness
//! source.

use vstd::prelude::*;

verus! {

pub open spec fn is_hex_char(c: char) -> bool {
    ||| (c as u32) >= 48 && (c as u32) <= 57
    ||| (c as u32) >= 97 && (c as u32) <= 102
    ||| (c as u32) >= 65 && (c as u32) <= 70
}

/// A hyphenated UUID string: 36 characters in five hex groups of 8, 4, 4,
/// 4 and 12 digits.
pub open spec fn is_uuid_str(s: Seq<char>) -> bool {
    &&& s.len() == 36
    &&& forall|i: int|
        0 <= i < 36 ==> (if i == 8 || i == 13 || i == 18 || i == 23 {
            s[i] == '-'
        } else {
            is_hex_char(#[trigger] s[i])
        })
}

/// The same string with upper-case hex digits lowered.
pub open spec fn lower_hex_char(c: char) -> char {
    if (c as u32) >= 65 && (c as u32) <= 70 {
        ((c as u32) + 32) as char
    } else {
        c
    }
}

pub open spec fn canonical_uuid_of(s: Seq<char>) -> Seq<char> {
    s.map(|i: int, c: char| lower_hex_char(c))
}

/// Checks that `s` is a hyphenated UUID string, of either case.
pub fn is_valid_uuid(s: &str) -> (r: bool)
    ensures
        r == is_uuid_str(s@),
{
    let n = s.unicode_len();
    if n != 36 {
        return false;
    }
    let mut i: usize = 0;
    while i < 36
        invariant
            s@.len() == 36,
            i <= 36,
            forall|q: int|
                0 <= q < i ==> (if q == 8 || q == 13 || q == 18 || q == 23 {
                    s@[q] == '-'
                } else {
                    is_hex_char(#[trigger] s@[q])
                }),
        decreases 36 - i,
    {
        let c = s.get_char(i);
        let v = c as u32;
        if i == 8 || i == 13 || i == 18 || i == 23 {
            if c != '-' {
                return false;
            }
        } else {
            let is_hex = (v >= 48 && v <= 57) || (v >= 97 && v <= 102) || (v >= 65 && v <= 70);
            if !is_hex {
                return false;
            }
        }
        i = i + 1;
    }
    true
}

/// Lowers one validated UUID character to its canonical form.
fn lower_uuid_char(c: char) -> (r: &'static str)
    requires
        is_hex_char(c) || c == '-',
    ensures
        r@ =~= seq![lower_hex_char(c)],
{
    proof {
        reveal_strlit("0");
        reveal_strlit("1");
        reveal_strlit("2");
        reveal_strlit("3");
        reveal_strlit("4");
        reveal_strlit("5");
        reveal_strlit("6");
        reveal_strlit("7");
        reveal_strlit("8");
        reveal_strlit("9");
        reveal_strlit("a");
        reveal_strlit("b");
        reveal_strlit("c");
        reveal_strlit("d");
        reveal_strlit("e");
        reveal_strlit("f");
        reveal_strlit("-");
    }
    match c {
        '0' => "0",
        '1' => "1",
        '2' => "2",
        '3' => "3",
        '4' => "4",
        '5' => "5",
        '6' => "6",
        '7' => "7",
        '8' => "8",
        '9' => "9",
        'a' | 'A' => "a",
        'b' | 'B' => "b",
        'c' | 'C' => "c",
        'd' | 'D' => "d",
        'e' | 'E' => "e",
        'f' | 'F' => "f",
        _ => "-",
    }
}

/// The canonical (lower-case) form of a validated UUID string; identifiers
/// are stored and compared in this form, so either input case names the
/// same account.
pub fn canonical_uuid(s: &str) -> (r: String)
    requires
        is_uuid_str(s@),
    ensures
        r@ == canonical_uuid_of(s@),
        is_uuid_str(r@),
{
    let mut out = String::new();
    let mut i: usize = 0;
    while i < 36
        invariant
            is_uuid_str(s@),
            i <= 36,
            out@ =~= canonical_uuid_of(s@).take(i as int),
        decreases 36 - i,
    {
        let c = s.get_char(i);
        out.append(lower_uuid_char(c));
        proof {
            assert(out@ =~= canonical_uuid_of(s@).take(i as int + 1));
        }
        i = i + 1;
    }
    proof {
        assert(out@ =~= canonical_uuid_of(s@));
        assert forall|q: int| 0 <= q < 36 implies (if q == 8 || q == 13 || q == 18 || q == 23 {
            out@[q] == '-'
        } else {
            is_hex_char(#[trigger] out@[q])
        }) by {
            assert(out@[q] == lower_hex_char(s@[q]));
        }
    }
    out
}

/// Relies on `Uuid::new_v4` and its hyphenated rendering: a fresh
/// identifier, 36 lower-case characters in the canonical five groups,
/// different on every call.
#[verifier::external_body]
pub fn fresh_uuid() -> (r: String)
    ensures
        is_uuid_str(r@),
        canonical_uuid_of(r@) == r@,
{
    uuid::Uuid::new_v4().as_hyphenated().to_string()
}

} // verus!
