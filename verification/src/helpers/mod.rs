//! Small shared pieces: the byte codec for persisted rows, hex strings,
//! the typed key-value store, identifier handling, and the clock.

use vstd::prelude::*;

use std::time::{SystemTime, UNIX_EPOCH};

use vstd::string::StringSliceAdditionalSpecFns;

pub mod codec;
pub mod db;
pub mod hex;
pub mod uuid;

verus! {

/// Compares two strings by their text.
pub fn str_eq(a: &str, b: &str) -> (r: bool)
    ensures
        r == (a@ == b@),
{
    let ab = a.as_bytes_vec();
    let bb = b.as_bytes_vec();
    if ab.len() != bb.len() {
        proof {
            assert(a@ != b@);
        }
        return false;
    }
    let n = ab.len();
    let mut i: usize = 0;
    while i < n
        invariant
            n == ab@.len() == bb@.len(),
            ab@ == a.spec_bytes(),
            bb@ == b.spec_bytes(),
            i <= n,
            forall|q: int| 0 <= q < i ==> ab@[q] == bb@[q],
        decreases n - i,
    {
        if ab[i] != bb[i] {
            proof {
                assert(a.spec_bytes() != b.spec_bytes());
                assert(a@ != b@);
            }
            return false;
        }
        i = i + 1;
    }
    proof {
        assert(a.spec_bytes() =~= b.spec_bytes());
        vstd::utf8::encode_utf8_decode_utf8(a@);
        vstd::utf8::encode_utf8_decode_utf8(b@);
    }
    true
}

/// The decimal rendering of a number.
pub open spec fn dec_str_of(x: u64) -> Seq<char>
    decreases x,
{
    if x < 10 {
        seq![dec_digit(x)]
    } else {
        dec_str_of(x / 10) + seq![dec_digit(x % 10)]
    }
}

pub open spec fn dec_digit(x: u64) -> char {
    (48 + (x % 10)) as char
}

/// One decimal digit as a string.
fn dec_digit_str(x: u64) -> (r: &'static str)
    requires
        x < 10,
    ensures
        r@ =~= seq![dec_digit(x)],
{
    proof {
        reveal_strlit("0");
        reveal_strlit("1");
        reveal_strlit("2");
        reveal_strlit("3");
        reveal_strlit("4");
        reveal_strlit("5");
        reveal_strlit("6");
        reveal_strlit("7");
        reveal_strlit("8");
        reveal_strlit("9");
    }
    match x {
        0 => "0",
        1 => "1",
        2 => "2",
        3 => "3",
        4 => "4",
        5 => "5",
        6 => "6",
        7 => "7",
        8 => "8",
        _ => "9",
    }
}

/// Renders a number in decimal.
pub fn u64_dec_str(x: u64) -> (r: String)
    ensures
        r@ == dec_str_of(x),
    decreases x,
{
    if x < 10 {
        let mut out = String::new();
        out.append(dec_digit_str(x));
        proof {
            assert(out@ =~= dec_str_of(x));
        }
        out
    } else {
        let mut out = u64_dec_str(x / 10);
        out.append(dec_digit_str(x % 10));
        proof {
            assert(out@ =~= dec_str_of(x));
        }
        out
    }
}

/// Relies on `SystemTime::now`: the current time in whole seconds since
/// the Unix epoch, or zero should the clock read earlier than that.
/// Nothing is assumed of the value: callers take it as an argument.
#[verifier::external_body]
pub fn timestamp() -> u64 {
    SystemTime::now().duration_since(UNIX_EPOCH).unwrap_or(Default::default()).as_secs()
}

} // verus!
