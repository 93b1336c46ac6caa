//! The canonical byte form of every row the store persists.
//!
//! A row is a sequence of fields: fixed-width little-endian integers,
//! length-prefixed byte strings, UTF-8 text, and one-byte tags for options
//! and enum variants. Encoding is a spec-level function; every decoder
//! returns exactly what the corresponding reader spec says, and decoding
//! inverts encoding.

use vstd::prelude::*;

use vstd::utf8::{decode_utf8, encode_utf8, valid_utf8};

verus! {

// --- Field encodings, at spec level ------------------------------------

#[verifier::opaque]
pub open spec fn le64_bytes(x: u64) -> Seq<u8> {
    seq![
        x as u8,
        (x >> 8) as u8,
        (x >> 16) as u8,
        (x >> 24) as u8,
        (x >> 32) as u8,
        (x >> 40) as u8,
        (x >> 48) as u8,
        (x >> 56) as u8,
    ]
}

#[verifier::opaque]
pub open spec fn le64_val(b: Seq<u8>) -> u64 {
    (b[0] as u64) | (b[1] as u64) << 8 | (b[2] as u64) << 16 | (b[3] as u64) << 24 | (
    b[4] as u64) << 32 | (b[5] as u64) << 40 | (b[6] as u64) << 48 | (b[7] as u64) << 56
}

/// A 64-bit field always occupies eight bytes.
pub broadcast proof fn lemma_le64_bytes_len(x: u64)
    ensures
        (#[trigger] le64_bytes(x)).len() == 8,
{
    reveal(le64_bytes);
}

/// A 128-bit field always occupies sixteen bytes.
pub broadcast proof fn lemma_le128_bytes_len(x: u128)
    ensures
        (#[trigger] le128_bytes(x)).len() == 16,
{
    reveal(le128_bytes);
    broadcast use lemma_le64_bytes_len;

}

pub proof fn lemma_le64_inverse(x: u64)
    ensures
        le64_val(le64_bytes(x)) == x,
{
    reveal(le64_bytes);
    reveal(le64_val);
    assert((x as u8 as u64) | ((x >> 8) as u8 as u64) << 8 | ((x >> 16) as u8 as u64) << 16 | ((x
        >> 24) as u8 as u64) << 24 | ((x >> 32) as u8 as u64) << 32 | ((x >> 40) as u8 as u64)
        << 40 | ((x >> 48) as u8 as u64) << 48 | ((x >> 56) as u8 as u64) << 56 == x)
        by (bit_vector);
}

#[verifier::opaque]
pub open spec fn le128_bytes(x: u128) -> Seq<u8> {
    le64_bytes(x as u64) + le64_bytes((x >> 64) as u64)
}

#[verifier::opaque]
pub open spec fn le128_val(b: Seq<u8>) -> u128 {
    (le64_val(b.subrange(0, 8)) as u128) | (le64_val(b.subrange(8, 16)) as u128) << 64
}

pub proof fn lemma_le128_inverse(x: u128)
    ensures
        le128_val(le128_bytes(x)) == x,
{
    reveal(le128_bytes);
    reveal(le128_val);
    broadcast use lemma_le64_bytes_len;

    lemma_le64_inverse(x as u64);
    lemma_le64_inverse((x >> 64) as u64);
    assert(le128_bytes(x).subrange(0, 8) =~= le64_bytes(x as u64));
    assert(le128_bytes(x).subrange(8, 16) =~= le64_bytes((x >> 64) as u64));
    assert(((x as u64) as u128) | (((x >> 64) as u64) as u128) << 64 == x) by (bit_vector);
}

/// The whole-row encoding of one unsigned 64-bit field.
pub open spec fn enc_u64(x: u64) -> Seq<u8> {
    le64_bytes(x)
}

pub open spec fn enc_u128(x: u128) -> Seq<u8> {
    le128_bytes(x)
}

/// Signed 128-bit values travel in two's complement.
pub open spec fn enc_i128(x: i128) -> Seq<u8> {
    le128_bytes(x as u128)
}

/// A length-prefixed byte string.
pub open spec fn enc_bytes(b: Seq<u8>) -> Seq<u8> {
    enc_u64(b.len() as u64) + b
}

/// Length-prefixed UTF-8 text.
pub open spec fn enc_str(s: Seq<char>) -> Seq<u8> {
    enc_bytes(encode_utf8(s))
}

/// A one-byte tag followed by the payload on `Some`.
pub open spec fn enc_opt_str(s: Option<Seq<char>>) -> Seq<u8> {
    match s {
        None => seq![0u8],
        Some(s) => seq![1u8] + enc_str(s),
    }
}

// --- Readers, at spec level --------------------------------------------

pub open spec fn rd_u8(buf: Seq<u8>, pos: int) -> Option<(u8, int)> {
    if 0 <= pos && pos + 1 <= buf.len() {
        Some((buf[pos], pos + 1))
    } else {
        None
    }
}

pub open spec fn rd_u64(buf: Seq<u8>, pos: int) -> Option<(u64, int)> {
    if 0 <= pos && pos + 8 <= buf.len() {
        Some((le64_val(buf.subrange(pos, pos + 8)), pos + 8))
    } else {
        None
    }
}

pub open spec fn rd_u128(buf: Seq<u8>, pos: int) -> Option<(u128, int)> {
    if 0 <= pos && pos + 16 <= buf.len() {
        Some((le128_val(buf.subrange(pos, pos + 16)), pos + 16))
    } else {
        None
    }
}

pub open spec fn rd_i128(buf: Seq<u8>, pos: int) -> Option<(i128, int)> {
    match rd_u128(buf, pos) {
        Some((v, p)) => Some((v as i128, p)),
        None => None,
    }
}

pub open spec fn rd_bytes(buf: Seq<u8>, pos: int) -> Option<(Seq<u8>, int)> {
    match rd_u64(buf, pos) {
        Some((n, p)) => if p + n <= buf.len() {
            Some((buf.subrange(p, p + n), p + n))
        } else {
            None
        },
        None => None,
    }
}

pub open spec fn rd_str(buf: Seq<u8>, pos: int) -> Option<(Seq<char>, int)> {
    match rd_bytes(buf, pos) {
        Some((b, p)) => if valid_utf8(b) {
            Some((decode_utf8(b), p))
        } else {
            None
        },
        None => None,
    }
}

// --- Placement lemmas: a field encoding reads back from its position ----

pub proof fn lemma_rd_u64_at(buf: Seq<u8>, pos: int, x: u64)
    requires
        0 <= pos,
        pos + 8 <= buf.len(),
        buf.subrange(pos, pos + 8) == enc_u64(x),
    ensures
        rd_u64(buf, pos) == Some((x, pos + 8)),
{
    broadcast use lemma_le64_bytes_len, lemma_le128_bytes_len;

    lemma_le64_inverse(x);
}

pub proof fn lemma_rd_u128_at(buf: Seq<u8>, pos: int, x: u128)
    requires
        0 <= pos,
        pos + 16 <= buf.len(),
        buf.subrange(pos, pos + 16) == enc_u128(x),
    ensures
        rd_u128(buf, pos) == Some((x, pos + 16)),
{
    broadcast use lemma_le64_bytes_len, lemma_le128_bytes_len;

    lemma_le128_inverse(x);
}

pub proof fn lemma_rd_i128_at(buf: Seq<u8>, pos: int, x: i128)
    requires
        0 <= pos,
        pos + 16 <= buf.len(),
        buf.subrange(pos, pos + 16) == enc_i128(x),
    ensures
        rd_i128(buf, pos) == Some((x, pos + 16)),
{
    lemma_rd_u128_at(buf, pos, x as u128);
    assert((x as u128) as i128 == x) by (bit_vector);
}

pub proof fn lemma_rd_bytes_at(buf: Seq<u8>, pos: int, b: Seq<u8>)
    requires
        0 <= pos,
        b.len() <= 0xFFFF_FFFF_FFFF_FFFF,
        pos + enc_bytes(b).len() <= buf.len(),
        buf.subrange(pos, pos + enc_bytes(b).len() as int) == enc_bytes(b),
    ensures
        rd_bytes(buf, pos) == Some((b, pos + 8 + b.len())),
{
    broadcast use lemma_le64_bytes_len, lemma_le128_bytes_len;

    let e = enc_bytes(b);
    assert(e.len() == 8 + b.len());
    assert(buf.subrange(pos, pos + 8) =~= e.subrange(0, 8));
    assert(e.subrange(0, 8) =~= enc_u64(b.len() as u64));
    lemma_rd_u64_at(buf, pos, b.len() as u64);
    assert(buf.subrange(pos + 8, pos + 8 + b.len()) =~= e.subrange(8, e.len() as int));
    assert(e.subrange(8, e.len() as int) =~= b);
}

pub proof fn lemma_rd_str_at(buf: Seq<u8>, pos: int, s: Seq<char>)
    requires
        0 <= pos,
        encode_utf8(s).len() <= 0xFFFF_FFFF_FFFF_FFFF,
        pos + enc_str(s).len() <= buf.len(),
        buf.subrange(pos, pos + enc_str(s).len() as int) == enc_str(s),
    ensures
        rd_str(buf, pos) == Some((s, pos + enc_str(s).len())),
{
    broadcast use vstd::utf8::encode_utf8_valid_utf8, vstd::utf8::encode_utf8_decode_utf8;
    broadcast use lemma_le64_bytes_len, lemma_le128_bytes_len;

    lemma_rd_bytes_at(buf, pos, encode_utf8(s));
}

/// An option field's tag and payload read back from their position.
pub proof fn lemma_rd_opt_str_at(buf: Seq<u8>, pos: int, os: Option<Seq<char>>)
    requires
        0 <= pos,
        (match os {
            Some(s) => encode_utf8(s).len() <= 0xFFFF_FFFF_FFFF_FFFF,
            None => true,
        }),
        pos + enc_opt_str(os).len() <= buf.len(),
        buf.subrange(pos, pos + enc_opt_str(os).len() as int) == enc_opt_str(os),
    ensures
        (match os {
            None => rd_u8(buf, pos) == Some((0u8, pos + 1)),
            Some(s) => rd_u8(buf, pos) == Some((1u8, pos + 1)) && rd_str(buf, pos + 1) == Some(
                (s, pos + enc_opt_str(os).len()),
            ),
        }),
{
    broadcast use lemma_le64_bytes_len, lemma_le128_bytes_len;

    let e = enc_opt_str(os);
    match os {
        None => {
            assert(buf[pos] == e[0]);
        },
        Some(s) => {
            assert(buf[pos] == e[0]);
            let es = enc_str(s);
            assert(buf.subrange(pos + 1, pos + 1 + es.len()) =~= e.subrange(1, e.len() as int));
            assert(e.subrange(1, e.len() as int) =~= es);
            lemma_rd_str_at(buf, pos + 1, s);
        },
    }
}

/// Splitting a concatenation at its seam.
pub proof fn lemma_concat_parts(a: Seq<u8>, b: Seq<u8>)
    ensures
        (a + b).subrange(0, a.len() as int) == a,
        (a + b).subrange(a.len() as int, (a + b).len() as int) == b,
{
    assert((a + b).subrange(0, a.len() as int) =~= a);
    assert((a + b).subrange(a.len() as int, (a + b).len() as int) =~= b);
}

/// A subrange of a prefix is a subrange of the whole.
pub proof fn lemma_subrange_of_prefix(s: Seq<u8>, x: int, y: int, z: int)
    requires
        0 <= x <= y <= z <= s.len(),
    ensures
        s.subrange(0, z).subrange(x, y) == s.subrange(x, y),
{
    assert(s.subrange(0, z).subrange(x, y) =~= s.subrange(x, y));
}

// --- Executable writers and readers -------------------------------------

pub fn put_u8(out: &mut Vec<u8>, x: u8)
    ensures
        final(out)@ == old(out)@ + seq![x],
{
    out.push(x);
}

pub fn put_u64(out: &mut Vec<u8>, x: u64)
    ensures
        final(out)@ == old(out)@ + enc_u64(x),
{
    let ghost pre = out@;
    out.push(x as u8);
    out.push((x >> 8) as u8);
    out.push((x >> 16) as u8);
    out.push((x >> 24) as u8);
    out.push((x >> 32) as u8);
    out.push((x >> 40) as u8);
    out.push((x >> 48) as u8);
    out.push((x >> 56) as u8);
    proof {
        reveal(le64_bytes);
        assert(out@ =~= pre + enc_u64(x));
    }
}

pub fn put_u128(out: &mut Vec<u8>, x: u128)
    ensures
        final(out)@ == old(out)@ + enc_u128(x),
{
    let ghost pre = out@;
    put_u64(out, x as u64);
    put_u64(out, (x >> 64) as u64);
    proof {
        reveal(le128_bytes);
        assert(out@ =~= pre + enc_u128(x));
    }
}

pub fn put_i128(out: &mut Vec<u8>, x: i128)
    ensures
        final(out)@ == old(out)@ + enc_i128(x),
{
    put_u128(out, x as u128);
}

pub fn put_bytes(out: &mut Vec<u8>, b: &Vec<u8>)
    ensures
        final(out)@ == old(out)@ + enc_bytes(b@),
{
    proof {
        broadcast use lemma_le64_bytes_len;

    }
    let ghost pre = out@;
    put_u64(out, b.len() as u64);
    let mut i: usize = 0;
    while i < b.len()
        invariant
            i <= b@.len(),
            out@ == pre + enc_u64(b@.len() as u64) + b@.take(i as int),
        decreases b@.len() - i,
    {
        out.push(b[i]);
        proof {
            assert(pre + enc_u64(b@.len() as u64) + b@.take(i as int) + seq![b@[i as int]] =~= pre
                + enc_u64(b@.len() as u64) + b@.take(i as int + 1));
        }
        i = i + 1;
    }
    proof {
        assert(b@.take(b@.len() as int) =~= b@);
        assert(pre + enc_u64(b@.len() as u64) + b@ =~= pre + enc_bytes(b@));
    }
}

pub fn put_str(out: &mut Vec<u8>, s: &str)
    ensures
        final(out)@ == old(out)@ + enc_str(s@),
{
    let b = s.as_bytes_vec();
    put_bytes(out, &b);
}

pub fn put_opt_str(out: &mut Vec<u8>, s: &Option<String>)
    ensures
        final(out)@ == old(out)@ + enc_opt_str(match s {
            Some(s) => Some(s@),
            None => None,
        }),
{
    let ghost pre = out@;
    match s {
        None => {
            out.push(0u8);
            proof {
                assert(out@ =~= pre + enc_opt_str(None));
            }
        },
        Some(s) => {
            out.push(1u8);
            put_str(out, s.as_str());
            proof {
                assert(out@ =~= pre + enc_opt_str(Some(s@)));
            }
        },
    }
}

pub fn get_u8(buf: &Vec<u8>, pos: usize) -> (r: Option<(u8, usize)>)
    ensures
        match r {
            Some((v, p)) => rd_u8(buf@, pos as int) == Some((v, p as int)),
            None => rd_u8(buf@, pos as int) is None,
        },
{
    if pos < buf.len() {
        Some((buf[pos], pos + 1))
    } else {
        None
    }
}

pub fn get_u64(buf: &Vec<u8>, pos: usize) -> (r: Option<(u64, usize)>)
    ensures
        match r {
            Some((v, p)) => rd_u64(buf@, pos as int) == Some((v, p as int)),
            None => rd_u64(buf@, pos as int) is None,
        },
{
    if buf.len() < 8 || pos > buf.len() - 8 {
        return None;
    }
    let v = (buf[pos] as u64) | (buf[pos + 1] as u64) << 8 | (buf[pos + 2] as u64) << 16 | (buf[pos
        + 3] as u64) << 24 | (buf[pos + 4] as u64) << 32 | (buf[pos + 5] as u64) << 40 | (buf[pos
        + 6] as u64) << 48 | (buf[pos + 7] as u64) << 56;
    proof {
        reveal(le64_val);
        let s = buf@.subrange(pos as int, pos as int + 8);
        assert(s[0] == buf@[pos as int] && s[1] == buf@[pos as int + 1] && s[2] == buf@[pos as int
            + 2] && s[3] == buf@[pos as int + 3] && s[4] == buf@[pos as int + 4] && s[5]
            == buf@[pos as int + 5] && s[6] == buf@[pos as int + 6] && s[7] == buf@[pos as int
            + 7]);
    }
    Some((v, pos + 8))
}

pub fn get_u128(buf: &Vec<u8>, pos: usize) -> (r: Option<(u128, usize)>)
    ensures
        match r {
            Some((v, p)) => rd_u128(buf@, pos as int) == Some((v, p as int)),
            None => rd_u128(buf@, pos as int) is None,
        },
{
    if buf.len() < 16 || pos > buf.len() - 16 {
        return None;
    }
    let lo = match get_u64(buf, pos) {
        Some((v, _)) => v,
        None => {
            return None;
        },
    };
    let hi = match get_u64(buf, pos + 8) {
        Some((v, _)) => v,
        None => {
            return None;
        },
    };
    let v = (lo as u128) | (hi as u128) << 64;
    proof {
        reveal(le128_val);
        let s = buf@.subrange(pos as int, pos as int + 16);
        assert(s.subrange(0, 8) =~= buf@.subrange(pos as int, pos as int + 8));
        assert(s.subrange(8, 16) =~= buf@.subrange(pos as int + 8, pos as int + 16));
    }
    Some((v, pos + 16))
}

pub fn get_i128(buf: &Vec<u8>, pos: usize) -> (r: Option<(i128, usize)>)
    ensures
        match r {
            Some((v, p)) => rd_i128(buf@, pos as int) == Some((v, p as int)),
            None => rd_i128(buf@, pos as int) is None,
        },
{
    match get_u128(buf, pos) {
        Some((v, p)) => Some((#[verifier::truncate] (v as i128), p)),
        None => None,
    }
}

pub fn get_bytes(buf: &Vec<u8>, pos: usize) -> (r: Option<(Vec<u8>, usize)>)
    ensures
        match r {
            Some((v, p)) => rd_bytes(buf@, pos as int) == Some((v@, p as int)),
            None => rd_bytes(buf@, pos as int) is None,
        },
{
    let (n, p) = match get_u64(buf, pos) {
        Some(x) => x,
        None => {
            return None;
        },
    };
    let remaining = buf.len() - p;
    if n > remaining as u64 {
        proof {
            assert(p + n > buf@.len());
        }
        return None;
    }
    let end = p + (n as usize);
    let mut out: Vec<u8> = Vec::new();
    let mut i: usize = p;
    while i < end
        invariant
            p <= i <= end,
            end <= buf@.len(),
            out@ =~= buf@.subrange(p as int, i as int),
        decreases end - i,
    {
        out.push(buf[i]);
        proof {
            assert(out@ =~= buf@.subrange(p as int, i as int + 1));
        }
        i = i + 1;
    }
    Some((out, end))
}

/// Relies on `String::from_utf8`: valid UTF-8 bytes decode to exactly
/// their character sequence, and anything else is rejected.
#[verifier::external_body]
pub fn string_from_utf8(bytes: Vec<u8>) -> (r: Option<String>)
    ensures
        match r {
            Some(s) => valid_utf8(bytes@) && s@ == decode_utf8(bytes@),
            None => !valid_utf8(bytes@),
        },
{
    String::from_utf8(bytes).ok()
}

pub fn get_str(buf: &Vec<u8>, pos: usize) -> (r: Option<(String, usize)>)
    ensures
        match r {
            Some((v, p)) => rd_str(buf@, pos as int) == Some((v@, p as int)),
            None => rd_str(buf@, pos as int) is None,
        },
{
    let (b, p) = match get_bytes(buf, pos) {
        Some(x) => x,
        None => {
            return None;
        },
    };
    match string_from_utf8(b) {
        Some(s) => Some((s, p)),
        None => None,
    }
}

pub fn get_opt_str(buf: &Vec<u8>, pos: usize) -> (r: Option<(Option<String>, usize)>)
    ensures
        match r {
            Some((v, p)) => match rd_u8(buf@, pos as int) {
                Some((0u8, q)) => v is None && p == q,
                Some((1u8, q)) => v matches Some(s) && rd_str(buf@, q) == Some((s@, p as int)),
                _ => false,
            },
            None => rd_u8(buf@, pos as int) is None || (match rd_u8(buf@, pos as int) {
                Some((t, q)) => (t == 1u8 && rd_str(buf@, q) is None) || t > 1,
                None => true,
            }),
        },
{
    let (tag, p) = match get_u8(buf, pos) {
        Some(x) => x,
        None => {
            return None;
        },
    };
    if tag == 0 {
        Some((None, p))
    } else if tag == 1 {
        match get_str(buf, p) {
            Some((s, q)) => Some((Some(s), q)),
            None => None,
        }
    } else {
        None
    }
}

} // verus!
