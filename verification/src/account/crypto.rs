//! The boundary to the wallet-crypto library.
//!
//! Everything the library's logic reads out of the crypto layer is carried
//! as plain values: a diversifier as a `u128`, a field element as [`Fr256`],
//! a key as its 32-byte form. Each function of the crypto layer that the
//! logic relies on stands here behind one trusted wrapper whose result is
//! named by an uninterpreted spec function: the same arguments always give
//! the same value, and nothing more is assumed of it.

use vstd::prelude::*;

use libzkbob_rs::libzeropool::POOL_PARAMS;
use libzkbob_rs::libzeropool::fawkes_crypto::ff_uint::{Num, NumRepr, Uint};
use libzkbob_rs::libzeropool::native::cipher;
use libzkbob_rs::libzeropool::native::key::derive_key_p_d;
use libzkbob_rs::delegated_deposit::MemoDelegatedDeposit;
use libzkbob_rs::address::format_address;
use libzkbob_rs::keys::Keys;
use libzkbob_rs::utils::zero_account;
use libzkbob_rs::random::CustomRng;
use libzkbob_rs::libzeropool::fawkes_crypto::rand::RngCore;
use libzkbob_rs::libzeropool::fawkes_crypto::BorshSerialize;

use crate::Fr256;
use crate::account::tx_parser::{PlainNote, ShieldedAccount};

verus! {

/// How many bytes one delegated-deposit entry occupies in a memo:
/// an 8-byte id, a 10-byte diversifier, a 32-byte receiver key part and an
/// 8-byte amount.
pub const DD_ENTRY_SIZE: usize = 58;

/// The big-endian value of a byte string.
pub open spec fn be_nat(b: Seq<u8>) -> nat
    decreases b.len(),
{
    if b.len() == 0 {
        0
    } else {
        (be_nat(b.drop_last()) * 256 + b.last()) as nat
    }
}

pub open spec fn pow256(n: nat) -> nat
    decreases n,
{
    if n == 0 {
        1
    } else {
        256 * pow256((n - 1) as nat)
    }
}

pub proof fn lemma_be_nat_bound(b: Seq<u8>)
    ensures
        be_nat(b) < pow256(b.len()),
    decreases b.len(),
{
    if b.len() > 0 {
        lemma_be_nat_bound(b.drop_last());
    }
}

/// The [`Fr256`] reading of a 32-byte big-endian string.
pub open spec fn fr256_from_be(b: Seq<u8>) -> Fr256 {
    Fr256 { hi: be_nat(b.subrange(0, 16)) as u128, lo: be_nat(b.subrange(16, 32)) as u128 }
}

/// Reads the big-endian value of `b[from..from + 8]`.
pub fn be_u64_at(b: &[u8], from: usize) -> (r: u64)
    requires
        from + 8 <= b@.len(),
    ensures
        (r as nat) == be_nat(b@.subrange(from as int, from as int + 8)),
{
    let blen = b.len();
    let mut acc: u64 = 0;
    let mut i: usize = 0;
    while i < 8
        invariant
            blen == b@.len(),
            i <= 8,
            from + 8 <= blen,
            (acc as nat) == be_nat(b@.subrange(from as int, from as int + i)),
            (acc as nat) < pow256(i as nat),
        decreases 8 - i,
    {
        proof {
            assert(b@.subrange(from as int, from as int + i + 1).drop_last() == b@.subrange(
                from as int,
                from as int + i,
            ));
            reveal_with_fuel(pow256, 9);
            assert(pow256(8) == 0x1_0000_0000_0000_0000);
            assert(pow256((i + 1) as nat) == 256 * pow256(i as nat) || i >= 8);
        }
        acc = acc * 256 + (b[from + i] as u64);
        i = i + 1;
    }
    acc
}

/// Reads the big-endian value of `b[from..from + 16]`.
pub fn be_u128_at(b: &[u8], from: usize) -> (r: u128)
    requires
        from + 16 <= b@.len(),
    ensures
        (r as nat) == be_nat(b@.subrange(from as int, from as int + 16)),
{
    let blen = b.len();
    let mut acc: u128 = 0;
    let mut i: usize = 0;
    while i < 16
        invariant
            blen == b@.len(),
            i <= 16,
            from + 16 <= blen,
            (acc as nat) == be_nat(b@.subrange(from as int, from as int + i)),
            (acc as nat) < pow256(i as nat),
        decreases 16 - i,
    {
        proof {
            assert(b@.subrange(from as int, from as int + i + 1).drop_last() == b@.subrange(
                from as int,
                from as int + i,
            ));
            reveal_with_fuel(pow256, 17);
            assert(pow256(16) == 0x1_0000_0000_0000_0000_0000_0000_0000_0000);
            assert(pow256((i + 1) as nat) == 256 * pow256(i as nat) || i >= 16);
        }
        acc = acc * 256 + (b[from + i] as u128);
        i = i + 1;
    }
    acc
}

/// Reads the big-endian value of `b[from..to]`, for ranges of at most 16
/// bytes.
pub fn be_u128_range(b: &[u8], from: usize, to: usize) -> (r: u128)
    requires
        from <= to <= b@.len(),
        to - from <= 16,
    ensures
        (r as nat) == be_nat(b@.subrange(from as int, to as int)),
{
    let blen = b.len();
    let mut acc: u128 = 0;
    let mut i: usize = from;
    while i < to
        invariant
            blen == b@.len(),
            from <= i <= to <= blen,
            to - from <= 16,
            (acc as nat) == be_nat(b@.subrange(from as int, i as int)),
            (acc as nat) < pow256((i - from) as nat),
        decreases to - i,
    {
        proof {
            assert(b@.subrange(from as int, i as int + 1).drop_last() == b@.subrange(
                from as int,
                i as int,
            ));
            reveal_with_fuel(pow256, 17);
            assert(pow256(16) == 0x1_0000_0000_0000_0000_0000_0000_0000_0000);
            assert(pow256((i - from + 1) as nat) == 256 * pow256((i - from) as nat) || i - from
                >= 16);
            lemma_pow256_le((i - from + 1) as nat, 16);
        }
        acc = acc * 256 + (b[i] as u128);
        i = i + 1;
    }
    acc
}

pub proof fn lemma_pow256_le(m: nat, n: nat)
    requires
        m <= n,
    ensures
        pow256(m) <= pow256(n),
    decreases n,
{
    if m < n {
        lemma_pow256_le(m, (n - 1) as nat);
        assert(pow256(n) == 256 * pow256((n - 1) as nat));
    }
}

/// Reads a 32-byte big-endian field value starting at `from`.
pub fn fr256_at(b: &[u8], from: usize) -> (r: Fr256)
    requires
        from + 32 <= b@.len(),
    ensures
        r == fr256_from_be(b@.subrange(from as int, from as int + 32)),
{
    let blen = b.len();
    let hi = be_u128_at(b, from);
    let lo = be_u128_at(b, from + 16);
    proof {
        let s = b@.subrange(from as int, from as int + 32);
        assert(s.subrange(0, 16) == b@.subrange(from as int, from as int + 16));
        assert(s.subrange(16, 32) == b@.subrange(from as int + 16, from as int + 32));
        lemma_be_nat_bound(s.subrange(0, 16));
        lemma_be_nat_bound(s.subrange(16, 32));
        reveal_with_fuel(pow256, 17);
        assert(pow256(16) == 0x1_0000_0000_0000_0000_0000_0000_0000_0000);
    }
    Fr256 { hi, lo }
}

/// Reads the little-endian value of `b[from..from + 4]`.
pub fn le_u32_at(b: &[u8], from: usize) -> (r: u32)
    requires
        from + 4 <= b@.len(),
    ensures
        (r as nat) == be_nat(
            seq![
                b@[from as int + 3],
                b@[from as int + 2],
                b@[from as int + 1],
                b@[from as int],
            ],
        ),
{
    let b0 = b[from] as u32;
    let b1 = b[from + 1] as u32;
    let b2 = b[from + 2] as u32;
    let b3 = b[from + 3] as u32;
    let r = b0 + b1 * 0x100 + b2 * 0x1_0000 + b3 * 0x100_0000;
    proof {
        reveal_with_fuel(be_nat, 5);
        let s = seq![b@[from as int + 3], b@[from as int + 2], b@[from as int + 1], b@[from as int]];
        assert(s.drop_last() =~= seq![b@[from as int + 3], b@[from as int + 2], b@[from as int + 1]]);
        assert(s.drop_last().drop_last() =~= seq![b@[from as int + 3], b@[from as int + 2]]);
        assert(s.drop_last().drop_last().drop_last() =~= seq![b@[from as int + 3]]);
        assert(s.drop_last().drop_last().drop_last().drop_last() =~= Seq::<u8>::empty());
    }
    r
}

// What follows is the trusted boundary: each function relies on one
// operation of the wallet-crypto library, converts between its field types
// and the library's plain values, and promises nothing beyond what the
// named result expresses.

/// The viewing key `eta` and symmetric key `kappa` derived from a secret
/// seed.
pub uninterp spec fn keys_of(seed: Seq<u8>) -> (Fr256, Fr256);

/// What decrypting a memo as its sender yields: the account state and the
/// minted notes, or nothing when the key does not match.
pub uninterp spec fn decrypt_out_of(eta: Fr256, kappa: Fr256, memo: Seq<u8>) -> Option<
    (ShieldedAccount, Seq<PlainNote>),
>;

/// What per-note receiver decryption of a memo yields.
pub uninterp spec fn decrypt_in_of(eta: Fr256, memo: Seq<u8>) -> Seq<Option<PlainNote>>;

/// The receiver key part derived from a note diversifier and a viewing key.
pub uninterp spec fn derived_p_d(d: u128, eta: Fr256) -> Fr256;

/// The tree-leaf row of a delegated-deposit memo: the zero account's hash
/// followed by the hash of each of the first `n` deposit entries' notes.
pub uninterp spec fn dd_leaf_row_of(memo: Seq<u8>, n: int) -> Seq<Fr256>;

/// A 32-byte big-endian value reduced into the field.
pub uninterp spec fn fr_reduce_be(b: Seq<u8>) -> Fr256;

/// A 32-byte little-endian value reduced into the field.
pub uninterp spec fn fr_reduce_le(b: Seq<u8>) -> Fr256;

/// The shielded address formatted from a diversifier, a receiver key part
/// and an optional pool id.
pub uninterp spec fn address_of(d: u128, p_d: Fr256, pool_id: Option<u32>) -> Seq<char>;

/// The secret key reduced into the scalar field, in its 32-byte serialised
/// form.
pub uninterp spec fn reduced_sk_of(seed: Seq<u8>) -> Seq<u8>;

/// Relies on `reduce_sk` and `Keys::derive` of the wallet library: the
/// derived keys depend on the seed alone. The scalar reading accepts at
/// most 32 seed bytes; longer input would abort inside the library, so it
/// is excluded here.
#[verifier::external_body]
pub fn derive_account_keys(seed: &Vec<u8>) -> (r: (Fr256, Fr256))
    requires
        seed@.len() <= 32,
    ensures
        r == keys_of(seed@),
{
    let keys = Keys::derive(libzkbob_rs::keys::reduce_sk(seed), &*POOL_PARAMS);
    let eta = fr256_at(&keys.eta.to_uint().0.to_big_endian(), 0);
    let kappa = fr256_at(&keys.kappa, 0);
    (eta, kappa)
}

/// Carries one decrypted note of the cipher layer between trusted
/// wrappers; Verus refuses the note type's own generic declaration, so
/// the value is held opaquely.
#[verifier::external_body]
struct CipherNote {
    inner: libzkbob_rs::libzeropool::native::note::Note<
        libzkbob_rs::libzeropool::fawkes_crypto::engines::bn256::Fr,
    >,
}

/// Carries one decrypted account state of the cipher layer.
#[verifier::external_body]
struct CipherAccount {
    inner: libzkbob_rs::libzeropool::native::account::Account<
        libzkbob_rs::libzeropool::fawkes_crypto::engines::bn256::Fr,
    >,
}

/// The plain form of one decrypted note: each field rendered through its
/// big-endian byte form.
#[verifier::external_body]
fn note_plain(n: &CipherNote) -> PlainNote {
    let n = &n.inner;
    PlainNote {
        d: be_u128_at(&n.d.to_num().to_uint().0.to_big_endian(), 16),
        p_d: fr256_at(&n.p_d.to_uint().0.to_big_endian(), 0),
        b: be_u64_at(&n.b.to_num().to_uint().0.to_big_endian(), 24),
        t: be_u128_at(&n.t.to_num().to_uint().0.to_big_endian(), 16),
    }
}

/// The plain form of one decrypted account state.
#[verifier::external_body]
fn account_plain(a: &CipherAccount) -> ShieldedAccount {
    let a = &a.inner;
    ShieldedAccount {
        d: be_u128_at(&a.d.to_num().to_uint().0.to_big_endian(), 16),
        p_d: fr256_at(&a.p_d.to_uint().0.to_big_endian(), 0),
        i: be_u64_at(&a.i.to_num().to_uint().0.to_big_endian(), 24),
        b: be_u64_at(&a.b.to_num().to_uint().0.to_big_endian(), 24),
        e: be_u128_at(&a.e.to_num().to_uint().0.to_big_endian(), 16),
    }
}

/// Relies on `cipher::decrypt_out`: whether a memo decrypts as sender, and
/// what it holds, depend on the keys and the memo alone. Each decrypted
/// note takes well over one memo byte, so the note count is bounded by the
/// memo length; diversifiers are 80-bit bounded numbers in the source, so
/// their plain forms stay below 2^80.
#[verifier::external_body]
pub fn try_decrypt_out(eta: &Fr256, kappa: &Fr256, memo: &Vec<u8>) -> (r: Option<
    (ShieldedAccount, Vec<PlainNote>),
>)
    ensures
        match r {
            None => decrypt_out_of(*eta, *kappa, memo@) is None,
            Some((acc, notes)) => decrypt_out_of(*eta, *kappa, memo@) == Some((acc, notes@))
                && notes@.len() <= memo@.len() && acc.d < 0x1_0000_0000_0000_0000_0000 && (
            forall|i: int|
                0 <= i < notes@.len() ==> (#[trigger] notes@[i]).d
                    < 0x1_0000_0000_0000_0000_0000),
        },
{
    let e: Num<libzkbob_rs::libzeropool::fawkes_crypto::engines::bn256::Fr> =
        Num::from_uint_reduced(NumRepr(Uint::from_big_endian(&fr256_bytes(eta))));
    let k: [u8; 32] = fr256_bytes(kappa).try_into().unwrap_or([0u8; 32]);
    cipher::decrypt_out(e, &k, memo, &*POOL_PARAMS).map(
        |(a, ns)| (
            account_plain(&CipherAccount { inner: a }),
            ns.into_iter().map(|n| note_plain(&CipherNote { inner: n })).collect(),
        ),
    )
}

/// Relies on `cipher::decrypt_in`: the per-note decryption outcome depends
/// on the viewing key and the memo alone. One entry is returned per note
/// item of the memo, each taking well over one memo byte; diversifiers are
/// 80-bit bounded numbers in the source, so their plain forms stay below
/// 2^80.
#[verifier::external_body]
pub fn try_decrypt_in(eta: &Fr256, memo: &Vec<u8>) -> (r: Vec<Option<PlainNote>>)
    ensures
        r@ == decrypt_in_of(*eta, memo@),
        r@.len() <= memo@.len(),
        forall|i: int|
            0 <= i < r@.len() ==> (match #[trigger] r@[i] {
                Some(n) => n.d < 0x1_0000_0000_0000_0000_0000,
                None => true,
            }),
{
    let e: Num<libzkbob_rs::libzeropool::fawkes_crypto::engines::bn256::Fr> =
        Num::from_uint_reduced(NumRepr(Uint::from_big_endian(&fr256_bytes(eta))));
    cipher::decrypt_in(e, memo, &*POOL_PARAMS)
        .into_iter()
        .map(|n| n.map(|n| note_plain(&CipherNote { inner: n })))
        .collect()
}

/// Relies on `derive_key_p_d`: the receiver key part depends on the
/// diversifier and the viewing key alone.
#[verifier::external_body]
pub fn derive_note_p_d(d: u128, eta: &Fr256) -> (r: Fr256)
    ensures
        r == derived_p_d(d, *eta),
{
    let e: Num<libzkbob_rs::libzeropool::fawkes_crypto::engines::bn256::Fr> =
        Num::from_uint_reduced(NumRepr(Uint::from_big_endian(&fr256_bytes(eta))));
    let dn: Num<libzkbob_rs::libzeropool::fawkes_crypto::engines::bn256::Fr> =
        Num::from_uint_reduced(NumRepr(Uint::from_big_endian(&d.to_be_bytes())));
    fr256_at(&derive_key_p_d(dn, e, &*POOL_PARAMS).x.to_uint().0.to_big_endian(), 0)
}

/// Relies on `zero_account`, `MemoDelegatedDeposit::read` and the note
/// hash of the wallet library: the leaf row of a delegated-deposit memo
/// depends on the memo bytes and the entry count alone.
#[verifier::external_body]
pub fn dd_leaf_row(memo: &Vec<u8>, n: usize) -> (r: Vec<Fr256>)
    requires
        4 + n * DD_ENTRY_SIZE <= memo@.len(),
    ensures
        r@ == dd_leaf_row_of(memo@, n as int),
        r@.len() == n + 1,
{
    let p = &*POOL_PARAMS;
    let mut out = vec![fr256_at(&zero_account().hash(p).to_uint().0.to_big_endian(), 0)];
    for c in memo[4..].chunks(DD_ENTRY_SIZE).take(n) {
        let d = MemoDelegatedDeposit::read(c).unwrap();
        let h = d.to_delegated_deposit().to_note().hash(p);
        out.push(fr256_at(&h.to_uint().0.to_big_endian(), 0));
    }
    out
}

/// Relies on `Num::from_uint_reduced` over a big-endian reading.
#[verifier::external_body]
pub fn fr_reduce_be_at(b: &[u8], from: usize) -> (r: Fr256)
    requires
        from + 32 <= b@.len(),
    ensures
        r == fr_reduce_be(b@.subrange(from as int, from as int + 32)),
{
    let n: Num<libzkbob_rs::libzeropool::fawkes_crypto::engines::bn256::Fr> =
        Num::from_uint_reduced(NumRepr(Uint::from_big_endian(&b[from..from + 32])));
    fr256_at(&n.to_uint().0.to_big_endian(), 0)
}

/// Relies on `Num::from_uint_reduced` over a big-endian reading.
#[verifier::external_body]
pub fn fr_from_be_bytes(b: &[u8]) -> (r: Fr256)
    requires
        b@.len() == 32,
    ensures
        r == fr_reduce_be(b@),
{
    let n: Num<libzkbob_rs::libzeropool::fawkes_crypto::engines::bn256::Fr> =
        Num::from_uint_reduced(NumRepr(Uint::from_big_endian(b)));
    fr256_at(&n.to_uint().0.to_big_endian(), 0)
}

/// Relies on `Num::from_uint_reduced` over a little-endian reading.
#[verifier::external_body]
pub fn fr_from_le_bytes(b: &[u8]) -> (r: Fr256)
    requires
        b@.len() == 32,
    ensures
        r == fr_reduce_le(b@),
{
    let n: Num<libzkbob_rs::libzeropool::fawkes_crypto::engines::bn256::Fr> =
        Num::from_uint_reduced(NumRepr(Uint::from_little_endian(b)));
    fr256_at(&n.to_uint().0.to_big_endian(), 0)
}

/// Relies on `format_address`: the address depends on the diversifier, the
/// receiver key part and the pool id alone, and is never empty (it is the
/// base58 form of a 46-byte buffer). A diversifier is an 80-bit value;
/// anything wider would abort the library's bounded-number construction,
/// so it is excluded here.
#[verifier::external_body]
pub fn format_shielded_address(d: u128, p_d: &Fr256, pool_id: Option<u32>) -> (r: String)
    requires
        d < 0x1_0000_0000_0000_0000_0000,
    ensures
        r@ == address_of(d, *p_d, pool_id),
        r@.len() > 0,
{
    let dn: Num<libzkbob_rs::libzeropool::fawkes_crypto::engines::bn256::Fr> =
        Num::from_uint_reduced(NumRepr(Uint::from_big_endian(&d.to_be_bytes())));
    let pn: Num<libzkbob_rs::libzeropool::fawkes_crypto::engines::bn256::Fr> =
        Num::from_uint_reduced(NumRepr(Uint::from_big_endian(&fr256_bytes(p_d))));
    format_address::<libzkbob_rs::libzeropool::native::params::PoolBN256>(
        libzkbob_rs::libzeropool::native::boundednum::BoundedNum::new(dn),
        pn,
        pool_id,
    )
}

/// Relies on the wallet library's randomness source; a fresh 10-byte
/// diversifier, different on every call.
#[verifier::external_body]
pub fn random_diversifier_bytes() -> (r: Vec<u8>)
    ensures
        r@.len() == 10,
{
    let mut rng = CustomRng;
    let mut b = [0u8; 10];
    rng.fill_bytes(&mut b);
    b.to_vec()
}

/// Relies on `reduce_sk` and borsh serialisation of the scalar: the
/// exported key form depends on the seed alone and is 32 bytes long. The
/// scalar reading accepts at most 32 seed bytes; longer input would abort
/// inside the library, so it is excluded here.
#[verifier::external_body]
pub fn reduced_sk_bytes(seed: &Vec<u8>) -> (r: Vec<u8>)
    requires
        seed@.len() <= 32,
    ensures
        r@ == reduced_sk_of(seed@),
        r@.len() == 32,
{
    let sk: Num<libzkbob_rs::libzeropool::fawkes_crypto::engines::bn256::Fs> =
        libzkbob_rs::keys::reduce_sk(seed);
    sk.try_to_vec().unwrap()
}

/// Byte `i` of the 32-byte big-endian form of an [`Fr256`].
pub open spec fn fr256_be_byte(x: Fr256, i: int) -> u8 {
    if i < 16 {
        (x.hi >> ((8 * (15 - i)) as u128)) as u8
    } else {
        (x.lo >> ((8 * (31 - i)) as u128)) as u8
    }
}

/// The 32-byte big-endian form of an [`Fr256`], used to hand values back
/// to the crypto layer.
pub fn fr256_bytes(x: &Fr256) -> (r: Vec<u8>)
    ensures
        r@.len() == 32,
        forall|i: int| 0 <= i < 32 ==> r@[i] == fr256_be_byte(*x, i),
{
    let mut out: Vec<u8> = Vec::new();
    let mut i: usize = 0;
    while i < 16
        invariant
            i <= 16,
            out@.len() == i,
            forall|q: int| 0 <= q < i ==> out@[q] == fr256_be_byte(*x, q),
        decreases 16 - i,
    {
        out.push(#[verifier::truncate] ((x.hi >> ((8 * (15 - i)) as u128)) as u8));
        i = i + 1;
    }
    while i < 32
        invariant
            16 <= i <= 32,
            out@.len() == i,
            forall|q: int| 0 <= q < i ==> out@[q] == fr256_be_byte(*x, q),
        decreases 32 - i,
    {
        out.push(#[verifier::truncate] ((x.lo >> ((8 * (31 - i)) as u128)) as u8));
        i = i + 1;
    }
    out
}

} // verus!
