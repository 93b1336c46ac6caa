//! Persistence of the coordinator's rows: accounts, transfer tasks and
//! parts, the chain-hash index, and report tasks.
//!
//! Rows are laid out by the byte codec of [`crate::helpers::codec`]; a
//! transfer task and all its parts go to the store in one atomic write.
//! Decoding a row read back yields a value whose every field matches what
//! was written — strings by their text, statuses by their tag and detail.

use vstd::prelude::*;

use crate::cloud::types::{part_id_of, AccountData, AccountReport, Report, ReportStatus, ReportTask, TransferPart, TransferStatus, TransferTask};
use crate::errors::CloudError;
use crate::helpers::db::KeyValueDb;
use crate::helpers::codec::{
    enc_opt_str, enc_str, enc_u64, get_opt_str, get_str, get_u64, get_u8, lemma_concat_parts,
    lemma_rd_opt_str_at, lemma_rd_str_at, lemma_rd_u64_at, lemma_subrange_of_prefix, put_opt_str,
    put_str, put_u64, put_u8, rd_str, rd_u64, rd_u8,
};

verus! {

broadcast use crate::helpers::codec::lemma_le64_bytes_len, crate::helpers::codec::lemma_le128_bytes_len;

/// The columns of the coordinator's store.
#[derive(Clone, Copy, Debug, PartialEq, Eq, Structural)]
pub enum CloudDbColumn {
    Accounts,
    Tasks,
    TransactionId,
    Reports,
}

impl CloudDbColumn {
    /// How many columns the coordinator's store holds.
    pub fn count() -> (r: u32)
        ensures
            r == 4,
    {
        4
    }

    pub open spec fn index_spec(&self) -> u32 {
        match self {
            CloudDbColumn::Accounts => 0,
            CloudDbColumn::Tasks => 1,
            CloudDbColumn::TransactionId => 2,
            CloudDbColumn::Reports => 3,
        }
    }

    pub fn index(&self) -> (r: u32)
        ensures
            r == self.index_spec(),
    {
        match self {
            CloudDbColumn::Accounts => 0,
            CloudDbColumn::Tasks => 1,
            CloudDbColumn::TransactionId => 2,
            CloudDbColumn::Reports => 3,
        }
    }
}

// --- The wire form of errors and statuses -------------------------------

/// The tag byte of each error variant.
pub open spec fn err_tag(e: CloudError) -> u8 {
    match e {
        CloudError::BadRequest(_) => 0,
        CloudError::CustodyLockError => 1,
        CloudError::StateSyncError => 2,
        CloudError::IncorrectAccountId => 3,
        CloudError::AccountNotFound => 4,
        CloudError::DuplicateAccountId => 5,
        CloudError::InvalidTransactionId => 6,
        CloudError::DuplicateTransactionId => 7,
        CloudError::DataBaseReadError(_) => 8,
        CloudError::DataBaseWriteError(_) => 9,
        CloudError::RelayerSendError => 10,
        CloudError::TransactionNotFound => 11,
        CloudError::InternalError(_) => 12,
        CloudError::RetriesExhausted => 13,
        CloudError::TaskRejectedByRelayer(_) => 14,
        CloudError::RetryNeeded => 15,
        CloudError::AccessDenied => 16,
        CloudError::PreviousTxFailed => 17,
        CloudError::InsufficientBalance => 18,
        CloudError::AccountIsBusy => 19,
        CloudError::AccountIsNotSynced => 20,
        CloudError::ServiceIsBusy => 21,
        CloudError::TransactionExpired => 22,
        CloudError::TransactionStatusUnknown => 23,
        CloudError::ConfigError(_) => 24,
        CloudError::Web3Error => 25,
        CloudError::ReportNotFound => 26,
    }
}

/// The free-form detail an error variant carries, if any.
pub open spec fn err_detail(e: CloudError) -> Option<Seq<char>> {
    match e {
        CloudError::BadRequest(d) => Some(d@),
        CloudError::DataBaseReadError(d) => Some(d@),
        CloudError::DataBaseWriteError(d) => Some(d@),
        CloudError::InternalError(d) => Some(d@),
        CloudError::TaskRejectedByRelayer(d) => Some(d@),
        CloudError::ConfigError(d) => Some(d@),
        _ => None,
    }
}

/// Two errors agree on the wire: same variant, same detail text.
pub open spec fn err_matches(a: CloudError, b: CloudError) -> bool {
    err_tag(a) == err_tag(b) && err_detail(a) == err_detail(b)
}

pub open spec fn enc_err(e: CloudError) -> Seq<u8> {
    seq![err_tag(e)] + enc_opt_str(err_detail(e))
}

/// The tag byte of each status variant.
pub open spec fn status_tag(s: TransferStatus) -> u8 {
    match s {
        TransferStatus::New => 0,
        TransferStatus::Proving => 1,
        TransferStatus::Relaying => 2,
        TransferStatus::Mining => 3,
        TransferStatus::Done => 4,
        TransferStatus::Failed(_) => 5,
    }
}

pub open spec fn enc_status(s: TransferStatus) -> Seq<u8> {
    seq![status_tag(s)] + (match s {
        TransferStatus::Failed(e) => enc_err(e),
        _ => Seq::empty(),
    })
}

/// Two statuses agree on the wire.
pub open spec fn status_matches(a: TransferStatus, b: TransferStatus) -> bool {
    &&& status_tag(a) == status_tag(b)
    &&& (match (a, b) {
        (TransferStatus::Failed(x), TransferStatus::Failed(y)) => err_matches(x, y),
        _ => true,
    })
}

fn err_tag_of(e: &CloudError) -> (r: u8)
    ensures
        r == err_tag(*e),
{
    match e {
        CloudError::BadRequest(_) => 0,
        CloudError::CustodyLockError => 1,
        CloudError::StateSyncError => 2,
        CloudError::IncorrectAccountId => 3,
        CloudError::AccountNotFound => 4,
        CloudError::DuplicateAccountId => 5,
        CloudError::InvalidTransactionId => 6,
        CloudError::DuplicateTransactionId => 7,
        CloudError::DataBaseReadError(_) => 8,
        CloudError::DataBaseWriteError(_) => 9,
        CloudError::RelayerSendError => 10,
        CloudError::TransactionNotFound => 11,
        CloudError::InternalError(_) => 12,
        CloudError::RetriesExhausted => 13,
        CloudError::TaskRejectedByRelayer(_) => 14,
        CloudError::RetryNeeded => 15,
        CloudError::AccessDenied => 16,
        CloudError::PreviousTxFailed => 17,
        CloudError::InsufficientBalance => 18,
        CloudError::AccountIsBusy => 19,
        CloudError::AccountIsNotSynced => 20,
        CloudError::ServiceIsBusy => 21,
        CloudError::TransactionExpired => 22,
        CloudError::TransactionStatusUnknown => 23,
        CloudError::ConfigError(_) => 24,
        CloudError::Web3Error => 25,
        CloudError::ReportNotFound => 26,
    }
}

fn err_detail_of(e: &CloudError) -> (r: Option<String>)
    ensures
        (match r {
            Some(d) => err_detail(*e) == Some(d@),
            None => err_detail(*e) is None,
        }),
{
    match e {
        CloudError::BadRequest(d) => Some(d.clone()),
        CloudError::DataBaseReadError(d) => Some(d.clone()),
        CloudError::DataBaseWriteError(d) => Some(d.clone()),
        CloudError::InternalError(d) => Some(d.clone()),
        CloudError::TaskRejectedByRelayer(d) => Some(d.clone()),
        CloudError::ConfigError(d) => Some(d.clone()),
        _ => None,
    }
}

/// Rebuilds an error from its tag and detail; tags above the last variant
/// are rejected.
fn err_from(tag: u8, detail: Option<String>) -> (r: Option<CloudError>)
    ensures
        (match r {
            Some(e) => err_tag(e) == tag && err_detail(e) == (if has_err_detail(tag) {
                Some(
                    match detail {
                        Some(d) => d@,
                        None => Seq::empty(),
                    },
                )
            } else {
                None
            }),
            None => tag > 26,
        }),
{
    let d = match detail {
        Some(d) => d,
        None => String::new(),
    };
    match tag {
        0 => Some(CloudError::BadRequest(d)),
        1 => Some(CloudError::CustodyLockError),
        2 => Some(CloudError::StateSyncError),
        3 => Some(CloudError::IncorrectAccountId),
        4 => Some(CloudError::AccountNotFound),
        5 => Some(CloudError::DuplicateAccountId),
        6 => Some(CloudError::InvalidTransactionId),
        7 => Some(CloudError::DuplicateTransactionId),
        8 => Some(CloudError::DataBaseReadError(d)),
        9 => Some(CloudError::DataBaseWriteError(d)),
        10 => Some(CloudError::RelayerSendError),
        11 => Some(CloudError::TransactionNotFound),
        12 => Some(CloudError::InternalError(d)),
        13 => Some(CloudError::RetriesExhausted),
        14 => Some(CloudError::TaskRejectedByRelayer(d)),
        15 => Some(CloudError::RetryNeeded),
        16 => Some(CloudError::AccessDenied),
        17 => Some(CloudError::PreviousTxFailed),
        18 => Some(CloudError::InsufficientBalance),
        19 => Some(CloudError::AccountIsBusy),
        20 => Some(CloudError::AccountIsNotSynced),
        21 => Some(CloudError::ServiceIsBusy),
        22 => Some(CloudError::TransactionExpired),
        23 => Some(CloudError::TransactionStatusUnknown),
        24 => Some(CloudError::ConfigError(d)),
        25 => Some(CloudError::Web3Error),
        26 => Some(CloudError::ReportNotFound),
        _ => None,
    }
}

/// Which tags carry a detail string.
pub open spec fn has_err_detail(tag: u8) -> bool {
    tag == 0 || tag == 8 || tag == 9 || tag == 12 || tag == 14 || tag == 24
}

fn put_err(out: &mut Vec<u8>, e: &CloudError)
    ensures
        final(out)@ == old(out)@ + enc_err(*e),
{
    let ghost pre = out@;
    put_u8(out, err_tag_of(e));
    put_opt_str(out, &err_detail_of(e));
    proof {
        assert(final(out)@ =~= pre + enc_err(*e));
    }
}

/// How an error encoding at `pos` reads back, field by field.
proof fn lemma_err_at(buf: Seq<u8>, pos: int, e: CloudError)
    requires
        0 <= pos,
        buf.len() <= usize::MAX,
        pos + enc_err(e).len() <= buf.len(),
        buf.subrange(pos, pos + enc_err(e).len() as int) == enc_err(e),
    ensures
        rd_u8(buf, pos) == Some((err_tag(e), pos + 1)),
        (match err_detail(e) {
            Some(dv) => rd_u8(buf, pos + 1) == Some((1u8, pos + 2)) && rd_str(buf, pos + 2)
                == Some((dv, pos + enc_err(e).len())),
            None => rd_u8(buf, pos + 1) == Some((0u8, pos + 2)) && pos + 2 == pos + enc_err(
                e,
            ).len(),
        }),
        has_err_detail(err_tag(e)) <==> err_detail(e) is Some,
{
    let enc = enc_err(e);
    assert(buf[pos] == enc[0]);
    let eo = enc_opt_str(err_detail(e));
    assert(buf.subrange(pos + 1, pos + 1 + eo.len()) =~= enc.subrange(1, enc.len() as int));
    assert(enc.subrange(1, enc.len() as int) =~= eo);
    match err_detail(e) {
        Some(dv) => {
            assert(enc.len() == 1 + eo.len());
            assert(vstd::utf8::encode_utf8(dv).len() + 9 == eo.len());
            lemma_rd_opt_str_at(buf, pos + 1, err_detail(e));
        },
        None => {
            lemma_rd_opt_str_at(buf, pos + 1, err_detail(e));
        },
    }
}

/// Reads an error back; whenever the bytes at `pos` are the encoding of
/// some error `e`, the result matches `e` on the wire and consumes exactly
/// its bytes.
fn get_err(buf: &Vec<u8>, pos: usize) -> (r: Option<(CloudError, usize)>)
    ensures
        forall|e: CloudError|
            (pos + enc_err(e).len() <= buf@.len() && buf@.subrange(
                pos as int,
                pos as int + enc_err(e).len() as int,
            ) == enc_err(e)) ==> (r matches Some((v, p)) && err_matches(v, e) && p == pos + enc_err(
                e,
            ).len()),
{
    let blen = buf.len();
    proof {
        assert(buf@.len() <= usize::MAX);
    }
    let first = get_u8(buf, pos);
    if first.is_none() {
        proof {
            assert forall|e: CloudError|
                (pos + enc_err(e).len() <= buf@.len() && buf@.subrange(
                    pos as int,
                    pos as int + enc_err(e).len() as int,
                ) == enc_err(e)) implies false by {
                lemma_err_at(buf@, pos as int, e);
            }
        }
        return None;
    }
    let (tag, p1) = first.unwrap();
    let next = get_opt_str(buf, p1);
    if next.is_none() {
        proof {
            assert forall|e: CloudError|
                (pos + enc_err(e).len() <= buf@.len() && buf@.subrange(
                    pos as int,
                    pos as int + enc_err(e).len() as int,
                ) == enc_err(e)) implies false by {
                lemma_err_at(buf@, pos as int, e);
            }
        }
        return None;
    }
    let (detail, p2) = next.unwrap();
    let built = err_from(tag, detail);
    match built {
        Some(v) => {
            proof {
                assert forall|e: CloudError|
                    (pos + enc_err(e).len() <= buf@.len() && buf@.subrange(
                        pos as int,
                        pos as int + enc_err(e).len() as int,
                    ) == enc_err(e)) implies err_matches(v, e) && p2 == pos + enc_err(e).len() by {
                    lemma_err_at(buf@, pos as int, e);
                }
            }
            Some((v, p2))
        },
        None => {
            proof {
                assert forall|e: CloudError|
                    (pos + enc_err(e).len() <= buf@.len() && buf@.subrange(
                        pos as int,
                        pos as int + enc_err(e).len() as int,
                    ) == enc_err(e)) implies false by {
                    lemma_err_at(buf@, pos as int, e);
                }
            }
            None
        },
    }
}

fn put_status(out: &mut Vec<u8>, s: &TransferStatus)
    ensures
        final(out)@ == old(out)@ + enc_status(*s),
{
    let ghost pre = out@;
    match s {
        TransferStatus::New => put_u8(out, 0),
        TransferStatus::Proving => put_u8(out, 1),
        TransferStatus::Relaying => put_u8(out, 2),
        TransferStatus::Mining => put_u8(out, 3),
        TransferStatus::Done => put_u8(out, 4),
        TransferStatus::Failed(e) => {
            put_u8(out, 5);
            put_err(out, e);
        },
    }
    proof {
        assert(final(out)@ =~= pre + enc_status(*s));
    }
}

/// Reads a status back, matching on the wire.
fn get_status(buf: &Vec<u8>, pos: usize) -> (r: Option<(TransferStatus, usize)>)
    ensures
        forall|s: TransferStatus|
            (pos + enc_status(s).len() <= buf@.len() && buf@.subrange(
                pos as int,
                pos as int + enc_status(s).len() as int,
            ) == enc_status(s)) ==> (r matches Some((v, p)) && status_matches(v, s) && p == pos
                + enc_status(s).len()),
{
    let (tag, p1) = match get_u8(buf, pos) {
        Some(x) => x,
        None => {
            return None;
        },
    };
    let r = match tag {
        0 => Some((TransferStatus::New, p1)),
        1 => Some((TransferStatus::Proving, p1)),
        2 => Some((TransferStatus::Relaying, p1)),
        3 => Some((TransferStatus::Mining, p1)),
        4 => Some((TransferStatus::Done, p1)),
        5 => match get_err(buf, p1) {
            Some((e, p2)) => Some((TransferStatus::Failed(e), p2)),
            None => None,
        },
        _ => None,
    };
    proof {
        assert forall|s: TransferStatus|
            (pos + enc_status(s).len() <= buf@.len() && buf@.subrange(
                pos as int,
                pos as int + enc_status(s).len() as int,
            ) == enc_status(s)) implies (r matches Some((v, p)) && status_matches(v, s) && p == pos
            + enc_status(s).len()) by {
            let enc = enc_status(s);
            assert(buf@[pos as int] == enc[0]);
            match s {
                TransferStatus::Failed(x) => {
                    let ee = enc_err(x);
                    assert(buf@.subrange(pos as int + 1, pos as int + 1 + ee.len())
                        =~= enc.subrange(1, enc.len() as int));
                    assert(enc.subrange(1, enc.len() as int) =~= ee);
                },
                _ => {},
            }
        }
    }
    r
}

// --- The wire form of a transfer part ------------------------------------

pub open spec fn view_opt(o: Option<String>) -> Option<Seq<char>> {
    match o {
        Some(s) => Some(s@),
        None => None,
    }
}

pub open spec fn enc_part(p: TransferPart) -> Seq<u8> {
    enc_str(p.id@) + enc_str(p.request_id@) + enc_str(p.account_id@) + enc_u64(p.amount) + enc_u64(
        p.fee,
    ) + enc_opt_str(view_opt(p.to)) + enc_status(p.status) + enc_opt_str(view_opt(p.job_id))
        + enc_opt_str(view_opt(p.tx_hash)) + enc_opt_str(view_opt(p.depends_on)) + enc_u64(
        p.attempt as u64,
    ) + enc_u64(p.timestamp)
}

/// Two parts agree on the wire: every field equal, strings by their text.
pub open spec fn part_matches(a: TransferPart, b: TransferPart) -> bool {
    &&& a.id@ == b.id@
    &&& a.request_id@ == b.request_id@
    &&& a.account_id@ == b.account_id@
    &&& a.amount == b.amount
    &&& a.fee == b.fee
    &&& view_opt(a.to) == view_opt(b.to)
    &&& status_matches(a.status, b.status)
    &&& view_opt(a.job_id) == view_opt(b.job_id)
    &&& view_opt(a.tx_hash) == view_opt(b.tx_hash)
    &&& view_opt(a.depends_on) == view_opt(b.depends_on)
    &&& a.attempt == b.attempt
    &&& a.timestamp == b.timestamp
}

pub fn encode_part(p: &TransferPart) -> (r: Vec<u8>)
    ensures
        r@ == enc_part(*p),
{
    let mut out: Vec<u8> = Vec::new();
    put_str(&mut out, p.id.as_str());
    put_str(&mut out, p.request_id.as_str());
    put_str(&mut out, p.account_id.as_str());
    put_u64(&mut out, p.amount);
    put_u64(&mut out, p.fee);
    put_opt_str(&mut out, &p.to);
    put_status(&mut out, &p.status);
    put_opt_str(&mut out, &p.job_id);
    put_opt_str(&mut out, &p.tx_hash);
    put_opt_str(&mut out, &p.depends_on);
    put_u64(&mut out, p.attempt as u64);
    put_u64(&mut out, p.timestamp);
    proof {
        assert(out@ =~= enc_part(*p));
    }
    out
}

/// Where each field of a part encoding sits: the byte ranges of the
/// twelve fields, from the start of the buffer.
#[verifier::rlimit(100)]
#[verifier::spinoff_prover]
proof fn lemma_part_split(buf: Seq<u8>, p: TransferPart)
    requires
        buf == enc_part(p),
    ensures
        ({
            let o1 = enc_str(p.id@).len() as int;
            let o2 = o1 + enc_str(p.request_id@).len();
            let o3 = o2 + enc_str(p.account_id@).len();
            let o4 = o3 + 8;
            let o5 = o4 + 8;
            let o6 = o5 + enc_opt_str(view_opt(p.to)).len();
            let o7 = o6 + enc_status(p.status).len();
            let o8 = o7 + enc_opt_str(view_opt(p.job_id)).len();
            let o9 = o8 + enc_opt_str(view_opt(p.tx_hash)).len();
            let o10 = o9 + enc_opt_str(view_opt(p.depends_on)).len();
            let o11 = o10 + 8;
            &&& buf.subrange(0, o1) == enc_str(p.id@)
            &&& buf.subrange(o1, o2) == enc_str(p.request_id@)
            &&& buf.subrange(o2, o3) == enc_str(p.account_id@)
            &&& buf.subrange(o3, o4) == enc_u64(p.amount)
            &&& buf.subrange(o4, o5) == enc_u64(p.fee)
            &&& buf.subrange(o5, o6) == enc_opt_str(view_opt(p.to))
            &&& buf.subrange(o6, o7) == enc_status(p.status)
            &&& buf.subrange(o7, o8) == enc_opt_str(view_opt(p.job_id))
            &&& buf.subrange(o8, o9) == enc_opt_str(view_opt(p.tx_hash))
            &&& buf.subrange(o9, o10) == enc_opt_str(view_opt(p.depends_on))
            &&& buf.subrange(o10, o11) == enc_u64(p.attempt as u64)
            &&& buf.subrange(o11, buf.len() as int) == enc_u64(p.timestamp)
            &&& buf.len() == o11 + 8
        }),
{
    let e1 = enc_str(p.id@);
    let e2 = enc_str(p.request_id@);
    let e3 = enc_str(p.account_id@);
    let e4 = enc_u64(p.amount);
    let e5 = enc_u64(p.fee);
    let e6 = enc_opt_str(view_opt(p.to));
    let e7 = enc_status(p.status);
    let e8 = enc_opt_str(view_opt(p.job_id));
    let e9 = enc_opt_str(view_opt(p.tx_hash));
    let e10 = enc_opt_str(view_opt(p.depends_on));
    let e11 = enc_u64(p.attempt as u64);
    let e12 = enc_u64(p.timestamp);
    let c1 = e1;
    let c2 = c1 + e2;
    let c3 = c2 + e3;
    let c4 = c3 + e4;
    let c5 = c4 + e5;
    let c6 = c5 + e6;
    let c7 = c6 + e7;
    let c8 = c7 + e8;
    let c9 = c8 + e9;
    let c10 = c9 + e10;
    let c11 = c10 + e11;
    assert(buf == c11 + e12);
    lemma_concat_parts(c11, e12);
    assert(buf.subrange(0, c11.len() as int) == c11);
    assert(buf.subrange(c11.len() as int, buf.len() as int) == e12);
    lemma_concat_parts(c10, e11);
    lemma_subrange_of_prefix(buf, c10.len() as int, c11.len() as int, c11.len() as int);
    assert(buf.subrange(c10.len() as int, c11.len() as int) == e11);
    lemma_subrange_of_prefix(buf, 0, c10.len() as int, c11.len() as int);
    assert(buf.subrange(0, c10.len() as int) == c10);
    lemma_concat_parts(c9, e10);
    lemma_subrange_of_prefix(buf, c9.len() as int, c10.len() as int, c10.len() as int);
    assert(buf.subrange(c9.len() as int, c10.len() as int) == e10);
    lemma_subrange_of_prefix(buf, 0, c9.len() as int, c10.len() as int);
    assert(buf.subrange(0, c9.len() as int) == c9);
    lemma_concat_parts(c8, e9);
    lemma_subrange_of_prefix(buf, c8.len() as int, c9.len() as int, c9.len() as int);
    assert(buf.subrange(c8.len() as int, c9.len() as int) == e9);
    lemma_subrange_of_prefix(buf, 0, c8.len() as int, c9.len() as int);
    assert(buf.subrange(0, c8.len() as int) == c8);
    lemma_concat_parts(c7, e8);
    lemma_subrange_of_prefix(buf, c7.len() as int, c8.len() as int, c8.len() as int);
    assert(buf.subrange(c7.len() as int, c8.len() as int) == e8);
    lemma_subrange_of_prefix(buf, 0, c7.len() as int, c8.len() as int);
    assert(buf.subrange(0, c7.len() as int) == c7);
    lemma_concat_parts(c6, e7);
    lemma_subrange_of_prefix(buf, c6.len() as int, c7.len() as int, c7.len() as int);
    assert(buf.subrange(c6.len() as int, c7.len() as int) == e7);
    lemma_subrange_of_prefix(buf, 0, c6.len() as int, c7.len() as int);
    assert(buf.subrange(0, c6.len() as int) == c6);
    lemma_concat_parts(c5, e6);
    lemma_subrange_of_prefix(buf, c5.len() as int, c6.len() as int, c6.len() as int);
    assert(buf.subrange(c5.len() as int, c6.len() as int) == e6);
    lemma_subrange_of_prefix(buf, 0, c5.len() as int, c6.len() as int);
    assert(buf.subrange(0, c5.len() as int) == c5);
    lemma_concat_parts(c4, e5);
    lemma_subrange_of_prefix(buf, c4.len() as int, c5.len() as int, c5.len() as int);
    assert(buf.subrange(c4.len() as int, c5.len() as int) == e5);
    lemma_subrange_of_prefix(buf, 0, c4.len() as int, c5.len() as int);
    assert(buf.subrange(0, c4.len() as int) == c4);
    lemma_concat_parts(c3, e4);
    lemma_subrange_of_prefix(buf, c3.len() as int, c4.len() as int, c4.len() as int);
    assert(buf.subrange(c3.len() as int, c4.len() as int) == e4);
    lemma_subrange_of_prefix(buf, 0, c3.len() as int, c4.len() as int);
    assert(buf.subrange(0, c3.len() as int) == c3);
    lemma_concat_parts(c2, e3);
    lemma_subrange_of_prefix(buf, c2.len() as int, c3.len() as int, c3.len() as int);
    assert(buf.subrange(c2.len() as int, c3.len() as int) == e3);
    lemma_subrange_of_prefix(buf, 0, c2.len() as int, c3.len() as int);
    assert(buf.subrange(0, c2.len() as int) == c2);
    lemma_concat_parts(c1, e2);
    lemma_subrange_of_prefix(buf, c1.len() as int, c2.len() as int, c2.len() as int);
    assert(buf.subrange(c1.len() as int, c2.len() as int) == e2);
    lemma_subrange_of_prefix(buf, 0, c1.len() as int, c2.len() as int);
    assert(buf.subrange(0, c1.len() as int) == c1);
}

/// How a part encoding starting at position 0 reads back, field by field.
#[verifier::rlimit(100)]
#[verifier::spinoff_prover]
proof fn lemma_part_fields(buf: Seq<u8>, p: TransferPart)
    requires
        buf.len() <= usize::MAX,
        buf == enc_part(p),
    ensures
        ({
            let o1 = enc_str(p.id@).len() as int;
            let o2 = o1 + enc_str(p.request_id@).len();
            let o3 = o2 + enc_str(p.account_id@).len();
            let o4 = o3 + 8;
            let o5 = o4 + 8;
            let o6 = o5 + enc_opt_str(view_opt(p.to)).len();
            let o7 = o6 + enc_status(p.status).len();
            let o8 = o7 + enc_opt_str(view_opt(p.job_id)).len();
            let o9 = o8 + enc_opt_str(view_opt(p.tx_hash)).len();
            let o10 = o9 + enc_opt_str(view_opt(p.depends_on)).len();
            let o11 = o10 + 8;
            &&& rd_str(buf, 0) == Some((p.id@, o1))
            &&& rd_str(buf, o1) == Some((p.request_id@, o2))
            &&& rd_str(buf, o2) == Some((p.account_id@, o3))
            &&& rd_u64(buf, o3) == Some((p.amount, o4))
            &&& rd_u64(buf, o4) == Some((p.fee, o5))
            &&& opt_str_reads(buf, o5, view_opt(p.to), o6)
            &&& buf.subrange(o6, o7) == enc_status(p.status)
            &&& opt_str_reads(buf, o7, view_opt(p.job_id), o8)
            &&& opt_str_reads(buf, o8, view_opt(p.tx_hash), o9)
            &&& opt_str_reads(buf, o9, view_opt(p.depends_on), o10)
            &&& rd_u64(buf, o10) == Some((p.attempt as u64, o11))
            &&& rd_u64(buf, o11) == Some((p.timestamp, buf.len() as int))
            &&& buf.len() == o11 + 8
        }),
{
    lemma_part_split(buf, p);
    let o1 = enc_str(p.id@).len() as int;
    let o2 = o1 + enc_str(p.request_id@).len();
    let o3 = o2 + enc_str(p.account_id@).len();
    let o4 = o3 + 8;
    let o5 = o4 + 8;
    let o6 = o5 + enc_opt_str(view_opt(p.to)).len();
    let o7 = o6 + enc_status(p.status).len();
    let o8 = o7 + enc_opt_str(view_opt(p.job_id)).len();
    let o9 = o8 + enc_opt_str(view_opt(p.tx_hash)).len();
    let o10 = o9 + enc_opt_str(view_opt(p.depends_on)).len();
    let o11 = o10 + 8;
    lemma_rd_str_at(buf, 0, p.id@);
    lemma_rd_str_at(buf, o1, p.request_id@);
    lemma_rd_str_at(buf, o2, p.account_id@);
    lemma_rd_u64_at(buf, o3, p.amount);
    lemma_rd_u64_at(buf, o4, p.fee);
    lemma_rd_opt_str_at(buf, o5, view_opt(p.to));
    lemma_rd_opt_str_at(buf, o7, view_opt(p.job_id));
    lemma_rd_opt_str_at(buf, o8, view_opt(p.tx_hash));
    lemma_rd_opt_str_at(buf, o9, view_opt(p.depends_on));
    lemma_rd_u64_at(buf, o10, p.attempt as u64);
    lemma_rd_u64_at(buf, o11, p.timestamp);
}

/// What the option-field reader yields when `os` is encoded at `pos`.
pub open spec fn opt_str_reads(buf: Seq<u8>, pos: int, os: Option<Seq<char>>, end: int) -> bool {
    match os {
        None => rd_u8(buf, pos) == Some((0u8, end)),
        Some(s) => rd_u8(buf, pos) == Some((1u8, pos + 1)) && rd_str(buf, pos + 1) == Some(
            (s, end),
        ),
    }
}

/// Reads a part row back: whenever the buffer is the encoding of some part
/// `p`, the result matches `p` on the wire.
#[verifier::rlimit(100)]
pub fn decode_part(buf: &Vec<u8>) -> (r: Option<TransferPart>)
    ensures
        forall|p: TransferPart|
            buf@ == enc_part(p) ==> (r matches Some(v) && part_matches(v, p)),
{
    let blen = buf.len();
    proof {
        assert(buf@.len() <= usize::MAX);
    }
    let step1 = get_str(buf, 0);
    let (id, o1) = match step1 {
        Some(x) => x,
        None => {
            proof {
                assert forall|p: TransferPart| buf@ == enc_part(p) implies false by {
                    lemma_part_fields(buf@, p);
                }
            }
            return None;
        },
    };
    let step2 = get_str(buf, o1);
    let (request_id, o2) = match step2 {
        Some(x) => x,
        None => {
            proof {
                assert forall|p: TransferPart| buf@ == enc_part(p) implies false by {
                    lemma_part_fields(buf@, p);
                }
            }
            return None;
        },
    };
    let step3 = get_str(buf, o2);
    let (account_id, o3) = match step3 {
        Some(x) => x,
        None => {
            proof {
                assert forall|p: TransferPart| buf@ == enc_part(p) implies false by {
                    lemma_part_fields(buf@, p);
                }
            }
            return None;
        },
    };
    let step4 = get_u64(buf, o3);
    let (amount, o4) = match step4 {
        Some(x) => x,
        None => {
            proof {
                assert forall|p: TransferPart| buf@ == enc_part(p) implies false by {
                    lemma_part_fields(buf@, p);
                }
            }
            return None;
        },
    };
    let step5 = get_u64(buf, o4);
    let (fee, o5) = match step5 {
        Some(x) => x,
        None => {
            proof {
                assert forall|p: TransferPart| buf@ == enc_part(p) implies false by {
                    lemma_part_fields(buf@, p);
                }
            }
            return None;
        },
    };
    let step6 = get_opt_str(buf, o5);
    let (to, o6) = match step6 {
        Some(x) => x,
        None => {
            proof {
                assert forall|p: TransferPart| buf@ == enc_part(p) implies false by {
                    lemma_part_fields(buf@, p);
                }
            }
            return None;
        },
    };
    let step7 = get_status(buf, o6);
    let (status, o7) = match step7 {
        Some(x) => x,
        None => {
            proof {
                assert forall|p: TransferPart| buf@ == enc_part(p) implies false by {
                    lemma_part_fields(buf@, p);
                }
            }
            return None;
        },
    };
    let step8 = get_opt_str(buf, o7);
    let (job_id, o8) = match step8 {
        Some(x) => x,
        None => {
            proof {
                assert forall|p: TransferPart| buf@ == enc_part(p) implies false by {
                    lemma_part_fields(buf@, p);
                }
            }
            return None;
        },
    };
    let step9 = get_opt_str(buf, o8);
    let (tx_hash, o9) = match step9 {
        Some(x) => x,
        None => {
            proof {
                assert forall|p: TransferPart| buf@ == enc_part(p) implies false by {
                    lemma_part_fields(buf@, p);
                }
            }
            return None;
        },
    };
    let step10 = get_opt_str(buf, o9);
    let (depends_on, o10) = match step10 {
        Some(x) => x,
        None => {
            proof {
                assert forall|p: TransferPart| buf@ == enc_part(p) implies false by {
                    lemma_part_fields(buf@, p);
                }
            }
            return None;
        },
    };
    let step11 = get_u64(buf, o10);
    let (attempt64, o11) = match step11 {
        Some(x) => x,
        None => {
            proof {
                assert forall|p: TransferPart| buf@ == enc_part(p) implies false by {
                    lemma_part_fields(buf@, p);
                }
            }
            return None;
        },
    };
    if attempt64 > u32::MAX as u64 {
        proof {
            assert forall|p: TransferPart| buf@ == enc_part(p) implies false by {
                lemma_part_fields(buf@, p);
            }
        }
        return None;
    }
    let step12 = get_u64(buf, o11);
    let (timestamp, _o12) = match step12 {
        Some(x) => x,
        None => {
            proof {
                assert forall|p: TransferPart| buf@ == enc_part(p) implies false by {
                    lemma_part_fields(buf@, p);
                }
            }
            return None;
        },
    };
    let v = TransferPart {
        id,
        request_id,
        account_id,
        amount,
        fee,
        to,
        status,
        job_id,
        tx_hash,
        depends_on,
        attempt: attempt64 as u32,
        timestamp,
    };
    proof {
        assert forall|p: TransferPart| buf@ == enc_part(p) implies part_matches(v, p) by {
            lemma_part_fields(buf@, p);
        }
    }
    Some(v)
}

// --- The wire form of tasks and account rows -----------------------------

/// A task row: the request id and the number of its parts. The part ids
/// themselves are canonical — `request.i` — and are rebuilt on read.
pub open spec fn enc_task(request_id: Seq<char>, n_parts: u64) -> Seq<u8> {
    enc_str(request_id) + enc_u64(n_parts)
}

/// Whether a task value is in canonical form: part `i` is named
/// `request.i`.
pub open spec fn task_canonical(t: TransferTask) -> bool {
    forall|i: int|
        0 <= i < t.parts@.len() ==> (#[trigger] t.parts@[i])@ == part_id_of(
            t.request_id@,
            i as u64,
        )
}

pub fn encode_task(t: &TransferTask) -> (r: Vec<u8>)
    ensures
        r@ == enc_task(t.request_id@, t.parts@.len() as u64),
{
    let mut out: Vec<u8> = Vec::new();
    put_str(&mut out, t.request_id.as_str());
    put_u64(&mut out, t.parts.len() as u64);
    proof {
        assert(out@ =~= enc_task(t.request_id@, t.parts@.len() as u64));
    }
    out
}

/// Reads a task row back in canonical form.
pub fn decode_task(buf: &Vec<u8>) -> (r: Option<TransferTask>)
    ensures
        forall|rid: Seq<char>, n: u64|
            (buf@ == enc_task(rid, n) && n <= 0x1000_0000) ==> (r matches Some(v) && v.request_id@
                == rid && v.parts@.len() == n),
        r matches Some(v) ==> task_canonical(v),
{
    let blen = buf.len();
    proof {
        assert(buf@.len() <= usize::MAX);
    }
    let step1 = get_str(buf, 0);
    let (request_id, o1) = match step1 {
        Some(x) => x,
        None => {
            proof {
                assert forall|rid: Seq<char>, n: u64|
                    (buf@ == enc_task(rid, n) && n <= 0x1000_0000) implies false by {
                    lemma_task_fields(buf@, rid, n);
                }
            }
            return None;
        },
    };
    let step2 = get_u64(buf, o1);
    let (n64, _o2) = match step2 {
        Some(x) => x,
        None => {
            proof {
                assert forall|rid: Seq<char>, n: u64|
                    (buf@ == enc_task(rid, n) && n <= 0x1000_0000) implies false by {
                    lemma_task_fields(buf@, rid, n);
                }
            }
            return None;
        },
    };
    if n64 > 0x1000_0000 {
        proof {
            assert forall|rid: Seq<char>, n: u64|
                (buf@ == enc_task(rid, n) && n <= 0x1000_0000) implies false by {
                lemma_task_fields(buf@, rid, n);
            }
        }
        return None;
    }
    let n = n64 as usize;
    let mut parts: Vec<String> = Vec::new();
    let mut i: usize = 0;
    while i < n
        invariant
            i <= n,
            parts@.len() == i,
            forall|q: int|
                0 <= q < i ==> (#[trigger] parts@[q])@ == part_id_of(request_id@, q as u64),
        decreases n - i,
    {
        parts.push(crate::cloud::types::part_id(request_id.as_str(), i as u64));
        i = i + 1;
    }
    let v = TransferTask { request_id, parts };
    proof {
        assert(task_canonical(v));
        assert forall|rid: Seq<char>, n2: u64|
            (buf@ == enc_task(rid, n2) && n2 <= 0x1000_0000) implies (v.request_id@ == rid
            && v.parts@.len() == n2) by {
            lemma_task_fields(buf@, rid, n2);
        }
    }
    Some(v)
}

proof fn lemma_task_fields(buf: Seq<u8>, rid: Seq<char>, n: u64)
    requires
        buf.len() <= usize::MAX,
        buf == enc_task(rid, n),
    ensures
        rd_str(buf, 0) == Some((rid, enc_str(rid).len() as int)),
        rd_u64(buf, enc_str(rid).len() as int) == Some((n, buf.len() as int)),
{
    let e1 = enc_str(rid);
    let e2 = enc_u64(n);
    lemma_concat_parts(e1, e2);
    assert(buf.subrange(0, e1.len() as int) == e1);
    assert(buf.subrange(e1.len() as int, buf.len() as int) == e2);
    lemma_rd_str_at(buf, 0, rid);
    lemma_rd_u64_at(buf, e1.len() as int, n);
}

/// An account row: description, store path, and the hex secret key.
pub open spec fn enc_account_data(a: AccountData) -> Seq<u8> {
    enc_str(a.description@) + enc_str(a.db_path@) + enc_str(a.sk@)
}

pub open spec fn account_data_matches(a: AccountData, b: AccountData) -> bool {
    a.description@ == b.description@ && a.db_path@ == b.db_path@ && a.sk@ == b.sk@
}

pub fn encode_account_data(a: &AccountData) -> (r: Vec<u8>)
    ensures
        r@ == enc_account_data(*a),
{
    let mut out: Vec<u8> = Vec::new();
    put_str(&mut out, a.description.as_str());
    put_str(&mut out, a.db_path.as_str());
    put_str(&mut out, a.sk.as_str());
    proof {
        assert(out@ =~= enc_account_data(*a));
    }
    out
}

proof fn lemma_account_data_fields(buf: Seq<u8>, a: AccountData)
    requires
        buf.len() <= usize::MAX,
        buf == enc_account_data(a),
    ensures
        ({
            let o1 = enc_str(a.description@).len() as int;
            let o2 = o1 + enc_str(a.db_path@).len();
            &&& rd_str(buf, 0) == Some((a.description@, o1))
            &&& rd_str(buf, o1) == Some((a.db_path@, o2))
            &&& rd_str(buf, o2) == Some((a.sk@, buf.len() as int))
        }),
{
    let e1 = enc_str(a.description@);
    let e2 = enc_str(a.db_path@);
    let e3 = enc_str(a.sk@);
    let c2 = e1 + e2;
    assert(buf == c2 + e3);
    lemma_concat_parts(c2, e3);
    lemma_concat_parts(e1, e2);
    lemma_subrange_of_prefix(buf, e1.len() as int, c2.len() as int, c2.len() as int);
    assert(buf.subrange(e1.len() as int, c2.len() as int) == e2);
    lemma_subrange_of_prefix(buf, 0, e1.len() as int, c2.len() as int);
    assert(buf.subrange(0, e1.len() as int) == e1);
    lemma_rd_str_at(buf, 0, a.description@);
    lemma_rd_str_at(buf, e1.len() as int, a.db_path@);
    lemma_rd_str_at(buf, c2.len() as int, a.sk@);
}

/// Reads an account row back, matching on the wire.
pub fn decode_account_data(buf: &Vec<u8>) -> (r: Option<AccountData>)
    ensures
        forall|a: AccountData|
            buf@ == enc_account_data(a) ==> (r matches Some(v) && account_data_matches(v, a)),
{
    let blen = buf.len();
    proof {
        assert(buf@.len() <= usize::MAX);
    }
    let step1 = get_str(buf, 0);
    let (description, o1) = match step1 {
        Some(x) => x,
        None => {
            proof {
                assert forall|a: AccountData| buf@ == enc_account_data(a) implies false by {
                    lemma_account_data_fields(buf@, a);
                }
            }
            return None;
        },
    };
    let step2 = get_str(buf, o1);
    let (db_path, o2) = match step2 {
        Some(x) => x,
        None => {
            proof {
                assert forall|a: AccountData| buf@ == enc_account_data(a) implies false by {
                    lemma_account_data_fields(buf@, a);
                }
            }
            return None;
        },
    };
    let step3 = get_str(buf, o2);
    let (sk, _o3) = match step3 {
        Some(x) => x,
        None => {
            proof {
                assert forall|a: AccountData| buf@ == enc_account_data(a) implies false by {
                    lemma_account_data_fields(buf@, a);
                }
            }
            return None;
        },
    };
    let v = AccountData { description, db_path, sk };
    proof {
        assert forall|a: AccountData|
            buf@ == enc_account_data(a) implies account_data_matches(v, a) by {
            lemma_account_data_fields(buf@, a);
        }
    }
    Some(v)
}

// --- The coordinator's store ---------------------------------------------

/// The store key of a string id.
pub open spec fn str_key(s: Seq<char>) -> Seq<u8> {
    vstd::utf8::encode_utf8(s)
}

/// The coordinator's database: accounts, tasks and parts, the chain-hash
/// index, and report rows.
pub struct Db {
    pub db_path: String,
    db: KeyValueDb,
}

impl Db {
    pub closed spec fn wf(&self) -> bool {
        self.db.wf() && self.db.columns_spec() == 4
    }

    /// What the store holds, as the raw row map.
    pub closed spec fn rows(&self) -> Map<(u32, Seq<u8>), Seq<u8>> {
        self.db.contents()
    }

    pub fn new(db_path: String) -> (r: Db)
        ensures
            r.wf(),
            r.rows() == crate::helpers::db::empty_contents(),
    {
        Db { db_path, db: KeyValueDb::new(CloudDbColumn::count()) }
    }

    /// Persists one part row.
    pub fn save_part(&mut self, part: &TransferPart) -> (r: Result<(), CloudError>)
        requires
            old(self).wf(),
        ensures
            final(self).wf(),
            r is Ok,
            final(self).rows() == old(self).rows().insert(
                (1u32, str_key(part.id@)),
                enc_part(*part),
            ),
    {
        let key = part.id.as_str().as_bytes_vec();
        let value = encode_part(part);
        let res = self.db.save_raw(CloudDbColumn::Tasks.index(), &key, &value);
        proof {
            assert(res is Ok);
        }
        Ok(())
    }

    /// Loads one part row; a missing row is reported as the internal
    /// not-found error.
    pub fn get_part(&self, id: &str) -> (r: Result<TransferPart, CloudError>)
        requires
            self.wf(),
        ensures
            !self.rows().contains_key((1u32, str_key(id@))) ==> (r matches Err(e) && e matches
                CloudError::InternalError(_)),
            forall|p: TransferPart|
                (self.rows().contains_key((1u32, str_key(id@))) && self.rows()[
                    (1u32, str_key(id@))
                ] == enc_part(p)) ==> (r matches Ok(v) && part_matches(v, p)),
    {
        let key = id.as_bytes_vec();
        match self.db.get_raw(CloudDbColumn::Tasks.index(), &key) {
            Ok(Some(value)) => {
                match decode_part(&value) {
                    Some(v) => Ok(v),
                    None => Err(
                        CloudError::DataBaseReadError(
                            String::from_str("failed to deserialize value from db"),
                        ),
                    ),
                }
            },
            Ok(None) => Err(CloudError::InternalError(String::from_str("task part not found in db"))),
            Err(e) => Err(e),
        }
    }

    /// Persists a whole transfer: the task row and every part row go to
    /// the store in one atomic batch.
    pub fn save_task(&mut self, task: &TransferTask, parts: &Vec<TransferPart>) -> (r: Result<
        (),
        CloudError,
    >)
        requires
            old(self).wf(),
        ensures
            final(self).wf(),
            r is Ok,
            ({
                let batch = Seq::new(
                    parts@.len() + 1,
                    |i: int|
                        if i == 0 {
                            ((1u32, str_key(task.request_id@)), enc_task(
                                task.request_id@,
                                task.parts@.len() as u64,
                            ))
                        } else {
                            ((1u32, str_key(parts@[i - 1].id@)), enc_part(parts@[i - 1]))
                        },
                );
                final(self).rows() == seq_batch_insert(old(self).rows(), batch)
            }),
    {
        let mut kvs: Vec<(Vec<u8>, Vec<u8>)> = Vec::new();
        kvs.push((task.request_id.as_str().as_bytes_vec(), encode_task(task)));
        let mut i: usize = 0;
        while i < parts.len()
            invariant
                i <= parts@.len(),
                kvs@.len() == i + 1,
                kvs@[0].0@ == str_key(task.request_id@),
                kvs@[0].1@ == enc_task(task.request_id@, task.parts@.len() as u64),
                forall|q: int|
                    1 <= q <= i ==> (#[trigger] kvs@[q]).0@ == str_key(parts@[q - 1].id@)
                        && kvs@[q].1@ == enc_part(parts@[q - 1]),
            decreases parts@.len() - i,
        {
            let p = &parts[i];
            kvs.push((p.id.as_str().as_bytes_vec(), encode_part(p)));
            i = i + 1;
        }
        let res = self.db.save_all_raw(CloudDbColumn::Tasks.index(), &kvs);
        proof {
            assert(res is Ok);
            let batch = Seq::new(
                parts@.len() + 1,
                |i: int|
                    if i == 0 {
                        ((1u32, str_key(task.request_id@)), enc_task(
                            task.request_id@,
                            task.parts@.len() as u64,
                        ))
                    } else {
                        ((1u32, str_key(parts@[i - 1].id@)), enc_part(parts@[i - 1]))
                    },
            );
            lemma_batch_views(old(self).rows(), 1u32, kvs@, batch);
        }
        Ok(())
    }

    /// Loads one task row; a missing row is the internal not-found error.
    pub fn get_task(&self, id: &str) -> (r: Result<TransferTask, CloudError>)
        requires
            self.wf(),
        ensures
            !self.rows().contains_key((1u32, str_key(id@))) ==> (r matches Err(e) && e matches
                CloudError::InternalError(_)),
            forall|rid: Seq<char>, n: u64|
                (self.rows().contains_key((1u32, str_key(id@))) && self.rows()[
                    (1u32, str_key(id@))
                ] == enc_task(rid, n) && n <= 0x1000_0000) ==> (r matches Ok(v) && v.request_id@
                    == rid && v.parts@.len() == n),
            r matches Ok(v) ==> task_canonical(v),
    {
        let key = id.as_bytes_vec();
        match self.db.get_raw(CloudDbColumn::Tasks.index(), &key) {
            Ok(Some(value)) => {
                match decode_task(&value) {
                    Some(v) => Ok(v),
                    None => Err(
                        CloudError::DataBaseReadError(
                            String::from_str("failed to deserialize value from db"),
                        ),
                    ),
                }
            },
            Ok(None) => Err(CloudError::InternalError(String::from_str("task not found in db"))),
            Err(e) => Err(e),
        }
    }

    /// Whether a task row exists for the id.
    pub fn task_exists(&self, id: &str) -> (r: Result<bool, CloudError>)
        requires
            self.wf(),
        ensures
            r == Ok::<bool, CloudError>(self.rows().contains_key((1u32, str_key(id@)))),
    {
        let key = id.as_bytes_vec();
        self.db.contains(CloudDbColumn::Tasks.index(), &key)
    }

    /// Persists one account row.
    pub fn save_account(&mut self, id: &str, data: &AccountData) -> (r: Result<(), CloudError>)
        requires
            old(self).wf(),
        ensures
            final(self).wf(),
            r is Ok,
            final(self).rows() == old(self).rows().insert(
                (0u32, str_key(id@)),
                enc_account_data(*data),
            ),
    {
        let key = id.as_bytes_vec();
        let value = encode_account_data(data);
        let res = self.db.save_raw(CloudDbColumn::Accounts.index(), &key, &value);
        proof {
            assert(res is Ok);
        }
        Ok(())
    }

    /// Loads one account row, if present.
    pub fn get_account(&self, id: &str) -> (r: Result<Option<AccountData>, CloudError>)
        requires
            self.wf(),
        ensures
            !self.rows().contains_key((0u32, str_key(id@))) ==> r == Ok::<
                Option<AccountData>,
                CloudError,
            >(None),
            forall|a: AccountData|
                (self.rows().contains_key((0u32, str_key(id@))) && self.rows()[
                    (0u32, str_key(id@))
                ] == enc_account_data(a)) ==> (r matches Ok(Some(v)) && account_data_matches(v, a)),
    {
        let key = id.as_bytes_vec();
        match self.db.get_raw(CloudDbColumn::Accounts.index(), &key) {
            Ok(Some(value)) => {
                match decode_account_data(&value) {
                    Some(v) => Ok(Some(v)),
                    None => Err(
                        CloudError::DataBaseReadError(
                            String::from_str("failed to deserialize value from db"),
                        ),
                    ),
                }
            },
            Ok(None) => Ok(None),
            Err(e) => Err(e),
        }
    }

    /// Whether an account row exists.
    pub fn account_exists(&self, id: &str) -> (r: Result<bool, CloudError>)
        requires
            self.wf(),
        ensures
            r == Ok::<bool, CloudError>(self.rows().contains_key((0u32, str_key(id@)))),
    {
        let key = id.as_bytes_vec();
        self.db.contains(CloudDbColumn::Accounts.index(), &key)
    }

    /// Removes one account row.
    pub fn delete_account(&mut self, id: &str) -> (r: Result<(), CloudError>)
        requires
            old(self).wf(),
        ensures
            final(self).wf(),
            r is Ok,
            final(self).rows() == old(self).rows().remove((0u32, str_key(id@))),
    {
        let key = id.as_bytes_vec();
        let res = self.db.delete(CloudDbColumn::Accounts.index(), &key);
        proof {
            assert(res is Ok);
        }
        Ok(())
    }

    /// Every account row, keyed by the stored id bytes, in key order:
    /// one pair per stored row, none missing, strictly increasing keys.
    pub fn get_accounts_raw(&self) -> (r: Result<Vec<(Vec<u8>, Vec<u8>)>, CloudError>)
        requires
            self.wf(),
        ensures
            r matches Ok(v) ==> forall|i: int|
                0 <= i < v@.len() ==> self.rows().contains_key((0u32, (#[trigger] v@[i]).0@))
                    && v@[i].1@ == self.rows()[(0u32, v@[i].0@)],
            r matches Ok(v) ==> forall|k: Seq<u8>|
                self.rows().contains_key((0u32, k)) ==> exists|i: int|
                    0 <= i < v@.len() && (#[trigger] v@[i]).0@ == k,
            r matches Ok(v) ==> forall|i: int, j: int|
                0 <= i < j < v@.len() ==> crate::helpers::db::bytes_lt(
                    (#[trigger] v@[i]).0@,
                    (#[trigger] v@[j]).0@,
                ),
            r is Ok,
    {
        self.db.get_all_raw(CloudDbColumn::Accounts.index())
    }

    /// Records which transfer request produced a chain transaction.
    pub fn save_transaction_id(&mut self, tx_hash: &str, request_id: &str) -> (r: Result<
        (),
        CloudError,
    >)
        requires
            old(self).wf(),
        ensures
            final(self).wf(),
            r is Ok,
            final(self).rows() == old(self).rows().insert(
                (2u32, str_key(tx_hash@)),
                str_key(request_id@),
            ),
    {
        let key = tx_hash.as_bytes_vec();
        let value = request_id.as_bytes_vec();
        let res = self.db.save_raw(CloudDbColumn::TransactionId.index(), &key, &value);
        proof {
            assert(res is Ok);
        }
        Ok(())
    }

    /// Looks a chain transaction's request up.
    pub fn get_transaction_id(&self, tx_hash: &str) -> (r: Result<Option<String>, CloudError>)
        requires
            self.wf(),
        ensures
            !self.rows().contains_key((2u32, str_key(tx_hash@))) ==> r == Ok::<
                Option<String>,
                CloudError,
            >(None),
            forall|s: Seq<char>|
                (self.rows().contains_key((2u32, str_key(tx_hash@))) && self.rows()[
                    (2u32, str_key(tx_hash@))
                ] == #[trigger] str_key(s)) ==> (r matches Ok(Some(v)) && v@ == s),
    {
        let key = tx_hash.as_bytes_vec();
        match self.db.get_raw(CloudDbColumn::TransactionId.index(), &key) {
            Ok(Some(value)) => {
                let ghost stored = value@;
                match crate::helpers::codec::string_from_utf8(value) {
                    Some(s) => {
                        proof {
                            assert forall|sv: Seq<char>|
                                (self.rows().contains_key((2u32, str_key(tx_hash@)))
                                    && self.rows()[(2u32, str_key(tx_hash@))] == #[trigger] str_key(
                                    sv,
                                )) implies s@ == sv by {
                                vstd::utf8::encode_utf8_valid_utf8(sv);
                                vstd::utf8::encode_utf8_decode_utf8(sv);
                            }
                        }
                        Ok(Some(s))
                    },
                    None => {
                        proof {
                            assert forall|sv: Seq<char>|
                                (self.rows().contains_key((2u32, str_key(tx_hash@)))
                                    && self.rows()[(2u32, str_key(tx_hash@))] == #[trigger] str_key(
                                    sv,
                                )) implies false by {
                                vstd::utf8::encode_utf8_valid_utf8(sv);
                            }
                        }
                        Err(
                            CloudError::DataBaseReadError(
                                String::from_str("failed to deserialize value from db"),
                            ),
                        )
                    },
                }
            },
            Ok(None) => Ok(None),
            Err(e) => Err(e),
        }
    }

    /// Persists one report task row under its report id.
    pub fn save_report_task(&mut self, id: &str, task: &ReportTask) -> (r: Result<(), CloudError>)
        requires
            old(self).wf(),
            (match task.report {
                Some(rep) => rep.accounts@.len() <= 0x1000_0000,
                None => true,
            }),
        ensures
            final(self).wf(),
            r is Ok,
            final(self).rows() == old(self).rows().insert(
                (3u32, str_key(id@)),
                enc_report_task(*task),
            ),
    {
        let key = id.as_bytes_vec();
        let value = encode_report_task(task);
        let res = self.db.save_raw(CloudDbColumn::Reports.index(), &key, &value);
        proof {
            assert(res is Ok);
        }
        Ok(())
    }

    /// Loads one report task row, if present.
    pub fn get_report_task(&self, id: &str) -> (r: Result<Option<ReportTask>, CloudError>)
        requires
            self.wf(),
        ensures
            !self.rows().contains_key((3u32, str_key(id@))) ==> r == Ok::<
                Option<ReportTask>,
                CloudError,
            >(None),
            self.rows().contains_key((3u32, str_key(id@))) ==> (match r {
                Ok(Some(v)) => rd_report_task(self.rows()[(3u32, str_key(id@))]) matches Some(m)
                    && report_status_tag(v.status) == m.0 && v.attempt == m.1,
                Ok(None) => false,
                Err(_) => rd_report_task(self.rows()[(3u32, str_key(id@))]) is None,
            }),
    {
        let key = id.as_bytes_vec();
        match self.db.get_raw(CloudDbColumn::Reports.index(), &key) {
            Ok(Some(value)) => {
                match decode_report_task(&value) {
                    Some(v) => Ok(Some(v)),
                    None => Err(
                        CloudError::DataBaseReadError(
                            String::from_str("failed to deserialize value from db"),
                        ),
                    ),
                }
            },
            Ok(None) => Ok(None),
            Err(e) => Err(e),
        }
    }

    /// Clears the reports column; every other row keeps its value.
    pub fn clean_reports(&mut self) -> (r: Result<(), CloudError>)
        requires
            old(self).wf(),
        ensures
            final(self).wf(),
            r is Ok,
            forall|k: (u32, Seq<u8>)|
                final(self).rows().contains_key(k) <==> (old(self).rows().contains_key(k) && k.0
                    != 3u32),
            forall|k: (u32, Seq<u8>)|
                final(self).rows().contains_key(k) ==> #[trigger] final(self).rows()[k] == old(
                    self,
                ).rows()[k],
    {
        let res = self.db.delete_all(CloudDbColumn::Reports.index());
        proof {
            assert(res is Ok);
        }
        Ok(())
    }
}

// --- The wire form of report tasks ---------------------------------------

pub open spec fn report_status_tag(s: ReportStatus) -> u8 {
    match s {
        ReportStatus::New => 0,
        ReportStatus::Completed => 1,
        ReportStatus::Failed => 2,
    }
}

pub open spec fn enc_account_report(a: AccountReport) -> Seq<u8> {
    enc_str(a.id@) + enc_str(a.description@) + enc_u64(a.balance) + enc_u64(a.max_transfer_amount)
        + enc_str(a.address@) + enc_str(a.sk@)
}

pub open spec fn enc_reports_body(s: Seq<AccountReport>) -> Seq<u8>
    decreases s.len(),
{
    if s.len() == 0 {
        Seq::empty()
    } else {
        enc_account_report(s.first()) + enc_reports_body(s.drop_first())
    }
}

pub open spec fn enc_report(rep: Report) -> Seq<u8> {
    enc_u64(rep.timestamp) + enc_u64(rep.pool_index) + enc_u64(rep.accounts@.len() as u64)
        + enc_reports_body(rep.accounts@)
}

/// The wire form of one report task row.
pub open spec fn enc_report_task(rt: ReportTask) -> Seq<u8> {
    seq![report_status_tag(rt.status)] + enc_u64(rt.attempt as u64) + (match rt.report {
        None => seq![0u8],
        Some(rep) => seq![1u8] + enc_report(rep),
    })
}

/// One fleet entry read back at spec level: the four texts and the two
/// balances.
pub open spec fn rd_account_report(buf: Seq<u8>, pos: int) -> Option<
    ((Seq<char>, Seq<char>, u64, u64, Seq<char>, Seq<char>), int),
> {
    match rd_str(buf, pos) {
        Some((id, p1)) => match rd_str(buf, p1) {
            Some((description, p2)) => match rd_u64(buf, p2) {
                Some((balance, p3)) => match rd_u64(buf, p3) {
                    Some((max, p4)) => match rd_str(buf, p4) {
                        Some((address, p5)) => match rd_str(buf, p5) {
                            Some((sk, p6)) => Some(
                                ((id, description, balance, max, address, sk), p6),
                            ),
                            None => None,
                        },
                        None => None,
                    },
                    None => None,
                },
                None => None,
            },
            None => None,
        },
        None => None,
    }
}

pub open spec fn rd_reports_body(buf: Seq<u8>, pos: int, k: int) -> Option<
    (Seq<(Seq<char>, Seq<char>, u64, u64, Seq<char>, Seq<char>)>, int),
>
    decreases k,
{
    if k <= 0 {
        Some((Seq::empty(), pos))
    } else {
        match rd_account_report(buf, pos) {
            Some((x, p1)) => match rd_reports_body(buf, p1, k - 1) {
                Some((rest, end)) => Some((seq![x] + rest, end)),
                None => None,
            },
            None => None,
        }
    }
}

/// A report task row read back at spec level.
pub open spec fn rd_report_task(buf: Seq<u8>) -> Option<
    (u8, u64, Option<(u64, u64, Seq<(Seq<char>, Seq<char>, u64, u64, Seq<char>, Seq<char>)>)>),
> {
    match rd_u8(buf, 0) {
        Some((tag, p0)) => if tag > 2 {
            None
        } else {
            match rd_u64(buf, p0) {
                Some((attempt, p1)) => if attempt > u32::MAX {
                    None
                } else {
                    match rd_u8(buf, p1) {
                        Some((0u8, _)) => Some((tag, attempt, None)),
                        Some((1u8, p2)) => match rd_u64(buf, p2) {
                            Some((ts, p3)) => match rd_u64(buf, p3) {
                                Some((pool, p4)) => match rd_u64(buf, p4) {
                                    Some((n, p5)) => if n <= 0x1000_0000 {
                                        match rd_reports_body(buf, p5, n as int) {
                                            Some((entries, _)) => Some(
                                                (tag, attempt, Some((ts, pool, entries))),
                                            ),
                                            None => None,
                                        }
                                    } else {
                                        None
                                    },
                                    None => None,
                                },
                                None => None,
                            },
                            None => None,
                        },
                        _ => None,
                    }
                },
                None => None,
            }
        },
        None => None,
    }
}

/// Whether a decoded fleet entry carries exactly the read fields.
pub open spec fn entry_view_ok(
    a: AccountReport,
    e: (Seq<char>, Seq<char>, u64, u64, Seq<char>, Seq<char>),
) -> bool {
    &&& a.id@ == e.0
    &&& a.description@ == e.1
    &&& a.balance == e.2
    &&& a.max_transfer_amount == e.3
    &&& a.address@ == e.4
    &&& a.sk@ == e.5
}

#[verifier::rlimit(100)]
#[verifier::spinoff_prover]
pub fn encode_report_task(rt: &ReportTask) -> (r: Vec<u8>)
    requires
        (match rt.report {
            Some(rep) => rep.accounts@.len() <= 0x1000_0000,
            None => true,
        }),
    ensures
        r@ == enc_report_task(*rt),
{
    let mut out: Vec<u8> = Vec::new();
    match &rt.status {
        ReportStatus::New => put_u8(&mut out, 0),
        ReportStatus::Completed => put_u8(&mut out, 1),
        ReportStatus::Failed => put_u8(&mut out, 2),
    }
    put_u64(&mut out, rt.attempt as u64);
    match &rt.report {
        None => put_u8(&mut out, 0),
        Some(rep) => {
            let ghost pre = out@;
            put_u8(&mut out, 1);
            put_u64(&mut out, rep.timestamp);
            put_u64(&mut out, rep.pool_index);
            put_u64(&mut out, rep.accounts.len() as u64);
            let n = rep.accounts.len();
            let mut i: usize = 0;
            while i < n
                invariant
                    n == rep.accounts@.len(),
                    i <= n,
                    out@ == pre + seq![1u8] + enc_u64(rep.timestamp) + enc_u64(rep.pool_index)
                        + enc_u64(rep.accounts@.len() as u64) + enc_reports_body(
                        rep.accounts@.take(i as int),
                    ),
                decreases n - i,
            {
                let a = &rep.accounts[i];
                put_str(&mut out, a.id.as_str());
                put_str(&mut out, a.description.as_str());
                put_u64(&mut out, a.balance);
                put_u64(&mut out, a.max_transfer_amount);
                put_str(&mut out, a.address.as_str());
                put_str(&mut out, a.sk.as_str());
                proof {
                    lemma_reports_body_snoc(rep.accounts@, i as int);
                    assert(out@ =~= pre + seq![1u8] + enc_u64(rep.timestamp) + enc_u64(
                        rep.pool_index,
                    ) + enc_u64(rep.accounts@.len() as u64) + enc_reports_body(
                        rep.accounts@.take(i as int + 1),
                    ));
                }
                i = i + 1;
            }
            proof {
                assert(rep.accounts@.take(n as int) =~= rep.accounts@);
            }
        },
    }
    proof {
        assert(out@ =~= enc_report_task(*rt));
    }
    out
}

proof fn lemma_reports_body_snoc(s: Seq<AccountReport>, i: int)
    requires
        0 <= i < s.len(),
    ensures
        enc_reports_body(s.take(i + 1)) == enc_reports_body(s.take(i)) + enc_account_report(s[i]),
    decreases i,
{
    if i == 0 {
        assert(s.take(1).drop_first() =~= s.take(0));
        assert(enc_reports_body(s.take(1)) =~= enc_account_report(s[0]) + enc_reports_body(
            s.take(0),
        ));
        assert(enc_reports_body(s.take(1)) =~= enc_reports_body(s.take(0)) + enc_account_report(
            s[0],
        ));
    } else {
        assert(s.take(i + 1).drop_first() =~= s.subrange(1, i + 1));
        assert(s.take(i).drop_first() =~= s.subrange(1, i));
        lemma_reports_body_snoc(s.subrange(1, s.len() as int), i - 1);
        assert(s.subrange(1, s.len() as int).take(i) =~= s.subrange(1, i + 1));
        assert(s.subrange(1, s.len() as int).take(i - 1) =~= s.subrange(1, i));
        assert(s.subrange(1, s.len() as int)[i - 1] == s[i]);
        assert(enc_reports_body(s.take(i + 1)) =~= enc_account_report(s.first())
            + enc_reports_body(s.subrange(1, i + 1)));
        assert(enc_reports_body(s.take(i)) =~= enc_account_report(s.first()) + enc_reports_body(
            s.subrange(1, i),
        ));
        assert(enc_reports_body(s.take(i + 1)) =~= enc_reports_body(s.take(i))
            + enc_account_report(s[i]));
    }
}

fn get_account_report(buf: &Vec<u8>, pos: usize) -> (r: Option<(AccountReport, usize)>)
    ensures
        (match r {
            Some((v, p)) => rd_account_report(buf@, pos as int) matches Some((e, pe))
                && entry_view_ok(v, e) && pe == p,
            None => rd_account_report(buf@, pos as int) is None,
        }),
{
    let (id, p1) = match get_str(buf, pos) {
        Some(x) => x,
        None => {
            return None;
        },
    };
    let (description, p2) = match get_str(buf, p1) {
        Some(x) => x,
        None => {
            return None;
        },
    };
    let (balance, p3) = match get_u64(buf, p2) {
        Some(x) => x,
        None => {
            return None;
        },
    };
    let (max_transfer_amount, p4) = match get_u64(buf, p3) {
        Some(x) => x,
        None => {
            return None;
        },
    };
    let (address, p5) = match get_str(buf, p4) {
        Some(x) => x,
        None => {
            return None;
        },
    };
    let (sk, p6) = match get_str(buf, p5) {
        Some(x) => x,
        None => {
            return None;
        },
    };
    Some((AccountReport { id, description, balance, max_transfer_amount, address, sk }, p6))
}

/// Reads a report task row back: statuses and counters exactly, every
/// fleet entry field by field.
#[verifier::rlimit(100)]
#[verifier::loop_isolation(false)]
pub fn decode_report_task(buf: &Vec<u8>) -> (r: Option<ReportTask>)
    ensures
        (match r {
            Some(v) => rd_report_task(buf@) matches Some(m) && report_status_tag(v.status) == m.0
                && v.attempt == m.1 && (match (v.report, m.2) {
                (None, None) => true,
                (Some(rep), Some(mm)) => rep.timestamp == mm.0 && rep.pool_index == mm.1
                    && rep.accounts@.len() == mm.2.len() && (forall|q: int|
                    0 <= q < mm.2.len() ==> entry_view_ok(#[trigger] rep.accounts@[q], mm.2[q])),
                _ => false,
            }),
            None => rd_report_task(buf@) is None,
        }),
{
    let (tag, p0) = match get_u8(buf, 0) {
        Some(x) => x,
        None => {
            return None;
        },
    };
    let status = if tag == 0 {
        ReportStatus::New
    } else if tag == 1 {
        ReportStatus::Completed
    } else if tag == 2 {
        ReportStatus::Failed
    } else {
        return None;
    };
    let (attempt64, p1) = match get_u64(buf, p0) {
        Some(x) => x,
        None => {
            return None;
        },
    };
    if attempt64 > u32::MAX as u64 {
        return None;
    }
    let (rtag, p2) = match get_u8(buf, p1) {
        Some(x) => x,
        None => {
            return None;
        },
    };
    if rtag == 0 {
        return Some(ReportTask { status, attempt: attempt64 as u32, report: None });
    }
    if rtag != 1 {
        return None;
    }
    let (ts, p3) = match get_u64(buf, p2) {
        Some(x) => x,
        None => {
            return None;
        },
    };
    let (pool, p4) = match get_u64(buf, p3) {
        Some(x) => x,
        None => {
            return None;
        },
    };
    let (n64, p5) = match get_u64(buf, p4) {
        Some(x) => x,
        None => {
            return None;
        },
    };
    if n64 > 0x1000_0000 {
        return None;
    }
    let n = n64 as usize;
    let mut accounts: Vec<AccountReport> = Vec::new();
    let mut cur: usize = p5;
    let mut i: usize = 0;
    while i < n
        invariant
            i <= n,
            accounts@.len() == i,
            (match rd_reports_body(buf@, cur as int, n as int - i) {
                Some((rest, end)) => rd_reports_body(buf@, p5 as int, n as int) matches Some(
                    (all, end2),
                ) && all.len() == i + rest.len() && end2 == end && (forall|q: int|
                    0 <= q < i ==> entry_view_ok(#[trigger] accounts@[q], all[q])) && (forall|
                    q: int,
                |
                    0 <= q < rest.len() ==> all[i + q] == rest[q]),
                None => rd_reports_body(buf@, p5 as int, n as int) is None,
            }),
        decreases n - i,
    {
        let ghost oc = cur as int;
        let (a, q) = match get_account_report(buf, cur) {
            Some(x) => x,
            None => {
                return None;
            },
        };
        accounts.push(a);
        proof {
            let e = rd_account_report(buf@, oc).unwrap().0;
            match rd_reports_body(buf@, q as int, n as int - i - 1) {
                Some((rest2, end2)) => {
                    assert(rd_reports_body(buf@, oc, n as int - i) == Some(
                        (seq![e] + rest2, end2),
                    ));
                    assert((seq![e] + rest2)[0] == e);
                    assert forall|q2: int| 0 <= q2 < rest2.len() implies (seq![e] + rest2)[
                        1 + q2
                    ] == rest2[q2] by {}
                },
                None => {
                    assert(rd_reports_body(buf@, oc, n as int - i) is None);
                },
            }
        }
        cur = q;
        i = i + 1;
    }
    Some(
        ReportTask {
            status,
            attempt: attempt64 as u32,
            report: Some(Report { timestamp: ts, pool_index: pool, accounts }),
        },
    )
}

/// The batch a vector of raw pairs denotes is the batch of their views.
pub open spec fn seq_batch_insert(
    m: Map<(u32, Seq<u8>), Seq<u8>>,
    batch: Seq<((u32, Seq<u8>), Seq<u8>)>,
) -> Map<(u32, Seq<u8>), Seq<u8>>
    decreases batch.len(),
{
    if batch.len() == 0 {
        m
    } else {
        seq_batch_insert(m, batch.drop_last()).insert(batch.last().0, batch.last().1)
    }
}

pub proof fn lemma_batch_views(
    m: Map<(u32, Seq<u8>), Seq<u8>>,
    col: u32,
    kvs: Seq<(Vec<u8>, Vec<u8>)>,
    batch: Seq<((u32, Seq<u8>), Seq<u8>)>,
)
    requires
        batch.len() == kvs.len(),
        forall|i: int|
            0 <= i < kvs.len() ==> (#[trigger] batch[i]) == ((col, kvs[i].0@), kvs[i].1@),
    ensures
        crate::helpers::db::batch_insert(m, col, kvs) == seq_batch_insert(m, batch),
    decreases kvs.len(),
{
    if kvs.len() > 0 {
        lemma_batch_views(m, col, kvs.drop_last(), batch.drop_last());
    }
}

/// Looking one pair up in an applied batch: the last pair with the key
/// wins; with pairwise-distinct keys, each pair is present afterwards.
pub proof fn lemma_seq_batch_lookup(
    m: Map<(u32, Seq<u8>), Seq<u8>>,
    batch: Seq<((u32, Seq<u8>), Seq<u8>)>,
    i: int,
)
    requires
        0 <= i < batch.len(),
        forall|p: int, q: int|
            0 <= p < q < batch.len() ==> (#[trigger] batch[p]).0 != (#[trigger] batch[q]).0,
    ensures
        seq_batch_insert(m, batch).contains_key(batch[i].0),
        seq_batch_insert(m, batch)[batch[i].0] == batch[i].1,
    decreases batch.len(),
{
    if i == batch.len() - 1 {
    } else {
        lemma_seq_batch_lookup(m, batch.drop_last(), i);
        assert(batch.drop_last()[i] == batch[i]);
        assert(batch.last().0 != batch[i].0);
    }
}

/// Keys outside a batch are untouched by it.
pub proof fn lemma_seq_batch_other(
    m: Map<(u32, Seq<u8>), Seq<u8>>,
    batch: Seq<((u32, Seq<u8>), Seq<u8>)>,
    k: (u32, Seq<u8>),
)
    requires
        forall|i: int| 0 <= i < batch.len() ==> (#[trigger] batch[i]).0 != k,
    ensures
        seq_batch_insert(m, batch).contains_key(k) == m.contains_key(k),
        m.contains_key(k) ==> seq_batch_insert(m, batch)[k] == m[k],
    decreases batch.len(),
{
    if batch.len() > 0 {
        lemma_seq_batch_other(m, batch.drop_last(), k);
    }
}

} // verus!
