//! The coordinator's own decisions: admission of a transfer request,
//! construction of its parts, loading a transfer back for status
//! reporting, the fee quote, and the bearer check.
//!
//! Everything that awaits the outside — syncing the account, the queues,
//! the relayer — happens around these functions; what they decide is
//! verified here.

use vstd::prelude::*;

use crate::cloud::db::{
    enc_part, enc_task, part_matches, str_key, task_canonical, Db,
};
use crate::cloud::types::{part_id, part_id_of, Transfer, TransferPart, TransferStatus, TransferTask};
use crate::errors::CloudError;

verus! {

/// The bearer check: admin operations demand exactly the configured
/// token.
pub fn validate_token(admin_token: &str, bearer: &str) -> (r: Result<(), CloudError>)
    ensures
        r is Ok <==> admin_token@ == bearer@,
        r matches Err(e) ==> e == CloudError::AccessDenied,
{
    if crate::helpers::str_eq(admin_token, bearer) {
        Ok(())
    } else {
        Err(CloudError::AccessDenied)
    }
}

/// Whether the text contains the part separator.
pub open spec fn has_dot(s: Seq<char>) -> bool {
    exists|i: int| 0 <= i < s.len() && s[i] == '.'
}

/// Rejects a request id that contains the part separator; part ids are
/// formed as `request.i`, so a dot inside the request id would collide
/// with them.
pub fn check_request_id(id: &str) -> (r: Result<(), CloudError>)
    ensures
        r is Ok <==> !has_dot(id@),
        r matches Err(e) ==> e == CloudError::InvalidTransactionId,
{
    let n = id.unicode_len();
    let mut i: usize = 0;
    while i < n
        invariant
            n == id@.len(),
            i <= n,
            forall|q: int| 0 <= q < i ==> id@[q] != '.',
        decreases n - i,
    {
        if id.get_char(i) == '.' {
            return Err(CloudError::InvalidTransactionId);
        }
        i = i + 1;
    }
    Ok(())
}

/// Whether one built part is exactly the part the plan prescribes at
/// position `i`: its id is `request.i`, it starts `New` with a fresh
/// retry budget, and for `i > 0` it depends on part `i - 1`.
pub open spec fn part_built_ok(
    p: TransferPart,
    rid: Seq<char>,
    aid: Seq<char>,
    plan: (Option<String>, u64),
    fee: u64,
    now: u64,
    i: int,
) -> bool {
    &&& p.id@ == part_id_of(rid, i as u64)
    &&& p.request_id@ == rid
    &&& p.account_id@ == aid
    &&& p.amount == plan.1
    &&& crate::cloud::db::view_opt(p.to) == crate::cloud::db::view_opt(plan.0)
    &&& p.status == TransferStatus::New
    &&& p.job_id is None
    &&& p.tx_hash is None
    &&& (if i == 0 {
        p.depends_on is None
    } else {
        p.depends_on matches Some(d) && d@ == part_id_of(rid, (i - 1) as u64)
    })
    &&& p.attempt == 0
    &&& p.timestamp == now
}

/// Builds the task row and the part rows of one admitted transfer.
///
/// Part `i` carries the planned `(to, amount)` pair `i`; every part but
/// the first names its predecessor, so the submit worker can gate on it.
pub fn build_transfer_parts(
    request_id: &str,
    account_id: &str,
    planned: &Vec<(Option<String>, u64)>,
    fee: u64,
    now: u64,
) -> (r: (TransferTask, Vec<TransferPart>))
    requires
        planned@.len() <= 0x1000_0000,
    ensures
        r.0.request_id@ == request_id@,
        r.0.parts@.len() == planned@.len(),
        task_canonical(r.0),
        r.1@.len() == planned@.len(),
        forall|i: int|
            0 <= i < planned@.len() ==> part_built_ok(
                #[trigger] r.1@[i],
                request_id@,
                account_id@,
                planned@[i],
                fee,
                now,
                i,
            ),
{
    let n = planned.len();
    let mut parts: Vec<TransferPart> = Vec::new();
    let mut ids: Vec<String> = Vec::new();
    let mut i: usize = 0;
    while i < n
        invariant
            n == planned@.len(),
            n <= 0x1000_0000,
            i <= n,
            parts@.len() == i,
            ids@.len() == i,
            forall|q: int|
                0 <= q < i ==> (#[trigger] ids@[q])@ == part_id_of(request_id@, q as u64),
            forall|q: int|
                0 <= q < i ==> part_built_ok(
                    #[trigger] parts@[q],
                    request_id@,
                    account_id@,
                    planned@[q],
                    fee,
                    now,
                    q,
                ),
        decreases n - i,
    {
        let id = part_id(request_id, i as u64);
        let depends_on: Option<String> = if i == 0 {
            None
        } else {
            Some(part_id(request_id, (i - 1) as u64))
        };
        let to: Option<String> = match &planned[i].0 {
            Some(a) => Some(a.clone()),
            None => None,
        };
        parts.push(
            TransferPart {
                id: id.clone(),
                request_id: String::from_str(request_id),
                account_id: String::from_str(account_id),
                amount: planned[i].1,
                fee,
                to,
                status: TransferStatus::New,
                job_id: None,
                tx_hash: None,
                depends_on,
                attempt: 0,
                timestamp: now,
            },
        );
        ids.push(id);
        i = i + 1;
    }
    let task = TransferTask { request_id: String::from_str(request_id), parts: ids };
    (task, parts)
}

/// The fee quote of a plan: one relayer fee per planned transaction.
pub fn quote_fee(n_parts: usize, fee: u64) -> (r: (u64, u64))
    requires
        n_parts <= 0x1000_0000,
        n_parts * fee <= u64::MAX,
    ensures
        r.0 == n_parts as u64,
        r.1 == n_parts as u64 * fee,
{
    (n_parts as u64, (n_parts as u64) * fee)
}

/// Whether the store holds a whole well-formed transfer under the id: a
/// task row encoding some request, and a readable part row under each of
/// its canonical part ids.
pub open spec fn transfer_stored(db: Db, id: Seq<char>) -> bool {
    exists|rid: Seq<char>, n: u64|
        {
            &&& db.rows().contains_key((1u32, str_key(id)))
            &&& db.rows()[(1u32, str_key(id))] == #[trigger] enc_task(rid, n)
            &&& n <= 0x1000_0000
            &&& forall|i: int|
                0 <= i < n ==> exists|p: TransferPart|
                    db.rows().contains_key((1u32, #[trigger] str_key(part_id_of(rid, i as u64))))
                        && db.rows()[(1u32, str_key(part_id_of(rid, i as u64)))]
                        == #[trigger] enc_part(p)
        }
}

/// Loads a transfer's task row and every part row, in part order.
/// Succeeds whenever the store holds a whole well-formed transfer under
/// the id; fails at least on a missing task row.
#[verifier::loop_isolation(false)]
pub fn load_transfer(db: &Db, id: &str) -> (r: Result<
    (TransferTask, Vec<TransferPart>),
    CloudError,
>)
    requires
        db.wf(),
    ensures
        r matches Ok((task, parts)) ==> ({
            &&& task_canonical(task)
            &&& parts@.len() == task.parts@.len()
            &&& forall|i: int, p: TransferPart|
                (0 <= i < parts@.len() && db.rows().contains_key(
                    (1u32, str_key(part_id_of(task.request_id@, i as u64))),
                ) && db.rows()[(1u32, str_key(part_id_of(task.request_id@, i as u64)))]
                    == #[trigger] enc_part(p)) ==> part_matches(#[trigger] parts@[i], p)
        }),
        transfer_stored(*db, id@) ==> r is Ok,
        !db.rows().contains_key((1u32, str_key(id@))) ==> (r matches Err(e) && e matches
            CloudError::InternalError(_)),
{
    let task = match db.get_task(id) {
        Ok(task) => task,
        Err(e) => {
            proof {
                if transfer_stored(*db, id@) {
                    assert(false);
                }
            }
            return Err(e);
        },
    };
    let ghost grid: Seq<char> = task.request_id@;
    let ghost gn: u64 = task.parts@.len() as u64;
    let n = task.parts.len();
    let mut parts: Vec<TransferPart> = Vec::new();
    let mut i: usize = 0;
    while i < n
        invariant
            db.wf(),
            n == task.parts@.len(),
            task_canonical(task),
            grid == task.request_id@,
            gn == task.parts@.len(),
            i <= n,
            parts@.len() == i,
            forall|q: int, p: TransferPart|
                (0 <= q < i && db.rows().contains_key(
                    (1u32, str_key(part_id_of(task.request_id@, q as u64))),
                ) && db.rows()[(1u32, str_key(part_id_of(task.request_id@, q as u64)))]
                    == #[trigger] enc_part(p)) ==> part_matches(#[trigger] parts@[q], p),
        decreases n - i,
    {
        proof {
            assert((task.parts@[i as int])@ == part_id_of(task.request_id@, i as u64));
        }
        let part = match db.get_part(task.parts[i].as_str()) {
            Ok(part) => part,
            Err(e) => {
                proof {
                    if transfer_stored(*db, id@) {
                        assert(false);
                    }
                }
                return Err(e);
            },
        };
        parts.push(part);
        i = i + 1;
    }
    Ok((task, parts))
}

/// Admission of a transfer request, after the duplicate probe: the id must
/// be free of the part separator, and a task row must not already exist.
pub fn admit_transfer(request: &Transfer, already_exists: bool) -> (r: Result<(), CloudError>)
    ensures
        r is Ok <==> (!has_dot(request.id@) && !already_exists),
        has_dot(request.id@) ==> r == Err::<(), CloudError>(CloudError::InvalidTransactionId),
        (!has_dot(request.id@) && already_exists) ==> r == Err::<(), CloudError>(
            CloudError::DuplicateTransactionId,
        ),
{
    match check_request_id(request.id.as_str()) {
        Ok(()) => {},
        Err(e) => {
            return Err(CloudError::InvalidTransactionId);
        },
    }
    if already_exists {
        return Err(CloudError::DuplicateTransactionId);
    }
    Ok(())
}

} // verus!
