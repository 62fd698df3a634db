//! The node's decisions about a job: what to hold when it is accepted, what to bill and release
//! when it has run, what to release when its hold expires, and which status changes to allow.

use crate::crypto::sha256_of;
use crate::inference::{decode_weights, decoded_weights};
use crate::identity::{cid_text, content_id_result, ContentId, Pubkey};
use crate::job::{job_status_debug_name, job_status_name, may_enter, InputRef, JobResult, JobStatus};
use crate::metering::{CauseType, CreditKind, CreditMovement, Millicredits, UsageMeter, Work};
use crate::node::NodeError;
use crate::text::{concat_str, str_eq};
use vstd::prelude::*;

verus! {

/// The hold a job asks for: the input length (at least 1), capped by a positive maximum.
pub open spec fn quote_of(input_len: usize, max: i64) -> i64 {
    let l = input_len as i64;
    let q = if l < 1 { 1i64 } else { l };
    if max <= 0 {
        q
    } else if q < max {
        q
    } else {
        max
    }
}

/// The hold a job asks for.
pub fn mock_quote(input_len: usize, max: i64) -> (r: i64)
    ensures
        r == quote_of(input_len, max),
{
    let l: i64 = #[verifier::truncate] (input_len as i64);
    let q = if l < 1 {
        1
    } else {
        l
    };
    if max <= 0 {
        q
    } else if q < max {
        q
    } else {
        max
    }
}

/// The result reported for a job whose model is not a weight table: succeeded, with output
/// `keel-mock:<content id of the input>` and a bill of at least 1.
pub fn labeled_mock_result(job_id: ContentId, input: &[u8], billed: i64) -> (r: JobResult)
    ensures
        r.job_id == job_id,
        r.status == JobStatus::Succeeded,
        r.output matches InputRef::Inline { text } && text@ == "keel-mock:"@ + cid_text(sha256_of(input@)),
        r.meter.job_id == job_id,
        r.meter.work is Job,
        r.meter.billed.0 == if billed < 1 { 1 } else { billed },
{
    let digest = ContentId::of_bytes(input);
    let text = concat_str("keel-mock:", digest.to_hex_prefixed().as_str());
    JobResult {
        job_id,
        status: JobStatus::Succeeded,
        output: InputRef::Inline { text },
        meter: UsageMeter { job_id, work: Work::Job, billed: Millicredits(if billed < 1 { 1 } else { billed }) },
    }
}

/// The hold placed on the payer when a job is accepted.
pub fn hold_movement(job_id: &ContentId, payer: Pubkey, quote: i64) -> (r: CreditMovement)
    ensures
        r.account == payer,
        r.kind == CreditKind::Hold,
        r.amount.0 == quote,
        r.cause_type == CauseType::InferenceJob,
        r.cause_id@ == cid_text(job_id.0@),
        r.idempotency_key@ == "hold:"@ + cid_text(job_id.0@),
{
    CreditMovement {
        account: payer,
        kind: CreditKind::Hold,
        amount: Millicredits(quote),
        cause_type: CauseType::InferenceJob,
        cause_id: job_id.to_hex_prefixed(),
        idempotency_key: CreditMovement::hold_key(job_id),
    }
}

/// How a finished job settles its hold.
pub struct RunSettlement {
    /// The result, with its bill capped by the hold.
    pub result: JobResult,
    /// The burn of the bill, if it is positive.
    pub burn: Option<CreditMovement>,
    /// The release of what the bill left of the hold, if anything.
    pub release: Option<CreditMovement>,
}

/// The bill of a run: the runner's bill capped by the hold, and not negative.
pub open spec fn run_bill(billed: i64, hold: i64) -> i64 {
    let c = if billed < hold { billed } else { hold };
    if c < 0 { 0 } else { c }
}

/// Settles a finished job's hold: the bill (capped by the hold) is burnt, and the rest of the hold
/// is released.
pub fn settle_run(job_id: &ContentId, payer: Pubkey, hold: i64, result: JobResult) -> (r: RunSettlement)
    ensures
        r.result.job_id == result.job_id,
        r.result.status == result.status,
        r.result.output == result.output,
        r.result.meter.job_id == result.meter.job_id,
        r.result.meter.work == result.meter.work,
        r.result.meter.billed.0 == run_bill(result.meter.billed.0, hold),
        match r.burn {
            Some(b) => run_bill(result.meter.billed.0, hold) > 0 && b.account == payer && b.kind == CreditKind::Burn
                && b.amount.0 == run_bill(result.meter.billed.0, hold) && b.cause_type == CauseType::InferenceJob
                && b.cause_id@ == cid_text(job_id.0@) && b.idempotency_key@ == "burn:"@ + cid_text(job_id.0@),
            None => run_bill(result.meter.billed.0, hold) <= 0,
        },
        match r.release {
            Some(m) => hold - run_bill(result.meter.billed.0, hold) > 0 && m.account == payer && m.kind
                == CreditKind::Release && m.amount.0 == hold - run_bill(result.meter.billed.0, hold) && m.cause_type
                == CauseType::InferenceJob && m.cause_id@ == cid_text(job_id.0@) && m.idempotency_key@ == "release:"@
                + cid_text(job_id.0@),
            None => hold - run_bill(result.meter.billed.0, hold) <= 0,
        },
{
    let mut result = result;
    let c = if result.meter.billed.0 < hold {
        result.meter.billed.0
    } else {
        hold
    };
    let billed = if c < 0 {
        0
    } else {
        c
    };
    result.meter.billed = Millicredits(billed);
    let burn = if billed > 0 {
        Some(
            CreditMovement {
                account: payer,
                kind: CreditKind::Burn,
                amount: Millicredits(billed),
                cause_type: CauseType::InferenceJob,
                cause_id: job_id.to_hex_prefixed(),
                idempotency_key: CreditMovement::burn_key(job_id),
            },
        )
    } else {
        None
    };
    let rest = hold - billed;
    let release = if rest > 0 {
        Some(
            CreditMovement {
                account: payer,
                kind: CreditKind::Release,
                amount: Millicredits(rest),
                cause_type: CauseType::InferenceJob,
                cause_id: job_id.to_hex_prefixed(),
                idempotency_key: CreditMovement::release_key(job_id),
            },
        )
    } else {
        None
    };
    RunSettlement { result, burn, release }
}

/// A positive hold is settled in full: what is burnt and what is released add up to the hold, and
/// neither is negative.
pub proof fn law_run_settles_whole_hold(billed: i64, hold: i64)
    requires
        hold > 0,
    ensures
        0 <= run_bill(billed, hold) <= hold,
        run_bill(billed, hold) + (hold - run_bill(billed, hold)) == hold,
{
}

/// The content id that an expired job's text names, or all zeros if it names none.
pub open spec fn expiry_cid(job_id_text: Seq<char>) -> Seq<u8> {
    match content_id_result(job_id_text) {
        Ok(b) => b,
        Err(_) => Seq::new(32, |i: int| 0u8),
    }
}

/// The release of an expired job's hold back to its payer, keyed `expire:<job id>`.
pub fn expiry_movement(job_id_text: &str, hold: i64, payer: Pubkey) -> (r: CreditMovement)
    ensures
        r.account == payer,
        r.kind == CreditKind::Expire,
        r.amount.0 == hold,
        r.cause_type == CauseType::HoldExpiry,
        r.cause_id@ == job_id_text@,
        r.idempotency_key@ == "expire:"@ + cid_text(expiry_cid(job_id_text@)),
{
    let cid = match ContentId::from_hex(job_id_text) {
        Ok(c) => c,
        Err(_) => {
            let c = ContentId([0u8; 32]);
            assert(c.0@ =~= Seq::new(32, |i: int| 0u8));
            c
        },
    };
    CreditMovement {
        account: payer,
        kind: CreditKind::Expire,
        amount: Millicredits(hold),
        cause_type: CauseType::HoldExpiry,
        cause_id: job_id_text.to_owned(),
        idempotency_key: concat_str("expire:", cid.to_hex_prefixed().as_str()),
    }
}

/// Checks a stored job's status change: the move must be allowed, and the job must still be in
/// the status it is moved from.
pub fn check_status_change(job_id: &ContentId, from: JobStatus, to: JobStatus, current: &str) -> (r: Result<(), NodeError>)
    ensures
        !may_enter(from, to) ==> (r matches Err(NodeError::Conflict(t)) && t@ == "status "@ + job_status_debug_name(from)
            + " cannot move to "@ + job_status_debug_name(to)),
        may_enter(from, to) && current@ != job_status_name(from) ==> (r matches Err(NodeError::Conflict(t)) && t@
            == "job "@ + cid_text(job_id.0@) + " is "@ + current@ + ", expected "@ + job_status_name(from)),
        may_enter(from, to) && current@ == job_status_name(from) ==> r is Ok,
{
    match from.transition(to) {
        Ok(_) => {},
        Err(e) => {
            return Err(NodeError::Conflict(e.message()));
        },
    }
    if !str_eq(current, from.as_str()) {
        let a = concat_str("job ", job_id.to_hex_prefixed().as_str());
        let b = concat_str(a.as_str(), " is ");
        let c = concat_str(b.as_str(), current);
        let d = concat_str(c.as_str(), ", expected ");
        return Err(NodeError::Conflict(concat_str(d.as_str(), from.as_str())));
    }
    Ok(())
}

/// Checks that a job about to run holds credits.
pub fn require_hold_active(job_id: &ContentId, status: &str) -> (r: Result<(), NodeError>)
    ensures
        status@ == job_status_name(JobStatus::HoldActive) ==> r is Ok,
        status@ != job_status_name(JobStatus::HoldActive) ==> (r matches Err(NodeError::Conflict(t)) && t@ == "job "@
            + cid_text(job_id.0@) + " is "@ + status@ + ", need hold_active"@),
{
    if str_eq(status, JobStatus::HoldActive.as_str()) {
        Ok(())
    } else {
        let a = concat_str("job ", job_id.to_hex_prefixed().as_str());
        let b = concat_str(a.as_str(), " is ");
        let c = concat_str(b.as_str(), status);
        Err(NodeError::Conflict(concat_str(c.as_str(), ", need hold_active")))
    }
}

/// Where a run request starts, by the job's stored status.
#[derive(Debug, PartialEq, Eq, Structural)]
pub enum RunStart {
    /// The job has already succeeded: its stored record is the answer.
    Done,
    /// The job is only specified: accept it (hold its credits) first.
    AcceptFirst,
    /// Go on to the hold check.
    Proceed,
}

/// Decides where running a job starts from its stored status name.
pub fn run_start(status: &str) -> (r: RunStart)
    ensures
        r == if status@ == job_status_name(JobStatus::Succeeded) {
            RunStart::Done
        } else if status@ == job_status_name(JobStatus::Specified) {
            RunStart::AcceptFirst
        } else {
            RunStart::Proceed
        },
{
    if str_eq(status, JobStatus::Succeeded.as_str()) {
        RunStart::Done
    } else if str_eq(status, JobStatus::Specified.as_str()) {
        RunStart::AcceptFirst
    } else {
        RunStart::Proceed
    }
}

/// Whether a job's model blob is a weights file that the node's runner runs; any other blob is
/// answered with the labelled mock result.
pub fn runs_model(model_bytes: &[u8]) -> (r: bool)
    ensures
        r == decoded_weights(model_bytes@) is Ok,
{
    decode_weights(model_bytes).is_ok()
}

} // verus!
