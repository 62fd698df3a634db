//! Millicredits: prepaid compute inventory. Not money: no FX, no interest, no negative spend.

use crate::identity::{cid_text, ContentId, Pubkey};
use crate::json::{json_str, no_members, put, Json, JsonObject, JsonValue, ToJson};
use crate::text::concat_str;
use vstd::prelude::*;

verus! {

/// Whether an integer fits in an `i64`.
pub open spec fn fits_i64(x: int) -> bool {
    i64::MIN <= x <= i64::MAX
}

/// `x` clamped to the range of `i64`.
pub open spec fn clamp_i64(x: int) -> int {
    if x > i64::MAX {
        i64::MAX as int
    } else if x < i64::MIN {
        i64::MIN as int
    } else {
        x
    }
}

/// An amount of millicredits.
#[derive(Clone, Copy, Debug, PartialEq, Eq, PartialOrd, Ord, Structural)]
pub struct Millicredits(pub i64);

impl Default for Millicredits {
    fn default() -> (r: Self)
        ensures
            r.0 == 0,
    {
        Millicredits(0)
    }
}

impl Millicredits {
    /// The sum, clamped to the range of `i64`.
    pub fn saturating_add(self, other: Self) -> (r: Self)
        ensures
            r.0 == clamp_i64(self.0 + other.0),
    {
        match self.0.checked_add(other.0) {
            Some(s) => Millicredits(s),
            None => {
                if other.0 > 0 {
                    Millicredits(i64::MAX)
                } else {
                    Millicredits(i64::MIN)
                }
            },
        }
    }
}

/// What a credit movement does to an account.
#[derive(Clone, Copy, Debug, PartialEq, Eq, Structural)]
pub enum CreditKind {
    Mint,
    Hold,
    Release,
    Burn,
    Expire,
}

impl CreditKind {
    /// The wire name of the kind.
    pub fn as_str(self) -> (r: &'static str)
        ensures
            r@ == credit_kind_name(self),
    {
        match self {
            CreditKind::Mint => "mint",
            CreditKind::Hold => "hold",
            CreditKind::Release => "release",
            CreditKind::Burn => "burn",
            CreditKind::Expire => "expire",
        }
    }
}

/// The wire name of a credit kind.
pub open spec fn credit_kind_name(k: CreditKind) -> Seq<char> {
    match k {
        CreditKind::Mint => "mint"@,
        CreditKind::Hold => "hold"@,
        CreditKind::Release => "release"@,
        CreditKind::Burn => "burn"@,
        CreditKind::Expire => "expire"@,
    }
}

/// A change to one account, made at most once per idempotency key.
#[derive(Clone, Debug)]
pub struct CreditMovement {
    pub account: Pubkey,
    pub kind: CreditKind,
    pub amount: Millicredits,
    pub cause_type: CauseType,
    pub cause_id: String,
    pub idempotency_key: String,
}

impl CreditMovement {
    /// `hold:<job id>`.
    pub fn hold_key(job_id: &ContentId) -> (r: String)
        ensures
            r@ == "hold:"@ + cid_text(job_id.0@),
    {
        concat_str("hold:", job_id.to_hex_prefixed().as_str())
    }

    /// `burn:<job id>`.
    pub fn burn_key(job_id: &ContentId) -> (r: String)
        ensures
            r@ == "burn:"@ + cid_text(job_id.0@),
    {
        concat_str("burn:", job_id.to_hex_prefixed().as_str())
    }

    /// `release:<job id>`.
    pub fn release_key(job_id: &ContentId) -> (r: String)
        ensures
            r@ == "release:"@ + cid_text(job_id.0@),
    {
        concat_str("release:", job_id.to_hex_prefixed().as_str())
    }

    /// `mint:<rail>:<rail_ref>`.
    pub fn mint_key(rail: &str, rail_ref: &str) -> (r: String)
        ensures
            r@ == "mint:"@ + rail@ + ":"@ + rail_ref@,
    {
        let a = concat_str("mint:", rail);
        let b = concat_str(a.as_str(), ":");
        concat_str(b.as_str(), rail_ref)
    }
}

/// Why a movement happened.
#[derive(Clone, Copy, Debug, PartialEq, Eq, Structural)]
pub enum CauseType {
    SettlementReceipt,
    InferenceJob,
    HoldExpiry,
    ManualAdjust,
}

/// The wire name of a cause type.
pub open spec fn cause_type_name(c: CauseType) -> Seq<char> {
    match c {
        CauseType::SettlementReceipt => "settlement_receipt"@,
        CauseType::InferenceJob => "inference_job"@,
        CauseType::HoldExpiry => "hold_expiry"@,
        CauseType::ManualAdjust => "manual_adjust"@,
    }
}

impl CauseType {
    /// The wire name of the cause type.
    pub fn as_str(self) -> (r: &'static str)
        ensures
            r@ == cause_type_name(self),
    {
        match self {
            CauseType::SettlementReceipt => "settlement_receipt",
            CauseType::InferenceJob => "inference_job",
            CauseType::HoldExpiry => "hold_expiry",
            CauseType::ManualAdjust => "manual_adjust",
        }
    }
}

/// What a job consumed and what it was billed.
#[derive(Clone, Debug)]
pub struct UsageMeter {
    pub job_id: ContentId,
    pub work: Work,
    pub billed: Millicredits,
}

/// The measure of work done.
#[derive(Clone, Debug)]
pub enum Work {
    Tokens { prompt: u32, completion: u32, tokenizer: ContentId },
    Time { billable_ms: u64 },
    Job,
}

/// Free and held millicredits of one account.
#[derive(Clone, Copy, Debug, PartialEq, Eq, Structural)]
pub struct CreditAccount {
    pub balance: Millicredits,
    pub held: Millicredits,
}

impl Default for CreditAccount {
    fn default() -> (r: Self)
        ensures
            r.balance.0 == 0,
            r.held.0 == 0,
    {
        CreditAccount { balance: Millicredits(0), held: Millicredits(0) }
    }
}

/// Why a movement was refused.
#[derive(Clone, Copy, Debug, PartialEq, Eq, Structural)]
pub enum CreditError {
    NonPositive,
    Insufficient,
    InsufficientHold,
}

impl CreditError {
    /// The message of the error.
    pub fn message(&self) -> (r: &'static str)
        ensures
            r@ == match self {
                CreditError::NonPositive => "amount must be positive"@,
                CreditError::Insufficient => "insufficient free millicredits"@,
                CreditError::InsufficientHold => "insufficient held millicredits"@,
            },
    {
        match self {
            CreditError::NonPositive => "amount must be positive",
            CreditError::Insufficient => "insufficient free millicredits",
            CreditError::InsufficientHold => "insufficient held millicredits",
        }
    }
}

/// The (balance, held) pair after applying `n` millicredits of `kind`, or why it is refused.
pub open spec fn apply_outcome(balance: int, held: int, kind: CreditKind, n: int) -> Result<(int, int), CreditError> {
    if n <= 0 {
        Err(CreditError::NonPositive)
    } else {
        match kind {
            CreditKind::Mint => Ok((balance + n, held)),
            CreditKind::Hold => if balance < n {
                Err(CreditError::Insufficient)
            } else {
                Ok((balance - n, held + n))
            },
            CreditKind::Burn => if held < n {
                Err(CreditError::InsufficientHold)
            } else {
                Ok((balance, held - n))
            },
            CreditKind::Release | CreditKind::Expire => if held < n {
                Err(CreditError::InsufficientHold)
            } else {
                Ok((balance + n, held - n))
            },
        }
    }
}

/// Whether the outcome of a movement fits in the account's `i64` fields (the arithmetic would
/// overflow otherwise).
pub open spec fn apply_in_range(a: CreditAccount, kind: CreditKind, n: int) -> bool {
    match apply_outcome(a.balance.0 as int, a.held.0 as int, kind, n) {
        Ok((b, h)) => fits_i64(b) && fits_i64(h),
        Err(_) => true,
    }
}

/// Whether applying `n` of `kind` to an account stays within `i64` (see `apply_in_range`).
pub fn apply_fits(a: &CreditAccount, kind: CreditKind, n: i64) -> (r: bool)
    ensures
        r == apply_in_range(*a, kind, n as int),
{
    if n <= 0 {
        return true;
    }
    let b = a.balance.0;
    let h = a.held.0;
    match kind {
        CreditKind::Mint => b <= i64::MAX - n,
        CreditKind::Hold => b < n || h <= i64::MAX - n,
        CreditKind::Burn => true,
        CreditKind::Release | CreditKind::Expire => h < n || b <= i64::MAX - n,
    }
}

impl CreditAccount {
    /// Applies a movement: mint adds to the balance, hold moves balance to held, burn consumes held,
    /// release and expire move held back to the balance. A refused movement leaves the account as it
    /// was.
    pub fn apply(&mut self, m: &CreditMovement) -> (r: Result<(), CreditError>)
        requires
            apply_in_range(*old(self), m.kind, m.amount.0 as int),
        ensures
            match apply_outcome(old(self).balance.0 as int, old(self).held.0 as int, m.kind, m.amount.0 as int) {
                Ok((b, h)) => r is Ok && final(self).balance.0 == b && final(self).held.0 == h,
                Err(e) => r == Err::<(), CreditError>(e) && *final(self) == *old(self),
            },
    {
        let n = m.amount.0;
        if n <= 0 {
            return Err(CreditError::NonPositive);
        }
        match m.kind {
            CreditKind::Mint => self.balance.0 = self.balance.0 + n,
            CreditKind::Hold => {
                if self.balance.0 < n {
                    return Err(CreditError::Insufficient);
                }
                self.balance.0 = self.balance.0 - n;
                self.held.0 = self.held.0 + n;
            },
            CreditKind::Burn => {
                if self.held.0 < n {
                    return Err(CreditError::InsufficientHold);
                }
                self.held.0 = self.held.0 - n;
            },
            CreditKind::Release | CreditKind::Expire => {
                if self.held.0 < n {
                    return Err(CreditError::InsufficientHold);
                }
                self.held.0 = self.held.0 - n;
                self.balance.0 = self.balance.0 + n;
            },
        }
        Ok(())
    }
}

/// Movements only shift millicredits between free and held, except that a mint adds `n` to the
/// total and a burn removes `n` from it.
pub proof fn law_apply_conserves_total(balance: int, held: int, kind: CreditKind, n: int)
    requires
        apply_outcome(balance, held, kind, n) is Ok,
    ensures
        ({
            let (b, h) = apply_outcome(balance, held, kind, n)->Ok_0;
            b + h == balance + held + match kind {
                CreditKind::Mint => n,
                CreditKind::Burn => -n,
                _ => 0,
            }
        }),
{
}

/// No negative spend: an account with no negative part never gets one.
pub proof fn law_apply_keeps_nonnegative(balance: int, held: int, kind: CreditKind, n: int)
    requires
        balance >= 0,
        held >= 0,
        apply_outcome(balance, held, kind, n) is Ok,
    ensures
        apply_outcome(balance, held, kind, n)->Ok_0.0 >= 0,
        apply_outcome(balance, held, kind, n)->Ok_0.1 >= 0,
{
}

/// Releasing (or expiring) a hold of `n` undoes it: an account with no negative hold is as it was
/// before the hold.
pub proof fn law_release_undoes_hold(balance: int, held: int, n: int, undo: CreditKind)
    requires
        held >= 0,
        apply_outcome(balance, held, CreditKind::Hold, n) is Ok,
        undo == CreditKind::Release || undo == CreditKind::Expire,
    ensures
        ({
            let (b1, h1) = apply_outcome(balance, held, CreditKind::Hold, n)->Ok_0;
            apply_outcome(b1, h1, undo, n) == Ok::<(int, int), CreditError>((balance, held))
        }),
{
    let r1 = apply_outcome(balance, held, CreditKind::Hold, n);
    assert(r1 == Ok::<(int, int), CreditError>((balance - n, held + n)));
    let r2 = apply_outcome(balance - n, held + n, undo, n);
    assert(r2 == Ok::<(int, int), CreditError>((balance, held)));
}

/// Burning no more than was held never fails, and the rest of the hold can then be released:
/// together they leave exactly the burnt amount spent.
pub proof fn law_burn_then_release_hold(balance: int, held: int, hold: int, billed: int)
    requires
        held >= 0,
        apply_outcome(balance, held, CreditKind::Hold, hold) is Ok,
        0 < billed < hold,
    ensures
        ({
            let (b1, h1) = apply_outcome(balance, held, CreditKind::Hold, hold)->Ok_0;
            let (b2, h2) = apply_outcome(b1, h1, CreditKind::Burn, billed)->Ok_0;
            &&& apply_outcome(b1, h1, CreditKind::Burn, billed) is Ok
            &&& apply_outcome(b2, h2, CreditKind::Release, hold - billed) == Ok::<(int, int), CreditError>(
                (balance - billed, held),
            )
        }),
{
    let r1 = apply_outcome(balance, held, CreditKind::Hold, hold);
    assert(r1 == Ok::<(int, int), CreditError>((balance - hold, held + hold)));
    let r2 = apply_outcome(balance - hold, held + hold, CreditKind::Burn, billed);
    assert(r2 == Ok::<(int, int), CreditError>((balance - hold, held + hold - billed)));
    let r3 = apply_outcome(balance - hold, held + hold - billed, CreditKind::Release, hold - billed);
    assert(r3 == Ok::<(int, int), CreditError>((balance - billed, held)));
}

/// The document of a measure of work: tagged by `kind`.
pub open spec fn work_json(w: Work) -> JsonValue {
    match w {
        Work::Tokens { prompt, completion, tokenizer } => JsonValue::Obj(
            put(
                put(
                    put(put(no_members(), "kind"@, JsonValue::Str("tokens"@)), "prompt"@, JsonValue::Int(prompt as int)),
                    "completion"@,
                    JsonValue::Int(completion as int),
                ),
                "tokenizer"@,
                JsonValue::Str(cid_text(tokenizer.0@)),
            ),
        ),
        Work::Time { billable_ms } => JsonValue::Obj(
            put(put(no_members(), "kind"@, JsonValue::Str("time"@)), "billable_ms"@, JsonValue::Int(billable_ms as int)),
        ),
        Work::Job => JsonValue::Obj(put(no_members(), "kind"@, JsonValue::Str("job"@))),
    }
}

impl ToJson for Work {
    open spec fn json(&self) -> JsonValue {
        work_json(*self)
    }

    fn to_json(&self) -> (j: Json) {
        let mut o = JsonObject::new();
        match self {
            Work::Tokens { prompt, completion, tokenizer } => {
                o.insert(String::from_str("kind"), json_str("tokens"));
                o.insert(String::from_str("prompt"), Json::UInt(*prompt as u64));
                o.insert(String::from_str("completion"), Json::UInt(*completion as u64));
                o.insert(String::from_str("tokenizer"), tokenizer.to_json());
            },
            Work::Time { billable_ms } => {
                o.insert(String::from_str("kind"), json_str("time"));
                o.insert(String::from_str("billable_ms"), Json::UInt(*billable_ms));
            },
            Work::Job => {
                o.insert(String::from_str("kind"), json_str("job"));
            },
        }
        Json::Obj(o)
    }
}

impl ToJson for UsageMeter {
    open spec fn json(&self) -> JsonValue {
        JsonValue::Obj(
            put(
                put(put(no_members(), "job_id"@, self.job_id.json()), "work"@, work_json(self.work)),
                "billed"@,
                JsonValue::Int(self.billed.0 as int),
            ),
        )
    }

    fn to_json(&self) -> (j: Json) {
        let mut o = JsonObject::new();
        o.insert(String::from_str("job_id"), self.job_id.to_json());
        o.insert(String::from_str("work"), self.work.to_json());
        o.insert(String::from_str("billed"), Json::Int(self.billed.0));
        Json::Obj(o)
    }
}

} // verus!
