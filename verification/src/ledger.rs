//! The node's credit ledger: how a movement is applied to an account exactly once per
//! idempotency key, and what is recorded for it.

use crate::crypto::{sha256, sha256_of};
use crate::hexcodec::{hex_encode, hex_lower};
use crate::identity::{raw32_result, Pubkey};
use crate::metering::{
    apply_in_range, apply_outcome, cause_type_name, credit_kind_name, CauseType, CreditAccount, CreditError,
    CreditKind, CreditMovement, Millicredits,
};
use crate::node::{AccountView, MintRequest, MovementView, NodeError};
use vstd::prelude::*;
use vstd::slice::slice_to_vec;
use vstd::utf8::encode_utf8;

verus! {

/// The id of a movement: the hex SHA-256 of the account's text followed by the idempotency key.
pub open spec fn movement_id_of(account: Seq<char>, key: Seq<char>) -> Seq<char> {
    hex_lower(sha256_of(encode_utf8(account) + encode_utf8(key)))
}

/// The id of the movement of `account` under idempotency key `key`.
pub fn movement_id(account: &str, key: &str) -> (r: String)
    ensures
        r@ == movement_id_of(account@, key@),
{
    let mut bytes = slice_to_vec(account.as_bytes());
    let mut tail = slice_to_vec(key.as_bytes());
    bytes.append(&mut tail);
    let d = sha256(bytes.as_slice());
    hex_encode(&d)
}

/// The text of a credit error.
pub open spec fn credit_error_text(e: CreditError) -> Seq<char> {
    match e {
        CreditError::NonPositive => "amount must be positive"@,
        CreditError::Insufficient => "insufficient free millicredits"@,
        CreditError::InsufficientHold => "insufficient held millicredits"@,
    }
}

/// What the ledger does with a movement.
#[derive(Debug)]
pub enum CreditStep {
    /// The movement was already recorded: nothing changes, and this is the account as it stands.
    Replay(AccountView),
    /// Store these balances and record this movement; the account then reads as `view`.
    Write { balances: CreditAccount, movement: MovementView, view: AccountView },
}

/// Applies a movement to the ledger. `recorded` says whether a movement with the same account
/// and idempotency key was recorded before; `row` is the account's balances, if it exists.
pub fn apply_credit(m: &CreditMovement, recorded: bool, row: Option<CreditAccount>, now: i64) -> (r: Result<CreditStep, NodeError>)
    requires
        !recorded && row is Some ==> apply_in_range(row->Some_0, m.kind, m.amount.0 as int),
    ensures
        recorded && row is Some ==> (r matches Ok(CreditStep::Replay(v)) && v.account@ == hex_lower(m.account.0@)
            && v.balance_millicredits == row->Some_0.balance.0 && v.held_millicredits == row->Some_0.held.0),
        recorded && row is None ==> (r matches Err(NodeError::Sqlite(t)) && t@ == "Query returned no rows"@),
        !recorded && row is None ==> (r matches Err(NodeError::NotFound(a)) && a@ == hex_lower(m.account.0@)),
        !recorded && row is Some ==> match apply_outcome(
            row->Some_0.balance.0 as int,
            row->Some_0.held.0 as int,
            m.kind,
            m.amount.0 as int,
        ) {
            Err(e) => r matches Err(NodeError::Conflict(t)) && t@ == credit_error_text(e),
            Ok((b, h)) => r matches Ok(CreditStep::Write { balances, movement, view }) && {
                &&& balances.balance.0 == b && balances.held.0 == h
                &&& view.account@ == hex_lower(m.account.0@)
                &&& view.balance_millicredits == b && view.held_millicredits == h
                &&& movement.id@ == movement_id_of(hex_lower(m.account.0@), m.idempotency_key@)
                &&& movement.account@ == hex_lower(m.account.0@)
                &&& movement.kind@ == credit_kind_name(m.kind)
                &&& movement.amount_millicredits == m.amount.0
                &&& movement.cause_type@ == cause_type_name(m.cause_type)
                &&& movement.cause_id@ == m.cause_id@
                &&& movement.idempotency_key@ == m.idempotency_key@
                &&& movement.created_at == now
            },
        },
        forall|l: Ledger|
            #![trigger ledger_step(l, m.account.0@, m.kind, m.amount.0 as int, m.idempotency_key@)]
            ledger_holds(l, m.account.0@, m.idempotency_key@, recorded, row) ==> match r {
                Ok(CreditStep::Write { balances, .. }) => ledger_step(l, m.account.0@, m.kind, m.amount.0 as int, m.idempotency_key@)
                    == (Ledger {
                    accounts: l.accounts.insert(m.account.0@, (balances.balance.0 as int, balances.held.0 as int)),
                    recorded: l.recorded.insert((m.account.0@, m.idempotency_key@)),
                }),
                _ => ledger_step(l, m.account.0@, m.kind, m.amount.0 as int, m.idempotency_key@) == l,
            },
{
    let account = m.account.to_hex();
    if recorded {
        return match row {
            Some(a) => Ok(
                CreditStep::Replay(
                    AccountView { account, balance_millicredits: a.balance.0, held_millicredits: a.held.0 },
                ),
            ),
            None => Err(NodeError::Sqlite(String::from_str("Query returned no rows"))),
        };
    }
    let mut acct = match row {
        Some(a) => a,
        None => {
            return Err(NodeError::NotFound(account));
        },
    };
    match acct.apply(m) {
        Ok(()) => {},
        Err(e) => {
            return Err(NodeError::Conflict(String::from_str(e.message())));
        },
    }
    let id = movement_id(account.as_str(), m.idempotency_key.as_str());
    let movement = MovementView {
        id,
        account: account.clone(),
        kind: String::from_str(m.kind.as_str()),
        amount_millicredits: m.amount.0,
        cause_type: String::from_str(m.cause_type.as_str()),
        cause_id: m.cause_id.clone(),
        idempotency_key: m.idempotency_key.clone(),
        created_at: now,
    };
    let view = AccountView { account, balance_millicredits: acct.balance.0, held_millicredits: acct.held.0 };
    Ok(CreditStep::Write { balances: acct, movement, view })
}

/// The mint movement that a mint request asks for: keyed `mint:<rail>:<rail_ref>`, caused by the
/// settlement `rail_ref`. Refused when the account is not 64 hex digits.
pub fn mint_movement(req: &MintRequest) -> (r: Result<CreditMovement, NodeError>)
    ensures
        match r {
            Ok(m) => raw32_result(req.account@) == Ok::<Seq<u8>, Seq<char>>(m.account.0@) && m.kind == CreditKind::Mint
                && m.amount.0 == req.amount_millicredits && m.cause_type == CauseType::SettlementReceipt
                && m.cause_id@ == req.rail_ref@ && m.idempotency_key@ == "mint:"@ + req.rail@ + ":"@ + req.rail_ref@,
            Err(e) => e matches NodeError::Msg(t) && raw32_result(req.account@) == Err::<Seq<u8>, Seq<char>>(t@),
        },
{
    let pk = match Pubkey::from_hex(req.account.as_str()) {
        Ok(k) => k,
        Err(t) => {
            return Err(NodeError::Msg(t));
        },
    };
    let key = CreditMovement::mint_key(req.rail.as_str(), req.rail_ref.as_str());
    Ok(CreditMovement {
        account: pk,
        kind: CreditKind::Mint,
        amount: Millicredits(req.amount_millicredits),
        cause_type: CauseType::SettlementReceipt,
        cause_id: req.rail_ref.clone(),
        idempotency_key: key,
    })
}

/// The mint that settles a paid Lightning invoice: its credits to its account, on the
/// `btc_lightning` rail, with the payment hash as the rail reference (so a second settlement
/// of the same hash mints nothing more).
pub fn settlement_mint_request(account: String, millicredits: i64, payment_hash: &str) -> (r: MintRequest)
    ensures
        r.account@ == account@,
        r.amount_millicredits == millicredits,
        r.rail_ref@ == payment_hash@,
        r.rail@ == "btc_lightning"@,
{
    MintRequest {
        account,
        amount_millicredits: millicredits,
        rail_ref: payment_hash.to_owned(),
        rail: String::from_str("btc_lightning"),
    }
}

/// The ledger as a whole: each account's (balance, held), and the (account, key) pairs whose
/// movements have been recorded.
pub struct Ledger {
    pub accounts: Map<Seq<u8>, (int, int)>,
    pub recorded: Set<(Seq<u8>, Seq<char>)>,
}

/// Whether a ledger agrees with what `apply_credit` was told: whether the movement's key was
/// recorded for the account, and the account's balances (or that it does not exist).
pub open spec fn ledger_holds(l: Ledger, account: Seq<u8>, key: Seq<char>, recorded: bool, row: Option<CreditAccount>) -> bool {
    &&& l.recorded.contains((account, key)) == recorded
    &&& match row {
        Some(a) => l.accounts.dom().contains(account) && l.accounts[account] == (a.balance.0 as int, a.held.0 as int),
        None => !l.accounts.dom().contains(account),
    }
}

/// The ledger after a movement, as `apply_credit` decides it: unchanged when the movement was
/// recorded before, the account is unknown, or the movement is refused; otherwise the account
/// takes its new balances and the movement is recorded.
pub open spec fn ledger_step(l: Ledger, account: Seq<u8>, kind: CreditKind, n: int, key: Seq<char>) -> Ledger {
    if l.recorded.contains((account, key)) || !l.accounts.dom().contains(account) {
        l
    } else {
        let (b, h) = l.accounts[account];
        match apply_outcome(b, h, kind, n) {
            Ok(bh) => Ledger { accounts: l.accounts.insert(account, bh), recorded: l.recorded.insert((account, key)) },
            Err(_) => l,
        }
    }
}

/// Movements are idempotent: applying the same movement (same account and key) again changes
/// nothing, so a retried mint or hold counts once.
pub proof fn law_credit_idempotent(l: Ledger, account: Seq<u8>, kind: CreditKind, n: int, key: Seq<char>)
    ensures
        ledger_step(ledger_step(l, account, kind, n, key), account, kind, n, key) == ledger_step(l, account, kind, n, key),
{
}

/// A movement touches only its own account: every other account keeps its balances.
pub proof fn law_credit_touches_own_account(l: Ledger, account: Seq<u8>, kind: CreditKind, n: int, key: Seq<char>, other: Seq<u8>)
    requires
        other != account,
        l.accounts.dom().contains(other),
    ensures
        ledger_step(l, account, kind, n, key).accounts.dom().contains(other),
        ledger_step(l, account, kind, n, key).accounts[other] == l.accounts[other],
{
}

} // verus!
