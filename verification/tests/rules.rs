use keel::identity::{ContentId, Pubkey};
use keel::job::{InputRef, JobError, JobResult, JobSpec, JobStatus};
use keel::jobs::{
    check_status_change, run_start, runs_model, RunStart, expiry_movement, hold_movement, labeled_mock_result, mock_quote, require_hold_active,
    settle_run,
};
use keel::ledger::{apply_credit, mint_movement, movement_id, CreditStep};
use keel::metering::{
    CauseType, CreditAccount, CreditError, CreditKind, CreditMovement, Millicredits, UsageMeter, Work,
};
use keel::node::{mock_rail, MintRequest, NodeError};
use sha2::Digest;

fn movement(kind: CreditKind, n: i64, key: &str) -> CreditMovement {
    CreditMovement {
        account: Pubkey([1u8; 32]),
        kind,
        amount: Millicredits(n),
        cause_type: CauseType::ManualAdjust,
        cause_id: "c".into(),
        idempotency_key: key.into(),
    }
}

fn account(balance: i64, held: i64) -> CreditAccount {
    CreditAccount {
        balance: Millicredits(balance),
        held: Millicredits(held),
    }
}

#[test]
fn apply_each_kind() {
    let mut a = account(10, 5);
    a.apply(&movement(CreditKind::Mint, 3, "k")).unwrap();
    assert_eq!(a, account(13, 5));
    a.apply(&movement(CreditKind::Hold, 13, "k")).unwrap();
    assert_eq!(a, account(0, 18));
    a.apply(&movement(CreditKind::Burn, 8, "k")).unwrap();
    assert_eq!(a, account(0, 10));
    a.apply(&movement(CreditKind::Release, 4, "k")).unwrap();
    assert_eq!(a, account(4, 6));
    a.apply(&movement(CreditKind::Expire, 6, "k")).unwrap();
    assert_eq!(a, account(10, 0));
}

#[test]
fn apply_refusals_leave_account() {
    let mut a = account(10, 5);
    assert_eq!(a.apply(&movement(CreditKind::Mint, 0, "k")), Err(CreditError::NonPositive));
    assert_eq!(a.apply(&movement(CreditKind::Mint, -3, "k")), Err(CreditError::NonPositive));
    assert_eq!(a.apply(&movement(CreditKind::Hold, 11, "k")), Err(CreditError::Insufficient));
    assert_eq!(a.apply(&movement(CreditKind::Burn, 6, "k")), Err(CreditError::InsufficientHold));
    assert_eq!(a.apply(&movement(CreditKind::Release, 6, "k")), Err(CreditError::InsufficientHold));
    assert_eq!(a.apply(&movement(CreditKind::Expire, 6, "k")), Err(CreditError::InsufficientHold));
    assert_eq!(a, account(10, 5));
    assert_eq!(CreditError::NonPositive.message(), "amount must be positive");
    assert_eq!(CreditError::Insufficient.message(), "insufficient free millicredits");
    assert_eq!(CreditError::InsufficientHold.message(), "insufficient held millicredits");
}

#[test]
fn hold_then_release_restores_account() {
    let mut a = account(100, 7);
    a.apply(&movement(CreditKind::Hold, 40, "k")).unwrap();
    a.apply(&movement(CreditKind::Release, 40, "k")).unwrap();
    assert_eq!(a, account(100, 7));
}

#[test]
fn hold_and_burn_conserve_or_spend() {
    let mut a = account(50, 0);
    a.apply(&movement(CreditKind::Hold, 20, "k")).unwrap();
    assert_eq!(a.balance.0 + a.held.0, 50);
    a.apply(&movement(CreditKind::Burn, 5, "k")).unwrap();
    assert_eq!(a.balance.0 + a.held.0, 45);
}

#[test]
fn keys_and_names() {
    let c = ContentId([0xab; 32]);
    let id = format!("sha256:{}", hex::encode([0xab; 32]));
    assert_eq!(CreditMovement::hold_key(&c), format!("hold:{id}"));
    assert_eq!(CreditMovement::burn_key(&c), format!("burn:{id}"));
    assert_eq!(CreditMovement::release_key(&c), format!("release:{id}"));
    assert_eq!(CreditMovement::mint_key("mock", "r1"), "mint:mock:r1");
    assert_eq!(CreditKind::Expire.as_str(), "expire");
    assert_eq!(CauseType::HoldExpiry.as_str(), "hold_expiry");
    assert_eq!(Millicredits(i64::MAX).saturating_add(Millicredits(1)), Millicredits(i64::MAX));
    assert_eq!(Millicredits(2).saturating_add(Millicredits(3)), Millicredits(5));
    assert_eq!(Millicredits::default(), Millicredits(0));
}

#[test]
fn status_names_and_moves() {
    for s in [
        JobStatus::Specified,
        JobStatus::Submitted,
        JobStatus::HoldActive,
        JobStatus::Running,
        JobStatus::Succeeded,
        JobStatus::Failed,
        JobStatus::Expired,
    ] {
        assert_eq!(JobStatus::from_str_status(s.as_str()), Ok(s));
    }
    assert_eq!(JobStatus::HoldActive.as_str(), "hold_active");
    assert_eq!(JobStatus::from_str_status("nope"), Err("unknown job status nope".to_string()));
    assert!(JobStatus::HoldActive.can_enter(JobStatus::Expired));
    assert!(!JobStatus::Succeeded.can_enter(JobStatus::Running));
    assert_eq!(
        JobStatus::Running.transition(JobStatus::Specified),
        Err(JobError::BadTransition {
            from: JobStatus::Running,
            to: JobStatus::Specified
        })
    );
    assert_eq!(
        JobError::BadTransition {
            from: JobStatus::Submitted,
            to: JobStatus::Running
        }
        .message(),
        "status Submitted cannot move to Running"
    );
}

#[test]
fn quotes() {
    assert_eq!(mock_quote(0, 100), 1);
    assert_eq!(mock_quote(10, 100), 10);
    assert_eq!(mock_quote(10, 4), 4);
    assert_eq!(mock_quote(10, 0), 10);
    assert_eq!(mock_quote(10, -5), 10);
}

#[test]
fn ledger_write_and_replay() {
    let m = movement(CreditKind::Mint, 25, "mint:mock:x");
    let hexacct = hex::encode([1u8; 32]);
    match apply_credit(&m, false, Some(account(5, 1)), 99).unwrap() {
        CreditStep::Write { balances, movement, view } => {
            assert_eq!(balances, account(30, 1));
            assert_eq!(view.account, hexacct);
            assert_eq!(view.balance_millicredits, 30);
            assert_eq!(movement.kind, "mint");
            assert_eq!(movement.cause_type, "manual_adjust");
            assert_eq!(movement.created_at, 99);
            assert_eq!(movement.id, movement_id(&hexacct, "mint:mock:x"));
        }
        other => panic!("{other:?}"),
    }
    match apply_credit(&m, true, Some(account(5, 1)), 99).unwrap() {
        CreditStep::Replay(v) => {
            assert_eq!(v.balance_millicredits, 5);
            assert_eq!(v.held_millicredits, 1);
        }
        other => panic!("{other:?}"),
    }
    match apply_credit(&m, false, None, 99) {
        Err(NodeError::NotFound(a)) => assert_eq!(a, hexacct),
        other => panic!("{other:?}"),
    }
    match apply_credit(&movement(CreditKind::Burn, 3, "b"), false, Some(account(5, 1)), 1) {
        Err(NodeError::Conflict(t)) => assert_eq!(t, "insufficient held millicredits"),
        other => panic!("{other:?}"),
    }
}

#[test]
fn movement_id_is_sha256_of_account_and_key() {
    let mut h = sha2::Sha256::new();
    h.update(b"acct");
    h.update(b"key");
    assert_eq!(movement_id("acct", "key"), hex::encode(h.finalize()));
}

#[test]
fn mint_requests() {
    let req = MintRequest {
        account: hex::encode([3u8; 32]),
        amount_millicredits: 500,
        rail_ref: "r".into(),
        rail: mock_rail(),
    };
    let m = mint_movement(&req).unwrap();
    assert_eq!(m.account, Pubkey([3u8; 32]));
    assert_eq!(m.idempotency_key, "mint:mock:r");
    assert_eq!(m.kind, CreditKind::Mint);
    let bad = MintRequest {
        account: "xyz".into(),
        ..req.clone()
    };
    assert!(matches!(mint_movement(&bad), Err(NodeError::Msg(_))));
}

fn result(billed: i64) -> JobResult {
    let id = ContentId([4u8; 32]);
    JobResult {
        job_id: id,
        status: JobStatus::Succeeded,
        output: InputRef::Inline { text: "t".into() },
        meter: UsageMeter {
            job_id: id,
            work: Work::Job,
            billed: Millicredits(billed),
        },
    }
}

#[test]
fn run_settlement_splits_hold() {
    let id = ContentId([4u8; 32]);
    let payer = Pubkey([5u8; 32]);
    let s = settle_run(&id, payer, 10, result(3));
    assert_eq!(s.result.meter.billed, Millicredits(3));
    assert_eq!(s.burn.as_ref().unwrap().amount, Millicredits(3));
    assert_eq!(s.release.as_ref().unwrap().amount, Millicredits(7));
    let s = settle_run(&id, payer, 10, result(30));
    assert_eq!(s.result.meter.billed, Millicredits(10));
    assert!(s.release.is_none());
    let s = settle_run(&id, payer, 0, result(30));
    assert!(s.burn.is_none() && s.release.is_none());
    assert_eq!(s.result.meter.billed, Millicredits(0));
}

#[test]
fn mock_result_and_hold() {
    let id = ContentId([6u8; 32]);
    let r = labeled_mock_result(id, b"hello keel", 0);
    let digest = hex::encode(sha2::Sha256::digest(b"hello keel"));
    match &r.output {
        InputRef::Inline { text } => assert_eq!(text, &format!("keel-mock:sha256:{digest}")),
        other => panic!("{other:?}"),
    }
    assert_eq!(r.meter.billed, Millicredits(1));
    let h = hold_movement(&id, Pubkey([1u8; 32]), 12);
    assert_eq!(h.kind, CreditKind::Hold);
    assert_eq!(h.amount, Millicredits(12));
    assert_eq!(h.idempotency_key, CreditMovement::hold_key(&id));
}

#[test]
fn expiry_keys() {
    let hexid = hex::encode([8u8; 32]);
    let m = expiry_movement(&hexid, 5, Pubkey([1u8; 32]));
    assert_eq!(m.idempotency_key, format!("expire:sha256:{hexid}"));
    assert_eq!(m.kind, CreditKind::Expire);
    let m = expiry_movement("not-hex", 5, Pubkey([1u8; 32]));
    assert_eq!(m.idempotency_key, format!("expire:sha256:{}", hex::encode([0u8; 32])));
}

#[test]
fn status_change_checks() {
    let id = ContentId([2u8; 32]);
    assert!(check_status_change(&id, JobStatus::HoldActive, JobStatus::Running, "hold_active").is_ok());
    assert!(matches!(
        check_status_change(&id, JobStatus::HoldActive, JobStatus::Running, "running"),
        Err(NodeError::Conflict(_))
    ));
    assert!(matches!(
        check_status_change(&id, JobStatus::Succeeded, JobStatus::Running, "succeeded"),
        Err(NodeError::Conflict(_))
    ));
    assert!(require_hold_active(&id, "hold_active").is_ok());
    match require_hold_active(&id, "specified") {
        Err(NodeError::Conflict(t)) => assert!(t.ends_with("is specified, need hold_active")),
        other => panic!("{other:?}"),
    }
}

#[test]
fn job_ids_are_canonical_hashes() {
    let spec = JobSpec {
        schema: JobSpec::v0().into(),
        model: ContentId([0u8; 32]),
        input: InputRef::Inline { text: "hello".into() },
        max_millicredits: Millicredits(10),
        payer: Pubkey([1u8; 32]),
        nonce: "n".into(),
    };
    let a = spec.job_id().unwrap();
    let b = spec.clone().job_id().unwrap();
    assert_eq!(a, b);
    let other = JobSpec {
        nonce: "m".into(),
        ..spec
    };
    assert_ne!(a, other.job_id().unwrap());
}

#[test]
fn ledger_replay_of_missing_account_and_error_classes() {
    let m = movement(CreditKind::Mint, 1, "k");
    match apply_credit(&m, true, None, 0) {
        Err(NodeError::Sqlite(t)) => assert_eq!(t, "Query returned no rows"),
        other => panic!("{other:?}"),
    }
    assert_eq!(NodeError::NotFound("x".into()).status_code(), 404);
    assert_eq!(NodeError::Conflict("x".into()).status_code(), 409);
    assert_eq!(NodeError::Msg("x".into()).status_code(), 400);
    assert_eq!(NodeError::Json("x".into()).status_code(), 400);
    assert_eq!(NodeError::NotFound("x".into()).message(), "not found: x");
    assert_eq!(NodeError::Conflict("x".into()).message(), "conflict: x");
    assert_eq!(NodeError::Sqlite("db".into()).message(), "db");
    assert!(keel::metering::apply_fits(&account(i64::MAX, 0), CreditKind::Burn, 1));
    assert!(!keel::metering::apply_fits(&account(i64::MAX, 0), CreditKind::Mint, 1));
    assert!(!keel::metering::apply_fits(&account(1, i64::MAX), CreditKind::Hold, 1));
    assert!(keel::metering::apply_fits(&account(0, i64::MAX), CreditKind::Hold, 1));
}

#[test]
fn run_start_by_status() {
    assert_eq!(run_start("succeeded"), RunStart::Done);
    assert_eq!(run_start("specified"), RunStart::AcceptFirst);
    assert_eq!(run_start("hold_active"), RunStart::Proceed);
    assert_eq!(run_start("running"), RunStart::Proceed);
}

#[test]
fn runs_model_only_for_weights_files() {
    assert!(runs_model(&keel::inference::encode_weights(&[1, 2, 3])));
    assert!(!runs_model(b"not weights"));
    assert!(!runs_model(b""));
}

#[test]
fn minting_twice_under_one_key_counts_once() {
    let m = movement(CreditKind::Mint, 5000, "mint:mock:mock:test-1");
    let after = match apply_credit(&m, false, Some(account(0, 0)), 1).unwrap() {
        CreditStep::Write { balances, view, .. } => {
            assert_eq!(view.balance_millicredits, 5000);
            balances
        }
        other => panic!("{other:?}"),
    };
    match apply_credit(&m, true, Some(after), 2).unwrap() {
        CreditStep::Replay(v) => assert_eq!(v.balance_millicredits, 5000),
        other => panic!("{other:?}"),
    }
}
