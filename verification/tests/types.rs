use keel::artifact::{ArtifactFile, ArtifactManifest, HardwareHint, ManifestSig};
use keel::envelope::{Envelope, Kind};
use keel::identity::{ContentId, Identity, Pubkey, Signature};
use keel::job::JobStatus;
use keel::json::{canonical_json, Json, JsonObject};
use keel::metering::{CauseType, CreditAccount, CreditError, CreditKind, CreditMovement, Millicredits};
use keel::peer::PeerInvite;

#[test]
fn hold_then_run_then_succeed() {
    let s = JobStatus::Specified
        .transition(JobStatus::Submitted)
        .unwrap()
        .transition(JobStatus::HoldActive)
        .unwrap()
        .transition(JobStatus::Running)
        .unwrap()
        .transition(JobStatus::Succeeded)
        .unwrap();
    assert_eq!(s, JobStatus::Succeeded);
}

#[test]
fn cannot_burn_without_hold() {
    assert!(JobStatus::Submitted.transition(JobStatus::Running).is_err());
}

fn acct(pk: u8) -> Pubkey {
    let mut b = [0u8; 32];
    b[0] = pk;
    Pubkey(b)
}

fn cid() -> ContentId {
    ContentId([7u8; 32])
}

#[test]
fn mint_hold_burn_release() {
    let mut a = CreditAccount::default();
    let pk = acct(1);
    let job = cid();
    a.apply(&CreditMovement {
        account: pk,
        kind: CreditKind::Mint,
        amount: Millicredits(1000),
        cause_type: CauseType::SettlementReceipt,
        cause_id: "ln:abc".into(),
        idempotency_key: CreditMovement::mint_key("btc_lightning", "ph"),
    })
    .unwrap();
    a.apply(&CreditMovement {
        account: pk,
        kind: CreditKind::Hold,
        amount: Millicredits(400),
        cause_type: CauseType::InferenceJob,
        cause_id: job.to_hex_prefixed(),
        idempotency_key: CreditMovement::hold_key(&job),
    })
    .unwrap();
    a.apply(&CreditMovement {
        account: pk,
        kind: CreditKind::Burn,
        amount: Millicredits(250),
        cause_type: CauseType::InferenceJob,
        cause_id: job.to_hex_prefixed(),
        idempotency_key: CreditMovement::burn_key(&job),
    })
    .unwrap();
    a.apply(&CreditMovement {
        account: pk,
        kind: CreditKind::Release,
        amount: Millicredits(150),
        cause_type: CauseType::InferenceJob,
        cause_id: job.to_hex_prefixed(),
        idempotency_key: CreditMovement::release_key(&job),
    })
    .unwrap();
    assert_eq!(
        a,
        CreditAccount {
            balance: Millicredits(750),
            held: Millicredits(0),
        }
    );
}

#[test]
fn cannot_hold_more_than_balance() {
    let mut a = CreditAccount::default();
    let err = a
        .apply(&CreditMovement {
            account: acct(1),
            kind: CreditKind::Hold,
            amount: Millicredits(1),
            cause_type: CauseType::InferenceJob,
            cause_id: "x".into(),
            idempotency_key: "hold:x".into(),
        })
        .unwrap_err();
    assert_eq!(err, CreditError::Insufficient);
}

#[test]
fn sorts_object_keys() {
    let mut doc = JsonObject::new();
    doc.insert("b".to_string(), Json::UInt(2));
    doc.insert("a".to_string(), Json::UInt(1));
    let bytes = canonical_json(&Json::Obj(doc)).unwrap();
    assert_eq!(bytes, br#"{"a":1,"b":2}"#);
}

fn seq_doc(n: u64) -> Json {
    let mut o = JsonObject::new();
    o.insert("seq".to_string(), Json::UInt(n));
    Json::Obj(o)
}

#[test]
fn envelope_tamper_fails() {
    let id = Identity::generate().unwrap();
    let mut env = Envelope::sign(Kind::IndexPublish, seq_doc(1), &id, 1).unwrap();
    env.verify().unwrap();
    env.body = seq_doc(2);
    assert!(env.verify().is_err());
}

#[test]
fn envelope_stable_digest() {
    let id = Identity::from_seed([7u8; 32]);
    let a = Envelope::sign(Kind::SeederAnnounce, "x", &id, 42).unwrap();
    let b = Envelope::sign(Kind::SeederAnnounce, "x", &id, 42).unwrap();
    assert_eq!(a.sig.0, b.sig.0);
}

#[test]
fn sign_verify_and_tamper() {
    let id = Identity::generate().unwrap();
    let msg = b"keel envelope";
    let sig = id.sign(msg);
    id.pubkey().verify(msg, &sig).unwrap();
    let mut bad = *msg;
    bad[0] ^= 1;
    assert!(id.pubkey().verify(&bad, &sig).is_err());
}

#[test]
fn content_id_stable_for_same_bytes() {
    let a = ContentId::of_bytes(b"keel v0");
    let b = ContentId::of_bytes(b"keel v0");
    assert_eq!(a, b);
    assert_ne!(a, ContentId::of_bytes(b"keel v1"));
}

fn sample() -> ArtifactManifest {
    ArtifactManifest {
        schema: ArtifactManifest::v0().into(),
        name: "example".into(),
        license: "MIT".into(),
        files: vec![ArtifactFile {
            path: "weights.gguf".into(),
            cid: ContentId([1u8; 32]),
            size_bytes: 12,
            media: Some("gguf".into()),
        }],
        hardware: HardwareHint {
            min_vram_mb: 8192,
            quant: Some("Q4_K_M".into()),
            backend: vec!["llama.cpp".into()],
        },
        signatures: vec![],
    }
}

#[test]
fn signatures_do_not_change_artifact_cid() {
    let mut m = sample();
    let a = m.artifact_cid().unwrap();
    m.signatures.push(ManifestSig {
        issuer: Pubkey([2u8; 32]),
        sig: Signature([3u8; 64]),
    });
    let b = m.artifact_cid().unwrap();
    assert_eq!(a, b);
}

#[test]
fn invite_tamper_fails() {
    let id = Identity::generate().unwrap();
    let body = PeerInvite {
        schema: PeerInvite::v0().into(),
        invite_id: "ab".into(),
        multiaddrs: vec!["/ip4/127.0.0.1/tcp/7420/http".into()],
        expires_at: 9_999_999_999,
        once: true,
    };
    let mut env = Envelope::sign(Kind::PeerInvite, body, &id, 1).unwrap();
    env.verify().unwrap();
    env.body.multiaddrs.push("/ip4/10.0.0.1/tcp/1/http".into());
    assert!(env.verify().is_err());
}
