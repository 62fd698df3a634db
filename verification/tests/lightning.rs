use keel::identity::Pubkey;
use keel::ledger::settlement_mint_request;
use keel::lightning::{book_settlement, lnd_settlement, one_sat, LightningBook};
use keel::metering::Millicredits;
use keel::node::NodeError;
use keel::settlement::{IntentStatus, PaymentIntent, Rail};
use lightning_invoice::Bolt11Invoice;
use sha2::Digest;

#[test]
fn bolt11_roundtrip_and_preimage() {
    let mut book = LightningBook::new();
    let view = book.create_invoice("aa", 100, 1).unwrap();
    assert!(view.bolt11.to_lowercase().starts_with("lnbcrt"));
    let parsed: Bolt11Invoice = view.bolt11.parse().unwrap();
    assert_eq!(hex::encode(parsed.payment_hash()), view.payment_hash);
    let pre = book.test_preimage(&view.payment_hash).unwrap();
    book.settle(&view.payment_hash, &pre).unwrap();
    assert!(book.get(&view.payment_hash).unwrap().settled);
}

#[test]
fn invoice_view_fields() {
    let mut book = LightningBook::new();
    let view = book.create_invoice("acct", 2500, 3).unwrap();
    assert_eq!(view.id, view.payment_hash);
    assert_eq!(view.rail, "btc_lightning");
    assert_eq!(view.status, "open");
    assert_eq!(view.millicredits_on_confirm, 2500);
    assert_eq!(view.amount_atomic, 3);
    let inv = book.get(&view.payment_hash).unwrap();
    assert_eq!(inv.amount_msat, 3000);
    assert_eq!(inv.account, "acct");
    assert_eq!(inv.millicredits, 2500);
    assert!(!inv.settled);
    assert_eq!(inv.bolt11, view.bolt11);
    let digest: [u8; 32] = sha2::Sha256::digest(inv.preimage).into();
    assert_eq!(digest, inv.payment_hash);
    let parsed: Bolt11Invoice = view.bolt11.parse().unwrap();
    assert_eq!(parsed.amount_milli_satoshis(), Some(3000));
}

#[test]
fn zero_sats_is_billed_as_one_sat() {
    let mut book = LightningBook::new();
    let view = book.create_invoice("acct", 1, 0).unwrap();
    assert_eq!(view.amount_atomic, 1);
    assert_eq!(book.get(&view.payment_hash).unwrap().amount_msat, 1000);
    assert_eq!(one_sat(), 1);
}

#[test]
fn settle_refusals() {
    let mut book = LightningBook::new();
    let view = book.create_invoice("acct", 10, 1).unwrap();
    let pre = book.test_preimage(&view.payment_hash).unwrap();
    assert!(book.settle(&view.payment_hash, "zz").is_err());
    assert_eq!(
        book.settle(&view.payment_hash, "abcd").unwrap_err(),
        "preimage must be 32 bytes"
    );
    let other = hex::encode([5u8; 32]);
    assert_eq!(
        book.settle(&view.payment_hash, &other).unwrap_err(),
        "preimage does not match payment_hash"
    );
    let unknown_pre = [9u8; 32];
    let unknown_hash = hex::encode(sha2::Sha256::digest(unknown_pre));
    assert_eq!(
        book.settle(&unknown_hash, &hex::encode(unknown_pre)).unwrap_err(),
        "unknown invoice"
    );
    assert!(!book.get(&view.payment_hash).unwrap().settled);
    assert!(!book.is_confirmed(&view.payment_hash));
    let paid = book.settle(&view.payment_hash, &pre).unwrap();
    assert!(paid.settled);
    assert!(book.is_confirmed(&view.payment_hash));
    assert!(!book.is_confirmed(&unknown_hash));
}

#[test]
fn lookups_are_by_lowercase_hex() {
    let mut book = LightningBook::new();
    let view = book.create_invoice("acct", 10, 1).unwrap();
    assert!(book.get(&view.payment_hash.to_uppercase()).is_none());
    assert!(book.test_preimage("00").is_none());
}

#[test]
fn settling_one_invoice_leaves_the_other_open() {
    let mut book = LightningBook::new();
    let a = book.create_invoice("a", 1, 1).unwrap();
    let b = book.create_invoice("b", 2, 1).unwrap();
    assert_ne!(a.payment_hash, b.payment_hash);
    let pre = book.test_preimage(&a.payment_hash).unwrap();
    book.settle(&a.payment_hash, &pre).unwrap();
    assert!(book.get(&a.payment_hash).unwrap().settled);
    assert!(!book.get(&b.payment_hash).unwrap().settled);
}

#[test]
fn file_invoice_reports_parse_errors() {
    let mut book = LightningBook::new();
    let r = book.file_invoice("a", 1, 1, [1u8; 32], Err("bad checksum".to_string()));
    assert_eq!(r.unwrap_err(), "parse bolt11: bad checksum");
    let hash = hex::encode(sha2::Sha256::digest([1u8; 32]));
    assert!(book.get(&hash).is_none());
}

#[test]
fn file_invoice_records_under_hash() {
    let mut book = LightningBook::new();
    let v = book
        .file_invoice("acct", 7, 5, [1u8; 32], Ok("lnbcrt-text".to_string()))
        .unwrap();
    let hash = hex::encode(sha2::Sha256::digest([1u8; 32]));
    assert_eq!(v.payment_hash, hash);
    assert_eq!(v.bolt11, "lnbcrt-text");
    assert_eq!(v.amount_atomic, 5);
    let inv = book.get(&hash).unwrap();
    assert_eq!(inv.amount_msat, 5000);
    assert_eq!(inv.preimage, [1u8; 32]);
    assert_eq!(book.test_preimage(&hash).unwrap(), hex::encode([1u8; 32]));
    // Filing the same preimage again replaces the invoice.
    book.file_invoice("other", 8, 1, [1u8; 32], Ok("second".to_string()))
        .unwrap();
    let inv = book.get(&hash).unwrap();
    assert_eq!(inv.account, "other");
    assert_eq!(inv.bolt11, "second");
}

#[test]
fn saturating_msat() {
    let mut book = LightningBook::new();
    book.file_invoice("a", 1, u64::MAX, [2u8; 32], Ok("t".to_string()))
        .unwrap();
    let hash = hex::encode(sha2::Sha256::digest([2u8; 32]));
    assert_eq!(book.get(&hash).unwrap().amount_msat, u64::MAX);
}

#[test]
fn create_intent_uses_mint_account_hex() {
    let mut book = LightningBook::new();
    let intent = PaymentIntent {
        id: "i".into(),
        rail: Rail::BtcLightning,
        amount_atomic: 2,
        mint_account: Pubkey([0xab; 32]),
        millicredits_on_confirm: Millicredits(40),
        status: IntentStatus::Open,
    };
    let v = book.create_intent(&intent).unwrap();
    let inv = book.get(&v.payment_hash).unwrap();
    assert_eq!(inv.account, hex::encode([0xab; 32]));
    assert_eq!(inv.millicredits, 40);
    assert_eq!(v.amount_atomic, 2);
}

#[test]
fn book_and_lnd_settlement() {
    let mut book = LightningBook::new();
    let v = book.create_invoice("acct", 77, 1).unwrap();
    match book_settlement(&mut book, &v.payment_hash, "00") {
        Err(NodeError::Conflict(t)) => assert_eq!(t, "preimage must be 32 bytes"),
        other => panic!("{other:?}"),
    }
    let pre = book.test_preimage(&v.payment_hash).unwrap();
    let (account, credits) = book_settlement(&mut book, &v.payment_hash, &pre).unwrap();
    assert_eq!(account, "acct");
    assert_eq!(credits, 77);

    match lnd_settlement(false, Some(("a".into(), 1)), "ph") {
        Err(NodeError::Conflict(t)) => assert_eq!(t, "lnd invoice not settled"),
        other => panic!("{other:?}"),
    }
    match lnd_settlement(true, None, "ph") {
        Err(NodeError::NotFound(t)) => assert_eq!(t, "ph"),
        other => panic!("{other:?}"),
    }
    assert_eq!(lnd_settlement(true, Some(("a".into(), 5)), "ph").unwrap(), ("a".to_string(), 5));

    let req = settlement_mint_request("acct".into(), 77, "ph");
    assert_eq!(req.rail, "btc_lightning");
    assert_eq!(req.rail_ref, "ph");
    assert_eq!(req.amount_millicredits, 77);
    assert_eq!(req.account, "acct");
}

#[test]
fn invoice_carries_network_description_secret_and_cltv() {
    let mut book = LightningBook::new();
    let view = book.create_invoice("acct", 10, 2).unwrap();
    assert!(view.bolt11.starts_with("lnbcrt"));
    let parsed: Bolt11Invoice = view.bolt11.parse().unwrap();
    let inv = book.get(&view.payment_hash).unwrap();
    assert_eq!(parsed.currency(), lightning_invoice::Currency::Regtest);
    assert_eq!(parsed.payment_secret().0, inv.preimage);
    assert_eq!(parsed.min_final_cltv_expiry_delta(), 144);
    assert_eq!(parsed.amount_milli_satoshis(), Some(2000));
    assert_eq!(parsed.description().to_string(), "keel millicredit mint");
    assert_eq!(hex::encode(parsed.payment_hash()), hex::encode(inv.payment_hash));
    assert_ne!(hex::encode(parsed.payment_hash()), hex::encode(inv.preimage));
}
