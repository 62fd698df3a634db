use keel::blob::{blob_matches, FsArtifactStore};
use keel::client::{aj, api_base, read_reply, refuse_if_denied, ClientError};
use keel::discovery::{FilterList, ModelIndex};
use keel::documents::{check_filter, check_index, check_runner, needs_signing};
use keel::envelope::{Envelope, Kind};
use keel::identity::{ContentId, Identity};
use keel::json::{canonical_json, Json, JsonObject};
use keel::lightning::PayIntentRequest;
use keel::lnd::{
    add_invoice_request, b64_to_hex, configured, invoice_from_reply, invoice_lookup_url, invoice_settled,
    lnd_intent_view, macaroon_hex, payment_hash_text, rest_base, LndInvoice,
};
use keel::node::{NodeError, PeerRedeemRequest};
use keel::peer::{PeerAdvertisement, PeerInvite, PeerVisibility};
use keel::peers::{
    blob_fetch_bases, blob_url, check_invite, check_peer_envelope, check_public_ad, collect_http_bases,
    envelope_multiaddrs, invite_body, peer_http_bases, redeem_decision, redeem_urls, self_advertisement, sync_urls,
    without_self, NodeSettings,
};
use keel::runner::{PriceBook, RunnerAdvertisement};
use base64::Engine;
use sha2::Digest;

fn obj(members: Vec<(&str, Json)>) -> Json {
    let mut o = JsonObject::new();
    for (k, v) in members {
        o.insert(k.to_string(), v);
    }
    Json::Obj(o)
}

fn s(t: &str) -> Json {
    Json::Str(t.to_string())
}

fn index(seq: u64) -> ModelIndex {
    ModelIndex {
        schema: ModelIndex::v0().into(),
        seq,
        prev: None,
        entries: vec![],
    }
}

#[test]
fn index_checks() {
    let id = Identity::from_seed([3u8; 32]);
    let env = Envelope::sign(Kind::IndexPublish, index(1), &id, 5).unwrap();
    let cid = check_index(&env).unwrap();
    assert_eq!(cid, ContentId::of_canonical(&index(1)).unwrap());
    let wrong = Envelope::sign(Kind::FilterPublish, index(1), &id, 5).unwrap();
    match check_index(&wrong) {
        Err(NodeError::Msg(t)) => assert_eq!(t, "expected index.publish"),
        other => panic!("{other:?}"),
    }
    let mut tampered = env;
    tampered.body.seq = 2;
    match check_index(&tampered) {
        Err(NodeError::Conflict(t)) => assert_eq!(t, "signature verification failed"),
        other => panic!("{other:?}"),
    }
}

#[test]
fn filter_and_runner_checks() {
    let id = Identity::from_seed([3u8; 32]);
    let f = FilterList {
        schema: FilterList::v0().into(),
        seq: 4,
        deny_cids: vec![ContentId([1u8; 32])],
        deny_aliases: vec![],
    };
    let env = Envelope::sign(Kind::FilterPublish, f.clone(), &id, 5).unwrap();
    assert_eq!(check_filter(&env).unwrap(), ContentId::of_canonical(&f).unwrap());
    let ad = RunnerAdvertisement {
        schema: RunnerAdvertisement::v0().into(),
        models: vec![],
        backends: vec!["llama.cpp".into()],
        vram_mb: 8,
        price: PriceBook {
            millicredits_per_k_completion: 1,
            millicredits_per_k_prompt: 2,
            millicredits_per_second: None,
        },
        multiaddrs: vec![],
        expires_at: 10,
    };
    let env = Envelope::sign(Kind::RunnerAnnounce, ad.clone(), &id, 5).unwrap();
    assert_eq!(check_runner(&env).unwrap(), ContentId::of_canonical(&ad).unwrap());
    assert!(needs_signing(&obj(vec![("seq", Json::UInt(1))])));
    assert!(!needs_signing(&obj(vec![("sig", s("00"))])));
    assert!(needs_signing(&s("x")));
}

fn ad(vis: PeerVisibility, expires_at: u64) -> PeerAdvertisement {
    PeerAdvertisement {
        schema: PeerAdvertisement::v0().into(),
        multiaddrs: vec!["/ip4/1.2.3.4/tcp/80/http".into()],
        visibility: vis,
        expires_at,
    }
}

#[test]
fn peer_envelope_checks() {
    let id = Identity::from_seed([5u8; 32]);
    let env = Envelope::sign(Kind::PeerAnnounce, ad(PeerVisibility::Public, 100), &id, 1).unwrap();
    assert!(check_peer_envelope(&env, 99).is_ok());
    match check_peer_envelope(&env, 100) {
        Err(NodeError::Conflict(t)) => assert_eq!(t, "peer advertisement expired"),
        other => panic!("{other:?}"),
    }
    let invite_only = Envelope::sign(Kind::PeerAnnounce, ad(PeerVisibility::Invite, 100), &id, 1).unwrap();
    match check_public_ad(&invite_only, 1) {
        Err(NodeError::Conflict(t)) => {
            assert_eq!(t, "invite-only advertisements must not be posted to the public peer list")
        }
        other => panic!("{other:?}"),
    }
    assert!(check_peer_envelope(&invite_only, 1).is_ok());
    let wrong = Envelope::sign(Kind::PeerInvite, ad(PeerVisibility::Public, 100), &id, 1).unwrap();
    match check_peer_envelope(&wrong, 1) {
        Err(NodeError::Msg(t)) => assert_eq!(t, "expected peer.announce"),
        other => panic!("{other:?}"),
    }
}

#[test]
fn invites() {
    let issuer = Identity::from_seed([6u8; 32]);
    let body = invite_body("http://10.0.0.1:7420", &[0xaa; 16], 1000, true);
    assert_eq!(body.invite_id, hex::encode([0xaa; 16]));
    assert_eq!(body.multiaddrs, vec!["/ip4/10.0.0.1/tcp/7420/http".to_string()]);
    assert_eq!(body.expires_at, 1000 + 7 * 86400);
    assert_eq!(body.schema, PeerInvite::v0());
    let inv = Envelope::sign(Kind::PeerInvite, body.clone(), &issuer, 1).unwrap();
    assert!(check_invite(&inv, 1000).is_ok());
    match check_invite(&inv, 1000 + 7 * 86400) {
        Err(NodeError::Conflict(t)) => assert_eq!(t, "invite expired"),
        other => panic!("{other:?}"),
    }
    assert_eq!(redeem_urls(&body), vec!["http://10.0.0.1:7420/v0/peers/redeem".to_string()]);

    let guest = Identity::from_seed([7u8; 32]);
    let advert = Envelope::sign(Kind::PeerAnnounce, ad(PeerVisibility::Invite, 5000), &guest, 1).unwrap();
    let req = PeerRedeemRequest {
        invite: inv,
        advertisement: advert,
    };
    let me = issuer.pubkey();
    assert_eq!(redeem_decision(&req, &me, 1000, Some((1, 999_999, 0))).unwrap(), true);
    assert_eq!(redeem_decision(&req, &me, 1000, Some((0, 999_999, 1))).unwrap(), false);
    match redeem_decision(&req, &me, 1000, Some((1, 999_999, 1))) {
        Err(NodeError::Conflict(t)) => assert_eq!(t, "invite already used"),
        other => panic!("{other:?}"),
    }
    match redeem_decision(&req, &me, 1000, None) {
        Err(NodeError::NotFound(t)) => assert_eq!(t, format!("invite {}", hex::encode([0xaa; 16]))),
        other => panic!("{other:?}"),
    }
    match redeem_decision(&req, &me, 1000, Some((1, 10, 0))) {
        Err(NodeError::Conflict(t)) => assert_eq!(t, "invite expired"),
        other => panic!("{other:?}"),
    }
    match redeem_decision(&req, &guest.pubkey(), 1000, Some((1, 999_999, 0))) {
        Err(NodeError::Conflict(t)) => assert_eq!(t, "invite was not issued by this node"),
        other => panic!("{other:?}"),
    }
}

#[test]
fn own_advertisement() {
    let a = self_advertisement("http://127.0.0.1:9000/", PeerVisibility::Public, 10);
    assert_eq!(a.multiaddrs, vec!["/ip4/127.0.0.1/tcp/9000/http".to_string()]);
    assert_eq!(a.expires_at, 86410);
    assert_eq!(a.visibility, PeerVisibility::Public);
}

#[test]
fn peer_address_collection() {
    let start = vec!["http://a:1".to_string()];
    let addrs = vec![
        "/ip4/a/tcp/1/http".to_string(),
        "/dns/nope".to_string(),
        "/ip4/b/tcp/2/https".to_string(),
        "/ip4/b/tcp/2/https".to_string(),
    ];
    assert_eq!(
        collect_http_bases(start, &addrs),
        vec!["http://a:1".to_string(), "https://b:2".to_string()]
    );
    let rows = vec![
        r#"["/ip4/a/tcp/1/http","/ip4/c/tcp/3/http"]"#.to_string(),
        "not json".to_string(),
        r#"["/ip4/a/tcp/1/http"]"#.to_string(),
    ];
    assert_eq!(
        peer_http_bases(&rows),
        vec!["http://a:1".to_string(), "http://c:3".to_string()]
    );
    let env1 = obj(vec![(
        "body",
        obj(vec![("multiaddrs", Json::Arr(vec![s("/ip4/d/tcp/4/http"), Json::UInt(3), s("/ip4/e/tcp/5/http")]))]),
    )]);
    let env2 = obj(vec![("body", obj(vec![("multiaddrs", Json::Arr(vec![s("/ip4/d/tcp/4/http")]))]))]);
    assert_eq!(
        envelope_multiaddrs(&env1),
        vec!["/ip4/d/tcp/4/http".to_string(), "/ip4/e/tcp/5/http".to_string()]
    );
    assert!(envelope_multiaddrs(&s("x")).is_empty());
    assert_eq!(
        sync_urls(vec!["http://boot:1".to_string()], &vec![env1, env2]),
        vec!["http://boot:1".to_string(), "http://d:4".to_string(), "http://e:5".to_string()]
    );
    let me = Some("http://d:4".to_string());
    assert_eq!(
        without_self(&vec!["http://d:4".to_string(), "http://e:5".to_string()], &me),
        vec!["http://e:5".to_string()]
    );
    let bases = blob_fetch_bases(
        &vec!["/ip4/d/tcp/4/http".to_string(), "/ip4/f/tcp/6/http".to_string(), "/dns/x".to_string()],
        &vec!["http://d:4".to_string(), "http://g:7".to_string()],
        &me,
    );
    assert_eq!(bases, vec!["http://f:6".to_string(), "http://g:7".to_string()]);
    let c = ContentId([1u8; 32]);
    assert_eq!(blob_url("http://g:7", &c), format!("http://g:7/v0/blobs/{}", hex::encode([1u8; 32])));
}

#[test]
fn settings() {
    let mut st = NodeSettings::new();
    assert_eq!(st.advertise_base(), None);
    assert_eq!(st.visibility(), PeerVisibility::Invite);
    st.set_advertise_base("http://x:1///");
    assert_eq!(st.advertise_base(), Some("http://x:1".to_string()));
    st.set_visibility(PeerVisibility::Public);
    assert_eq!(st.visibility(), PeerVisibility::Public);
    st.add_bootstrap("http://b:2/");
    st.add_bootstrap("http://b:2");
    st.add_bootstrap("/");
    assert_eq!(st.bootstrap(), &vec!["http://b:2".to_string()]);
}

#[test]
fn lnd_settings() {
    assert!(configured(&Some("https://lnd:8080".into())));
    assert!(!configured(&Some(String::new())));
    assert!(!configured(&None));
    assert_eq!(rest_base(&Some("https://lnd:8080//".into())).unwrap(), "https://lnd:8080");
    assert_eq!(rest_base(&None).unwrap_err(), "KEEL_LND_REST unset");
    assert_eq!(macaroon_hex(&Some("abcd".into()), None).unwrap(), "abcd");
    assert_eq!(macaroon_hex(&Some(String::new()), Some(Ok(vec![1, 2]))).unwrap(), "0102");
    assert_eq!(macaroon_hex(&None, Some(Err("no file".into()))).unwrap_err(), "no file");
    assert_eq!(
        macaroon_hex(&None, None).unwrap_err(),
        "set KEEL_LND_MACAROON or KEEL_LND_MACAROON_FILE"
    );
}

#[test]
fn lnd_hashes() {
    let bytes = [0xfbu8, 0xff, 0x01, 0x02];
    let std_b64 = base64::engine::general_purpose::STANDARD.encode(bytes);
    let url_b64 = base64::engine::general_purpose::URL_SAFE.encode(bytes);
    let nopad = base64::engine::general_purpose::URL_SAFE_NO_PAD.encode(bytes);
    assert_eq!(b64_to_hex(&std_b64).unwrap(), "fbff0102");
    assert_eq!(b64_to_hex(&url_b64).unwrap(), "fbff0102");
    assert_eq!(b64_to_hex(&nopad).unwrap(), "fbff0102");
    assert!(b64_to_hex("***").is_err());
    let h = hex::encode([7u8; 32]);
    assert_eq!(payment_hash_text(&h).unwrap(), h);
    let b = base64::engine::general_purpose::STANDARD.encode([7u8; 32]);
    assert_eq!(payment_hash_text(&b).unwrap(), h);
}

#[test]
fn lnd_replies() {
    let reply = obj(vec![
        ("payment_request", s("lnbcrt1...")),
        ("r_hash", s(&base64::Engine::encode(&base64::engine::general_purpose::STANDARD, [1u8; 32]))),
    ]);
    let inv = invoice_from_reply(&reply).unwrap();
    assert_eq!(inv.bolt11, "lnbcrt1...");
    assert_eq!(inv.payment_hash, hex::encode([1u8; 32]));
    assert_eq!(
        invoice_from_reply(&obj(vec![("r_hash", s("x"))])).unwrap_err(),
        "lnd: missing payment_request"
    );
    assert_eq!(
        invoice_from_reply(&obj(vec![("payment_request", s("x"))])).unwrap_err(),
        "lnd: missing r_hash"
    );
    assert!(invoice_settled(&obj(vec![("settled", Json::Bool(true))])));
    assert!(invoice_settled(&obj(vec![("state", s("SETTLED"))])));
    assert!(!invoice_settled(&obj(vec![("state", s("OPEN")), ("settled", Json::Bool(false))])));
    assert!(!invoice_settled(&s("SETTLED")));

    let (url, body) = add_invoice_request("https://lnd:8080", "keel millicredit mint", 0);
    assert_eq!(url, "https://lnd:8080/v1/invoices");
    assert_eq!(
        String::from_utf8(canonical_json(&body).unwrap()).unwrap(),
        r#"{"memo":"keel millicredit mint","value":"1"}"#
    );
    let (_, body) = add_invoice_request("b", "m", 12345);
    assert_eq!(
        String::from_utf8(canonical_json(&body).unwrap()).unwrap(),
        r#"{"memo":"m","value":"12345"}"#
    );
    let url = invoice_lookup_url("https://lnd", &hex::encode([0xfb; 4])).unwrap();
    assert_eq!(url, "https://lnd/v1/invoice/-_v7-w==");
    assert!(invoice_lookup_url("https://lnd", "xyz").is_err());

    let req = PayIntentRequest {
        account: "a".into(),
        millicredits_on_confirm: 9,
        amount_sats: 0,
    };
    let v = lnd_intent_view(
        LndInvoice {
            bolt11: "b".into(),
            payment_hash: "h".into(),
        },
        &req,
    );
    assert_eq!((v.id.as_str(), v.rail, v.status.as_str(), v.amount_atomic), ("h", "btc_lightning", "open", 0));
}

#[test]
fn client_rules() {
    assert_eq!(api_base("http://127.0.0.1:7420/"), "http://127.0.0.1:7420");
    let ok = read_reply(true, 200, obj(vec![("x", Json::UInt(1))])).unwrap();
    assert_eq!(String::from_utf8(canonical_json(&ok).unwrap()).unwrap(), r#"{"x":1}"#);
    match read_reply(false, 404, obj(vec![("error", s("not found: x"))])) {
        Err(e) => assert_eq!(aj(e), "404: not found: x"),
        other => panic!("{other:?}"),
    }
    match read_reply(false, 500, obj(vec![])) {
        Err(ClientError::Api { status, message }) => {
            assert_eq!(status, 500);
            assert_eq!(message, "request failed");
        }
        other => panic!("{other:?}"),
    }
    assert_eq!(ClientError::Msg("m".into()).message(), "m");
    assert_eq!(ClientError::Http("h".into()).message(), "h");

    let blob = ContentId([2u8; 32]);
    let hexid = hex::encode([2u8; 32]);
    let doc = |entries: Vec<Json>| obj(vec![("body", obj(vec![("deny_cids", Json::Arr(entries))]))]);
    assert!(refuse_if_denied("f", &doc(vec![s("other")]), &blob).is_ok());
    assert_eq!(
        refuse_if_denied("fcid", &doc(vec![s(&hexid)]), &blob).unwrap_err(),
        "denied by client FilterList fcid (node blob GET still succeeds)"
    );
    assert!(refuse_if_denied("f", &doc(vec![s(&format!("sha256:{hexid}"))]), &blob).is_err());
    assert!(refuse_if_denied("f", &s("x"), &blob).is_ok());
}

#[test]
fn blob_paths() {
    let c = ContentId([0xab; 32]);
    let h = hex::encode([0xab; 32]);
    let store = FsArtifactStore::new("/data".into());
    assert_eq!(store.path_for(&c), format!("/data/blobs/sha256/ab/{h}"));
    assert_eq!(FsArtifactStore::new("/data/".into()).path_for(&c), format!("/data/blobs/sha256/ab/{h}"));
    assert_eq!(FsArtifactStore::new(String::new()).path_for(&c), format!("blobs/sha256/ab/{h}"));
    assert_eq!(store.root_dir(), "/data");
    let digest: [u8; 32] = sha2::Sha256::digest(b"gguf-bytes").into();
    assert!(blob_matches(b"gguf-bytes", &ContentId(digest)));
    assert!(!blob_matches(b"other", &ContentId(digest)));
}
