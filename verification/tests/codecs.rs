use keel::identity::{ContentId, Identity, IdentityError, Pubkey};
use keel::inference::{
    cid_weights_result, decode_weights, default_runner, encode_weights, sha256_prefix, CidWeightsRunner, LlamaCppRunner,
    Runner, RunnerError,
};
use keel::job::{InputRef, JobSpec, JobStatus};
use keel::json::{canonical_json, copy_json, json_str, key_less, without_key, ContentIdError, Json, JsonObject};
use keel::metering::Millicredits;
use keel::multiaddr::{http_base, http_to_multiaddr};
use serde_json::Value;
use sha2::Digest;

#[test]
fn content_id_hex_forms() {
    let c = ContentId::of_bytes(b"abc");
    let digest: [u8; 32] = sha2::Sha256::digest(b"abc").into();
    assert_eq!(c.0, digest);
    assert_eq!(c.to_hex(), hex::encode(digest));
    assert_eq!(c.to_hex_prefixed(), format!("sha256:{}", hex::encode(digest)));
    assert_eq!(ContentId::from_hex(&c.to_hex()).unwrap(), c);
    assert_eq!(ContentId::from_hex(&c.to_hex_prefixed()).unwrap(), c);
    assert_eq!(ContentId::from_hex("abcd").unwrap_err(), "expected 32 bytes");
    assert!(ContentId::from_hex("zz").is_err());
    assert_eq!(Pubkey::from_hex(&hex::encode([9u8; 32])).unwrap(), Pubkey([9u8; 32]));
    assert!(Pubkey::from_hex("sha256:00").is_err());
}

#[test]
fn identity_key_files() {
    let id = Identity::from_key_bytes(&[4u8; 32]).unwrap();
    assert_eq!(id.seed_bytes(), [4u8; 32]);
    assert_eq!(id.pubkey(), Identity::from_seed([4u8; 32]).pubkey());
    assert!(matches!(Identity::from_key_bytes(&[4u8; 31]), Err(IdentityError::BadKey)));
    assert!(matches!(Identity::from_key_bytes(&[4u8; 33]), Err(IdentityError::BadKey)));
    let expected = ed25519_dalek::SigningKey::from_bytes(&[4u8; 32]).verifying_key().to_bytes();
    assert_eq!(id.pubkey().0, expected);
    assert_eq!(IdentityError::BadKey.message(), "invalid ed25519 key");
    assert_eq!(IdentityError::BadSig.message(), "signature verification failed");
}

#[test]
fn bad_signature_is_refused() {
    let id = Identity::from_seed([1u8; 32]);
    let sig = id.sign(b"m");
    let other = Identity::from_seed([2u8; 32]);
    assert_eq!(other.pubkey().verify(b"m", &sig), Err(IdentityError::BadSig));
}

fn sample_doc() -> Json {
    let mut inner = JsonObject::new();
    inner.insert("zeta".into(), Json::Bool(false));
    inner.insert("alpha".into(), Json::Null);
    let mut o = JsonObject::new();
    o.insert("text".into(), json_str("a\"b\\c\n\t\u{1}\u{7f}é€"));
    o.insert("neg".into(), Json::Int(-42));
    o.insert("big".into(), Json::UInt(u64::MAX));
    o.insert("list".into(), Json::Arr(vec![Json::Int(0), Json::Str("x".into()), Json::Obj(inner)]));
    o.insert("B".into(), Json::Bool(true));
    o.insert("é".into(), Json::Int(1));
    Json::Obj(o)
}

fn vobj(members: Vec<(&str, serde_json::Value)>) -> serde_json::Value {
    let mut m = serde_json::Map::new();
    for (k, v) in members {
        m.insert(k.to_string(), v);
    }
    serde_json::Value::Object(m)
}

fn expected_value() -> serde_json::Value {
    vobj(vec![
        ("text", Value::String("a\"b\\c\n\t\u{1}\u{7f}é€".to_string())),
        ("neg", Value::from(-42i64)),
        ("big", Value::from(u64::MAX)),
        (
            "list",
            Value::Array(vec![
                Value::from(0i64),
                Value::String("x".to_string()),
                vobj(vec![("zeta", Value::Bool(false)), ("alpha", Value::Null)]),
            ]),
        ),
        ("B", Value::Bool(true)),
        ("é", Value::from(1i64)),
    ])
}

#[test]
fn canonical_matches_serde_compact_sorted() {
    let ours = String::from_utf8(canonical_json(&sample_doc()).unwrap()).unwrap();
    let theirs = expected_value();
    assert_eq!(ours, serde_json::to_string(&theirs).unwrap());
}

#[test]
fn floats_are_refused() {
    let mut o = JsonObject::new();
    o.insert("x".into(), Json::Float);
    assert!(matches!(canonical_json(&Json::Obj(o)), Err(ContentIdError::Float)));
    assert_eq!(ContentIdError::Float.message(), "floats are not allowed in hashed Keel documents");
    assert_eq!(ContentIdError::Serde("boom".into()).message(), "serde: boom");
}

#[test]
fn object_updates() {
    let mut o = JsonObject::new();
    o.insert("k".into(), Json::Int(1));
    o.insert("k".into(), Json::Int(2));
    assert_eq!(o.len(), 1);
    assert!(matches!(o.get("k"), Some(Json::Int(2))));
    o.remove("k");
    assert_eq!(o.len(), 0);
    assert!(o.get("k").is_none());
    let stripped = without_key(sample_doc(), "list");
    let text = String::from_utf8(canonical_json(&stripped).unwrap()).unwrap();
    assert!(!text.contains("list"));
    let copy = copy_json(&sample_doc());
    assert_eq!(canonical_json(&copy).unwrap(), canonical_json(&sample_doc()).unwrap());
    assert!(key_less("B", "a"));
    assert!(key_less("a", "ab"));
    assert!(!key_less("é", "z"));
}

#[test]
fn weight_tables() {
    let w: Vec<u64> = [1.0f64, 2.0, -0.5].iter().map(|x| x.to_bits()).collect();
    let bytes = encode_weights(&w);
    let mut expected = b"KEELW001".to_vec();
    expected.extend_from_slice(&3u32.to_le_bytes());
    for x in [1.0f64, 2.0, -0.5] {
        expected.extend_from_slice(&x.to_le_bytes());
    }
    assert_eq!(bytes, expected);
    assert_eq!(decode_weights(&bytes).unwrap(), w);
    match decode_weights(b"KEELW00") {
        Err(RunnerError::Msg(m)) => assert_eq!(m, "not a KEELW001 weight blob"),
        other => panic!("{other:?}"),
    }
    match decode_weights(b"NOTAWGHT\0\0\0\0") {
        Err(RunnerError::Msg(m)) => assert_eq!(m, "not a KEELW001 weight blob"),
        other => panic!("{other:?}"),
    }
    match decode_weights(&bytes[..bytes.len() - 1]) {
        Err(RunnerError::Msg(m)) => assert_eq!(m, "truncated weights"),
        other => panic!("{other:?}"),
    }
    assert_eq!(decode_weights(&encode_weights(&[])).unwrap(), Vec::<u64>::new());
    assert_eq!(
        RunnerError::NoLlama.message(),
        "llama-cli not configured (set KEEL_LLAMA_CLI)"
    );
}

#[test]
fn sha256_prefixes() {
    let d = sha2::Sha256::digest(b"x");
    assert_eq!(sha256_prefix(b"x"), hex::encode(&d[..4]));
}

fn spec(max: i64) -> JobSpec {
    JobSpec {
        schema: JobSpec::v0().into(),
        model: ContentId::of_bytes(&[0; 8]),
        input: InputRef::Inline { text: "hello".into() },
        max_millicredits: Millicredits(max),
        payer: Pubkey([1u8; 32]),
        nonce: "n".into(),
    }
}

#[test]
fn weights_runner_results() {
    let r = cid_weights_result(&spec(10), "19.00000000", 5).unwrap();
    assert_eq!(r.job_id, spec(10).job_id().unwrap());
    assert_eq!(r.status, JobStatus::Succeeded);
    match &r.output {
        InputRef::Inline { text } => assert_eq!(text, "cid-weights:19.00000000"),
        other => panic!("{other:?}"),
    }
    assert_eq!(r.meter.billed, Millicredits(5));
    assert_eq!(cid_weights_result(&spec(3), "s", 5).unwrap().meter.billed, Millicredits(3));
    assert_eq!(cid_weights_result(&spec(0), "s", 5).unwrap().meter.billed, Millicredits(1));
    assert_eq!(cid_weights_result(&spec(10), "s", 0).unwrap().meter.billed, Millicredits(1));
}

#[test]
fn runner_choice() {
    assert_eq!(CidWeightsRunner.name(), "cid-weights");
    match default_runner(Some("/usr/bin/llama-cli".into())) {
        Runner::Llama(l) => {
            assert_eq!(l.bin, "/usr/bin/llama-cli");
            assert_eq!(l.name(), "llama.cpp");
        }
        other => panic!("{other:?}"),
    }
    assert!(matches!(default_runner(Some(String::new())), Runner::CidWeights(_)));
    assert!(matches!(default_runner(None), Runner::CidWeights(_)));
    assert_eq!(default_runner(None).name(), "cid-weights");
    assert!(LlamaCppRunner::from_env(Some(String::new())).is_none());
    let d = sha2::Sha256::digest(b"model");
    assert_eq!(LlamaCppRunner::model_dir_name(b"model"), format!("keel-llama-{}", hex::encode(&d[..8])));
    match LlamaCppRunner::run_result(&spec(10), false, "", "boom") {
        Err(RunnerError::Msg(m)) => assert_eq!(m, "boom"),
        other => panic!("{other:?}"),
    }
    let r = LlamaCppRunner::run_result(&spec(10), true, "answer", "").unwrap();
    assert_eq!(r.meter.billed, Millicredits(1));
    match &r.output {
        InputRef::Inline { text } => assert_eq!(text, "answer"),
        other => panic!("{other:?}"),
    }
}

#[test]
fn multiaddrs() {
    assert_eq!(http_to_multiaddr("http://127.0.0.1:7420/"), "/ip4/127.0.0.1/tcp/7420/http");
    assert_eq!(http_to_multiaddr("http://example"), "/ip4/example/tcp/80/http");
    assert_eq!(http_to_multiaddr("https://h:9"), "/ip4/h/tcp/9/https");
    assert_eq!(http_to_multiaddr("https://h"), "/ip4/h/tcp/443/https");
    assert_eq!(http_to_multiaddr("/ip4/1.2.3.4/tcp/1/http/"), "/ip4/1.2.3.4/tcp/1/http");
    assert_eq!(http_to_multiaddr("other//"), "other");
    assert_eq!(http_base("/ip4/1.2.3.4/tcp/80/https"), Some("https://1.2.3.4:80".into()));
    assert_eq!(http_base("/ip6/::1/tcp/8/http"), Some("http://::1:8".into()));
    assert_eq!(http_base("http://x:1/"), Some("http://x:1".into()));
    assert_eq!(http_base("/dns/x"), None);
    assert_eq!(http_base("/ip4/1.2.3.4/udp/80"), None);
    for base in ["http://10.1.2.3:5555", "https://node.example:443"] {
        assert_eq!(http_base(&http_to_multiaddr(base)), Some(base.to_string()));
    }
}

#[test]
fn member_order_does_not_matter() {
    let mut a = JsonObject::new();
    a.insert("x".into(), Json::Int(1));
    a.insert("é".into(), Json::Bool(true));
    a.insert("A".into(), Json::Null);
    let mut b = JsonObject::new();
    b.insert("A".into(), Json::Null);
    b.insert("x".into(), Json::Int(1));
    b.insert("é".into(), Json::Bool(true));
    assert_eq!(canonical_json(&Json::Obj(a)).unwrap(), canonical_json(&Json::Obj(b)).unwrap());
}

#[test]
fn visibility_names_roundtrip() {
    use_visibility(keel::peer::PeerVisibility::Public);
    use_visibility(keel::peer::PeerVisibility::Invite);
    assert_eq!(
        keel::peer::PeerVisibility::parse("secret").unwrap_err(),
        "peer visibility must be public or invite, not secret"
    );
}

fn use_visibility(v: keel::peer::PeerVisibility) {
    assert_eq!(keel::peer::PeerVisibility::parse(v.as_str()), Ok(v));
}

#[test]
fn without_key_twice_is_once() {
    let once = without_key(sample_doc(), "neg");
    let twice = without_key(copy_json(&once), "neg");
    assert_eq!(canonical_json(&once).unwrap(), canonical_json(&twice).unwrap());
    let text = String::from_utf8(canonical_json(&twice).unwrap()).unwrap();
    assert!(!text.contains("neg"));
    let same = without_key(Json::Int(3), "neg");
    assert!(matches!(same, Json::Int(3)));
}

#[test]
fn canonical_objects_are_key_sorted_at_every_depth() {
    let text = String::from_utf8(canonical_json(&sample_doc()).unwrap()).unwrap();
    assert!(text.find("\"alpha\"").unwrap() < text.find("\"zeta\"").unwrap());
    assert!(text.find("\"B\"").unwrap() < text.find("\"big\"").unwrap());
    assert!(text.find("\"text\"").unwrap() < text.find("\"é\"").unwrap());
}

#[test]
fn generated_identities_differ_and_sign() {
    let a = Identity::generate().unwrap();
    let b = Identity::generate().unwrap();
    assert_ne!(a.seed_bytes(), b.seed_bytes());
    let sig = a.sign(b"m");
    a.pubkey().verify(b"m", &sig).unwrap();
}
