//! Signed envelopes: a body with its kind, signer and time, signed over the SHA-256 of the
//! canonical JSON of everything but the signature.

use crate::crypto::{ed25519_public_of, ed25519_signature_of, sha256, sha256_of};
use crate::hexcodec::hex_lower;
use crate::identity::{verify_result, Identity, IdentityError, Pubkey, Signature};
use crate::json::{canonical, canonical_json, has_float, json_get, json_str, lemma_member_put, member, no_members, put, ContentIdError, Json, JsonObject, JsonValue, ToJson};
use vstd::prelude::*;

verus! {

/// The protocol version written in every envelope.
pub const KEEL_VERSION: u32 = 0;

/// What an envelope announces.
#[derive(Clone, Copy, Debug, PartialEq, Eq, Structural)]
pub enum Kind {
    PeerAnnounce,
    PeerInvite,
    ArtifactAnnounce,
    ArtifactWant,
    SeederAnnounce,
    IndexPublish,
    FilterPublish,
    RunnerAnnounce,
    JobSubmit,
    JobAccept,
    JobResult,
    CreditHold,
    CreditBurn,
    CreditRelease,
    PayIntent,
    PayReceipt,
}

/// The wire name of a kind.
pub open spec fn kind_name(k: Kind) -> Seq<char> {
    match k {
        Kind::PeerAnnounce => "peer.announce"@,
        Kind::PeerInvite => "peer.invite"@,
        Kind::ArtifactAnnounce => "artifact.announce"@,
        Kind::ArtifactWant => "artifact.want"@,
        Kind::SeederAnnounce => "seeder.announce"@,
        Kind::IndexPublish => "index.publish"@,
        Kind::FilterPublish => "filter.publish"@,
        Kind::RunnerAnnounce => "runner.announce"@,
        Kind::JobSubmit => "job.submit"@,
        Kind::JobAccept => "job.accept"@,
        Kind::JobResult => "job.result"@,
        Kind::CreditHold => "credit.hold"@,
        Kind::CreditBurn => "credit.burn"@,
        Kind::CreditRelease => "credit.release"@,
        Kind::PayIntent => "pay.intent"@,
        Kind::PayReceipt => "pay.receipt"@,
    }
}

impl Kind {
    /// The wire name of the kind.
    pub fn as_str(self) -> (r: &'static str)
        ensures
            r@ == kind_name(self),
    {
        match self {
            Kind::PeerAnnounce => "peer.announce",
            Kind::PeerInvite => "peer.invite",
            Kind::ArtifactAnnounce => "artifact.announce",
            Kind::ArtifactWant => "artifact.want",
            Kind::SeederAnnounce => "seeder.announce",
            Kind::IndexPublish => "index.publish",
            Kind::FilterPublish => "filter.publish",
            Kind::RunnerAnnounce => "runner.announce",
            Kind::JobSubmit => "job.submit",
            Kind::JobAccept => "job.accept",
            Kind::JobResult => "job.result",
            Kind::CreditHold => "credit.hold",
            Kind::CreditBurn => "credit.burn",
            Kind::CreditRelease => "credit.release",
            Kind::PayIntent => "pay.intent",
            Kind::PayReceipt => "pay.receipt",
        }
    }
}

/// A signed body.
#[derive(Clone)]
pub struct Envelope<T> {
    pub keel: u32,
    pub kind: Kind,
    pub body: T,
    pub from: Pubkey,
    pub ts: u64,
    pub sig: Signature,
}

/// The signed part of an envelope.
#[derive(Clone)]
pub struct UnsignedEnvelope<T> {
    pub keel: u32,
    pub kind: Kind,
    pub body: T,
    pub from: Pubkey,
    pub ts: u64,
}

/// The document that an envelope's signature covers.
pub open spec fn unsigned_json(keel: u32, kind: Kind, body: JsonValue, from: Seq<u8>, ts: u64) -> JsonValue {
    JsonValue::Obj(
        put(
            put(
                put(
                    put(put(no_members(), "keel"@, JsonValue::Int(keel as int)), "kind"@, JsonValue::Str(kind_name(kind))),
                    "body"@,
                    body,
                ),
                "from"@,
                JsonValue::Str(hex_lower(from)),
            ),
            "ts"@,
            JsonValue::Int(ts as int),
        ),
    )
}

/// What checking an envelope answers: a document with a float cannot be digested and counts as a
/// bad signature; otherwise the signer's key must accept the signature over the SHA-256 of the
/// canonical JSON.
pub open spec fn envelope_check(keel: u32, kind: Kind, body: JsonValue, from: Seq<u8>, ts: u64, sig: Seq<u8>) -> Result<(), IdentityError> {
    let doc = unsigned_json(keel, kind, body, from, ts);
    if has_float(doc) {
        Err(IdentityError::BadSig)
    } else {
        verify_result(from, sha256_of(canonical(doc)), sig)
    }
}

/// Builds the document that an envelope's signature covers.
fn unsigned_object(keel: u32, kind: Kind, body: Json, from: &Pubkey, ts: u64) -> (r: Json)
    ensures
        r@ == unsigned_json(keel, kind, body@, from.0@, ts),
{
    let mut o = JsonObject::new();
    o.insert(String::from_str("keel"), Json::UInt(keel as u64));
    o.insert(String::from_str("kind"), json_str(kind.as_str()));
    o.insert(String::from_str("body"), body);
    o.insert(String::from_str("from"), Json::Str(from.to_hex()));
    o.insert(String::from_str("ts"), Json::UInt(ts));
    Json::Obj(o)
}

impl<T: ToJson> ToJson for UnsignedEnvelope<T> {
    open spec fn json(&self) -> JsonValue {
        unsigned_json(self.keel, self.kind, self.body.json(), self.from.0@, self.ts)
    }

    fn to_json(&self) -> (j: Json) {
        unsigned_object(self.keel, self.kind, self.body.to_json(), &self.from, self.ts)
    }
}

/// The SHA-256 of a value's canonical JSON: what an envelope signs.
pub fn signing_digest<T: ToJson>(unsigned: &T) -> (r: Result<[u8; 32], ContentIdError>)
    ensures
        r is Ok <==> !has_float(unsigned.json()),
        r matches Ok(d) ==> d@ == sha256_of(canonical(unsigned.json())),
        r matches Err(e) ==> e is Float,
{
    let canon = canonical_json(unsigned)?;
    Ok(sha256(canon.as_slice()))
}

impl<T: ToJson> Envelope<T> {
    /// Signs `body` as `identity` at time `ts`. Refused exactly when the body's document holds a
    /// float. A signed envelope passes `verify`.
    pub fn sign(kind: Kind, body: T, identity: &Identity, ts: u64) -> (r: Result<Self, ContentIdError>)
        ensures
            r is Ok <==> !has_float(unsigned_json(KEEL_VERSION, kind, body.json(), ed25519_public_of(identity.secret()), ts)),
            r matches Err(e) ==> e is Float,
            r matches Ok(e) ==> {
                &&& e.keel == KEEL_VERSION
                &&& e.kind == kind
                &&& e.body == body
                &&& e.from.0@ == ed25519_public_of(identity.secret())
                &&& e.ts == ts
                &&& e.sig.0@ == ed25519_signature_of(
                    identity.secret(),
                    sha256_of(canonical(unsigned_json(KEEL_VERSION, kind, body.json(), e.from.0@, ts))),
                )
                &&& envelope_check(e.keel, e.kind, e.body.json(), e.from.0@, e.ts, e.sig.0@) == Ok::<(), IdentityError>(())
            },
    {
        let from = identity.pubkey();
        let unsigned = UnsignedEnvelope { keel: KEEL_VERSION, kind, body, from, ts };
        let digest = signing_digest(&unsigned)?;
        let sig = identity.sign(&digest);
        Ok(Envelope { keel: unsigned.keel, kind: unsigned.kind, body: unsigned.body, from, ts, sig })
    }

    /// Checks the signature against the signer's key.
    pub fn verify(&self) -> (r: Result<(), IdentityError>)
        ensures
            r == envelope_check(self.keel, self.kind, self.body.json(), self.from.0@, self.ts, self.sig.0@),
    {
        let doc = unsigned_object(self.keel, self.kind, self.body.to_json(), &self.from, self.ts);
        let digest = match signing_digest(&doc) {
            Ok(d) => d,
            Err(_) => {
                return Err(IdentityError::BadSig);
            },
        };
        self.from.verify(&digest, &self.sig)
    }
}

/// The document of a signed envelope: the signed part and the signature in hex.
pub open spec fn envelope_json(keel: u32, kind: Kind, body: JsonValue, from: Seq<u8>, ts: u64, sig: Seq<u8>) -> JsonValue {
    match unsigned_json(keel, kind, body, from, ts) {
        JsonValue::Obj(m) => JsonValue::Obj(put(m, "sig"@, JsonValue::Str(hex_lower(sig)))),
        other => other,
    }
}

impl<T: ToJson> ToJson for Envelope<T> {
    open spec fn json(&self) -> JsonValue {
        envelope_json(self.keel, self.kind, self.body.json(), self.from.0@, self.ts, self.sig.0@)
    }

    fn to_json(&self) -> (j: Json) {
        let doc = unsigned_object(self.keel, self.kind, self.body.to_json(), &self.from, self.ts);
        match doc {
            Json::Obj(mut o) => {
                o.insert(String::from_str("sig"), Json::Str(self.sig.to_hex()));
                Json::Obj(o)
            },
            other => other,
        }
    }
}


/// The keys of an envelope's document, told apart.
proof fn lemma_envelope_keys_differ()
    ensures
        "keel"@ != "kind"@, "keel"@ != "body"@, "keel"@ != "from"@, "keel"@ != "ts"@, "keel"@ != "sig"@,
        "kind"@ != "body"@, "kind"@ != "from"@, "kind"@ != "ts"@, "kind"@ != "sig"@,
        "body"@ != "from"@, "body"@ != "ts"@, "body"@ != "sig"@,
        "from"@ != "ts"@, "from"@ != "sig"@,
        "ts"@ != "sig"@,
{
    reveal_strlit("keel");
    reveal_strlit("kind");
    reveal_strlit("body");
    reveal_strlit("from");
    reveal_strlit("ts");
    reveal_strlit("sig");
    assert("keel"@[1] != "kind"@[1]);
    assert("keel"@[0] != "body"@[0]);
    assert("keel"@[0] != "from"@[0]);
    assert("keel"@[0] != "ts"@[0]);
    assert("keel"@[0] != "sig"@[0]);
    assert("kind"@[0] != "body"@[0]);
    assert("kind"@[0] != "from"@[0]);
    assert("kind"@[0] != "ts"@[0]);
    assert("kind"@[0] != "sig"@[0]);
    assert("body"@[0] != "from"@[0]);
    assert("body"@[0] != "ts"@[0]);
    assert("body"@[0] != "sig"@[0]);
    assert("from"@[0] != "ts"@[0]);
    assert("from"@[0] != "sig"@[0]);
    assert("ts"@[0] != "sig"@[0]);
}

/// What each key of the signed document reads.
proof fn lemma_unsigned_members(keel: u32, kind: Kind, body: JsonValue, from: Seq<u8>, ts: u64)
    ensures
        json_get(unsigned_json(keel, kind, body, from, ts), "keel"@) == Some(JsonValue::Int(keel as int)),
        json_get(unsigned_json(keel, kind, body, from, ts), "kind"@) == Some(JsonValue::Str(kind_name(kind))),
        json_get(unsigned_json(keel, kind, body, from, ts), "body"@) == Some(body),
        json_get(unsigned_json(keel, kind, body, from, ts), "from"@) == Some(JsonValue::Str(hex_lower(from))),
        json_get(unsigned_json(keel, kind, body, from, ts), "ts"@) == Some(JsonValue::Int(ts as int)),
        json_get(unsigned_json(keel, kind, body, from, ts), "sig"@) is None,
{
    lemma_envelope_keys_differ();
    let m1 = put(no_members(), "keel"@, JsonValue::Int(keel as int));
    let m2 = put(m1, "kind"@, JsonValue::Str(kind_name(kind)));
    let m3 = put(m2, "body"@, body);
    let m4 = put(m3, "from"@, JsonValue::Str(hex_lower(from)));
    let m5 = put(m4, "ts"@, JsonValue::Int(ts as int));
    let keys = seq!["keel"@, "kind"@, "body"@, "from"@, "ts"@, "sig"@];
    assert forall|i: int| 0 <= i < 6 implies {
        &&& member(m1, #[trigger] keys[i]) == if keys[i] == "keel"@ { Some(JsonValue::Int(keel as int)) } else { member(no_members(), keys[i]) }
    } by {
        lemma_member_put(no_members(), "keel"@, JsonValue::Int(keel as int), keys[i]);
    }
    assert forall|i: int| 0 <= i < 6 implies {
        &&& member(m5, #[trigger] keys[i]) == if keys[i] == "ts"@ { Some(JsonValue::Int(ts as int)) } else { member(m4, keys[i]) }
        &&& member(m4, keys[i]) == if keys[i] == "from"@ { Some(JsonValue::Str(hex_lower(from))) } else { member(m3, keys[i]) }
        &&& member(m3, keys[i]) == if keys[i] == "body"@ { Some(body) } else { member(m2, keys[i]) }
        &&& member(m2, keys[i]) == if keys[i] == "kind"@ { Some(JsonValue::Str(kind_name(kind))) } else { member(m1, keys[i]) }
    } by {
        lemma_member_put(m4, "ts"@, JsonValue::Int(ts as int), keys[i]);
        lemma_member_put(m3, "from"@, JsonValue::Str(hex_lower(from)), keys[i]);
        lemma_member_put(m2, "body"@, body, keys[i]);
        lemma_member_put(m1, "kind"@, JsonValue::Str(kind_name(kind)), keys[i]);
    }
    assert(member(no_members(), "sig"@) is None);
    assert(keys[0] == "keel"@ && keys[1] == "kind"@ && keys[2] == "body"@);
    assert(keys[3] == "from"@ && keys[4] == "ts"@ && keys[5] == "sig"@);
}

/// The document an envelope's signature covers holds every field of the envelope but the
/// signature: its protocol version, kind, body, signer (hex) and time. So two envelopes that
/// differ in their time, or in their body, are signed over different documents.
pub proof fn law_signed_document_covers_every_field(
    keel: u32,
    kind: Kind,
    body: JsonValue,
    from: Seq<u8>,
    ts: u64,
    ts2: u64,
    body2: JsonValue,
)
    ensures
        json_get(unsigned_json(keel, kind, body, from, ts), "keel"@) == Some(JsonValue::Int(keel as int)),
        json_get(unsigned_json(keel, kind, body, from, ts), "kind"@) == Some(JsonValue::Str(kind_name(kind))),
        json_get(unsigned_json(keel, kind, body, from, ts), "body"@) == Some(body),
        json_get(unsigned_json(keel, kind, body, from, ts), "from"@) == Some(JsonValue::Str(hex_lower(from))),
        json_get(unsigned_json(keel, kind, body, from, ts), "ts"@) == Some(JsonValue::Int(ts as int)),
        json_get(unsigned_json(keel, kind, body, from, ts), "sig"@) is None,
        ts != ts2 ==> unsigned_json(keel, kind, body, from, ts) != unsigned_json(keel, kind, body, from, ts2),
        body != body2 ==> unsigned_json(keel, kind, body, from, ts) != unsigned_json(keel, kind, body2, from, ts),
{
    lemma_unsigned_members(keel, kind, body, from, ts);
    lemma_unsigned_members(keel, kind, body, from, ts2);
    lemma_unsigned_members(keel, kind, body2, from, ts);
}

} // verus!
