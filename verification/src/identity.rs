//! Content identifiers, Ed25519 public keys and signatures, and the node identity.

use crate::crypto::{
    ed25519_accepts, ed25519_key_decodes, ed25519_key_ok, ed25519_public_key, ed25519_public_of,
    ed25519_sign, ed25519_signature_of, ed25519_verify, random_bytes_32, sha256, sha256_of,
};
use crate::hexcodec::{hex_bytes, hex_decode, hex_decode_message, hex_encode, hex_lower, hex_valid};
use crate::json::{canonical, canonical_json, has_float, ContentIdError, Json, JsonValue, ToJson};
use crate::text::{concat_str, has_prefix, str_strip_prefix};
use vstd::prelude::*;

verus! {

/// `sha256:` followed by the lowercase hex of a digest: how a content id is written.
pub open spec fn cid_text(digest: Seq<u8>) -> Seq<char> {
    "sha256:"@ + hex_lower(digest)
}

/// What parsing 32 bytes of hex gives: the bytes, or the error text.
pub open spec fn raw32_result(s: Seq<char>) -> Result<Seq<u8>, Seq<char>> {
    if !hex_valid(s) {
        Err(hex_decode_message(s))
    } else if hex_bytes(s).len() != 32 {
        Err("expected 32 bytes"@)
    } else {
        Ok(hex_bytes(s))
    }
}

/// What `ContentId::from_hex` gives: `sha256:<hex>` if the part after the prefix parses, else the
/// whole string read as 64 hex digits.
pub open spec fn content_id_result(s: Seq<char>) -> Result<Seq<u8>, Seq<char>> {
    if has_prefix(s, "sha256:"@) && raw32_result(s.skip("sha256:"@.len() as int)) is Ok {
        raw32_result(s.skip("sha256:"@.len() as int))
    } else {
        raw32_result(s)
    }
}

/// A 32-byte array holding the bytes of `v`.
fn array32(v: &Vec<u8>) -> (r: [u8; 32])
    requires
        v@.len() == 32,
    ensures
        r@ == v@,
{
    let mut a = [0u8; 32];
    for i in 0..32
        invariant
            v@.len() == 32,
            a@.len() == 32,
            forall|j: int| 0 <= j < i ==> a@[j] == v@[j],
    {
        a[i] = v[i];
    }
    assert(a@ =~= v@);
    a
}

/// Reads 64 hex digits as 32 bytes.
fn parse_raw32(raw: &str) -> (r: Result<[u8; 32], String>)
    ensures
        match r {
            Ok(a) => raw32_result(raw@) == Ok::<Seq<u8>, Seq<char>>(a@),
            Err(m) => raw32_result(raw@) == Err::<Seq<u8>, Seq<char>>(m@),
        },
{
    let v = hex_decode(raw)?;
    if v.len() != 32 {
        return Err(String::from_str("expected 32 bytes"));
    }
    Ok(array32(&v))
}

/// Reads `sha256:<64 hex digits>`.
fn parse_prefixed(raw: &str) -> (r: Result<ContentId, String>)
    ensures
        r is Ok ==> has_prefix(raw@, "sha256:"@),
        match r {
            Ok(c) => raw32_result(raw@.skip("sha256:"@.len() as int)) == Ok::<Seq<u8>, Seq<char>>(c.0@),
            Err(_) => !has_prefix(raw@, "sha256:"@) || raw32_result(raw@.skip("sha256:"@.len() as int)) is Err,
        },
{
    let prefix = "sha256:";
    match str_strip_prefix(raw, prefix) {
        None => Err(String::from_str("ContentId must be sha256:<hex>")),
        Some(hex) => {
            let a = parse_raw32(hex)?;
            Ok(ContentId(a))
        },
    }
}

/// A content identifier: the SHA-256 digest of a byte string.
#[derive(Clone, Copy, PartialEq, Eq, Hash, PartialOrd, Ord, Debug)]
pub struct ContentId(pub [u8; 32]);

impl ContentId {
    /// The identifier of a byte string.
    pub fn of_bytes(bytes: &[u8]) -> (r: Self)
        ensures
            r.0@ == sha256_of(bytes@),
    {
        ContentId(sha256(bytes))
    }

    /// The identifier of a value's canonical JSON. Refused exactly when the value's document holds
    /// a float.
    pub fn of_canonical<T: ToJson>(value: &T) -> (r: Result<Self, ContentIdError>)
        ensures
            r is Ok <==> !has_float(value.json()),
            r matches Ok(c) ==> c.0@ == sha256_of(canonical(value.json())),
            r matches Err(e) ==> e is Float,
    {
        let bytes = canonical_json(value)?;
        Ok(Self::of_bytes(bytes.as_slice()))
    }

    /// The digest as 64 lowercase hex digits.
    pub fn to_hex(&self) -> (r: String)
        ensures
            r@ == hex_lower(self.0@),
    {
        hex_encode(&self.0)
    }

    /// The digest as `sha256:<64 lowercase hex digits>`: how the id is displayed and serialized.
    pub fn to_hex_prefixed(&self) -> (r: String)
        ensures
            r@ == cid_text(self.0@),
    {
        let h = hex_encode(&self.0);
        concat_str("sha256:", h.as_str())
    }

    /// Parses `sha256:<hex>` or bare hex of 32 bytes.
    pub fn from_hex(raw: &str) -> (r: Result<Self, String>)
        ensures
            match r {
                Ok(c) => content_id_result(raw@) == Ok::<Seq<u8>, Seq<char>>(c.0@),
                Err(m) => content_id_result(raw@) == Err::<Seq<u8>, Seq<char>>(m@),
            },
    {
        match parse_prefixed(raw) {
            Ok(c) => Ok(c),
            Err(_) => {
                let a = parse_raw32(raw)?;
                Ok(ContentId(a))
            },
        }
    }
}

impl ToJson for ContentId {
    open spec fn json(&self) -> JsonValue {
        JsonValue::Str(cid_text(self.0@))
    }

    fn to_json(&self) -> (j: Json) {
        Json::Str(self.to_hex_prefixed())
    }
}

/// An Ed25519 public key.
#[derive(Clone, Copy, PartialEq, Eq, Hash, Debug)]
pub struct Pubkey(pub [u8; 32]);

/// What `Pubkey::verify` answers.
pub open spec fn verify_result(public: Seq<u8>, msg: Seq<u8>, sig: Seq<u8>) -> Result<(), IdentityError> {
    if !ed25519_key_decodes(public) {
        Err(IdentityError::BadKey)
    } else if !ed25519_accepts(public, msg, sig) {
        Err(IdentityError::BadSig)
    } else {
        Ok(())
    }
}

impl Pubkey {
    /// The key as 64 lowercase hex digits.
    pub fn to_hex(&self) -> (r: String)
        ensures
            r@ == hex_lower(self.0@),
    {
        hex_encode(&self.0)
    }

    /// Parses 64 hex digits.
    pub fn from_hex(raw: &str) -> (r: Result<Self, String>)
        ensures
            match r {
                Ok(k) => raw32_result(raw@) == Ok::<Seq<u8>, Seq<char>>(k.0@),
                Err(m) => raw32_result(raw@) == Err::<Seq<u8>, Seq<char>>(m@),
            },
    {
        let a = parse_raw32(raw)?;
        Ok(Pubkey(a))
    }

    /// Checks an Ed25519 signature over `msg`.
    pub fn verify(&self, msg: &[u8], sig: &Signature) -> (r: Result<(), IdentityError>)
        ensures
            r == verify_result(self.0@, msg@, sig.0@),
    {
        if !ed25519_key_ok(&self.0) {
            return Err(IdentityError::BadKey);
        }
        if !ed25519_verify(&self.0, msg, &sig.0) {
            return Err(IdentityError::BadSig);
        }
        Ok(())
    }
}

impl ToJson for Pubkey {
    open spec fn json(&self) -> JsonValue {
        JsonValue::Str(hex_lower(self.0@))
    }

    fn to_json(&self) -> (j: Json) {
        Json::Str(self.to_hex())
    }
}

/// An Ed25519 signature.
#[derive(Clone, Copy, PartialEq, Eq, Debug)]
pub struct Signature(pub [u8; 64]);

impl Signature {
    /// The signature as 128 lowercase hex digits: how it is serialized.
    pub fn to_hex(&self) -> (r: String)
        ensures
            r@ == hex_lower(self.0@),
    {
        hex_encode(&self.0)
    }
}

impl ToJson for Signature {
    open spec fn json(&self) -> JsonValue {
        JsonValue::Str(hex_lower(self.0@))
    }

    fn to_json(&self) -> (j: Json) {
        Json::Str(self.to_hex())
    }
}

/// A body with its signer, time and signature.
#[derive(Clone)]
pub struct Signed<T> {
    pub body: T,
    pub from: Pubkey,
    pub ts: u64,
    pub sig: Signature,
}

/// Why a key or a signature was refused, or why a key file could not be read.
#[derive(Debug, PartialEq, Eq)]
pub enum IdentityError {
    BadKey,
    BadSig,
    Io(String),
}

impl IdentityError {
    /// The message of the error.
    pub fn message(&self) -> (r: String)
        ensures
            r@ == match self {
                IdentityError::BadKey => "invalid ed25519 key"@,
                IdentityError::BadSig => "signature verification failed"@,
                IdentityError::Io(m) => "io: "@ + m@,
            },
    {
        match self {
            IdentityError::BadKey => String::from_str("invalid ed25519 key"),
            IdentityError::BadSig => String::from_str("signature verification failed"),
            IdentityError::Io(m) => concat_str("io: ", m.as_str()),
        }
    }
}

/// A node or operator Ed25519 identity, held as its 32-byte seed.
pub struct Identity {
    seed: [u8; 32],
}

impl Identity {
    /// The 32 secret bytes of the identity.
    pub closed spec fn secret(&self) -> Seq<u8> {
        self.seed@
    }

    /// A fresh random identity: its seed is 32 bytes from the operating system's random source,
    /// as `ed25519_dalek::SigningKey::generate` draws them. Where that source fails, its error
    /// text is returned as an `Io` error.
    pub fn generate() -> (r: Result<Self, IdentityError>)
        ensures
            r matches Ok(id) ==> id.secret().len() == 32,
            r matches Err(e) ==> e is Io,
    {
        match random_bytes_32() {
            Ok(seed) => Ok(Identity { seed }),
            Err(e) => Err(IdentityError::Io(e)),
        }
    }

    /// The identity whose seed is `seed`.
    pub fn from_seed(seed: [u8; 32]) -> (r: Self)
        ensures
            r.secret() == seed@,
    {
        Identity { seed }
    }

    /// The identity stored in a key file: its bytes must be exactly the 32 bytes of a seed.
    pub fn from_key_bytes(bytes: &[u8]) -> (r: Result<Self, IdentityError>)
        ensures
            bytes@.len() == 32 ==> (r matches Ok(id) && id.secret() == bytes@),
            bytes@.len() != 32 ==> (r matches Err(e) && e is BadKey),
    {
        if bytes.len() != 32 {
            return Err(IdentityError::BadKey);
        }
        let mut seed = [0u8; 32];
        for i in 0..32
            invariant
                bytes@.len() == 32,
                seed@.len() == 32,
                forall|j: int| 0 <= j < i ==> seed@[j] == bytes@[j],
        {
            seed[i] = bytes[i];
        }
        assert(seed@ =~= bytes@);
        Ok(Identity { seed })
    }

    /// The seed, as stored on disk.
    pub fn seed_bytes(&self) -> (r: [u8; 32])
        ensures
            r@ == self.secret(),
    {
        self.seed
    }

    /// The public key of the identity.
    pub fn pubkey(&self) -> (r: Pubkey)
        ensures
            r.0@ == ed25519_public_of(self.secret()),
    {
        Pubkey(ed25519_public_key(&self.seed))
    }

    /// Signs `msg`. The identity's own public key verifies the result.
    pub fn sign(&self, msg: &[u8]) -> (r: Signature)
        ensures
            r.0@ == ed25519_signature_of(self.secret(), msg@),
            verify_result(ed25519_public_of(self.secret()), msg@, r.0@) == Ok::<(), IdentityError>(()),
    {
        let pk = ed25519_public_key(&self.seed);
        Signature(ed25519_sign(&self.seed, msg))
    }
}

} // verus!
