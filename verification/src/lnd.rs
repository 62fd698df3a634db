//! Operator Lightning through LND's REST interface: the settings it reads, the requests it
//! makes and how its replies are read. Sending the requests is left to the application.

use crate::hexcodec::{hex_bytes, hex_decode, hex_decode_message, hex_encode, hex_lower, hex_valid};
use crate::json::{json_get, Json, JsonObject, JsonValue};
use crate::lightning::{PayIntentRequest, PayIntentView};
use crate::text::{concat_str, decimal_chars, str_eq, trim_end, trim_end_char, u64_text};
use base64::engine::general_purpose;
use base64::Engine;
use vstd::prelude::*;

verus! {

/// An invoice that LND created: its BOLT11 text and its payment hash in hex.
#[derive(Clone, Debug)]
pub struct LndInvoice {
    pub bolt11: String,
    pub payment_hash: String,
}

/// The base64 alphabets LND's hashes may come in.
#[derive(Clone, Copy, Debug, PartialEq, Eq, Structural)]
pub enum B64Alphabet {
    /// `+` and `/`, padded.
    Standard,
    /// `-` and `_`, padded.
    UrlSafe,
    /// `-` and `_`, unpadded.
    UrlSafeNoPad,
}

/// What decoding a text as base64 in an alphabet gives: the bytes, or the error text.
pub uninterp spec fn base64_decoded(alphabet: B64Alphabet, text: Seq<char>) -> Result<Seq<u8>, Seq<char>>;

/// Calls `Engine::decode` of `base64::engine::general_purpose::{STANDARD, URL_SAFE,
/// URL_SAFE_NO_PAD}` and renders the error with `to_string`. Claims that the outcome is
/// `base64_decoded` of the alphabet and the text.
#[verifier::external_body]
fn b64_decode(alphabet: B64Alphabet, text: &str) -> (r: Result<Vec<u8>, String>)
    ensures
        match r {
            Ok(b) => base64_decoded(alphabet, text@) == Ok::<Seq<u8>, Seq<char>>(b@),
            Err(e) => base64_decoded(alphabet, text@) == Err::<Seq<u8>, Seq<char>>(e@),
        },
{
    let engine = match alphabet {
        B64Alphabet::Standard => &general_purpose::STANDARD,
        B64Alphabet::UrlSafe => &general_purpose::URL_SAFE,
        B64Alphabet::UrlSafeNoPad => &general_purpose::URL_SAFE_NO_PAD,
    };
    engine.decode(text).map_err(|e| e.to_string())
}

/// The URL-safe base64 digit of a 6-bit value: `A`-`Z`, `a`-`z`, `0`-`9`, `-`, `_`.
pub open spec fn base64_url_digit(n: int) -> char {
    if n < 26 {
        (65 + n) as char
    } else if n < 52 {
        (97 + n - 26) as char
    } else if n < 62 {
        (48 + n - 52) as char
    } else if n == 62 {
        '-'
    } else {
        '_'
    }
}

/// The padded URL-safe base64 text of some bytes (RFC 4648, section 5): each 3 bytes become 4
/// digits of 6 bits, most significant first; a last group of 1 or 2 bytes is filled with zero
/// bits and padded with `=` to 4 characters.
pub open spec fn base64_url_encoded(bytes: Seq<u8>) -> Seq<char>
    decreases bytes.len(),
{
    if bytes.len() == 0 {
        Seq::empty()
    } else if bytes.len() == 1 {
        let x = bytes[0] as int;
        seq![base64_url_digit(x / 4), base64_url_digit((x % 4) * 16), '=', '=']
    } else if bytes.len() == 2 {
        let (x, y) = (bytes[0] as int, bytes[1] as int);
        seq![base64_url_digit(x / 4), base64_url_digit((x % 4) * 16 + y / 16), base64_url_digit((y % 16) * 4), '=']
    } else {
        let (x, y, z) = (bytes[0] as int, bytes[1] as int, bytes[2] as int);
        seq![
            base64_url_digit(x / 4),
            base64_url_digit((x % 4) * 16 + y / 16),
            base64_url_digit((y % 16) * 4 + z / 64),
            base64_url_digit(z % 64),
        ] + base64_url_encoded(bytes.subrange(3, bytes.len() as int))
    }
}

/// Calls `Engine::encode` of `base64::engine::general_purpose::URL_SAFE` (the URL-safe alphabet,
/// with padding). Claims that the result is `base64_url_encoded` of the bytes.
#[verifier::external_body]
fn b64_encode_url_safe(bytes: &[u8]) -> (r: String)
    ensures
        r@ == base64_url_encoded(bytes@),
{
    general_purpose::URL_SAFE.encode(bytes)
}

/// Whether the REST address setting names LND: it is set and not empty.
pub fn configured(rest_setting: &Option<String>) -> (r: bool)
    ensures
        r == (rest_setting matches Some(s) && s@.len() > 0),
{
    match rest_setting {
        Some(s) => s.unicode_len() > 0,
        None => false,
    }
}

/// The REST base address: the setting without trailing slashes.
pub fn rest_base(rest_setting: &Option<String>) -> (r: Result<String, String>)
    ensures
        match rest_setting {
            Some(s) => r matches Ok(b) && b@ == trim_end(s@, '/'),
            None => r matches Err(e) && e@ == "KEEL_LND_REST unset"@,
        },
{
    match rest_setting {
        Some(s) => Ok(trim_end_char(s.as_str(), '/')),
        None => Err(String::from_str("KEEL_LND_REST unset")),
    }
}

/// The macaroon in hex: the hex setting where it is set and not empty; else the bytes of the
/// macaroon file (`file` is the outcome of reading it, `None` where no file is named) in hex.
pub fn macaroon_hex(hex_setting: &Option<String>, file: Option<Result<Vec<u8>, String>>) -> (r: Result<String, String>)
    ensures
        (hex_setting matches Some(h) && h@.len() > 0) ==> (r matches Ok(m) && hex_setting matches Some(h) && m@ == h@),
        !(hex_setting matches Some(h) && h@.len() > 0) ==> match file {
            Some(Ok(b)) => r matches Ok(m) && m@ == hex_lower(b@),
            Some(Err(e)) => r matches Err(m) && m@ == e@,
            None => r matches Err(m) && m@ == "set KEEL_LND_MACAROON or KEEL_LND_MACAROON_FILE"@,
        },
{
    if let Some(h) = hex_setting {
        if h.unicode_len() > 0 {
            return Ok(h.clone());
        }
    }
    match file {
        Some(Ok(b)) => Ok(hex_encode(b.as_slice())),
        Some(Err(e)) => Err(e),
        None => Err(String::from_str("set KEEL_LND_MACAROON or KEEL_LND_MACAROON_FILE")),
    }
}

/// Base64 read in the first alphabet that accepts it: standard, then URL-safe, then URL-safe
/// unpadded (whose error is the one reported).
pub open spec fn base64_any(text: Seq<char>) -> Result<Seq<u8>, Seq<char>> {
    match base64_decoded(B64Alphabet::Standard, text) {
        Ok(b) => Ok(b),
        Err(_) => match base64_decoded(B64Alphabet::UrlSafe, text) {
            Ok(b) => Ok(b),
            Err(_) => base64_decoded(B64Alphabet::UrlSafeNoPad, text),
        },
    }
}

/// Base64 (in any of LND's alphabets) turned into lowercase hex.
pub fn b64_to_hex(raw: &str) -> (r: Result<String, String>)
    ensures
        match base64_any(raw@) {
            Ok(b) => r matches Ok(h) && h@ == hex_lower(b),
            Err(e) => r matches Err(m) && m@ == e,
        },
{
    let bytes = match b64_decode(B64Alphabet::Standard, raw) {
        Ok(b) => b,
        Err(_) => match b64_decode(B64Alphabet::UrlSafe, raw) {
            Ok(b) => b,
            Err(_) => b64_decode(B64Alphabet::UrlSafeNoPad, raw)?,
        },
    };
    Ok(hex_encode(bytes.as_slice()))
}

/// The payment hash of an LND reply in hex: `r_hash` as it is where it is already 64 hex digits,
/// else read as base64.
pub open spec fn lnd_hash_text(r_hash: Seq<char>) -> Result<Seq<char>, Seq<char>> {
    if r_hash.len() == 64 && hex_valid(r_hash) {
        Ok(r_hash)
    } else {
        match base64_any(r_hash) {
            Ok(b) => Ok(hex_lower(b)),
            Err(e) => Err(e),
        }
    }
}

/// The payment hash of an LND reply in hex.
pub fn payment_hash_text(r_hash: &str) -> (r: Result<String, String>)
    ensures
        match lnd_hash_text(r_hash@) {
            Ok(h) => r matches Ok(t) && t@ == h,
            Err(e) => r matches Err(m) && m@ == e,
        },
{
    if r_hash.unicode_len() == 64 && hex_decode(r_hash).is_ok() {
        Ok(r_hash.to_owned())
    } else {
        b64_to_hex(r_hash)
    }
}

/// What a successful add-invoice reply gives: its `payment_request` and `r_hash`, both strings,
/// the hash in hex; or which one is missing.
pub open spec fn invoice_reply(body: JsonValue) -> Result<(Seq<char>, Seq<char>), Seq<char>> {
    match json_get(body, "payment_request"@) {
        Some(JsonValue::Str(pr)) => match json_get(body, "r_hash"@) {
            Some(JsonValue::Str(rh)) => match lnd_hash_text(rh) {
                Ok(h) => Ok((pr, h)),
                Err(e) => Err(e),
            },
            _ => Err("lnd: missing r_hash"@),
        },
        _ => Err("lnd: missing payment_request"@),
    }
}

/// Reads the reply of a successful add-invoice request.
pub fn invoice_from_reply(body: &Json) -> (r: Result<LndInvoice, String>)
    ensures
        match invoice_reply(body@) {
            Ok((pr, h)) => r matches Ok(inv) && inv.bolt11@ == pr && inv.payment_hash@ == h,
            Err(e) => r matches Err(m) && m@ == e,
        },
{
    let bolt11 = match body.get("payment_request") {
        Some(Json::Str(s)) => s.clone(),
        _ => {
            return Err(String::from_str("lnd: missing payment_request"));
        },
    };
    let r_hash = match body.get("r_hash") {
        Some(Json::Str(s)) => s,
        _ => {
            return Err(String::from_str("lnd: missing r_hash"));
        },
    };
    let payment_hash = payment_hash_text(r_hash.as_str())?;
    Ok(LndInvoice { bolt11, payment_hash })
}

/// The add-invoice request: where it is posted, and its body, whose `value` is the satoshis (at
/// least one) as a decimal string.
pub fn add_invoice_request(base: &str, memo: &str, amount_sats: u64) -> (r: (String, Json))
    ensures
        r.0@ == base@ + "/v1/invoices"@,
        json_get(r.1@, "memo"@) == Some(JsonValue::Str(memo@)),
        json_get(r.1@, "value"@) == Some(JsonValue::Str(decimal_chars(if amount_sats < 1 { 1 } else { amount_sats as nat }))),
        r.1@ matches JsonValue::Obj(m) && m.len() == 2,
{
    let sats = if amount_sats < 1 {
        1
    } else {
        amount_sats
    };
    let mut o = JsonObject::new();
    o.insert(String::from_str("memo"), Json::Str(memo.to_owned()));
    o.insert(String::from_str("value"), Json::Str(u64_text(sats)));
    proof {
        reveal_strlit("memo");
        reveal_strlit("value");
        crate::json::lemma_two_members("memo"@, JsonValue::Str(memo@), "value"@, JsonValue::Str(decimal_chars(sats as nat)));
    }
    (concat_str(base, "/v1/invoices"), Json::Obj(o))
}

/// Where an invoice is looked up: the payment hash (hex) as padded URL-safe base64 under
/// `/v1/invoice/`.
pub fn invoice_lookup_url(base: &str, payment_hash: &str) -> (r: Result<String, String>)
    ensures
        hex_valid(payment_hash@) ==> (r matches Ok(u) && u@ == base@ + "/v1/invoice/"@ + base64_url_encoded(hex_bytes(payment_hash@))),
        !hex_valid(payment_hash@) ==> (r matches Err(m) && m@ == hex_decode_message(payment_hash@)),
{
    let bytes = hex_decode(payment_hash)?;
    let b64 = b64_encode_url_safe(bytes.as_slice());
    let head = concat_str(base, "/v1/invoice/");
    Ok(concat_str(head.as_str(), b64.as_str()))
}

/// Whether a lookup reply says the invoice was paid: `settled` is `true`, or `state` is
/// `SETTLED`.
pub fn invoice_settled(body: &Json) -> (r: bool)
    ensures
        r == (json_get(body@, "settled"@) == Some(JsonValue::Bool(true)) || json_get(body@, "state"@) == Some(JsonValue::Str("SETTLED"@))),
{
    let settled = match body.get("settled") {
        Some(Json::Bool(b)) => *b,
        _ => false,
    };
    let state = match body.get("state") {
        Some(Json::Str(s)) => str_eq(s.as_str(), "SETTLED"),
        _ => false,
    };
    settled || state
}

/// The API's view of an invoice that LND created for a request: on the Lightning rail, open,
/// keyed by its payment hash, for the requested satoshis.
pub fn lnd_intent_view(created: LndInvoice, req: &PayIntentRequest) -> (r: PayIntentView)
    ensures
        r.id@ == created.payment_hash@,
        r.rail@ == "btc_lightning"@,
        r.bolt11@ == created.bolt11@,
        r.payment_hash@ == created.payment_hash@,
        r.millicredits_on_confirm == req.millicredits_on_confirm,
        r.amount_atomic == req.amount_sats,
        r.status@ == "open"@,
{
    PayIntentView {
        id: created.payment_hash.clone(),
        rail: "btc_lightning",
        bolt11: created.bolt11,
        payment_hash: created.payment_hash,
        millicredits_on_confirm: req.millicredits_on_confirm,
        amount_atomic: req.amount_sats,
        status: String::from_str("open"),
    }
}

} // verus!
