//! What a client of a node's API decides for itself: the base address it talks to, how it reads
//! replies, what its errors say, and the opt-in filter that keeps denied blobs from being printed.

use crate::hexcodec::hex_lower;
use crate::identity::{cid_text, ContentId};
use crate::json::{json_get, lemma_values_view, Json, JsonValue};
use crate::text::{concat_str, decimal_chars, str_eq, trim_end, trim_end_char, u64_text};
use vstd::prelude::*;

verus! {

/// Why a request to a node failed.
#[derive(Debug)]
pub enum ClientError {
    /// The request itself failed; the transport's message.
    Http(String),
    /// The node answered with an error status.
    Api { status: u16, message: String },
    Msg(String),
}

/// The text of a client error.
pub open spec fn client_error_text(e: ClientError) -> Seq<char> {
    match e {
        ClientError::Http(m) => m@,
        ClientError::Api { status, message } => decimal_chars(status as nat) + ": "@ + message@,
        ClientError::Msg(m) => m@,
    }
}

impl ClientError {
    /// The text of the error.
    pub fn message(&self) -> (r: String)
        ensures
            r@ == client_error_text(*self),
    {
        match self {
            ClientError::Http(m) => m.clone(),
            ClientError::Api { status, message } => {
                let head = concat_str(u64_text(*status as u64).as_str(), ": ");
                concat_str(head.as_str(), message.as_str())
            },
            ClientError::Msg(m) => m.clone(),
        }
    }
}

/// A client error as the command line reports it: its text.
pub fn aj(e: ClientError) -> (r: String)
    ensures
        r@ == client_error_text(e),
{
    e.message()
}

/// The base address a client talks to: the given one without trailing slashes.
pub fn api_base(base: &str) -> (r: String)
    ensures
        r@ == trim_end(base@, '/'),
{
    trim_end_char(base, '/')
}

/// The message of an error reply: its `error` member where that is a string.
pub open spec fn reply_message(body: JsonValue) -> Seq<char> {
    match json_get(body, "error"@) {
        Some(JsonValue::Str(m)) => m,
        _ => "request failed"@,
    }
}

/// Reads a node's JSON reply: the body on a success status, else an API error with the status and
/// the reply's message.
pub fn read_reply(success: bool, status: u16, body: Json) -> (r: Result<Json, ClientError>)
    ensures
        success ==> (r matches Ok(v) && v@ == body@),
        !success ==> (r matches Err(ClientError::Api { status: s, message }) && s == status && message@ == reply_message(body@)),
{
    if success {
        return Ok(body);
    }
    let message = match body.get("error") {
        Some(Json::Str(m)) => m.clone(),
        _ => String::from_str("request failed"),
    };
    Err(ClientError::Api { status, message })
}

/// The entries of a filter document's `body.deny_cids`, where that is an array.
pub open spec fn deny_entries(doc: JsonValue) -> Seq<JsonValue> {
    match json_get(doc, "body"@) {
        Some(b) => match json_get(b, "deny_cids"@) {
            Some(JsonValue::Arr(items)) => items,
            _ => Seq::empty(),
        },
        None => Seq::empty(),
    }
}

/// Whether a filter document denies a blob: some entry is its id, `sha256:`-prefixed or bare.
pub open spec fn is_denied(doc: JsonValue, digest: Seq<u8>) -> bool {
    exists|i: int|
        0 <= i < deny_entries(doc).len() && (#[trigger] deny_entries(doc)[i] == JsonValue::Str(cid_text(digest))
            || deny_entries(doc)[i] == JsonValue::Str(hex_lower(digest)))
}

/// The client-side filter: refuses a blob that the filter document (fetched by its id
/// `filter_cid`) denies. The node still serves the blob; this client does not print it.
pub fn refuse_if_denied(filter_cid: &str, filter_doc: &Json, blob: &ContentId) -> (r: Result<(), String>)
    ensures
        is_denied(filter_doc@, blob.0@) ==> (r matches Err(m)
            && m@ == "denied by client FilterList "@ + filter_cid@ + " (node blob GET still succeeds)"@),
        !is_denied(filter_doc@, blob.0@) ==> r is Ok,
{
    let want = blob.to_hex_prefixed();
    let hex = blob.to_hex();
    let ghost entries = deny_entries(filter_doc@);
    let mut denied = false;
    if let Some(body) = filter_doc.get("body") {
        if let Some(Json::Arr(items)) = body.get("deny_cids") {
            proof {
                lemma_values_view(items@);
            }
            let n = items.len();
            let mut i: usize = 0;
            while i < n
                invariant
                    n == items@.len(),
                    entries == crate::json::values_view(items@),
                    entries.len() == n,
                    forall|j: int| 0 <= j < n ==> #[trigger] entries[j] == crate::json::json_view(items@[j]),
                    i <= n,
                    want@ == cid_text(blob.0@),
                    hex@ == hex_lower(blob.0@),
                    denied == exists|j: int| 0 <= j < i && (#[trigger] entries[j] == JsonValue::Str(cid_text(blob.0@))
                        || entries[j] == JsonValue::Str(hex_lower(blob.0@))),
                decreases n - i,
            {
                let hit = match &items[i] {
                    Json::Str(s) => str_eq(s.as_str(), want.as_str()) || str_eq(s.as_str(), hex.as_str()),
                    _ => false,
                };
                assert(entries[i as int] == crate::json::json_view(items@[i as int]));
                denied = denied || hit;
                i = i + 1;
            }
        }
    }
    if denied {
        let head = concat_str("denied by client FilterList ", filter_cid);
        return Err(concat_str(head.as_str(), " (node blob GET still succeeds)"));
    }
    Ok(())
}

} // verus!
