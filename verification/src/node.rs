//! What a node reports and accepts over its API, and how its errors are classified.

use crate::envelope::Envelope;
use crate::json::Json;
use crate::peer::{PeerAdvertisement, PeerInvite};
use crate::text::concat_str;
use vstd::prelude::*;

verus! {

/// Why a node operation failed.
#[derive(Debug)]
pub enum NodeError {
    Msg(String),
    NotFound(String),
    Conflict(String),
    /// A storage error, by its text.
    Sqlite(String),
    /// A JSON (de)serialization error, by its text.
    Json(String),
}

impl NodeError {
    /// The HTTP status of the error: 404 for not found, 409 for a conflict, 400 otherwise.
    pub fn status_code(&self) -> (r: u16)
        ensures
            r == match self {
                NodeError::NotFound(_) => 404u16,
                NodeError::Conflict(_) => 409u16,
                _ => 400u16,
            },
    {
        match self {
            NodeError::NotFound(_) => 404,
            NodeError::Conflict(_) => 409,
            _ => 400,
        }
    }

    /// The message of the error.
    pub fn message(&self) -> (r: String)
        ensures
            r@ == match self {
                NodeError::Msg(m) => m@,
                NodeError::NotFound(m) => "not found: "@ + m@,
                NodeError::Conflict(m) => "conflict: "@ + m@,
                NodeError::Sqlite(m) => m@,
                NodeError::Json(m) => m@,
            },
    {
        match self {
            NodeError::Msg(m) => m.clone(),
            NodeError::NotFound(m) => concat_str("not found: ", m.as_str()),
            NodeError::Conflict(m) => concat_str("conflict: ", m.as_str()),
            NodeError::Sqlite(m) => m.clone(),
            NodeError::Json(m) => m.clone(),
        }
    }
}

/// A node's counts and settings.
#[derive(Clone, Debug)]
pub struct StatusView {
    pub keel: u32,
    pub data_dir: String,
    pub blobs: i64,
    pub jobs: i64,
    pub accounts: i64,
    pub millicredits_free: i64,
    pub millicredits_held: i64,
    pub pubkey: String,
    pub advertise: Option<String>,
    pub visibility: String,
    pub peers_public: i64,
    pub peers_invite: i64,
}

/// A stored blob.
#[derive(Clone, Debug)]
pub struct BlobView {
    pub cid: String,
    pub size_bytes: i64,
    pub stored_at: i64,
}

/// An account's free and held millicredits.
#[derive(Clone, Debug)]
pub struct AccountView {
    pub account: String,
    pub balance_millicredits: i64,
    pub held_millicredits: i64,
}

/// A recorded credit movement.
#[derive(Clone, Debug)]
pub struct MovementView {
    pub id: String,
    pub account: String,
    pub kind: String,
    pub amount_millicredits: i64,
    pub cause_type: String,
    pub cause_id: String,
    pub idempotency_key: String,
    pub created_at: i64,
}

/// A job as the node tracks it.
#[derive(Clone, Debug)]
pub struct JobView {
    pub job_id: String,
    pub status: String,
    pub hold_millicredits: i64,
    pub spec: Json,
    pub result: Option<Json>,
    pub updated_at: i64,
}

/// A host that holds a file.
#[derive(Clone, Debug)]
pub struct SeederView {
    pub file_cid: String,
    pub multiaddr: String,
    pub announced_at: i64,
    pub expires_at: i64,
    pub from_key: String,
}

/// A request to mint millicredits to an account, once per rail reference.
#[derive(Clone, Debug)]
pub struct MintRequest {
    pub account: String,
    pub amount_millicredits: i64,
    pub rail_ref: String,
    pub rail: String,
}

/// The rail of a mint request that names none.
pub fn mock_rail() -> (r: String)
    ensures
        r@ == "mock"@,
{
    String::from_str("mock")
}

/// An invite, presented with the advertisement of the node that accepted it.
#[derive(Clone)]
pub struct PeerRedeemRequest {
    pub invite: Envelope<PeerInvite>,
    pub advertisement: Envelope<PeerAdvertisement>,
}

} // verus!
