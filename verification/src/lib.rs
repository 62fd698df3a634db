//! Keel wire types and the verified rules of a Keel node: content identity, canonical JSON,
//! signed envelopes, millicredit accounting, the job lifecycle, peer addressing, the in-process
//! Lightning book, and the decisions a node and its clients take around their storage and network.

pub mod crypto;
pub mod hexcodec;
pub mod text;
pub mod json;
pub mod identity;
pub mod envelope;
pub mod metering;
pub mod job;
pub mod peer;
pub mod artifact;
pub mod discovery;
pub mod runner;
pub mod settlement;
pub mod inference;
pub mod multiaddr;
pub mod node;
pub mod ledger;
pub mod jobs;
pub mod peers;
pub mod documents;
pub mod blob;
pub mod lightning;
pub mod lnd;
pub mod client;
