//! The node's checks on signed documents before it stores them: model indexes, filter lists and
//! runner advertisements. Each must carry a valid signature, and is stored under the content id
//! of its body.

use crate::crypto::sha256_of;
use crate::discovery::{FilterList, ModelIndex};
use crate::envelope::{envelope_check, Envelope, Kind};
use crate::identity::ContentId;
use crate::json::{canonical, has_float, json_get, Json, ToJson};
use crate::node::NodeError;
use crate::peers::{identity_error_text, verify_conflict};
use crate::runner::RunnerAdvertisement;
use vstd::prelude::*;

verus! {

/// The content id of a signed body, after its signature is checked.
fn body_cid<T: ToJson>(env: &Envelope<T>) -> (r: Result<ContentId, NodeError>)
    ensures
        match envelope_check(env.keel, env.kind, env.body.json(), env.from.0@, env.ts, env.sig.0@) {
            Err(e) => r matches Err(NodeError::Conflict(t)) && t@ == identity_error_text(e),
            Ok(()) => if has_float(env.body.json()) {
                r matches Err(NodeError::Msg(t)) && t@ == "floats are not allowed in hashed Keel documents"@
            } else {
                r matches Ok(c) && c.0@ == sha256_of(canonical(env.body.json()))
            },
        },
{
    verify_conflict(env)?;
    match ContentId::of_canonical(&env.body) {
        Ok(c) => Ok(c),
        Err(e) => Err(NodeError::Msg(e.message())),
    }
}

/// Checks a published model index (signature, then the `index.publish` kind) and gives the
/// content id it is stored under.
pub fn check_index(env: &Envelope<ModelIndex>) -> (r: Result<ContentId, NodeError>)
    ensures
        match envelope_check(env.keel, env.kind, env.body.json(), env.from.0@, env.ts, env.sig.0@) {
            Err(e) => r matches Err(NodeError::Conflict(t)) && t@ == identity_error_text(e),
            Ok(()) => if env.kind != Kind::IndexPublish {
                r matches Err(NodeError::Msg(t)) && t@ == "expected index.publish"@
            } else if has_float(env.body.json()) {
                r matches Err(NodeError::Msg(t)) && t@ == "floats are not allowed in hashed Keel documents"@
            } else {
                r matches Ok(c) && c.0@ == sha256_of(canonical(env.body.json()))
            },
        },
{
    verify_conflict(env)?;
    if env.kind != Kind::IndexPublish {
        return Err(NodeError::Msg(String::from_str("expected index.publish")));
    }
    body_cid(env)
}

/// Checks a filter list's signature and gives the content id it is stored under.
pub fn check_filter(env: &Envelope<FilterList>) -> (r: Result<ContentId, NodeError>)
    ensures
        match envelope_check(env.keel, env.kind, env.body.json(), env.from.0@, env.ts, env.sig.0@) {
            Err(e) => r matches Err(NodeError::Conflict(t)) && t@ == identity_error_text(e),
            Ok(()) => if has_float(env.body.json()) {
                r matches Err(NodeError::Msg(t)) && t@ == "floats are not allowed in hashed Keel documents"@
            } else {
                r matches Ok(c) && c.0@ == sha256_of(canonical(env.body.json()))
            },
        },
{
    body_cid(env)
}

/// Checks a runner advertisement's signature and gives the content id it is stored under.
pub fn check_runner(env: &Envelope<RunnerAdvertisement>) -> (r: Result<ContentId, NodeError>)
    ensures
        match envelope_check(env.keel, env.kind, env.body.json(), env.from.0@, env.ts, env.sig.0@) {
            Err(e) => r matches Err(NodeError::Conflict(t)) && t@ == identity_error_text(e),
            Ok(()) => if has_float(env.body.json()) {
                r matches Err(NodeError::Msg(t)) && t@ == "floats are not allowed in hashed Keel documents"@
            } else {
                r matches Ok(c) && c.0@ == sha256_of(canonical(env.body.json()))
            },
        },
{
    body_cid(env)
}

/// Whether a posted document is a bare body that the node signs itself, rather than a signed
/// envelope: it has no `sig` member.
pub fn needs_signing(v: &Json) -> (r: bool)
    ensures
        r == (json_get(v@, "sig"@) is None),
{
    v.get("sig").is_none()
}

} // verus!
