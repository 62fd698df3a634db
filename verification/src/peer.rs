//! How nodes learn each other's addresses. The content id is still identity; this is only
//! reachability.

use crate::json::{items_json, json_str, no_members, put, Json, JsonObject, JsonValue, ToJson};
use crate::text::{concat_str, str_eq};
use vstd::prelude::*;

verus! {

/// Whether a node's address may be gossiped.
#[derive(Clone, Copy, Debug, PartialEq, Eq, Structural)]
pub enum PeerVisibility {
    /// The signed advertisement may be gossiped: anyone who asks a public node can learn it.
    Public,
    /// The address is not listed publicly; it is reachable only with a signed invite.
    Invite,
}

/// The wire name of a visibility.
pub open spec fn visibility_name(v: PeerVisibility) -> Seq<char> {
    match v {
        PeerVisibility::Public => "public"@,
        PeerVisibility::Invite => "invite"@,
    }
}

/// The visibility whose wire name is `s`, if any.
pub open spec fn visibility_named(s: Seq<char>) -> Option<PeerVisibility> {
    if s == "public"@ {
        Some(PeerVisibility::Public)
    } else if s == "invite"@ {
        Some(PeerVisibility::Invite)
    } else {
        None
    }
}

impl PeerVisibility {
    /// The wire name.
    pub fn as_str(self) -> (r: &'static str)
        ensures
            r@ == visibility_name(self),
    {
        match self {
            PeerVisibility::Public => "public",
            PeerVisibility::Invite => "invite",
        }
    }

    /// Parses a wire name.
    pub fn parse(s: &str) -> (r: Result<Self, String>)
        ensures
            match r {
                Ok(v) => visibility_named(s@) == Some(v),
                Err(m) => visibility_named(s@) is None && m@
                    == "peer visibility must be public or invite, not "@ + s@,
            },
    {
        if str_eq(s, "public") {
            Ok(PeerVisibility::Public)
        } else if str_eq(s, "invite") {
            Ok(PeerVisibility::Invite)
        } else {
            Err(concat_str("peer visibility must be public or invite, not ", s))
        }
    }
}

/// Parsing the wire name of a visibility gives it back.
pub proof fn law_visibility_name_roundtrip(v: PeerVisibility)
    ensures
        visibility_named(visibility_name(v)) == Some(v),
{
    reveal_strlit("public");
    reveal_strlit("invite");
    assert("public"@[0] != "invite"@[0]);
}

/// A node's signed statement of where it can be reached. Public advertisements are the gossip
/// object; invite-only ones are never posted to a public list.
#[derive(Clone, Debug)]
pub struct PeerAdvertisement {
    pub schema: String,
    pub multiaddrs: Vec<String>,
    pub visibility: PeerVisibility,
    pub expires_at: u64,
}

impl PeerAdvertisement {
    /// The schema tag of a peer advertisement.
    pub fn v0() -> (r: &'static str)
        ensures
            r@ == "keel.peer/0"@,
    {
        "keel.peer/0"
    }
}

/// A bearer capability: holding it with a valid signature is permission to add this peer
/// privately.
#[derive(Clone, Debug)]
pub struct PeerInvite {
    pub schema: String,
    pub invite_id: String,
    pub multiaddrs: Vec<String>,
    pub expires_at: u64,
    pub once: bool,
}

impl PeerInvite {
    /// The schema tag of a peer invite.
    pub fn v0() -> (r: &'static str)
        ensures
            r@ == "keel.invite/0"@,
    {
        "keel.invite/0"
    }
}

impl ToJson for PeerAdvertisement {
    open spec fn json(&self) -> JsonValue {
        JsonValue::Obj(
            put(
                put(
                    put(put(no_members(), "schema"@, JsonValue::Str(self.schema@)), "multiaddrs"@, JsonValue::Arr(items_json(self.multiaddrs@))),
                    "visibility"@,
                    JsonValue::Str(visibility_name(self.visibility)),
                ),
                "expires_at"@,
                JsonValue::Int(self.expires_at as int),
            ),
        )
    }

    fn to_json(&self) -> (j: Json) {
        let mut o = JsonObject::new();
        o.insert(String::from_str("schema"), Json::Str(self.schema.clone()));
        o.insert(String::from_str("multiaddrs"), self.multiaddrs.to_json());
        o.insert(String::from_str("visibility"), json_str(self.visibility.as_str()));
        o.insert(String::from_str("expires_at"), Json::UInt(self.expires_at));
        Json::Obj(o)
    }
}

impl ToJson for PeerInvite {
    open spec fn json(&self) -> JsonValue {
        JsonValue::Obj(
            put(
                put(
                    put(
                        put(put(no_members(), "schema"@, JsonValue::Str(self.schema@)), "invite_id"@, JsonValue::Str(self.invite_id@)),
                        "multiaddrs"@,
                        JsonValue::Arr(items_json(self.multiaddrs@)),
                    ),
                    "expires_at"@,
                    JsonValue::Int(self.expires_at as int),
                ),
                "once"@,
                JsonValue::Bool(self.once),
            ),
        )
    }

    fn to_json(&self) -> (j: Json) {
        let mut o = JsonObject::new();
        o.insert(String::from_str("schema"), Json::Str(self.schema.clone()));
        o.insert(String::from_str("invite_id"), Json::Str(self.invite_id.clone()));
        o.insert(String::from_str("multiaddrs"), self.multiaddrs.to_json());
        o.insert(String::from_str("expires_at"), Json::UInt(self.expires_at));
        o.insert(String::from_str("once"), Json::Bool(self.once));
        Json::Obj(o)
    }
}

} // verus!
