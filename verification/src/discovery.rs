//! Model indexes (a publisher's named artifacts) and opt-in filter lists.

use crate::identity::{cid_text, ContentId};
use crate::json::{items_json, no_members, put, Json, JsonObject, JsonValue, ToJson};
use vstd::prelude::*;

verus! {

/// A publisher's numbered list of aliases for artifacts, linked to its previous version.
#[derive(Clone, Debug)]
pub struct ModelIndex {
    pub schema: String,
    pub seq: u64,
    pub prev: Option<ContentId>,
    pub entries: Vec<IndexEntry>,
}

impl ModelIndex {
    /// The schema tag of a model index.
    pub fn v0() -> (r: &'static str)
        ensures
            r@ == "keel.index/0"@,
    {
        "keel.index/0"
    }
}

/// An alias for an artifact.
#[derive(Clone, Debug)]
pub struct IndexEntry {
    pub alias: String,
    pub artifact_cid: ContentId,
}

/// Content ids and aliases a client may choose not to show. Opt-in; never a protocol kill switch.
#[derive(Clone, Debug)]
pub struct FilterList {
    pub schema: String,
    pub seq: u64,
    pub deny_cids: Vec<ContentId>,
    pub deny_aliases: Vec<String>,
}

impl FilterList {
    /// The schema tag of a filter list.
    pub fn v0() -> (r: &'static str)
        ensures
            r@ == "keel.filter/0"@,
    {
        "keel.filter/0"
    }
}

impl ToJson for IndexEntry {
    open spec fn json(&self) -> JsonValue {
        JsonValue::Obj(
            put(
                put(no_members(), "alias"@, JsonValue::Str(self.alias@)),
                "artifact_cid"@,
                JsonValue::Str(cid_text(self.artifact_cid.0@)),
            ),
        )
    }

    fn to_json(&self) -> (j: Json) {
        let mut o = JsonObject::new();
        o.insert(String::from_str("alias"), Json::Str(self.alias.clone()));
        o.insert(String::from_str("artifact_cid"), self.artifact_cid.to_json());
        Json::Obj(o)
    }
}

/// The members of a model index's document (`prev` only when present).
pub open spec fn index_members(x: ModelIndex) -> Seq<(Seq<char>, JsonValue)> {
    let base = put(put(no_members(), "schema"@, JsonValue::Str(x.schema@)), "seq"@, JsonValue::Int(x.seq as int));
    let with_prev = match x.prev {
        Some(p) => put(base, "prev"@, JsonValue::Str(cid_text(p.0@))),
        None => base,
    };
    put(with_prev, "entries"@, JsonValue::Arr(items_json(x.entries@)))
}

impl ToJson for ModelIndex {
    open spec fn json(&self) -> JsonValue {
        JsonValue::Obj(index_members(*self))
    }

    fn to_json(&self) -> (j: Json) {
        let mut o = JsonObject::new();
        o.insert(String::from_str("schema"), Json::Str(self.schema.clone()));
        o.insert(String::from_str("seq"), Json::UInt(self.seq));
        match &self.prev {
            Some(p) => o.insert(String::from_str("prev"), p.to_json()),
            None => {},
        }
        o.insert(String::from_str("entries"), self.entries.to_json());
        Json::Obj(o)
    }
}

impl ToJson for FilterList {
    open spec fn json(&self) -> JsonValue {
        JsonValue::Obj(
            put(
                put(
                    put(put(no_members(), "schema"@, JsonValue::Str(self.schema@)), "seq"@, JsonValue::Int(self.seq as int)),
                    "deny_cids"@,
                    JsonValue::Arr(items_json(self.deny_cids@)),
                ),
                "deny_aliases"@,
                JsonValue::Arr(items_json(self.deny_aliases@)),
            ),
        )
    }

    fn to_json(&self) -> (j: Json) {
        let mut o = JsonObject::new();
        o.insert(String::from_str("schema"), Json::Str(self.schema.clone()));
        o.insert(String::from_str("seq"), Json::UInt(self.seq));
        o.insert(String::from_str("deny_cids"), self.deny_cids.to_json());
        o.insert(String::from_str("deny_aliases"), self.deny_aliases.to_json());
        Json::Obj(o)
    }
}

} // verus!
