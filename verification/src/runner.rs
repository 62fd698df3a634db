//! Runner advertisements: what a runner serves, on what hardware, at what price.

use crate::identity::ContentId;
use crate::json::{items_json, no_members, put, Json, JsonObject, JsonValue, ToJson};
use vstd::prelude::*;

verus! {

/// A runner's signed offer.
#[derive(Clone, Debug)]
pub struct RunnerAdvertisement {
    pub schema: String,
    pub models: Vec<ContentId>,
    pub backends: Vec<String>,
    pub vram_mb: u32,
    pub price: PriceBook,
    pub multiaddrs: Vec<String>,
    pub expires_at: u64,
}

impl RunnerAdvertisement {
    /// The schema tag of a runner advertisement.
    pub fn v0() -> (r: &'static str)
        ensures
            r@ == "keel.runner/0"@,
    {
        "keel.runner/0"
    }
}

/// Prices in millicredits.
#[derive(Clone, Debug)]
pub struct PriceBook {
    pub millicredits_per_k_completion: u32,
    pub millicredits_per_k_prompt: u32,
    pub millicredits_per_second: Option<u32>,
}

/// The members of a price book's document (`millicredits_per_second` only when present).
pub open spec fn price_members(p: PriceBook) -> Seq<(Seq<char>, JsonValue)> {
    let base = put(
        put(no_members(), "millicredits_per_k_completion"@, JsonValue::Int(p.millicredits_per_k_completion as int)),
        "millicredits_per_k_prompt"@,
        JsonValue::Int(p.millicredits_per_k_prompt as int),
    );
    match p.millicredits_per_second {
        Some(s) => put(base, "millicredits_per_second"@, JsonValue::Int(s as int)),
        None => base,
    }
}

impl ToJson for PriceBook {
    open spec fn json(&self) -> JsonValue {
        JsonValue::Obj(price_members(*self))
    }

    fn to_json(&self) -> (j: Json) {
        let mut o = JsonObject::new();
        o.insert(String::from_str("millicredits_per_k_completion"), Json::UInt(self.millicredits_per_k_completion as u64));
        o.insert(String::from_str("millicredits_per_k_prompt"), Json::UInt(self.millicredits_per_k_prompt as u64));
        match self.millicredits_per_second {
            Some(s) => o.insert(String::from_str("millicredits_per_second"), Json::UInt(s as u64)),
            None => {},
        }
        Json::Obj(o)
    }
}

impl ToJson for RunnerAdvertisement {
    open spec fn json(&self) -> JsonValue {
        JsonValue::Obj(
            put(
                put(
                    put(
                        put(
                            put(
                                put(put(no_members(), "schema"@, JsonValue::Str(self.schema@)), "models"@, JsonValue::Arr(items_json(self.models@))),
                                "backends"@,
                                JsonValue::Arr(items_json(self.backends@)),
                            ),
                            "vram_mb"@,
                            JsonValue::Int(self.vram_mb as int),
                        ),
                        "price"@,
                        JsonValue::Obj(price_members(self.price)),
                    ),
                    "multiaddrs"@,
                    JsonValue::Arr(items_json(self.multiaddrs@)),
                ),
                "expires_at"@,
                JsonValue::Int(self.expires_at as int),
            ),
        )
    }

    fn to_json(&self) -> (j: Json) {
        let mut o = JsonObject::new();
        o.insert(String::from_str("schema"), Json::Str(self.schema.clone()));
        o.insert(String::from_str("models"), self.models.to_json());
        o.insert(String::from_str("backends"), self.backends.to_json());
        o.insert(String::from_str("vram_mb"), Json::UInt(self.vram_mb as u64));
        o.insert(String::from_str("price"), self.price.to_json());
        o.insert(String::from_str("multiaddrs"), self.multiaddrs.to_json());
        o.insert(String::from_str("expires_at"), Json::UInt(self.expires_at));
        Json::Obj(o)
    }
}

} // verus!
