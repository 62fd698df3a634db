//! Artifact manifests: named, licensed sets of content-addressed files.

use crate::crypto::sha256_of;
use crate::hexcodec::{hex_lower, lemma_hex_roundtrip};
use crate::identity::{cid_text, ContentId, Pubkey, Signature};
use crate::json::{
    canonical, has_float, has_key, items_json, json_get, keys_sorted, lemma_del_missing, lemma_del_put, lemma_member_put, member,
    lemma_items_no_float, lemma_put_keeps_sorted, lemma_put_members, lemma_put_no_float,
    no_members, put, without_key, ContentIdError, Json, JsonObject, JsonValue, ToJson,
};
use vstd::prelude::*;

verus! {

/// A model artifact: its files, the hardware it needs, and attestations over it.
#[derive(Clone, Debug)]
pub struct ArtifactManifest {
    pub schema: String,
    pub name: String,
    pub license: String,
    pub files: Vec<ArtifactFile>,
    pub hardware: HardwareHint,
    pub signatures: Vec<ManifestSig>,
}

/// One file of an artifact.
#[derive(Clone, Debug)]
pub struct ArtifactFile {
    pub path: String,
    pub cid: ContentId,
    pub size_bytes: u64,
    pub media: Option<String>,
}

/// What an artifact needs to run.
#[derive(Clone, Debug)]
pub struct HardwareHint {
    pub min_vram_mb: u32,
    pub quant: Option<String>,
    pub backend: Vec<String>,
}

/// An attestation over an artifact.
#[derive(Clone, Debug)]
pub struct ManifestSig {
    pub issuer: Pubkey,
    pub sig: Signature,
}

/// Hosts that say they hold a file, until a time.
#[derive(Clone, Debug)]
pub struct SeederRecord {
    pub file_cid: ContentId,
    pub multiaddrs: Vec<String>,
    pub expires_at: u64,
}

/// The members of an artifact file's document (`media` only when present).
pub open spec fn file_members(f: ArtifactFile) -> Seq<(Seq<char>, JsonValue)> {
    let base = put(
        put(put(no_members(), "path"@, JsonValue::Str(f.path@)), "cid"@, JsonValue::Str(cid_text(f.cid.0@))),
        "size_bytes"@,
        JsonValue::Int(f.size_bytes as int),
    );
    match f.media {
        Some(m) => put(base, "media"@, JsonValue::Str(m@)),
        None => base,
    }
}

impl ToJson for ArtifactFile {
    open spec fn json(&self) -> JsonValue {
        JsonValue::Obj(file_members(*self))
    }

    fn to_json(&self) -> (j: Json) {
        let mut o = JsonObject::new();
        o.insert(String::from_str("path"), Json::Str(self.path.clone()));
        o.insert(String::from_str("cid"), self.cid.to_json());
        o.insert(String::from_str("size_bytes"), Json::UInt(self.size_bytes));
        match &self.media {
            Some(m) => o.insert(String::from_str("media"), Json::Str(m.clone())),
            None => {},
        }
        Json::Obj(o)
    }
}

/// The members of a hardware hint's document (`quant` only when present, `backend` only when
/// not empty).
pub open spec fn hardware_members(h: HardwareHint) -> Seq<(Seq<char>, JsonValue)> {
    let base = put(no_members(), "min_vram_mb"@, JsonValue::Int(h.min_vram_mb as int));
    let with_quant = match h.quant {
        Some(q) => put(base, "quant"@, JsonValue::Str(q@)),
        None => base,
    };
    if h.backend@.len() == 0 {
        with_quant
    } else {
        put(with_quant, "backend"@, JsonValue::Arr(items_json(h.backend@)))
    }
}

impl ToJson for HardwareHint {
    open spec fn json(&self) -> JsonValue {
        JsonValue::Obj(hardware_members(*self))
    }

    fn to_json(&self) -> (j: Json) {
        let mut o = JsonObject::new();
        o.insert(String::from_str("min_vram_mb"), Json::UInt(self.min_vram_mb as u64));
        match &self.quant {
            Some(q) => o.insert(String::from_str("quant"), Json::Str(q.clone())),
            None => {},
        }
        if self.backend.len() != 0 {
            o.insert(String::from_str("backend"), self.backend.to_json());
        }
        Json::Obj(o)
    }
}

impl ToJson for ManifestSig {
    open spec fn json(&self) -> JsonValue {
        JsonValue::Obj(
            put(
                put(no_members(), "issuer"@, JsonValue::Str(hex_lower(self.issuer.0@))),
                "sig"@,
                JsonValue::Str(hex_lower(self.sig.0@)),
            ),
        )
    }

    fn to_json(&self) -> (j: Json) {
        let mut o = JsonObject::new();
        o.insert(String::from_str("issuer"), self.issuer.to_json());
        o.insert(String::from_str("sig"), self.sig.to_json());
        Json::Obj(o)
    }
}

impl ToJson for SeederRecord {
    open spec fn json(&self) -> JsonValue {
        JsonValue::Obj(
            put(
                put(
                    put(no_members(), "file_cid"@, JsonValue::Str(cid_text(self.file_cid.0@))),
                    "multiaddrs"@,
                    JsonValue::Arr(items_json(self.multiaddrs@)),
                ),
                "expires_at"@,
                JsonValue::Int(self.expires_at as int),
            ),
        )
    }

    fn to_json(&self) -> (j: Json) {
        let mut o = JsonObject::new();
        o.insert(String::from_str("file_cid"), self.file_cid.to_json());
        o.insert(String::from_str("multiaddrs"), self.multiaddrs.to_json());
        o.insert(String::from_str("expires_at"), Json::UInt(self.expires_at));
        Json::Obj(o)
    }
}

/// The members of a manifest's document other than `signatures`: what its identity covers.
pub open spec fn manifest_core(m: ArtifactManifest) -> Seq<(Seq<char>, JsonValue)> {
    put(
        put(
            put(
                put(put(no_members(), "schema"@, JsonValue::Str(m.schema@)), "name"@, JsonValue::Str(m.name@)),
                "license"@,
                JsonValue::Str(m.license@),
            ),
            "files"@,
            JsonValue::Arr(items_json(m.files@)),
        ),
        "hardware"@,
        JsonValue::Obj(hardware_members(m.hardware)),
    )
}

impl ToJson for ArtifactManifest {
    /// The manifest's document: `signatures` only when there are some.
    open spec fn json(&self) -> JsonValue {
        if self.signatures@.len() == 0 {
            JsonValue::Obj(manifest_core(*self))
        } else {
            JsonValue::Obj(put(manifest_core(*self), "signatures"@, JsonValue::Arr(items_json(self.signatures@))))
        }
    }

    fn to_json(&self) -> (j: Json) {
        let mut o = JsonObject::new();
        o.insert(String::from_str("schema"), Json::Str(self.schema.clone()));
        o.insert(String::from_str("name"), Json::Str(self.name.clone()));
        o.insert(String::from_str("license"), Json::Str(self.license.clone()));
        o.insert(String::from_str("files"), self.files.to_json());
        o.insert(String::from_str("hardware"), self.hardware.to_json());
        if self.signatures.len() != 0 {
            o.insert(String::from_str("signatures"), self.signatures.to_json());
        }
        Json::Obj(o)
    }
}

/// A string document holds no float.
proof fn lemma_strs_no_float(s: Seq<String>)
    ensures
        !has_float(JsonValue::Arr(items_json(s))),
{
    lemma_items_no_float(items_json(s));
}

proof fn lemma_file_no_float(f: ArtifactFile)
    ensures
        !has_float(JsonValue::Obj(file_members(f))),
{
    let a = put(no_members(), "path"@, JsonValue::Str(f.path@));
    let b = put(a, "cid"@, JsonValue::Str(cid_text(f.cid.0@)));
    let c = put(b, "size_bytes"@, JsonValue::Int(f.size_bytes as int));
    lemma_put_no_float(no_members(), "path"@, JsonValue::Str(f.path@));
    lemma_put_no_float(a, "cid"@, JsonValue::Str(cid_text(f.cid.0@)));
    lemma_put_no_float(b, "size_bytes"@, JsonValue::Int(f.size_bytes as int));
    match f.media {
        Some(m) => lemma_put_no_float(c, "media"@, JsonValue::Str(m@)),
        None => {},
    }
}

proof fn lemma_hardware_no_float(h: HardwareHint)
    ensures
        !has_float(JsonValue::Obj(hardware_members(h))),
{
    let base = put(no_members(), "min_vram_mb"@, JsonValue::Int(h.min_vram_mb as int));
    lemma_put_no_float(no_members(), "min_vram_mb"@, JsonValue::Int(h.min_vram_mb as int));
    let with_quant = match h.quant {
        Some(q) => put(base, "quant"@, JsonValue::Str(q@)),
        None => base,
    };
    match h.quant {
        Some(q) => lemma_put_no_float(base, "quant"@, JsonValue::Str(q@)),
        None => {},
    }
    lemma_strs_no_float(h.backend@);
    if h.backend@.len() != 0 {
        lemma_put_no_float(with_quant, "backend"@, JsonValue::Arr(items_json(h.backend@)));
    }
}

/// The document of a manifest's identity holds no float, is sorted, and has no `signatures`.
proof fn lemma_core(m: ArtifactManifest)
    ensures
        !has_float(JsonValue::Obj(manifest_core(m))),
        keys_sorted(manifest_core(m)),
        !has_key(manifest_core(m), "signatures"@),
{
    let a = put(no_members(), "schema"@, JsonValue::Str(m.schema@));
    let b = put(a, "name"@, JsonValue::Str(m.name@));
    let c = put(b, "license"@, JsonValue::Str(m.license@));
    let files = JsonValue::Arr(items_json(m.files@));
    let d = put(c, "files"@, files);
    let hw = JsonValue::Obj(hardware_members(m.hardware));
    assert forall|i: int| 0 <= i < items_json(m.files@).len() implies !has_float(#[trigger] items_json(m.files@)[i]) by {
        lemma_file_no_float(m.files@[i]);
    }
    lemma_items_no_float(items_json(m.files@));
    lemma_hardware_no_float(m.hardware);
    lemma_put_no_float(no_members(), "schema"@, JsonValue::Str(m.schema@));
    lemma_put_no_float(a, "name"@, JsonValue::Str(m.name@));
    lemma_put_no_float(b, "license"@, JsonValue::Str(m.license@));
    lemma_put_no_float(c, "files"@, files);
    lemma_put_no_float(d, "hardware"@, hw);
    lemma_put_keeps_sorted(no_members(), "schema"@, JsonValue::Str(m.schema@));
    lemma_put_keeps_sorted(a, "name"@, JsonValue::Str(m.name@));
    lemma_put_keeps_sorted(b, "license"@, JsonValue::Str(m.license@));
    lemma_put_keeps_sorted(c, "files"@, files);
    lemma_put_keeps_sorted(d, "hardware"@, hw);
    lemma_put_members(no_members(), "schema"@, JsonValue::Str(m.schema@));
    lemma_put_members(a, "name"@, JsonValue::Str(m.name@));
    lemma_put_members(b, "license"@, JsonValue::Str(m.license@));
    lemma_put_members(c, "files"@, files);
    lemma_put_members(d, "hardware"@, hw);
    reveal_strlit("signatures");
    reveal_strlit("schema");
    reveal_strlit("name");
    reveal_strlit("license");
    reveal_strlit("files");
    reveal_strlit("hardware");
    assert("signatures"@[1] != "schema"@[1]);
    assert("signatures"@ != "schema"@);
    assert("signatures"@[0] != "name"@[0]);
    assert("signatures"@ != "name"@);
    assert("signatures"@[0] != "license"@[0]);
    assert("signatures"@ != "license"@);
    assert("signatures"@[0] != "files"@[0]);
    assert("signatures"@ != "files"@);
    assert("signatures"@[0] != "hardware"@[0]);
    assert("signatures"@ != "hardware"@);
    assert(!has_key(no_members(), "signatures"@));
}

impl ArtifactManifest {
    /// The schema tag of an artifact manifest.
    pub fn v0() -> (r: &'static str)
        ensures
            r@ == "keel.artifact/0"@,
    {
        "keel.artifact/0"
    }

    /// The artifact's identity: the content id of its document without `signatures`, so that
    /// attestations can be added later. It always succeeds.
    pub fn artifact_cid(&self) -> (r: Result<ContentId, ContentIdError>)
        ensures
            r matches Ok(c) && c.0@ == sha256_of(canonical(JsonValue::Obj(manifest_core(*self)))),
    {
        let v = self.to_json();
        let stripped = without_key(v, "signatures");
        proof {
            lemma_core(*self);
            if self.signatures@.len() == 0 {
                lemma_del_missing(manifest_core(*self), "signatures"@);
            } else {
                lemma_del_put(manifest_core(*self), "signatures"@, JsonValue::Arr(items_json(self.signatures@)));
                lemma_del_missing(manifest_core(*self), "signatures"@);
            }
        }
        ContentId::of_canonical(&stripped)
    }
}

/// Signatures do not change an artifact's identity: two manifests that differ only in their
/// signatures have the same identity document.
pub proof fn law_signatures_do_not_change_artifact_cid(a: ArtifactManifest, b: ArtifactManifest)
    requires
        a.schema@ == b.schema@,
        a.name@ == b.name@,
        a.license@ == b.license@,
        a.files@ == b.files@,
        a.hardware == b.hardware,
    ensures
        manifest_core(a) == manifest_core(b),
{
}


/// The keys of a manifest's and of a file's document, told apart.
proof fn lemma_manifest_keys_differ()
    ensures
        "schema"@ != "name"@, "schema"@ != "license"@, "schema"@ != "files"@, "schema"@ != "hardware"@, "schema"@ != "signatures"@,
        "name"@ != "license"@, "name"@ != "files"@, "name"@ != "hardware"@, "name"@ != "signatures"@,
        "license"@ != "files"@, "license"@ != "hardware"@, "license"@ != "signatures"@,
        "files"@ != "hardware"@, "files"@ != "signatures"@,
        "hardware"@ != "signatures"@,
        "path"@ != "cid"@, "path"@ != "size_bytes"@, "path"@ != "media"@,
        "cid"@ != "size_bytes"@, "cid"@ != "media"@,
        "size_bytes"@ != "media"@,
{
    reveal_strlit("schema");
    reveal_strlit("name");
    reveal_strlit("license");
    reveal_strlit("files");
    reveal_strlit("hardware");
    reveal_strlit("signatures");
    reveal_strlit("path");
    reveal_strlit("cid");
    reveal_strlit("size_bytes");
    reveal_strlit("media");
    assert("schema"@[0] != "name"@[0]);
    assert("schema"@[0] != "license"@[0]);
    assert("schema"@[0] != "files"@[0]);
    assert("schema"@[0] != "hardware"@[0]);
    assert("schema"@[1] != "signatures"@[1]);
    assert("name"@[0] != "license"@[0]);
    assert("name"@[0] != "files"@[0]);
    assert("name"@[0] != "hardware"@[0]);
    assert("name"@[0] != "signatures"@[0]);
    assert("license"@[0] != "files"@[0]);
    assert("license"@[0] != "hardware"@[0]);
    assert("license"@[0] != "signatures"@[0]);
    assert("files"@[0] != "hardware"@[0]);
    assert("files"@[0] != "signatures"@[0]);
    assert("hardware"@[0] != "signatures"@[0]);
    assert("path"@[0] != "cid"@[0]);
    assert("path"@[0] != "size_bytes"@[0]);
    assert("path"@[0] != "media"@[0]);
    assert("cid"@[0] != "size_bytes"@[0]);
    assert("cid"@[0] != "media"@[0]);
    assert("size_bytes"@[0] != "media"@[0]);
}

proof fn lemma_core_members(m: ArtifactManifest)
    ensures
        json_get(JsonValue::Obj(manifest_core(m)), "schema"@) == Some(JsonValue::Str(m.schema@)),
        json_get(JsonValue::Obj(manifest_core(m)), "name"@) == Some(JsonValue::Str(m.name@)),
        json_get(JsonValue::Obj(manifest_core(m)), "license"@) == Some(JsonValue::Str(m.license@)),
        json_get(JsonValue::Obj(manifest_core(m)), "files"@) == Some(JsonValue::Arr(items_json(m.files@))),
        json_get(JsonValue::Obj(manifest_core(m)), "hardware"@) == Some(JsonValue::Obj(hardware_members(m.hardware))),
        json_get(JsonValue::Obj(manifest_core(m)), "signatures"@) is None,
{
    lemma_manifest_keys_differ();
    let v1 = JsonValue::Str(m.schema@);
    let v2 = JsonValue::Str(m.name@);
    let v3 = JsonValue::Str(m.license@);
    let v4 = JsonValue::Arr(items_json(m.files@));
    let v5 = JsonValue::Obj(hardware_members(m.hardware));
    let m1 = put(no_members(), "schema"@, v1);
    let m2 = put(m1, "name"@, v2);
    let m3 = put(m2, "license"@, v3);
    let m4 = put(m3, "files"@, v4);
    let m5 = put(m4, "hardware"@, v5);
    let keys = seq!["schema"@, "name"@, "license"@, "files"@, "hardware"@, "signatures"@];
    assert forall|i: int| 0 <= i < 6 implies {
        &&& member(m5, #[trigger] keys[i]) == if keys[i] == "hardware"@ { Some(v5) } else { member(m4, keys[i]) }
        &&& member(m4, keys[i]) == if keys[i] == "files"@ { Some(v4) } else { member(m3, keys[i]) }
        &&& member(m3, keys[i]) == if keys[i] == "license"@ { Some(v3) } else { member(m2, keys[i]) }
        &&& member(m2, keys[i]) == if keys[i] == "name"@ { Some(v2) } else { member(m1, keys[i]) }
        &&& member(m1, keys[i]) == if keys[i] == "schema"@ { Some(v1) } else { member(no_members(), keys[i]) }
    } by {
        lemma_member_put(m4, "hardware"@, v5, keys[i]);
        lemma_member_put(m3, "files"@, v4, keys[i]);
        lemma_member_put(m2, "license"@, v3, keys[i]);
        lemma_member_put(m1, "name"@, v2, keys[i]);
        lemma_member_put(no_members(), "schema"@, v1, keys[i]);
    }
    assert(keys[0] == "schema"@ && keys[1] == "name"@ && keys[2] == "license"@);
    assert(keys[3] == "files"@ && keys[4] == "hardware"@ && keys[5] == "signatures"@);
}

/// The document an artifact's identity hashes holds every member of the manifest but its
/// signatures: schema, name, license, the documents of all its files, and its hardware hint;
/// the manifest's own document holds those same members, and the signatures where there are
/// some. So two manifests whose files differ (another weights file, another list) have
/// different identity documents.
pub proof fn law_artifact_identity_covers_every_field(m: ArtifactManifest, n: ArtifactManifest)
    ensures
        json_get(JsonValue::Obj(manifest_core(m)), "schema"@) == Some(JsonValue::Str(m.schema@)),
        json_get(JsonValue::Obj(manifest_core(m)), "name"@) == Some(JsonValue::Str(m.name@)),
        json_get(JsonValue::Obj(manifest_core(m)), "license"@) == Some(JsonValue::Str(m.license@)),
        json_get(JsonValue::Obj(manifest_core(m)), "files"@) == Some(JsonValue::Arr(m.files@.map_values(|f: ArtifactFile| f.json()))),
        json_get(JsonValue::Obj(manifest_core(m)), "hardware"@) == Some(m.hardware.json()),
        json_get(JsonValue::Obj(manifest_core(m)), "signatures"@) is None,
        forall|k: Seq<char>| k != "signatures"@ ==> json_get(m.json(), k) == json_get(JsonValue::Obj(manifest_core(m)), k),
        json_get(m.json(), "signatures"@) == if m.signatures@.len() == 0 {
            None
        } else {
            Some(JsonValue::Arr(m.signatures@.map_values(|g: ManifestSig| g.json())))
        },
        m.files@.len() != n.files@.len() ==> manifest_core(m) != manifest_core(n),
        forall|i: int| 0 <= i < m.files@.len() && i < n.files@.len() && m.files@[i].json() != n.files@[i].json()
            ==> manifest_core(m) != manifest_core(n),
{
    lemma_core_members(m);
    lemma_core_members(n);
    lemma_manifest_keys_differ();
    assert forall|k: Seq<char>| k != "signatures"@ implies json_get(m.json(), k) == json_get(JsonValue::Obj(manifest_core(m)), k) by {
        if m.signatures@.len() != 0 {
            lemma_member_put(manifest_core(m), "signatures"@, JsonValue::Arr(items_json(m.signatures@)), k);
        }
    }
    if m.signatures@.len() != 0 {
        lemma_member_put(manifest_core(m), "signatures"@, JsonValue::Arr(items_json(m.signatures@)), "signatures"@);
    }
    assert forall|i: int| 0 <= i < m.files@.len() && i < n.files@.len() && m.files@[i].json() != n.files@[i].json()
        implies manifest_core(m) != manifest_core(n) by {
        assert(items_json(m.files@)[i] == m.files@[i].json());
        assert(items_json(n.files@)[i] == n.files@[i].json());
    }
    if m.files@.len() != n.files@.len() {
        assert(items_json(m.files@).len() != items_json(n.files@).len());
    }
}

/// A file's document holds its path, its content id (as `sha256:` and hex), its size, and its
/// media type where it has one. So two files whose content ids differ have different
/// documents.
pub proof fn law_file_document_covers_every_field(f: ArtifactFile, g: ArtifactFile)
    ensures
        json_get(f.json(), "path"@) == Some(JsonValue::Str(f.path@)),
        json_get(f.json(), "cid"@) == Some(JsonValue::Str(cid_text(f.cid.0@))),
        json_get(f.json(), "size_bytes"@) == Some(JsonValue::Int(f.size_bytes as int)),
        json_get(f.json(), "media"@) == match f.media {
            Some(t) => Some(JsonValue::Str(t@)),
            None => None::<JsonValue>,
        },
        f.cid.0@ != g.cid.0@ ==> f.json() != g.json(),
{
    lemma_file_members(f);
    lemma_file_members(g);
    if f.cid.0@ != g.cid.0@ {
        lemma_hex_roundtrip(f.cid.0@);
        lemma_hex_roundtrip(g.cid.0@);
        reveal_strlit("sha256:");
        if cid_text(f.cid.0@) == cid_text(g.cid.0@) {
            let a = cid_text(f.cid.0@);
            assert(a.subrange(7, a.len() as int) =~= hex_lower(f.cid.0@));
            assert(cid_text(g.cid.0@).subrange(7, a.len() as int) =~= hex_lower(g.cid.0@));
        }
    }
}

proof fn lemma_file_members(f: ArtifactFile)
    ensures
        json_get(f.json(), "path"@) == Some(JsonValue::Str(f.path@)),
        json_get(f.json(), "cid"@) == Some(JsonValue::Str(cid_text(f.cid.0@))),
        json_get(f.json(), "size_bytes"@) == Some(JsonValue::Int(f.size_bytes as int)),
        json_get(f.json(), "media"@) == match f.media {
            Some(t) => Some(JsonValue::Str(t@)),
            None => None::<JsonValue>,
        },
{
    lemma_manifest_keys_differ();
    let v1 = JsonValue::Str(f.path@);
    let v2 = JsonValue::Str(cid_text(f.cid.0@));
    let v3 = JsonValue::Int(f.size_bytes as int);
    let m1 = put(no_members(), "path"@, v1);
    let m2 = put(m1, "cid"@, v2);
    let m3 = put(m2, "size_bytes"@, v3);
    let keys = seq!["path"@, "cid"@, "size_bytes"@, "media"@];
    assert forall|i: int| 0 <= i < 4 implies {
        &&& member(m3, #[trigger] keys[i]) == if keys[i] == "size_bytes"@ { Some(v3) } else { member(m2, keys[i]) }
        &&& member(m2, keys[i]) == if keys[i] == "cid"@ { Some(v2) } else { member(m1, keys[i]) }
        &&& member(m1, keys[i]) == if keys[i] == "path"@ { Some(v1) } else { member(no_members(), keys[i]) }
    } by {
        lemma_member_put(m2, "size_bytes"@, v3, keys[i]);
        lemma_member_put(m1, "cid"@, v2, keys[i]);
        lemma_member_put(no_members(), "path"@, v1, keys[i]);
    }
    assert(keys[0] == "path"@ && keys[1] == "cid"@ && keys[2] == "size_bytes"@ && keys[3] == "media"@);
    match f.media {
        Some(t) => {
            assert forall|i: int| 0 <= i < 4 implies member(put(m3, "media"@, JsonValue::Str(t@)), #[trigger] keys[i])
                == if keys[i] == "media"@ { Some(JsonValue::Str(t@)) } else { member(m3, keys[i]) } by {
                lemma_member_put(m3, "media"@, JsonValue::Str(t@), keys[i]);
            }
        },
        None => {},
    }
}

} // verus!
