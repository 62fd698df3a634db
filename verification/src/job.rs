//! Inference jobs: the specification a payer submits, and the lifecycle of its status.

use crate::hexcodec::hex_lower;
use crate::identity::{cid_text, ContentId, Pubkey};
use crate::json::{
    canonical, has_float, json_get, json_str, lemma_member_put, lemma_put_no_float, member, no_members, put,
    ContentIdError, Json,
    JsonObject, JsonValue, ToJson,
};
use crate::crypto::sha256_of;
use crate::metering::{Millicredits, UsageMeter};
use crate::text::{concat_str, str_eq};
use vstd::prelude::*;

verus! {

/// What a payer asks a runner to do.
#[derive(Clone, Debug)]
pub struct JobSpec {
    pub schema: String,
    pub model: ContentId,
    pub input: InputRef,
    pub max_millicredits: Millicredits,
    pub payer: Pubkey,
    pub nonce: String,
}

impl JobSpec {
    /// The schema tag of a job spec.
    pub fn v0() -> (r: &'static str)
        ensures
            r@ == "keel.job/0"@,
    {
        "keel.job/0"
    }

    /// The job's id: the content id of the spec's canonical JSON. A spec has no floats, so this
    /// always succeeds.
    pub fn job_id(&self) -> (r: Result<ContentId, ContentIdError>)
        ensures
            r matches Ok(c) && c.0@ == sha256_of(canonical(self.json())),
    {
        proof {
            lemma_job_spec_no_float(self);
        }
        ContentId::of_canonical(self)
    }
}

/// The JSON document of a job input: tagged by `kind`.
pub open spec fn input_json(i: InputRef) -> JsonValue {
    match i {
        InputRef::Inline { text } => JsonValue::Obj(
            put(put(no_members(), "kind"@, JsonValue::Str("inline"@)), "text"@, JsonValue::Str(text@)),
        ),
        InputRef::Cid { cid } => JsonValue::Obj(
            put(put(no_members(), "kind"@, JsonValue::Str("cid"@)), "cid"@, JsonValue::Str(cid_text(cid.0@))),
        ),
    }
}

impl ToJson for InputRef {
    open spec fn json(&self) -> JsonValue {
        input_json(*self)
    }

    fn to_json(&self) -> (j: Json) {
        let mut o = JsonObject::new();
        match self {
            InputRef::Inline { text } => {
                o.insert(String::from_str("kind"), json_str("inline"));
                o.insert(String::from_str("text"), Json::Str(text.clone()));
            },
            InputRef::Cid { cid } => {
                o.insert(String::from_str("kind"), json_str("cid"));
                o.insert(String::from_str("cid"), cid.to_json());
            },
        }
        Json::Obj(o)
    }
}

impl ToJson for JobSpec {
    open spec fn json(&self) -> JsonValue {
        JsonValue::Obj(
            put(
                put(
                    put(
                        put(
                            put(put(no_members(), "schema"@, JsonValue::Str(self.schema@)), "model"@, self.model.json()),
                            "input"@,
                            input_json(self.input),
                        ),
                        "max_millicredits"@,
                        JsonValue::Int(self.max_millicredits.0 as int),
                    ),
                    "payer"@,
                    JsonValue::Str(hex_lower(self.payer.0@)),
                ),
                "nonce"@,
                JsonValue::Str(self.nonce@),
            ),
        )
    }

    fn to_json(&self) -> (j: Json) {
        let mut o = JsonObject::new();
        o.insert(String::from_str("schema"), Json::Str(self.schema.clone()));
        o.insert(String::from_str("model"), self.model.to_json());
        o.insert(String::from_str("input"), self.input.to_json());
        o.insert(String::from_str("max_millicredits"), Json::Int(self.max_millicredits.0));
        o.insert(String::from_str("payer"), self.payer.to_json());
        o.insert(String::from_str("nonce"), Json::Str(self.nonce.clone()));
        Json::Obj(o)
    }
}

/// The JSON document of a job input holds no float.
proof fn lemma_input_no_float(i: InputRef)
    ensures
        !has_float(input_json(i)),
{
    match i {
        InputRef::Inline { text } => {
            lemma_put_no_float(no_members(), "kind"@, JsonValue::Str("inline"@));
            lemma_put_no_float(put(no_members(), "kind"@, JsonValue::Str("inline"@)), "text"@, JsonValue::Str(text@));
        },
        InputRef::Cid { cid } => {
            lemma_put_no_float(no_members(), "kind"@, JsonValue::Str("cid"@));
            lemma_put_no_float(put(no_members(), "kind"@, JsonValue::Str("cid"@)), "cid"@, JsonValue::Str(cid_text(cid.0@)));
        },
    }
}

/// The JSON document of a job spec holds no float.
proof fn lemma_job_spec_no_float(s: &JobSpec)
    ensures
        !has_float(s.json()),
{
    lemma_input_no_float(s.input);
    let m1 = put(no_members(), "schema"@, JsonValue::Str(s.schema@));
    let m2 = put(m1, "model"@, s.model.json());
    let m3 = put(m2, "input"@, input_json(s.input));
    let m4 = put(m3, "max_millicredits"@, JsonValue::Int(s.max_millicredits.0 as int));
    let m5 = put(m4, "payer"@, JsonValue::Str(hex_lower(s.payer.0@)));
    lemma_put_no_float(no_members(), "schema"@, JsonValue::Str(s.schema@));
    lemma_put_no_float(m1, "model"@, s.model.json());
    lemma_put_no_float(m2, "input"@, input_json(s.input));
    lemma_put_no_float(m3, "max_millicredits"@, JsonValue::Int(s.max_millicredits.0 as int));
    lemma_put_no_float(m4, "payer"@, JsonValue::Str(hex_lower(s.payer.0@)));
    lemma_put_no_float(m5, "nonce"@, JsonValue::Str(s.nonce@));
}

/// Input or output of a job: inline text, or the id of a blob.
#[derive(Clone, Debug)]
pub enum InputRef {
    Inline { text: String },
    Cid { cid: ContentId },
}

/// Where a job stands.
#[derive(Clone, Copy, Debug, PartialEq, Eq, Structural)]
pub enum JobStatus {
    Specified,
    Submitted,
    HoldActive,
    Running,
    Succeeded,
    Failed,
    Expired,
}

/// What a runner reports for a job.
#[derive(Clone, Debug)]
pub struct JobResult {
    pub job_id: ContentId,
    pub status: JobStatus,
    pub output: InputRef,
    pub meter: UsageMeter,
}

/// A refused status change.
#[derive(Clone, Copy, Debug, PartialEq, Eq, Structural)]
pub enum JobError {
    BadTransition { from: JobStatus, to: JobStatus },
}

/// The wire name of a status.
pub open spec fn job_status_name(s: JobStatus) -> Seq<char> {
    match s {
        JobStatus::Specified => "specified"@,
        JobStatus::Submitted => "submitted"@,
        JobStatus::HoldActive => "hold_active"@,
        JobStatus::Running => "running"@,
        JobStatus::Succeeded => "succeeded"@,
        JobStatus::Failed => "failed"@,
        JobStatus::Expired => "expired"@,
    }
}

/// The name of a status as `Debug` prints it.
pub open spec fn job_status_debug_name(s: JobStatus) -> Seq<char> {
    match s {
        JobStatus::Specified => "Specified"@,
        JobStatus::Submitted => "Submitted"@,
        JobStatus::HoldActive => "HoldActive"@,
        JobStatus::Running => "Running"@,
        JobStatus::Succeeded => "Succeeded"@,
        JobStatus::Failed => "Failed"@,
        JobStatus::Expired => "Expired"@,
    }
}

/// The status whose wire name is `s`, if any.
pub open spec fn job_status_named(s: Seq<char>) -> Option<JobStatus> {
    if s == "specified"@ {
        Some(JobStatus::Specified)
    } else if s == "submitted"@ {
        Some(JobStatus::Submitted)
    } else if s == "hold_active"@ {
        Some(JobStatus::HoldActive)
    } else if s == "running"@ {
        Some(JobStatus::Running)
    } else if s == "succeeded"@ {
        Some(JobStatus::Succeeded)
    } else if s == "failed"@ {
        Some(JobStatus::Failed)
    } else if s == "expired"@ {
        Some(JobStatus::Expired)
    } else {
        None
    }
}

/// The moves a job may make: specified, submitted, hold active, running, then succeeded or
/// failed; a held or running job may also expire.
pub open spec fn may_enter(from: JobStatus, to: JobStatus) -> bool {
    match (from, to) {
        (JobStatus::Specified, JobStatus::Submitted) => true,
        (JobStatus::Submitted, JobStatus::HoldActive) => true,
        (JobStatus::HoldActive, JobStatus::Running) => true,
        (JobStatus::Running, JobStatus::Succeeded) => true,
        (JobStatus::Running, JobStatus::Failed) => true,
        (JobStatus::HoldActive, JobStatus::Expired) => true,
        (JobStatus::Running, JobStatus::Expired) => true,
        _ => false,
    }
}

impl JobStatus {
    /// The wire name of the status.
    pub fn as_str(self) -> (r: &'static str)
        ensures
            r@ == job_status_name(self),
    {
        match self {
            JobStatus::Specified => "specified",
            JobStatus::Submitted => "submitted",
            JobStatus::HoldActive => "hold_active",
            JobStatus::Running => "running",
            JobStatus::Succeeded => "succeeded",
            JobStatus::Failed => "failed",
            JobStatus::Expired => "expired",
        }
    }

    /// The name of the status as `Debug` prints it.
    pub fn debug_name(self) -> (r: &'static str)
        ensures
            r@ == job_status_debug_name(self),
    {
        match self {
            JobStatus::Specified => "Specified",
            JobStatus::Submitted => "Submitted",
            JobStatus::HoldActive => "HoldActive",
            JobStatus::Running => "Running",
            JobStatus::Succeeded => "Succeeded",
            JobStatus::Failed => "Failed",
            JobStatus::Expired => "Expired",
        }
    }

    /// Parses a wire name.
    pub fn from_str_status(s: &str) -> (r: Result<Self, String>)
        ensures
            match r {
                Ok(st) => job_status_named(s@) == Some(st),
                Err(m) => job_status_named(s@) is None && m@ == "unknown job status "@ + s@,
            },
    {
        if str_eq(s, "specified") {
            Ok(JobStatus::Specified)
        } else if str_eq(s, "submitted") {
            Ok(JobStatus::Submitted)
        } else if str_eq(s, "hold_active") {
            Ok(JobStatus::HoldActive)
        } else if str_eq(s, "running") {
            Ok(JobStatus::Running)
        } else if str_eq(s, "succeeded") {
            Ok(JobStatus::Succeeded)
        } else if str_eq(s, "failed") {
            Ok(JobStatus::Failed)
        } else if str_eq(s, "expired") {
            Ok(JobStatus::Expired)
        } else {
            Err(concat_str("unknown job status ", s))
        }
    }

    /// Whether a job in this status may move to `next`.
    pub fn can_enter(self, next: Self) -> (r: bool)
        ensures
            r == may_enter(self, next),
    {
        match (self, next) {
            (JobStatus::Specified, JobStatus::Submitted) => true,
            (JobStatus::Submitted, JobStatus::HoldActive) => true,
            (JobStatus::HoldActive, JobStatus::Running) => true,
            (JobStatus::Running, JobStatus::Succeeded) => true,
            (JobStatus::Running, JobStatus::Failed) => true,
            (JobStatus::HoldActive, JobStatus::Expired) => true,
            (JobStatus::Running, JobStatus::Expired) => true,
            _ => false,
        }
    }

    /// Moves to `next` if that is allowed.
    pub fn transition(self, next: Self) -> (r: Result<Self, JobError>)
        ensures
            r == if may_enter(self, next) {
                Ok::<JobStatus, JobError>(next)
            } else {
                Err(JobError::BadTransition { from: self, to: next })
            },
    {
        if self.can_enter(next) {
            Ok(next)
        } else {
            Err(JobError::BadTransition { from: self, to: next })
        }
    }
}

impl JobError {
    /// The message of the error.
    pub fn message(&self) -> (r: String)
        ensures
            match self {
                JobError::BadTransition { from, to } => r@ == "status "@ + job_status_debug_name(*from)
                    + " cannot move to "@ + job_status_debug_name(*to),
            },
    {
        match self {
            JobError::BadTransition { from, to } => {
                let a = concat_str("status ", from.debug_name());
                let b = concat_str(a.as_str(), " cannot move to ");
                concat_str(b.as_str(), to.debug_name())
            },
        }
    }
}

/// The stage of a status along the lifecycle.
pub open spec fn stage(s: JobStatus) -> int {
    match s {
        JobStatus::Specified => 0,
        JobStatus::Submitted => 1,
        JobStatus::HoldActive => 2,
        JobStatus::Running => 3,
        _ => 4,
    }
}

/// Every allowed move goes forward, so a job never returns to a status it has left, and the
/// finished statuses (succeeded, failed, expired) are final.
pub proof fn law_transitions_go_forward(from: JobStatus, to: JobStatus)
    ensures
        may_enter(from, to) ==> stage(from) < stage(to),
        stage(from) == 4 ==> !may_enter(from, to),
{
}

/// A job runs only out of an active hold: nothing is burnt without a hold.
pub proof fn law_run_needs_hold(from: JobStatus)
    ensures
        may_enter(from, JobStatus::Running) <==> from == JobStatus::HoldActive,
{
}

/// Parsing the wire name of a status gives the status back, and no two statuses share a name.
pub proof fn law_status_name_roundtrip(s: JobStatus, t: JobStatus)
    ensures
        job_status_named(job_status_name(s)) == Some(s),
        job_status_name(s) == job_status_name(t) ==> s == t,
{
    reveal_strlit("specified");
    reveal_strlit("submitted");
    reveal_strlit("hold_active");
    reveal_strlit("running");
    reveal_strlit("succeeded");
    reveal_strlit("failed");
    reveal_strlit("expired");
    let names = seq![
        "specified"@,
        "submitted"@,
        "hold_active"@,
        "running"@,
        "succeeded"@,
        "failed"@,
        "expired"@,
    ];
    assert(names[0][1] != names[1][1]);
    assert(names[0][1] != names[4][1]);
    assert(names[1][2] != names[4][2]);
    assert(names[3][0] != names[6][0]);
    assert forall|i: int, j: int| 0 <= i < j < 7 implies names[i] != names[j] by {
        if names[i].len() == names[j].len() {
            if i == 0 && j == 1 {
                assert(names[i][1] != names[j][1]);
            } else if i == 0 && j == 4 {
                assert(names[i][1] != names[j][1]);
            } else if i == 1 && j == 4 {
                assert(names[i][2] != names[j][2]);
            } else if i == 3 && j == 6 {
                assert(names[i][0] != names[j][0]);
            }
        }
    }
    let idx = |st: JobStatus|
        {
            match st {
                JobStatus::Specified => 0int,
                JobStatus::Submitted => 1int,
                JobStatus::HoldActive => 2int,
                JobStatus::Running => 3int,
                JobStatus::Succeeded => 4int,
                JobStatus::Failed => 5int,
                JobStatus::Expired => 6int,
            }
        };
    assert(job_status_name(s) == names[idx(s)]);
    assert(job_status_name(t) == names[idx(t)]);
    if idx(s) != idx(t) {
        assert(names[idx(s)] != names[idx(t)]);
    }
}

impl ToJson for JobResult {
    open spec fn json(&self) -> JsonValue {
        JsonValue::Obj(
            put(
                put(
                    put(put(no_members(), "job_id"@, self.job_id.json()), "status"@, JsonValue::Str(job_status_name(self.status))),
                    "output"@,
                    input_json(self.output),
                ),
                "meter"@,
                self.meter.json(),
            ),
        )
    }

    fn to_json(&self) -> (j: Json) {
        let mut o = JsonObject::new();
        o.insert(String::from_str("job_id"), self.job_id.to_json());
        o.insert(String::from_str("status"), json_str(self.status.as_str()));
        o.insert(String::from_str("output"), self.output.to_json());
        o.insert(String::from_str("meter"), self.meter.to_json());
        Json::Obj(o)
    }
}


/// Every status that is not final can still move on, and only those can: a running job may end
/// in any of the three final ways (succeeded, failed or expired), and a held job may expire
/// before it runs.
pub proof fn law_open_statuses_move_on(s: JobStatus)
    ensures
        stage(s) < 4 <==> exists|t: JobStatus| may_enter(s, t),
        may_enter(JobStatus::Running, JobStatus::Succeeded),
        may_enter(JobStatus::Running, JobStatus::Failed),
        may_enter(JobStatus::Running, JobStatus::Expired),
        may_enter(JobStatus::HoldActive, JobStatus::Expired),
{
    if stage(s) < 4 {
        let t = match s {
            JobStatus::Specified => JobStatus::Submitted,
            JobStatus::Submitted => JobStatus::HoldActive,
            JobStatus::HoldActive => JobStatus::Running,
            _ => JobStatus::Succeeded,
        };
        assert(may_enter(s, t));
    }
    if exists|t: JobStatus| may_enter(s, t) {
        let t = choose|t: JobStatus| may_enter(s, t);
        law_transitions_go_forward(s, t);
    }
}

/// The keys of a job spec's document and of an input's document, told apart.
proof fn lemma_job_keys_differ()
    ensures
        "schema"@ != "model"@, "schema"@ != "input"@, "schema"@ != "max_millicredits"@, "schema"@ != "payer"@, "schema"@ != "nonce"@,
        "model"@ != "input"@, "model"@ != "max_millicredits"@, "model"@ != "payer"@, "model"@ != "nonce"@,
        "input"@ != "max_millicredits"@, "input"@ != "payer"@, "input"@ != "nonce"@,
        "max_millicredits"@ != "payer"@, "max_millicredits"@ != "nonce"@,
        "payer"@ != "nonce"@,
        "kind"@ != "text"@, "kind"@ != "cid"@, "inline"@ != "cid"@,
{
    reveal_strlit("schema");
    reveal_strlit("model");
    reveal_strlit("input");
    reveal_strlit("max_millicredits");
    reveal_strlit("payer");
    reveal_strlit("nonce");
    reveal_strlit("kind");
    reveal_strlit("text");
    reveal_strlit("cid");
    reveal_strlit("inline");
    assert("schema"@[0] != "model"@[0]);
    assert("schema"@[0] != "input"@[0]);
    assert("schema"@[0] != "max_millicredits"@[0]);
    assert("schema"@[0] != "payer"@[0]);
    assert("schema"@[0] != "nonce"@[0]);
    assert("model"@[0] != "input"@[0]);
    assert("model"@[1] != "max_millicredits"@[1]);
    assert("model"@[0] != "payer"@[0]);
    assert("model"@[0] != "nonce"@[0]);
    assert("input"@[0] != "max_millicredits"@[0]);
    assert("input"@[0] != "payer"@[0]);
    assert("input"@[0] != "nonce"@[0]);
    assert("max_millicredits"@[0] != "payer"@[0]);
    assert("max_millicredits"@[0] != "nonce"@[0]);
    assert("payer"@[0] != "nonce"@[0]);
    assert("kind"@[0] != "text"@[0]);
    assert("kind"@[0] != "cid"@[0]);
    assert("inline"@[0] != "cid"@[0]);
}

/// What each key of an input's document reads: its kind, and its text or its content id.
pub proof fn law_input_document_covers_the_input(i: InputRef, j: InputRef)
    ensures
        json_get(input_json(i), "kind"@) == Some(JsonValue::Str(if i is Inline { "inline"@ } else { "cid"@ })),
        i matches InputRef::Inline { text } ==> json_get(input_json(i), "text"@) == Some(JsonValue::Str(text@)),
        i matches InputRef::Cid { cid } ==> json_get(input_json(i), "cid"@) == Some(JsonValue::Str(cid_text(cid.0@))),
        (i is Inline) != (j is Inline) ==> input_json(i) != input_json(j),
        i matches InputRef::Inline { text: a } ==> (j matches InputRef::Inline { text: b } ==> (a@ != b@ ==> input_json(i) != input_json(j))),
{
    lemma_job_keys_differ();
    lemma_input_members(i);
    lemma_input_members(j);
}

proof fn lemma_input_members(i: InputRef)
    ensures
        json_get(input_json(i), "kind"@) == Some(JsonValue::Str(if i is Inline { "inline"@ } else { "cid"@ })),
        i matches InputRef::Inline { text } ==> json_get(input_json(i), "text"@) == Some(JsonValue::Str(text@)),
        i matches InputRef::Cid { cid } ==> json_get(input_json(i), "cid"@) == Some(JsonValue::Str(cid_text(cid.0@))),
{
    lemma_job_keys_differ();
    match i {
        InputRef::Inline { text } => {
            let m1 = put(no_members(), "kind"@, JsonValue::Str("inline"@));
            lemma_member_put(no_members(), "kind"@, JsonValue::Str("inline"@), "kind"@);
            lemma_member_put(m1, "text"@, JsonValue::Str(text@), "kind"@);
            lemma_member_put(m1, "text"@, JsonValue::Str(text@), "text"@);
        },
        InputRef::Cid { cid } => {
            let m1 = put(no_members(), "kind"@, JsonValue::Str("cid"@));
            lemma_member_put(no_members(), "kind"@, JsonValue::Str("cid"@), "kind"@);
            lemma_member_put(m1, "cid"@, JsonValue::Str(cid_text(cid.0@)), "kind"@);
            lemma_member_put(m1, "cid"@, JsonValue::Str(cid_text(cid.0@)), "cid"@);
        },
    }
}

/// The document a job id hashes holds every field of the spec: its schema, model, input,
/// credit cap, payer (hex) and nonce. So two specs whose inputs differ (another prompt, or
/// another input file) have different documents, and a new input is never taken for a job
/// already run.
pub proof fn law_job_document_covers_every_field(s: JobSpec, t: JobSpec)
    ensures
        json_get(s.json(), "schema"@) == Some(JsonValue::Str(s.schema@)),
        json_get(s.json(), "model"@) == Some(JsonValue::Str(cid_text(s.model.0@))),
        json_get(s.json(), "input"@) == Some(input_json(s.input)),
        json_get(s.json(), "max_millicredits"@) == Some(JsonValue::Int(s.max_millicredits.0 as int)),
        json_get(s.json(), "payer"@) == Some(JsonValue::Str(hex_lower(s.payer.0@))),
        json_get(s.json(), "nonce"@) == Some(JsonValue::Str(s.nonce@)),
        input_json(s.input) != input_json(t.input) ==> s.json() != t.json(),
        s.schema@ != t.schema@ || s.nonce@ != t.nonce@ || s.max_millicredits.0 != t.max_millicredits.0 ==> s.json() != t.json(),
{
    lemma_spec_members(s);
    lemma_spec_members(t);
}

proof fn lemma_spec_members(s: JobSpec)
    ensures
        json_get(s.json(), "schema"@) == Some(JsonValue::Str(s.schema@)),
        json_get(s.json(), "model"@) == Some(JsonValue::Str(cid_text(s.model.0@))),
        json_get(s.json(), "input"@) == Some(input_json(s.input)),
        json_get(s.json(), "max_millicredits"@) == Some(JsonValue::Int(s.max_millicredits.0 as int)),
        json_get(s.json(), "payer"@) == Some(JsonValue::Str(hex_lower(s.payer.0@))),
        json_get(s.json(), "nonce"@) == Some(JsonValue::Str(s.nonce@)),
{
    lemma_job_keys_differ();
    let v1 = JsonValue::Str(s.schema@);
    let v2 = s.model.json();
    let v3 = input_json(s.input);
    let v4 = JsonValue::Int(s.max_millicredits.0 as int);
    let v5 = JsonValue::Str(hex_lower(s.payer.0@));
    let v6 = JsonValue::Str(s.nonce@);
    let m1 = put(no_members(), "schema"@, v1);
    let m2 = put(m1, "model"@, v2);
    let m3 = put(m2, "input"@, v3);
    let m4 = put(m3, "max_millicredits"@, v4);
    let m5 = put(m4, "payer"@, v5);
    let m6 = put(m5, "nonce"@, v6);
    let keys = seq!["schema"@, "model"@, "input"@, "max_millicredits"@, "payer"@, "nonce"@];
    assert forall|i: int| 0 <= i < 6 implies {
        &&& member(m6, #[trigger] keys[i]) == if keys[i] == "nonce"@ { Some(v6) } else { member(m5, keys[i]) }
        &&& member(m5, keys[i]) == if keys[i] == "payer"@ { Some(v5) } else { member(m4, keys[i]) }
        &&& member(m4, keys[i]) == if keys[i] == "max_millicredits"@ { Some(v4) } else { member(m3, keys[i]) }
        &&& member(m3, keys[i]) == if keys[i] == "input"@ { Some(v3) } else { member(m2, keys[i]) }
        &&& member(m2, keys[i]) == if keys[i] == "model"@ { Some(v2) } else { member(m1, keys[i]) }
        &&& member(m1, keys[i]) == if keys[i] == "schema"@ { Some(v1) } else { member(no_members(), keys[i]) }
    } by {
        lemma_member_put(m5, "nonce"@, v6, keys[i]);
        lemma_member_put(m4, "payer"@, v5, keys[i]);
        lemma_member_put(m3, "max_millicredits"@, v4, keys[i]);
        lemma_member_put(m2, "input"@, v3, keys[i]);
        lemma_member_put(m1, "model"@, v2, keys[i]);
        lemma_member_put(no_members(), "schema"@, v1, keys[i]);
    }
    assert(keys[0] == "schema"@ && keys[1] == "model"@ && keys[2] == "input"@);
    assert(keys[3] == "max_millicredits"@ && keys[4] == "payer"@ && keys[5] == "nonce"@);
}

} // verus!
