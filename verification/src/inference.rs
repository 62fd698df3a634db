//! Inference support: the `KEELW001` weight-table format, and the result that the weight-table
//! runner reports. Weights are held as the bit patterns of little-endian `f64`s; turning them into
//! floats, and scoring, happen outside this library.

use crate::crypto::{sha256, sha256_of};
use crate::hexcodec::{hex_encode, hex_lower};
use crate::identity::ContentId;
use crate::job::{InputRef, JobResult, JobSpec, JobStatus};
use crate::json::canonical;
use crate::json::ToJson;
use crate::metering::{Millicredits, UsageMeter, Work};
use crate::text::concat_str;
use vstd::bytes::{
    lemma_auto_spec_u32_to_from_le_bytes, lemma_auto_spec_u64_to_from_le_bytes, spec_u32_from_le_bytes,
    spec_u32_to_le_bytes, spec_u64_from_le_bytes, spec_u64_to_le_bytes, u32_from_le_bytes, u32_to_le_bytes,
    u64_from_le_bytes, u64_to_le_bytes,
};
use vstd::prelude::*;
use vstd::slice::slice_subrange;

verus! {

/// Why inference failed.
#[derive(Debug)]
pub enum RunnerError {
    Msg(String),
    NoLlama,
}

impl RunnerError {
    /// The message of the error.
    pub fn message(&self) -> (r: String)
        ensures
            r@ == match self {
                RunnerError::Msg(m) => m@,
                RunnerError::NoLlama => "llama-cli not configured (set KEEL_LLAMA_CLI)"@,
            },
    {
        match self {
            RunnerError::Msg(m) => m.clone(),
            RunnerError::NoLlama => String::from_str("llama-cli not configured (set KEEL_LLAMA_CLI)"),
        }
    }
}

/// The magic bytes `KEELW001` that begin a weight table.
pub open spec fn weights_magic() -> Seq<u8> {
    seq![75u8, 69u8, 69u8, 76u8, 87u8, 48u8, 48u8, 49u8]
}

/// Each weight as its 8 little-endian bytes, in order.
pub open spec fn words_bytes(w: Seq<u64>) -> Seq<u8>
    decreases w.len(),
{
    if w.len() == 0 {
        Seq::empty()
    } else {
        words_bytes(w.drop_last()) + spec_u64_to_le_bytes(w.last())
    }
}

/// A weight table: the magic, the count as a little-endian `u32` (truncated to 32 bits), then
/// the weights.
pub open spec fn encoded_weights(w: Seq<u64>) -> Seq<u8> {
    weights_magic() + spec_u32_to_le_bytes((w.len() % 0x1_0000_0000) as u32) + words_bytes(w)
}

/// What reading a weight table gives: the weights, or the error text.
pub open spec fn decoded_weights(b: Seq<u8>) -> Result<Seq<u64>, Seq<char>> {
    if b.len() < 12 || b.take(8) != weights_magic() {
        Err("not a KEELW001 weight blob"@)
    } else {
        let n = spec_u32_from_le_bytes(b.subrange(8, 12)) as int;
        if b.len() < 12 + 8 * n {
            Err("truncated weights"@)
        } else {
            Ok(Seq::new(n as nat, |i: int| spec_u64_from_le_bytes(b.subrange(12 + 8 * i, 20 + 8 * i))))
        }
    }
}

proof fn lemma_words_bytes(w: Seq<u64>)
    ensures
        words_bytes(w).len() == 8 * w.len(),
        forall|i: int| 0 <= i < w.len() ==> #[trigger] words_bytes(w).subrange(8 * i, 8 * i + 8) == spec_u64_to_le_bytes(w[i]),
    decreases w.len(),
{
    lemma_auto_spec_u64_to_from_le_bytes();
    if w.len() > 0 {
        let t = w.drop_last();
        lemma_words_bytes(t);
        let b = words_bytes(w);
        assert forall|i: int| 0 <= i < w.len() implies #[trigger] words_bytes(w).subrange(8 * i, 8 * i + 8) == spec_u64_to_le_bytes(w[i]) by {
            if i < w.len() - 1 {
                assert(b.subrange(8 * i, 8 * i + 8) =~= words_bytes(t).subrange(8 * i, 8 * i + 8));
                assert(t[i] == w[i]);
            } else {
                assert(b.subrange(8 * i, 8 * i + 8) =~= spec_u64_to_le_bytes(w.last()));
            }
        }
    }
}

/// Writes a weight table.
pub fn encode_weights(weights: &[u64]) -> (r: Vec<u8>)
    ensures
        r@ == encoded_weights(weights@),
{
    let mut out: Vec<u8> = Vec::new();
    out.push(75);
    out.push(69);
    out.push(69);
    out.push(76);
    out.push(87);
    out.push(48);
    out.push(48);
    out.push(49);
    let n = weights.len();
    let count: u32 = ((n as u64) % 0x1_0000_0000) as u32;
    let mut c = u32_to_le_bytes(count);
    out.append(&mut c);
    let ghost head = out@;
    assert(words_bytes(weights@.take(0)) =~= Seq::<u8>::empty());
    for i in 0..n
        invariant
            n == weights@.len(),
            out@ == head + words_bytes(weights@.take(i as int)),
    {
        let mut b = u64_to_le_bytes(weights[i]);
        out.append(&mut b);
        assert(weights@.take(i + 1).drop_last() =~= weights@.take(i as int));
        assert(out@ =~= head + words_bytes(weights@.take(i + 1)));
    }
    assert(weights@.take(n as int) =~= weights@);
    assert(out@ =~= encoded_weights(weights@));
    out
}

/// Reads a weight table.
pub fn decode_weights(bytes: &[u8]) -> (r: Result<Vec<u64>, RunnerError>)
    ensures
        match r {
            Ok(w) => decoded_weights(bytes@) == Ok::<Seq<u64>, Seq<char>>(w@),
            Err(e) => e matches RunnerError::Msg(m) && decoded_weights(bytes@) == Err::<Seq<u64>, Seq<char>>(m@),
        },
{
    let ghost b = bytes@;
    if bytes.len() < 12 || !(bytes[0] == 75 && bytes[1] == 69 && bytes[2] == 69 && bytes[3] == 76 && bytes[4] == 87
        && bytes[5] == 48 && bytes[6] == 48 && bytes[7] == 49) {
        proof {
            if b.len() >= 12 {
                if b.take(8) == weights_magic() {
                    assert(b[0] == b.take(8)[0] && b[1] == b.take(8)[1] && b[2] == b.take(8)[2] && b[3] == b.take(8)[3]);
                    assert(b[4] == b.take(8)[4] && b[5] == b.take(8)[5] && b[6] == b.take(8)[6] && b[7] == b.take(8)[7]);
                }
            }
        }
        return Err(RunnerError::Msg(String::from_str("not a KEELW001 weight blob")));
    }
    assert(b.take(8) =~= weights_magic());
    let n = u32_from_le_bytes(slice_subrange(bytes, 8, 12));
    let need: u64 = 12 + (n as u64) * 8;
    if (bytes.len() as u64) < need {
        return Err(RunnerError::Msg(String::from_str("truncated weights")));
    }
    let mut w: Vec<u64> = Vec::new();
    for i in 0..n as usize
        invariant
            b == bytes@,
            n == spec_u32_from_le_bytes(b.subrange(8, 12)),
            b.len() >= 12 + 8 * n,
            w@.len() == i,
            forall|j: int| 0 <= j < i ==> #[trigger] w@[j] == spec_u64_from_le_bytes(b.subrange(12 + 8 * j, 20 + 8 * j)),
    {
        assert(12 + 8 * i + 8 <= b.len());
        assert(b.len() == bytes.len());
        let start = 12 + i * 8;
        let x = u64_from_le_bytes(slice_subrange(bytes, start, start + 8));
        w.push(x);
    }
    assert(w@ =~= Seq::new(n as nat, |i: int| spec_u64_from_le_bytes(b.subrange(12 + 8 * i, 20 + 8 * i))));
    Ok(w)
}

/// Reading back a written weight table gives the weights (for fewer than 2^32 weights, whose
/// count fits the table's 32-bit field).
pub proof fn law_weights_roundtrip(w: Seq<u64>)
    requires
        w.len() < 0x1_0000_0000,
    ensures
        decoded_weights(encoded_weights(w)) == Ok::<Seq<u64>, Seq<char>>(w),
{
    lemma_auto_spec_u32_to_from_le_bytes();
    lemma_auto_spec_u64_to_from_le_bytes();
    lemma_words_bytes(w);
    let b = encoded_weights(w);
    let cb = spec_u32_to_le_bytes((w.len() % 0x1_0000_0000) as u32);
    assert(b.take(8) =~= weights_magic());
    assert(b.subrange(8, 12) =~= cb);
    let n = spec_u32_from_le_bytes(b.subrange(8, 12)) as int;
    assert(n == w.len());
    let d = Seq::new(n as nat, |i: int| spec_u64_from_le_bytes(b.subrange(12 + 8 * i, 20 + 8 * i)));
    assert forall|i: int| 0 <= i < n implies #[trigger] d[i] == w[i] by {
        assert(b.subrange(12 + 8 * i, 20 + 8 * i) =~= words_bytes(w).subrange(8 * i, 8 * i + 8));
    }
    assert(d =~= w);
}

/// The first four bytes of the SHA-256 of `bytes`, in hex.
pub fn sha256_prefix(bytes: &[u8]) -> (r: String)
    ensures
        r@ == hex_lower(sha256_of(bytes@).take(4)),
{
    let d = sha256(bytes);
    let head = slice_subrange(d.as_slice(), 0, 4);
    hex_encode(head)
}

/// The result that the weight-table runner reports for a job, given the text of its score: a
/// succeeded job whose output is `cid-weights:<score>` and whose bill is the input length,
/// capped by the spec's maximum and at least 1.
pub fn cid_weights_result(spec: &JobSpec, score_text: &str, input_len: usize) -> (r: Result<JobResult, RunnerError>)
    ensures
        r matches Ok(res) && {
            &&& res.job_id.0@ == sha256_of(canonical(spec.json()))
            &&& res.status == JobStatus::Succeeded
            &&& res.output matches InputRef::Inline { text } && text@ == "cid-weights:"@ + score_text@
            &&& res.meter.job_id == res.job_id
            &&& res.meter.work is Job
            &&& res.meter.billed.0 == weights_bill(spec.max_millicredits.0 as int, input_len as int)
        },
{
    let job_id = match spec.job_id() {
        Ok(id) => id,
        Err(e) => {
            return Err(RunnerError::Msg(e.message()));
        },
    };
    let len: i64 = if input_len as u64 > i64::MAX as u64 {
        i64::MAX
    } else {
        input_len as i64
    };
    let capped = if spec.max_millicredits.0 < len {
        spec.max_millicredits.0
    } else {
        len
    };
    let billed = if capped < 1 {
        1
    } else {
        capped
    };
    Ok(JobResult {
        job_id,
        status: JobStatus::Succeeded,
        output: InputRef::Inline { text: concat_str("cid-weights:", score_text) },
        meter: UsageMeter { job_id, work: Work::Job, billed: Millicredits(billed) },
    })
}

/// The weight-table runner's bill: the input length (as an `i64`), capped by the maximum, and at
/// least 1.
pub open spec fn weights_bill(max: int, input_len: int) -> int {
    let len = if input_len > i64::MAX { i64::MAX as int } else { input_len };
    let capped = if max < len { max } else { len };
    if capped < 1 { 1 } else { capped }
}


/// The runner that scores prompts with a `KEELW001` weight table.
#[derive(Clone, Copy, Debug)]
pub struct CidWeightsRunner;

impl CidWeightsRunner {
    /// The runner's name.
    pub fn name(&self) -> (r: &'static str)
        ensures
            r@ == "cid-weights"@,
    {
        "cid-weights"
    }
}

/// The operator's runner: the `llama-cli` program at `bin`.
#[derive(Clone, Debug)]
pub struct LlamaCppRunner {
    pub bin: String,
}

impl LlamaCppRunner {
    /// The runner's name.
    pub fn name(&self) -> (r: &'static str)
        ensures
            r@ == "llama.cpp"@,
    {
        "llama.cpp"
    }

    /// The runner that the program setting (`KEEL_LLAMA_CLI`) names, where it is set and not
    /// empty.
    pub fn from_env(setting: Option<String>) -> (r: Option<Self>)
        ensures
            (setting matches Some(s) && s@.len() > 0) ==> (r matches Some(l) && setting matches Some(s) && l.bin@ == s@),
            !(setting matches Some(s) && s@.len() > 0) ==> r is None,
    {
        match setting {
            Some(s) => {
                if s.unicode_len() > 0 {
                    Some(LlamaCppRunner { bin: s })
                } else {
                    None
                }
            },
            None => None,
        }
    }

    /// The name of the directory a model is unpacked into: `keel-llama-` and the hex of the first
    /// eight bytes of its SHA-256.
    pub fn model_dir_name(model_bytes: &[u8]) -> (r: String)
        ensures
            r@ == "keel-llama-"@ + hex_lower(sha256_of(model_bytes@).take(8)),
    {
        let cid = ContentId::of_bytes(model_bytes);
        let head = slice_subrange(cid.0.as_slice(), 0, 8);
        concat_str("keel-llama-", hex_encode(head).as_str())
    }

    /// The result of a finished run: an error with the program's error output where it failed,
    /// else a succeeded job whose output is the program's (trimmed) output, billed 1.
    pub fn run_result(spec: &JobSpec, success: bool, stdout_text: &str, stderr_text: &str) -> (r: Result<JobResult, RunnerError>)
        ensures
            !success ==> (r matches Err(RunnerError::Msg(m)) && m@ == stderr_text@),
            success ==> (r matches Ok(res) && {
                &&& res.job_id.0@ == sha256_of(canonical(spec.json()))
                &&& res.status == JobStatus::Succeeded
                &&& res.output matches InputRef::Inline { text } && text@ == stdout_text@
                &&& res.meter.job_id == res.job_id
                &&& res.meter.work is Job
                &&& res.meter.billed.0 == 1
            }),
    {
        if !success {
            return Err(RunnerError::Msg(stderr_text.to_owned()));
        }
        let job_id = match spec.job_id() {
            Ok(id) => id,
            Err(e) => {
                return Err(RunnerError::Msg(e.message()));
            },
        };
        Ok(JobResult {
            job_id,
            status: JobStatus::Succeeded,
            output: InputRef::Inline { text: stdout_text.to_owned() },
            meter: UsageMeter { job_id, work: Work::Job, billed: Millicredits(1) },
        })
    }
}

/// The runner a node uses.
#[derive(Clone, Debug)]
pub enum Runner {
    Llama(LlamaCppRunner),
    CidWeights(CidWeightsRunner),
}

impl Runner {
    /// The runner's name.
    pub fn name(&self) -> (r: &'static str)
        ensures
            r@ == match self {
                Runner::Llama(_) => "llama.cpp"@,
                Runner::CidWeights(_) => "cid-weights"@,
            },
    {
        match self {
            Runner::Llama(l) => l.name(),
            Runner::CidWeights(c) => c.name(),
        }
    }
}

/// The runner a node uses: `llama-cli` where the program setting names one, else the weight-table
/// runner.
pub fn default_runner(llama_setting: Option<String>) -> (r: Runner)
    ensures
        (llama_setting matches Some(s) && s@.len() > 0) ==> (r matches Runner::Llama(l) && llama_setting matches Some(s) && l.bin@ == s@),
        !(llama_setting matches Some(s) && s@.len() > 0) ==> r is CidWeights,
{
    match LlamaCppRunner::from_env(llama_setting) {
        Some(l) => Runner::Llama(l),
        None => Runner::CidWeights(CidWeightsRunner),
    }
}

} // verus!
