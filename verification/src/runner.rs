//! The phase pipeline: one request, one sandbox, phases run in order until
//! the first failure.
//!
//! The runner's decisions are all here — decoding the file bundle, merging
//! request-level settings into each phase, assembling per-phase results, and
//! the short-circuit rule — while the sandbox commands themselves run
//! outside the library.

use vstd::prelude::*;
use crate::api_error::ApiError;
use crate::bytes::{ascii_bytes, dec_digits, opt_bytes, push_all, str_bytes, u64_to_dec};
use crate::isolate::{Isolate, IsolatedBox, IsolatedExecutedCommandResult};
use crate::metadata::{IsolateMetadata, SpecMetadata};
use crate::options::{
    copy_bytes, copy_env, env_entries, merge_environment, merged_env, PhaseRunSettings,
    PhaseSettings,
};
use crate::run_request::RunBodyDTO;

verus! {

/// One phase's outcome as returned to the client.
#[derive(Debug, Clone)]
pub struct RunnerPhaseResult {
    pub name: Option<Vec<u8>>,
    pub status: i32,
    pub stdout: Vec<u8>,
    pub stderr: Vec<u8>,
    pub metadata: IsolateMetadata,
}

/// The response of a whole request: the results of the phases that ran.
#[derive(Debug)]
pub struct RunResponseDTO {
    pub phases: Vec<RunnerPhaseResult>,
}

/// What `base64::decode` returns: `Some` with the decoded bytes exactly when
/// the input is well-formed base64, a function of the input alone.
pub uninterp spec fn base64_decoded(s: Seq<u8>) -> Option<Seq<u8>>;

/// Relies on `base64::decode`: standard alphabet with padding; the outcome
/// depends on the input bytes alone.
#[verifier::external_body]
fn base64_decode(input: &[u8]) -> (r: Result<Vec<u8>, Vec<u8>>)
    ensures
        match base64_decoded(input@) {
            Some(b) => r is Ok && r->Ok_0@ == b,
            None => r is Err,
        },
{
    match base64::decode(input) {
        Ok(v) => Ok(v),
        Err(e) => Err(format!("{}", e).into_bytes()),
    }
}

/// How a rejected file bundle's message begins.
pub open spec fn decode_error_prefix() -> Seq<u8> {
    ascii_bytes("Error while reading files: "@)
}

/// Decodes the request's base64 file bundle; a malformed bundle is rejected
/// with a message carrying the decoder's text.
pub fn decode_files(files: &[u8]) -> (r: Result<Vec<u8>, ApiError>)
    ensures
        match base64_decoded(files@) {
            Some(b) => r is Ok && r->Ok_0@ == b,
            None => r is Err && r->Err_0.status == 400 && r->Err_0.message@.len()
                >= decode_error_prefix().len() && r->Err_0.message@.subrange(
                0,
                decode_error_prefix().len() as int,
            ) == decode_error_prefix(),
        },
{
    proof {
        reveal_strlit("Error while reading files: ");
    }
    match base64_decode(files) {
        Ok(v) => Ok(v),
        Err(e) => {
            let mut message = str_bytes("Error while reading files: ");
            push_all(&mut message, e.as_slice());
            proof {
                assert(message@.subrange(0, decode_error_prefix().len() as int)
                    =~= decode_error_prefix());
            }
            Err(ApiError::bad_request(message))
        },
    }
}

/// Where the file bundle is uploaded inside the box.
pub fn files_zip_path() -> (r: Vec<u8>)
    ensures
        r@ == ascii_bytes("/box/files.zip"@),
{
    proof {
        reveal_strlit("/box/files.zip");
    }
    str_bytes("/box/files.zip")
}

/// The fixed setup script: extract the bundle without overwriting anything,
/// then delete the archive.
pub fn unzip_script() -> (r: Vec<u8>)
    ensures
        r@ == ascii_bytes("/usr/bin/unzip -n -qq /box/files.zip && /bin/rm /box/files.zip"@),
{
    proof {
        reveal_strlit("/usr/bin/unzip -n -qq /box/files.zip && /bin/rm /box/files.zip");
    }
    str_bytes("/usr/bin/unzip -n -qq /box/files.zip && /bin/rm /box/files.zip")
}

/// Judges the setup execution: a non-zero unzip is the client's fault and is
/// rejected with the extractor's diagnostics.
pub fn unzip_outcome(status: i32, stderr: &[u8]) -> (r: Result<(), ApiError>)
    ensures
        r is Ok <==> status == 0,
        r is Err ==> r->Err_0.status == 400 && r->Err_0.message@ == ascii_bytes(
            "Error while unzipping files: "@,
        ) + stderr@,
{
    proof {
        reveal_strlit("Error while unzipping files: ");
    }
    if status == 0 {
        Ok(())
    } else {
        let mut message = str_bytes("Error while unzipping files: ");
        push_all(&mut message, stderr);
        Err(ApiError::bad_request(message))
    }
}

/// The phase-shaped result a driver failure turns into: status 1, empty
/// stdout, the error text as stderr, and an empty metadata record.
pub fn driver_error_result(message: &[u8]) -> (r: IsolatedExecutedCommandResult)
    ensures
        r.status == 1,
        r.stdout@ == Seq::<u8>::empty(),
        r.stderr@ == message@,
        r.metadata@ == SpecMetadata::spec_empty(),
{
    let stderr = crate::bytes::sub_bytes(message, 0, message.len());
    proof {
        assert(stderr@ =~= message@);
    }
    IsolatedExecutedCommandResult {
        status: 1,
        stdout: Vec::new(),
        stderr,
        metadata: IsolateMetadata::default(),
    }
}

/// The phase to actually run at `index`: the name defaulted to the phase's
/// index, and the request-level environment and limits merged in, with the
/// phase winning every collision.
pub fn prepare_phase(body: &RunBodyDTO, index: usize) -> (r: PhaseSettings)
    requires
        index < body.phases@.len(),
    ensures
        ({
            let phase = body.phases@[index as int];
            &&& opt_bytes(r.name) == (match phase.name {
                Some(n) => Some(n@),
                None => Some(dec_digits(index as nat)),
            })
            &&& r.script@ == phase.script@
            &&& (match (phase.environment, body.environment) {
                (Some(p), Some(q)) => (r.environment matches Some(e) && env_entries(e@)
                    == merged_env(env_entries(p@), env_entries(q@))),
                (None, Some(q)) => (r.environment matches Some(e) && env_entries(e@)
                    == env_entries(q@)),
                (Some(p), None) => (r.environment matches Some(e) && env_entries(e@)
                    == env_entries(p@)),
                (None, None) => r.environment is None,
            })
            &&& r.sandbox_settings == (match (phase.sandbox_settings, body.sandbox_settings) {
                (Some(ps), Some(bs)) => Some(PhaseRunSettings::spec_merged(ps, bs)),
                (None, Some(bs)) => Some(bs),
                (Some(ps), None) => Some(ps),
                (None, None) => None::<PhaseRunSettings>,
            })
            &&& r.profiling == phase.profiling
        }),
{
    let phase = &body.phases[index];
    let name = match &phase.name {
        Some(n) => copy_bytes(n),
        None => u64_to_dec(index as u64),
    };
    let script = copy_bytes(&phase.script);
    let environment = match (&phase.environment, &body.environment) {
        (Some(p), Some(q)) => Some(merge_environment(p, q)),
        (None, Some(q)) => Some(copy_env(q)),
        (Some(p), None) => Some(copy_env(p)),
        (None, None) => None,
    };
    let sandbox_settings = match (&phase.sandbox_settings, &body.sandbox_settings) {
        (Some(ps), Some(bs)) => {
            let mut merged = ps.duplicate();
            merged.merge(bs);
            Some(merged)
        },
        (None, Some(bs)) => Some(bs.duplicate()),
        (Some(ps), None) => Some(ps.duplicate()),
        (None, None) => None,
    };
    PhaseSettings {
        name: Some(name),
        script,
        environment,
        sandbox_settings,
        profiling: phase.profiling,
    }
}

/// Orchestrates a request's phases against the box registry.
pub struct Runner {
    pub isolate: Isolate,
}

impl Runner {
    /// A runner with an empty registry.
    pub fn new() -> (r: Runner)
        ensures
            r.isolate.boxes@ == Map::<u32, IsolatedBox>::empty(),
    {
        Runner { isolate: Isolate::new() }
    }

    /// Looks up the box a phase should run in; an unknown id is an internal
    /// error naming it.
    pub fn get_isolated_box(&self, isolated_box_id: u32) -> (r: Result<&IsolatedBox, ApiError>)
        ensures
            match r {
                Ok(b) => self.isolate.boxes@.contains_key(isolated_box_id) && *b
                    == self.isolate.boxes@[isolated_box_id],
                Err(e) => !self.isolate.boxes@.contains_key(isolated_box_id) && e.status == 500
                    && e.message@ == ascii_bytes("Unknown isolated box ID: "@) + dec_digits(
                    isolated_box_id as nat,
                ),
            },
    {
        proof {
            reveal_strlit("Unknown isolated box ID: ");
        }
        match self.isolate.get_box(isolated_box_id) {
            Some(b) => Ok(b),
            None => {
                let mut message = str_bytes("Unknown isolated box ID: ");
                let digits = u64_to_dec(isolated_box_id as u64);
                push_all(&mut message, digits.as_slice());
                Err(ApiError::internal_server_error(message))
            },
        }
    }

    /// Shapes one finished execution into the client-facing phase result.
    pub fn run_phase_result(
        settings: &PhaseSettings,
        result: IsolatedExecutedCommandResult,
    ) -> (r: RunnerPhaseResult)
        ensures
            opt_bytes(r.name) == opt_bytes(settings.name),
            r.status == result.status,
            r.stdout == result.stdout,
            r.stderr == result.stderr,
            r.metadata == result.metadata,
    {
        let name = match &settings.name {
            Some(n) => Some(copy_bytes(n)),
            None => None,
        };
        RunnerPhaseResult {
            name,
            status: result.status,
            stdout: result.stdout,
            stderr: result.stderr,
            metadata: result.metadata,
        }
    }
}

/// Index of the first phase whose status is non-zero.
pub open spec fn first_failure(statuses: Seq<i32>) -> Option<int>
    decreases statuses.len(),
{
    if statuses.len() == 0 {
        None
    } else if statuses[0] != 0 {
        Some(0)
    } else {
        match first_failure(statuses.drop_first()) {
            Some(k) => Some(k + 1),
            None => None,
        }
    }
}

/// How many phases the pipeline executes when phase `i` would report
/// `statuses[i]`: everything up to and including the first failure, or all
/// of them.
pub open spec fn executed_count(statuses: Seq<i32>) -> int {
    match first_failure(statuses) {
        Some(k) => k + 1,
        None => statuses.len() as int,
    }
}

/// The statuses the response carries: the executed prefix of what the
/// phases would report.
pub open spec fn pipeline_statuses(statuses: Seq<i32>) -> Seq<i32> {
    match first_failure(statuses) {
        Some(k) => statuses.subrange(0, k + 1),
        None => statuses,
    }
}

/// The pipeline's continuation rule: go on exactly after a clean exit.
pub fn should_continue(status: i32) -> (r: bool)
    ensures
        r <==> status == 0,
{
    status == 0
}

pub proof fn lemma_first_failure(statuses: Seq<i32>)
    ensures
        match first_failure(statuses) {
            Some(k) => 0 <= k < statuses.len() && statuses[k] != 0 && forall|j: int|
                0 <= j < k ==> statuses[j] == 0,
            None => forall|j: int| 0 <= j < statuses.len() ==> statuses[j] == 0,
        },
    decreases statuses.len(),
{
    if statuses.len() > 0 && statuses[0] == 0 {
        lemma_first_failure(statuses.drop_first());
        match first_failure(statuses.drop_first()) {
            Some(k) => {
                assert(statuses[k + 1] == statuses.drop_first()[k]);
                assert forall|j: int| 0 <= j < k + 1 implies statuses[j] == 0 by {
                    if j > 0 {
                        assert(statuses.drop_first()[j - 1] == 0);
                    }
                }
            },
            None => {
                assert forall|j: int| 0 <= j < statuses.len() implies statuses[j] == 0 by {
                    if j > 0 {
                        assert(statuses.drop_first()[j - 1] == 0);
                    }
                }
            },
        }
    }
}

/// When every phase exits cleanly, the pipeline executes all of them: the
/// response carries one result per phase, in request order, each clean.
pub proof fn lemma_phase_sequencing(statuses: Seq<i32>)
    requires
        forall|i: int| 0 <= i < statuses.len() ==> statuses[i] == 0,
    ensures
        executed_count(statuses) == statuses.len(),
        pipeline_statuses(statuses) == statuses,
{
    lemma_first_failure(statuses);
    match first_failure(statuses) {
        Some(k) => {
            assert(statuses[k] == 0);
        },
        None => {},
    }
}

/// When phase `k` is the first to fail, the pipeline executes exactly the
/// phases up to and including `k`: the response carries `k + 1` results and
/// the later phases never run.
pub proof fn lemma_short_circuit(statuses: Seq<i32>, k: int)
    requires
        0 <= k < statuses.len(),
        statuses[k] != 0,
        forall|j: int| 0 <= j < k ==> statuses[j] == 0,
    ensures
        executed_count(statuses) == k + 1,
        pipeline_statuses(statuses) == statuses.subrange(0, k + 1),
{
    lemma_first_failure(statuses);
    match first_failure(statuses) {
        Some(f) => {
            if f < k {
                assert(statuses[f] == 0);
            }
            if f > k {
                assert(statuses[k] == 0);
            }
        },
        None => {
            assert(statuses[k] == 0);
        },
    }
}

} // verus!
