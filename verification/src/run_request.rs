//! The request envelope and its validation against the operator policy.
//!
//! Validation walks the request in a fixed order — the request-level limits
//! field by field, then each phase (profiling gate first, then its limits) —
//! and reports the first violation with a message naming the offending
//! field and the ceiling.

use vstd::prelude::*;
use crate::api_error::ApiError;
use crate::bytes::{ascii_bytes, dec_digits, push_all, str_bytes, u64_to_dec};
use crate::options::{EnvList, PhaseRunSettings, PhaseSettings};
use crate::policy::Policy;

verus! {

/// A `POST /run` request: the phases to execute, request-level environment
/// and limits merged into every phase, and the base64-encoded ZIP of input
/// files.
#[derive(Debug)]
pub struct RunBodyDTO {
    pub phases: Vec<PhaseSettings>,
    pub environment: Option<EnvList>,
    pub sandbox_settings: Option<PhaseRunSettings>,
    pub files: Vec<u8>,
}

/// The JSON name of the `i`-th limit field, in declaration order.
pub open spec fn cap_field_name(i: int) -> Seq<u8> {
    if i == 0 {
        ascii_bytes("run_time_limit"@)
    } else if i == 1 {
        ascii_bytes("extra_time_limit"@)
    } else if i == 2 {
        ascii_bytes("wall_time_limit"@)
    } else if i == 3 {
        ascii_bytes("stack_size_limit"@)
    } else if i == 4 {
        ascii_bytes("process_count_limit"@)
    } else if i == 5 {
        ascii_bytes("memory_limit"@)
    } else {
        ascii_bytes("storage_limit"@)
    }
}

/// The `i`-th limit field of a partial settings record.
pub open spec fn cap_field(s: PhaseRunSettings, i: int) -> Option<u64> {
    if i == 0 {
        s.run_time_limit
    } else if i == 1 {
        s.extra_time_limit
    } else if i == 2 {
        s.wall_time_limit
    } else if i == 3 {
        s.stack_size_limit
    } else if i == 4 {
        s.process_count_limit
    } else if i == 5 {
        s.memory_limit
    } else {
        s.storage_limit
    }
}

/// The ceiling the policy sets for the `i`-th limit field.
pub open spec fn cap_ceiling(p: Policy, i: int) -> u64 {
    if i == 0 {
        p.max_run_time_limit
    } else if i == 1 {
        p.max_extra_time_limit
    } else if i == 2 {
        p.max_wall_time_limit
    } else if i == 3 {
        p.max_stack_size_limit
    } else if i == 4 {
        p.max_process_count_limit
    } else if i == 5 {
        p.max_memory_limit
    } else {
        p.max_storage_limit
    }
}

/// Whether the `i`-th field of `s` exceeds its ceiling.
pub open spec fn cap_exceeded(s: PhaseRunSettings, p: Policy, i: int) -> bool {
    match cap_field(s, i) {
        Some(v) => v > cap_ceiling(p, i),
        None => false,
    }
}

/// The first field at or after `i` that exceeds its ceiling.
pub open spec fn settings_violation_from(s: PhaseRunSettings, p: Policy, i: int) -> Option<int>
    decreases 7 - i,
{
    if i >= 7 {
        None
    } else if cap_exceeded(s, p, i) {
        Some(i)
    } else {
        settings_violation_from(s, p, i + 1)
    }
}

/// A reason to reject a request.
pub enum SpecViolation {
    /// A request-level limit exceeds its ceiling.
    RequestCap(int),
    /// A phase asks for profiling while the policy forbids it.
    PhaseProfiling(int),
    /// A phase-level limit exceeds its ceiling.
    PhaseCap(int, int),
}

/// The first violation in the phases at or after index `i`.
pub open spec fn phases_violation_from(
    phases: Seq<PhaseSettings>,
    p: Policy,
    i: int,
) -> Option<SpecViolation>
    decreases phases.len() - i,
{
    if i < 0 || i >= phases.len() {
        None
    } else {
        let phase = phases[i];
        if phase.profiling == Some(true) && !p.allow_profiling {
            Some(SpecViolation::PhaseProfiling(i))
        } else {
            match phase.sandbox_settings {
                Some(s) => match settings_violation_from(s, p, 0) {
                    Some(f) => Some(SpecViolation::PhaseCap(i, f)),
                    None => phases_violation_from(phases, p, i + 1),
                },
                None => phases_violation_from(phases, p, i + 1),
            }
        }
    }
}

/// The first violation in a whole request: request-level limits first, then
/// the phases in order.
pub open spec fn first_violation(
    phases: Seq<PhaseSettings>,
    request_settings: Option<PhaseRunSettings>,
    p: Policy,
) -> Option<SpecViolation> {
    match request_settings {
        Some(s) => match settings_violation_from(s, p, 0) {
            Some(f) => Some(SpecViolation::RequestCap(f)),
            None => phases_violation_from(phases, p, 0),
        },
        None => phases_violation_from(phases, p, 0),
    }
}

/// The message rejecting one limit field: the field's JSON path, then the
/// ceiling it exceeded.
pub open spec fn cap_error_message(prefix: Seq<u8>, field: int, p: Policy) -> Seq<u8> {
    prefix + cap_field_name(field) + ascii_bytes(": maximum allowed value is "@) + dec_digits(
        cap_ceiling(p, field) as nat,
    )
}

/// The message a violation is rejected with.
pub open spec fn violation_message(v: SpecViolation, p: Policy) -> Seq<u8> {
    match v {
        SpecViolation::RequestCap(f) => cap_error_message(ascii_bytes("sandbox_settings."@), f, p),
        SpecViolation::PhaseProfiling(_) => ascii_bytes("Profiling is not allowed"@),
        SpecViolation::PhaseCap(i, f) => cap_error_message(
            ascii_bytes("phases["@) + dec_digits(i as nat) + ascii_bytes("].sandbox_settings."@),
            f,
            p,
        ),
    }
}

/// Whether a user-requested limit exceeds a ceiling; an absent limit never
/// does.
pub fn is_over_cap_limit(current: Option<u64>, ceiling: u64) -> (r: bool)
    ensures
        r == (match current {
            Some(v) => v > ceiling,
            None => false,
        }),
{
    match current {
        Some(v) => v > ceiling,
        None => false,
    }
}

/// The first field of `s` that exceeds its ceiling.
fn settings_violation_exec(s: &PhaseRunSettings, p: &Policy) -> (r: Option<usize>)
    ensures
        match r {
            Some(f) => f < 7 && settings_violation_from(*s, *p, 0) == Some(f as int),
            None => settings_violation_from(*s, *p, 0) is None,
        },
{
    if is_over_cap_limit(s.run_time_limit, p.max_run_time_limit) {
        return Some(0);
    }
    proof {
        assert(settings_violation_from(*s, *p, 0) == settings_violation_from(*s, *p, 1));
    }
    if is_over_cap_limit(s.extra_time_limit, p.max_extra_time_limit) {
        return Some(1);
    }
    proof {
        assert(settings_violation_from(*s, *p, 1) == settings_violation_from(*s, *p, 2));
    }
    if is_over_cap_limit(s.wall_time_limit, p.max_wall_time_limit) {
        return Some(2);
    }
    proof {
        assert(settings_violation_from(*s, *p, 2) == settings_violation_from(*s, *p, 3));
    }
    if is_over_cap_limit(s.stack_size_limit, p.max_stack_size_limit) {
        return Some(3);
    }
    proof {
        assert(settings_violation_from(*s, *p, 3) == settings_violation_from(*s, *p, 4));
    }
    if is_over_cap_limit(s.process_count_limit, p.max_process_count_limit) {
        return Some(4);
    }
    proof {
        assert(settings_violation_from(*s, *p, 4) == settings_violation_from(*s, *p, 5));
    }
    if is_over_cap_limit(s.memory_limit, p.max_memory_limit) {
        return Some(5);
    }
    proof {
        assert(settings_violation_from(*s, *p, 5) == settings_violation_from(*s, *p, 6));
    }
    if is_over_cap_limit(s.storage_limit, p.max_storage_limit) {
        return Some(6);
    }
    proof {
        assert(settings_violation_from(*s, *p, 6) == settings_violation_from(*s, *p, 7));
    }
    None
}

/// The JSON name of limit field `field`.
fn cap_field_name_bytes(field: usize) -> (r: Vec<u8>)
    requires
        field < 7,
    ensures
        r@ == cap_field_name(field as int),
{
    proof {
        reveal_strlit("run_time_limit");
        reveal_strlit("extra_time_limit");
        reveal_strlit("wall_time_limit");
        reveal_strlit("stack_size_limit");
        reveal_strlit("process_count_limit");
        reveal_strlit("memory_limit");
        reveal_strlit("storage_limit");
    }
    if field == 0 {
        str_bytes("run_time_limit")
    } else if field == 1 {
        str_bytes("extra_time_limit")
    } else if field == 2 {
        str_bytes("wall_time_limit")
    } else if field == 3 {
        str_bytes("stack_size_limit")
    } else if field == 4 {
        str_bytes("process_count_limit")
    } else if field == 5 {
        str_bytes("memory_limit")
    } else {
        str_bytes("storage_limit")
    }
}

/// The ceiling for limit field `field`.
fn cap_ceiling_value(p: &Policy, field: usize) -> (r: u64)
    requires
        field < 7,
    ensures
        r == cap_ceiling(*p, field as int),
{
    if field == 0 {
        p.max_run_time_limit
    } else if field == 1 {
        p.max_extra_time_limit
    } else if field == 2 {
        p.max_wall_time_limit
    } else if field == 3 {
        p.max_stack_size_limit
    } else if field == 4 {
        p.max_process_count_limit
    } else if field == 5 {
        p.max_memory_limit
    } else {
        p.max_storage_limit
    }
}

/// Builds the rejection message for one limit field.
fn cap_error(prefix: Vec<u8>, field: usize, p: &Policy) -> (r: Vec<u8>)
    requires
        field < 7,
    ensures
        r@ == cap_error_message(prefix@, field as int, *p),
{
    proof {
        reveal_strlit(": maximum allowed value is ");
    }
    let mut r = prefix;
    let name = cap_field_name_bytes(field);
    push_all(&mut r, name.as_slice());
    let mid = str_bytes(": maximum allowed value is ");
    push_all(&mut r, mid.as_slice());
    let ceiling = u64_to_dec(cap_ceiling_value(p, field));
    push_all(&mut r, ceiling.as_slice());
    proof {
        assert(r@ =~= cap_error_message(prefix@, field as int, *p));
    }
    r
}

/// Validates a request against the policy: rejects the first limit that
/// exceeds its ceiling, naming its JSON path, and any profiling request the
/// policy forbids.
pub fn check_body(body: &RunBodyDTO, policy: &Policy) -> (r: Result<(), ApiError>)
    ensures
        match first_violation(body.phases@, body.sandbox_settings, *policy) {
            None => r is Ok,
            Some(v) => r is Err && r->Err_0.status == 400 && r->Err_0.message@
                == violation_message(v, *policy),
        },
{
    proof {
        reveal_strlit("sandbox_settings.");
        reveal_strlit("phases[");
        reveal_strlit("].sandbox_settings.");
        reveal_strlit("Profiling is not allowed");
    }
    if let Some(s) = &body.sandbox_settings {
        match settings_violation_exec(s, policy) {
            Some(f) => {
                let message = cap_error(str_bytes("sandbox_settings."), f, policy);
                return Err(ApiError::bad_request(message));
            },
            None => {},
        }
    }
    let n: usize = body.phases.len();
    let mut i: usize = 0;
    while i < n
        invariant
            i <= n,
            n == body.phases@.len(),
            phases_violation_from(body.phases@, *policy, 0) == phases_violation_from(
                body.phases@,
                *policy,
                i as int,
            ),
            match body.sandbox_settings {
                Some(s) => settings_violation_from(s, *policy, 0) is None,
                None => true,
            },
        decreases n - i,
    {
        proof {
            reveal_strlit("phases[");
            reveal_strlit("].sandbox_settings.");
            reveal_strlit("Profiling is not allowed");
        }
        let phase = &body.phases[i];
        let profiling_requested = match phase.profiling {
            Some(p) => p,
            None => false,
        };
        if profiling_requested && !policy.allow_profiling {
            return Err(ApiError::bad_request(str_bytes("Profiling is not allowed")));
        }
        if let Some(s) = &phase.sandbox_settings {
            match settings_violation_exec(s, policy) {
                Some(f) => {
                    let mut prefix = str_bytes("phases[");
                    let index = u64_to_dec(i as u64);
                    push_all(&mut prefix, index.as_slice());
                    let tail = str_bytes("].sandbox_settings.");
                    push_all(&mut prefix, tail.as_slice());
                    let message = cap_error(prefix, f, policy);
                    proof {
                        assert(message@ =~= violation_message(
                            SpecViolation::PhaseCap(i as int, f as int),
                            *policy,
                        ));
                    }
                    return Err(ApiError::bad_request(message));
                },
                None => {},
            }
        }
        proof {
            assert(phases_violation_from(body.phases@, *policy, i as int)
                == phases_violation_from(body.phases@, *policy, i + 1));
        }
        i = i + 1;
    }
    Ok(())
}

} // verus!
