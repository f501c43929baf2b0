//! Operator policy: limit ceilings and feature flags, derived from the
//! process environment.
//!
//! Reading the environment happens outside the library; the raw values come
//! in as optional byte strings and are resolved here.

use vstd::prelude::*;
use crate::bytes::{
    ascii_bytes, ascii_lower, dec_value, nonempty_digits, opt_bytes, parse_u64, str_bytes,
    to_ascii_lower, bytes_eq,
};

verus! {

/// What a raw ceiling variable resolves to: `-1`, an absent value, or an
/// unparseable one all mean `default`.
pub open spec fn spec_resolved_limit(raw: Option<Seq<u8>>, default: u64) -> u64 {
    match raw {
        None => default,
        Some(s) => if s == ascii_bytes("-1"@) {
            default
        } else if nonempty_digits(s) && dec_value(s) <= u64::MAX {
            dec_value(s) as u64
        } else {
            default
        },
    }
}

/// Whether a raw `ALLOW_PROFILING` value allows profiling: yes when absent,
/// or when it case-insensitively reads `true` or `yes`.
pub open spec fn spec_profiling_allowed(raw: Option<Seq<u8>>) -> bool {
    match raw {
        None => true,
        Some(s) => ascii_lower(s) == ascii_bytes("true"@) || ascii_lower(s) == ascii_bytes("yes"@),
    }
}

/// What a raw `API_MAX_PAYLOAD_SIZE` value resolves to.
pub open spec fn spec_payload_limit(raw: Option<Seq<u8>>) -> u64 {
    match raw {
        None => 32768,
        Some(s) => if nonempty_digits(s) && dec_value(s) <= u64::MAX {
            dec_value(s) as u64
        } else {
            32768
        },
    }
}

/// Resolves one ceiling variable.
pub fn resolved_limit(raw: Option<Vec<u8>>, default: u64) -> (r: u64)
    ensures
        r == spec_resolved_limit(opt_bytes(raw), default),
{
    proof {
        reveal_strlit("-1");
    }
    match raw {
        None => default,
        Some(s) => {
            if bytes_eq(s.as_slice(), str_bytes("-1").as_slice()) {
                default
            } else {
                match parse_u64(s.as_slice()) {
                    Some(v) => v,
                    None => default,
                }
            }
        },
    }
}

/// Resolves a raw `ALLOW_PROFILING` value.
pub fn profiling_allowed(raw: Option<Vec<u8>>) -> (r: bool)
    ensures
        r == spec_profiling_allowed(opt_bytes(raw)),
{
    proof {
        reveal_strlit("true");
        reveal_strlit("yes");
    }
    match raw {
        None => true,
        Some(s) => {
            let lower = to_ascii_lower(s.as_slice());
            bytes_eq(lower.as_slice(), str_bytes("true").as_slice()) || bytes_eq(
                lower.as_slice(),
                str_bytes("yes").as_slice(),
            )
        },
    }
}

/// Resolves a raw `API_MAX_PAYLOAD_SIZE` value.
pub fn payload_limit(raw: Option<Vec<u8>>) -> (r: u64)
    ensures
        r == spec_payload_limit(opt_bytes(raw)),
{
    match raw {
        None => 32768,
        Some(s) => {
            match parse_u64(s.as_slice()) {
                Some(v) => v,
                None => 32768,
            }
        },
    }
}

/// The operator policy in force for one request: seven limit ceilings (an
/// absent cap is the largest `u64`), the profiling gate, and the payload
/// size cap.
#[derive(Debug, Clone)]
pub struct Policy {
    pub max_run_time_limit: u64,
    pub max_extra_time_limit: u64,
    pub max_wall_time_limit: u64,
    pub max_stack_size_limit: u64,
    pub max_process_count_limit: u64,
    pub max_memory_limit: u64,
    pub max_storage_limit: u64,
    pub allow_profiling: bool,
    pub max_payload_size: u64,
}

impl Policy {
    /// Builds the policy from the raw values of its nine environment
    /// variables, in the order the fields are declared.
    pub fn resolve(
        run_time: Option<Vec<u8>>,
        extra_time: Option<Vec<u8>>,
        wall_time: Option<Vec<u8>>,
        stack_size: Option<Vec<u8>>,
        process_count: Option<Vec<u8>>,
        memory: Option<Vec<u8>>,
        storage: Option<Vec<u8>>,
        profiling: Option<Vec<u8>>,
        payload: Option<Vec<u8>>,
    ) -> (r: Policy)
        ensures
            r.max_run_time_limit == spec_resolved_limit(opt_bytes(run_time), u64::MAX),
            r.max_extra_time_limit == spec_resolved_limit(opt_bytes(extra_time), u64::MAX),
            r.max_wall_time_limit == spec_resolved_limit(opt_bytes(wall_time), u64::MAX),
            r.max_stack_size_limit == spec_resolved_limit(opt_bytes(stack_size), u64::MAX),
            r.max_process_count_limit == spec_resolved_limit(opt_bytes(process_count), u64::MAX),
            r.max_memory_limit == spec_resolved_limit(opt_bytes(memory), u64::MAX),
            r.max_storage_limit == spec_resolved_limit(opt_bytes(storage), u64::MAX),
            r.allow_profiling == spec_profiling_allowed(opt_bytes(profiling)),
            r.max_payload_size == spec_payload_limit(opt_bytes(payload)),
    {
        Policy {
            max_run_time_limit: resolved_limit(run_time, u64::MAX),
            max_extra_time_limit: resolved_limit(extra_time, u64::MAX),
            max_wall_time_limit: resolved_limit(wall_time, u64::MAX),
            max_stack_size_limit: resolved_limit(stack_size, u64::MAX),
            max_process_count_limit: resolved_limit(process_count, u64::MAX),
            max_memory_limit: resolved_limit(memory, u64::MAX),
            max_storage_limit: resolved_limit(storage, u64::MAX),
            allow_profiling: profiling_allowed(profiling),
            max_payload_size: payload_limit(payload),
        }
    }

    /// A policy with no caps, profiling allowed, and the default payload
    /// size: what an empty environment resolves to.
    pub fn permissive() -> (r: Policy)
        ensures
            r.max_run_time_limit == u64::MAX,
            r.max_extra_time_limit == u64::MAX,
            r.max_wall_time_limit == u64::MAX,
            r.max_stack_size_limit == u64::MAX,
            r.max_process_count_limit == u64::MAX,
            r.max_memory_limit == u64::MAX,
            r.max_storage_limit == u64::MAX,
            r.allow_profiling == true,
            r.max_payload_size == 32768,
    {
        Policy {
            max_run_time_limit: u64::MAX,
            max_extra_time_limit: u64::MAX,
            max_wall_time_limit: u64::MAX,
            max_stack_size_limit: u64::MAX,
            max_process_count_limit: u64::MAX,
            max_memory_limit: u64::MAX,
            max_storage_limit: u64::MAX,
            allow_profiling: true,
            max_payload_size: 32768,
        }
    }
}

} // verus!
