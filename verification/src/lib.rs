//! Verified core of a sandboxed code-runner service.
//!
//! The library holds the logic of the service: building the argument vectors
//! handed to the `isolate` sandbox utility, parsing its metadata reports,
//! merging request- and phase-level settings, validating requests against the
//! operator policy, and the per-request sandbox lifecycle.  All input/output
//! (process spawning, the filesystem, HTTP) lives outside the library and
//! exchanges plain values with it.

pub mod api_error;
pub mod bytes;
pub mod isolate;
pub mod metadata;
pub mod options;
pub mod policy;
pub mod run_request;
pub mod runner;
pub mod session;
