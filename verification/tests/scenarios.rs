//! Library-side walkthroughs of whole-request shapes: what the verified
//! core computes for a request, with the sandbox's side of each exchange
//! played back as fixed bytes.

use sandbox_runner::isolate::{IsolatedBox, IsolatedExecutedCommandResult};
use sandbox_runner::metadata::IsolateMetadata;
use sandbox_runner::options::{IsolatedBoxOptions, PhaseRunSettings, PhaseSettings};
use sandbox_runner::policy::Policy;
use sandbox_runner::run_request::{check_body, RunBodyDTO};
use sandbox_runner::runner::{decode_files, prepare_phase, should_continue, Runner};

fn phase(script: &[u8]) -> PhaseSettings {
    PhaseSettings {
        name: None,
        script: script.to_vec(),
        environment: None,
        sandbox_settings: None,
        profiling: None,
    }
}

fn body(phases: Vec<PhaseSettings>, files: Vec<u8>) -> RunBodyDTO {
    RunBodyDTO { phases, environment: None, sandbox_settings: None, files }
}

/// An `echo hi` phase over an empty archive: the bundle decodes, the phase
/// is named `0`, and a clean exit with `hi\n` captured comes back as
/// status 0.
#[test]
fn single_echo_phase() {
    let empty_zip: &[u8] = b"PK\x05\x06\0\0\0\0\0\0\0\0\0\0\0\0\0\0\0\0";
    let request = body(vec![phase(b"echo hi")], base64::encode(empty_zip).into_bytes());
    assert!(check_body(&request, &Policy::permissive()).is_ok());
    assert_eq!(decode_files(&request.files).unwrap(), empty_zip.to_vec());

    let settings = prepare_phase(&request, 0);
    assert_eq!(settings.name, Some(b"0".to_vec()));

    let metadata = IsolateMetadata::parse(b"time:0.001\ntime-wall:0.002\nexitcode:0\n").unwrap();
    let outcome =
        IsolatedExecutedCommandResult::assemble(0, b"hi\n".to_vec(), Vec::new(), metadata);
    let result = Runner::run_phase_result(&settings, outcome);
    assert_eq!(result.status, 0);
    assert_eq!(result.stdout, b"hi\n".to_vec());
    assert!(result.stderr.is_empty());
    assert_eq!(result.metadata.exit_code, Some(0));
    assert!(should_continue(result.status));
}

/// A compile phase followed by a run phase, both clean: two results in
/// request order, named `0` and `1`.
#[test]
fn compile_then_run() {
    let request = body(
        vec![phase(b"gcc /box/main.c -o /box/a.out"), phase(b"/box/a.out")],
        Vec::new(),
    );
    let mut results: Vec<i32> = Vec::new();
    let replies: [&[u8]; 2] = [b"exitcode:0\n", b"exitcode:0\n"];
    for i in 0..request.phases.len() {
        let settings = prepare_phase(&request, i);
        assert_eq!(settings.name, Some(if i == 0 { b"0".to_vec() } else { b"1".to_vec() }));
        let metadata = IsolateMetadata::parse(replies[i]).unwrap();
        let stdout = if i == 1 { b"42\n".to_vec() } else { Vec::new() };
        let outcome = IsolatedExecutedCommandResult::assemble(0, stdout, Vec::new(), metadata);
        let shaped = Runner::run_phase_result(&settings, outcome);
        results.push(shaped.status);
        if i == 1 {
            assert_eq!(shaped.stdout, b"42\n".to_vec());
        }
        if !should_continue(shaped.status) {
            break;
        }
    }
    assert_eq!(results, vec![0, 0]);
}

/// A phase held to one second of wall-clock time: the limit reaches the
/// sandbox command line, and the timeout report comes back as a failure.
#[test]
fn wall_clock_timeout() {
    let mut p = phase(b"sleep 30");
    p.sandbox_settings = Some(PhaseRunSettings {
        wall_time_limit: Some(1),
        ..Default::default()
    });
    let request = body(vec![p], Vec::new());
    let settings = prepare_phase(&request, 0);
    let options = IsolatedBoxOptions::from(settings);
    assert_eq!(options.wall_time_limit, 1);

    let b = IsolatedBox::new(3, b"/var/local/lib/isolate/3\n");
    let args = b.exec_args(&options, b"/box/.script-1.sh");
    assert!(args.contains(&b"-w 1".to_vec()));

    let metadata =
        IsolateMetadata::parse(b"time:0.002\ntime-wall:1.046\nstatus:TO\n").unwrap();
    let outcome = IsolatedExecutedCommandResult::assemble(1, Vec::new(), Vec::new(), metadata);
    assert_ne!(outcome.status, 0);
    assert_eq!(outcome.metadata.status, Some(b"TO".to_vec()));
    assert!(!should_continue(outcome.status));
}

/// A phase that exits 7 short-circuits the pipeline with status 7.
#[test]
fn nonzero_exit_short_circuits() {
    let request = body(vec![phase(b"exit 7"), phase(b"echo never")], Vec::new());
    let mut executed = 0;
    for i in 0..request.phases.len() {
        let settings = prepare_phase(&request, i);
        let metadata = IsolateMetadata::parse(b"exitcode:7\n").unwrap();
        let outcome = IsolatedExecutedCommandResult::assemble(1, Vec::new(), Vec::new(), metadata);
        let shaped = Runner::run_phase_result(&settings, outcome);
        executed += 1;
        assert_eq!(shaped.status, 7);
        if !should_continue(shaped.status) {
            break;
        }
    }
    assert_eq!(executed, 1);
}

/// A memory limit above the operator's ceiling is rejected before any
/// sandbox work, naming the violating field.
#[test]
fn memory_over_the_ceiling_is_rejected() {
    let mut policy = Policy::permissive();
    policy.max_memory_limit = 100000;
    let mut request = body(vec![phase(b"true")], Vec::new());
    request.sandbox_settings = Some(PhaseRunSettings {
        memory_limit: Some(500000),
        ..Default::default()
    });
    let err = check_body(&request, &policy).unwrap_err();
    assert_eq!(err.status, 400);
    assert_eq!(
        err.message,
        b"sandbox_settings.memory_limit: maximum allowed value is 100000".to_vec(),
    );
}
