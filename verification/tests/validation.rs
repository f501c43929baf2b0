use sandbox_runner::options::{PhaseRunSettings, PhaseSettings};
use sandbox_runner::policy::{payload_limit, profiling_allowed, resolved_limit, Policy};
use sandbox_runner::run_request::{check_body, is_over_cap_limit, RunBodyDTO};

fn phase(script: &[u8]) -> PhaseSettings {
    PhaseSettings {
        name: None,
        script: script.to_vec(),
        environment: None,
        sandbox_settings: None,
        profiling: None,
    }
}

fn body_with(phases: Vec<PhaseSettings>, sandbox_settings: Option<PhaseRunSettings>) -> RunBodyDTO {
    RunBodyDTO { phases, environment: None, sandbox_settings, files: Vec::new() }
}

#[test]
fn resolves_ceiling_variables() {
    assert_eq!(resolved_limit(None, u64::MAX), u64::MAX);
    assert_eq!(resolved_limit(Some(b"-1".to_vec()), u64::MAX), u64::MAX);
    assert_eq!(resolved_limit(Some(b"100000".to_vec()), u64::MAX), 100000);
    assert_eq!(resolved_limit(Some(b"junk".to_vec()), u64::MAX), u64::MAX);
    assert_eq!(resolved_limit(Some(b"18446744073709551616".to_vec()), 5), 5);
}

#[test]
fn resolves_the_profiling_gate() {
    assert!(profiling_allowed(None));
    assert!(profiling_allowed(Some(b"true".to_vec())));
    assert!(profiling_allowed(Some(b"TRUE".to_vec())));
    assert!(profiling_allowed(Some(b"Yes".to_vec())));
    assert!(!profiling_allowed(Some(b"false".to_vec())));
    assert!(!profiling_allowed(Some(b"1".to_vec())));
    assert!(!profiling_allowed(Some(b"".to_vec())));
}

#[test]
fn resolves_the_payload_cap() {
    assert_eq!(payload_limit(None), 32768);
    assert_eq!(payload_limit(Some(b"1000".to_vec())), 1000);
    assert_eq!(payload_limit(Some(b"junk".to_vec())), 32768);
}

#[test]
fn over_cap_needs_a_present_value() {
    assert!(is_over_cap_limit(Some(11), 10));
    assert!(!is_over_cap_limit(Some(10), 10));
    assert!(!is_over_cap_limit(None, 0));
}

#[test]
fn a_clean_request_passes() {
    let policy = Policy::permissive();
    let body = body_with(vec![phase(b"echo hi")], None);
    assert!(check_body(&body, &policy).is_ok());
}

#[test]
fn request_level_limit_over_the_ceiling_is_rejected() {
    let mut policy = Policy::permissive();
    policy.max_memory_limit = 100000;
    let body = body_with(
        vec![phase(b"echo hi")],
        Some(PhaseRunSettings { memory_limit: Some(500000), ..Default::default() }),
    );
    let err = check_body(&body, &policy).unwrap_err();
    assert_eq!(err.status, 400);
    assert_eq!(
        err.message,
        b"sandbox_settings.memory_limit: maximum allowed value is 100000".to_vec(),
    );
}

#[test]
fn phase_level_limit_over_the_ceiling_names_the_phase() {
    let mut policy = Policy::permissive();
    policy.max_wall_time_limit = 60;
    let mut bad = phase(b"sleep 100");
    bad.sandbox_settings = Some(PhaseRunSettings {
        wall_time_limit: Some(3600),
        ..Default::default()
    });
    let body = body_with(vec![phase(b"true"), phase(b"true"), bad], None);
    let err = check_body(&body, &policy).unwrap_err();
    assert_eq!(err.status, 400);
    assert_eq!(
        err.message,
        b"phases[2].sandbox_settings.wall_time_limit: maximum allowed value is 60".to_vec(),
    );
}

#[test]
fn a_limit_at_the_ceiling_passes() {
    let mut policy = Policy::permissive();
    policy.max_memory_limit = 100000;
    let body = body_with(
        vec![phase(b"true")],
        Some(PhaseRunSettings { memory_limit: Some(100000), ..Default::default() }),
    );
    assert!(check_body(&body, &policy).is_ok());
}

#[test]
fn the_first_violation_wins() {
    let mut policy = Policy::permissive();
    policy.max_run_time_limit = 1;
    policy.max_memory_limit = 1;
    let body = body_with(
        vec![phase(b"true")],
        Some(PhaseRunSettings {
            run_time_limit: Some(2),
            memory_limit: Some(2),
            ..Default::default()
        }),
    );
    let err = check_body(&body, &policy).unwrap_err();
    assert_eq!(
        err.message,
        b"sandbox_settings.run_time_limit: maximum allowed value is 1".to_vec(),
    );
}

#[test]
fn profiling_is_rejected_when_disallowed() {
    let policy = Policy::resolve(
        None,
        None,
        None,
        None,
        None,
        None,
        None,
        Some(b"false".to_vec()),
        None,
    );
    assert!(!policy.allow_profiling);
    let mut p = phase(b"true");
    p.profiling = Some(true);
    let body = body_with(vec![phase(b"true"), p], None);
    let err = check_body(&body, &policy).unwrap_err();
    assert_eq!(err.status, 400);
    assert_eq!(err.message, b"Profiling is not allowed".to_vec());
}

#[test]
fn profiling_passes_when_allowed() {
    let policy = Policy::permissive();
    let mut p = phase(b"true");
    p.profiling = Some(true);
    let body = body_with(vec![p], None);
    assert!(check_body(&body, &policy).is_ok());
}

#[test]
fn profiling_false_passes_under_a_closed_gate() {
    let mut policy = Policy::permissive();
    policy.allow_profiling = false;
    let mut p = phase(b"true");
    p.profiling = Some(false);
    let body = body_with(vec![p], None);
    assert!(check_body(&body, &policy).is_ok());
}

#[test]
fn policy_resolution_reads_all_nine_variables() {
    let policy = Policy::resolve(
        Some(b"1".to_vec()),
        Some(b"2".to_vec()),
        Some(b"3".to_vec()),
        Some(b"4".to_vec()),
        Some(b"5".to_vec()),
        Some(b"6".to_vec()),
        Some(b"7".to_vec()),
        Some(b"yes".to_vec()),
        Some(b"999".to_vec()),
    );
    assert_eq!(policy.max_run_time_limit, 1);
    assert_eq!(policy.max_extra_time_limit, 2);
    assert_eq!(policy.max_wall_time_limit, 3);
    assert_eq!(policy.max_stack_size_limit, 4);
    assert_eq!(policy.max_process_count_limit, 5);
    assert_eq!(policy.max_memory_limit, 6);
    assert_eq!(policy.max_storage_limit, 7);
    assert!(policy.allow_profiling);
    assert_eq!(policy.max_payload_size, 999);
}
