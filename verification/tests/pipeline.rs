use sandbox_runner::api_error::{ApiError, ValidationErrorDTO};
use sandbox_runner::options::PhaseSettings;
use sandbox_runner::runner::{
    decode_files, driver_error_result, files_zip_path, should_continue, unzip_outcome,
    unzip_script, Runner, RunnerPhaseResult, RunResponseDTO,
};
use sandbox_runner::session::{RunSession, SessionState};

#[test]
fn good_base64_decodes_back_to_the_payload() {
    let payload: &[u8] = b"PK\x05\x06\0\0\0\0\0\0\0\0\0\0\0\0\0\0\0\0";
    let encoded = base64::encode(payload);
    let decoded = decode_files(encoded.as_bytes()).unwrap();
    assert_eq!(decoded, payload.to_vec());
}

#[test]
fn corrupt_base64_is_rejected_with_the_reading_prefix() {
    let err = decode_files(b"!!!not-base64!!!").unwrap_err();
    assert_eq!(err.status, 400);
    assert!(err.message.starts_with(b"Error while reading files: "));
}

#[test]
fn the_setup_script_and_archive_path_are_fixed() {
    assert_eq!(
        unzip_script(),
        b"/usr/bin/unzip -n -qq /box/files.zip && /bin/rm /box/files.zip".to_vec(),
    );
    assert_eq!(files_zip_path(), b"/box/files.zip".to_vec());
}

#[test]
fn a_failed_unzip_reports_the_extractor_diagnostics() {
    assert!(unzip_outcome(0, b"").is_ok());
    let err = unzip_outcome(9, b"bad archive").unwrap_err();
    assert_eq!(err.status, 400);
    assert_eq!(err.message, b"Error while unzipping files: bad archive".to_vec());
}

#[test]
fn a_driver_failure_becomes_a_phase_shaped_result() {
    let r = driver_error_result(b"isolate unreachable");
    assert_eq!(r.status, 1);
    assert!(r.stdout.is_empty());
    assert_eq!(r.stderr, b"isolate unreachable".to_vec());
    assert_eq!(r.metadata.exit_code, None);
    assert_eq!(r.metadata.status, None);
}

#[test]
fn unknown_box_ids_are_an_internal_error() {
    let runner = Runner::new();
    let err = runner.get_isolated_box(13).unwrap_err();
    assert_eq!(err.status, 500);
    assert_eq!(err.message, b"Unknown isolated box ID: 13".to_vec());
}

#[test]
fn phase_results_carry_the_phase_name_and_status() {
    let settings = PhaseSettings {
        name: Some(b"compile".to_vec()),
        script: b"gcc main.c".to_vec(),
        environment: None,
        sandbox_settings: None,
        profiling: None,
    };
    let result = driver_error_result(b"boom");
    let shaped = Runner::run_phase_result(&settings, result);
    assert_eq!(shaped.name, Some(b"compile".to_vec()));
    assert_eq!(shaped.status, 1);
    assert_eq!(shaped.stderr, b"boom".to_vec());
}

fn run_pipeline(statuses: &[i32]) -> Vec<i32> {
    let mut results: Vec<i32> = Vec::new();
    for &status in statuses {
        results.push(status);
        if !should_continue(status) {
            break;
        }
    }
    results
}

#[test]
fn all_clean_phases_run_to_the_end() {
    assert_eq!(run_pipeline(&[0, 0, 0]), vec![0, 0, 0]);
    assert_eq!(run_pipeline(&[]), Vec::<i32>::new());
}

#[test]
fn the_pipeline_stops_at_the_first_failure() {
    assert_eq!(run_pipeline(&[0, 7, 0, 0]), vec![0, 7]);
    assert_eq!(run_pipeline(&[3]), vec![3]);
    assert_eq!(run_pipeline(&[0, 0, 1]), vec![0, 0, 1]);
}

#[test]
fn a_session_tears_down_exactly_the_box_it_created() {
    let mut session = RunSession::new();
    assert_eq!(session.state, SessionState::Fresh);
    session.note_init_ok(42);
    assert_eq!(session.state, SessionState::Active(42));
    let args = session.finish();
    assert_eq!(session.state, SessionState::Finished(42));
    let expected: Vec<Vec<u8>> =
        [&b"isolate"[..], b"--cg", b"-b 42", b"--cleanup"].iter().map(|s| s.to_vec()).collect();
    assert_eq!(args, expected);
}

#[test]
fn a_failed_creation_aborts_the_session() {
    let mut session = RunSession::new();
    session.note_init_failed();
    assert_eq!(session.state, SessionState::Aborted);
}

#[test]
fn api_errors_render_with_status_and_message() {
    let err = ApiError::bad_request(b"nope".to_vec());
    assert_eq!(err.display_bytes(), b"API Error 400: nope".to_vec());
    assert_eq!(ApiError::not_found(b"x".to_vec()).status, 404);
    assert_eq!(ApiError::internal_server_error(b"x".to_vec()).status, 500);
    assert_eq!(ApiError::new(413, b"too large".to_vec()).status, 413);
}

#[test]
fn validation_envelopes_carry_the_decoder_message() {
    let dto = ValidationErrorDTO::from_message(b"Json deserialize error".to_vec());
    assert_eq!(dto.message, b"Json deserialize error".to_vec());
    assert!(dto.fields.is_empty());
}

#[test]
fn responses_keep_the_phase_results_in_order() {
    let first = RunnerPhaseResult {
        name: Some(b"0".to_vec()),
        status: 0,
        stdout: b"hi\n".to_vec(),
        stderr: Vec::new(),
        metadata: Default::default(),
    };
    let second = RunnerPhaseResult {
        name: Some(b"1".to_vec()),
        status: 7,
        stdout: Vec::new(),
        stderr: Vec::new(),
        metadata: Default::default(),
    };
    let response = RunResponseDTO { phases: vec![first, second] };
    assert_eq!(response.phases.len(), 2);
    assert_eq!(response.phases[0].name, Some(b"0".to_vec()));
    assert_eq!(response.phases[1].status, 7);
}
