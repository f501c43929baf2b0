use sandbox_runner::isolate::{
    cleanup_args, escape_bytes, env_flag_token, fresh_script_path, init_args, script_contents,
    script_path_for, Isolate, IsolatedBox, IsolatedExecutedCommandResult,
};
use sandbox_runner::metadata::IsolateMetadata;
use sandbox_runner::options::{IsolatedBoxOptions, PhaseRunSettings, PhaseSettings};

fn sample_box() -> IsolatedBox {
    IsolatedBox::new(42, b"/var/local/lib/isolate/42\n")
}

#[test]
fn init_output_is_trimmed_into_the_workdir() {
    let b = sample_box();
    assert_eq!(b.box_id, 42);
    assert_eq!(b.workdir, b"/var/local/lib/isolate/42".to_vec());
    assert_eq!(b.stdout_file, b"/var/local/lib/isolate/42/stdout".to_vec());
    assert_eq!(b.stderr_file, b"/var/local/lib/isolate/42/stderr".to_vec());
    assert_eq!(b.metadata_file, b"/var/local/lib/isolate/42/metadata".to_vec());
}

#[test]
fn upload_paths_respect_absolute_and_relative_targets() {
    let b = sample_box();
    assert_eq!(
        b.upload_path(b"/box/files.zip"),
        b"/var/local/lib/isolate/42/box/files.zip".to_vec(),
    );
    assert_eq!(
        b.upload_path(b"box/files.zip"),
        b"/var/local/lib/isolate/42/box/files.zip".to_vec(),
    );
    assert_eq!(b.upload_dir(b"/box/files.zip"), b"/var/local/lib/isolate/42/box".to_vec());
    assert_eq!(b.upload_dir(b"files.zip"), b"/var/local/lib/isolate/42/".to_vec());
}

#[test]
fn escaping_doubles_backslashes_and_quotes() {
    assert_eq!(escape_bytes(b"plain"), b"plain".to_vec());
    assert_eq!(escape_bytes(b"a\\b"), b"a\\\\b".to_vec());
    assert_eq!(escape_bytes(b"say \"hi\""), b"say \\\"hi\\\"".to_vec());
}

#[test]
fn env_flags_carry_escaped_pairs() {
    assert_eq!(env_flag_token(b"K", b"v"), b"-EK=v".to_vec());
    assert_eq!(env_flag_token(b"K", b"a\"b"), b"-EK=a\\\"b".to_vec());
}

#[test]
fn script_contents_gain_one_trailing_newline() {
    assert_eq!(script_contents(b"echo hi"), b"echo hi\n".to_vec());
    assert_eq!(script_contents(b"echo hi\n"), b"echo hi\n".to_vec());
    assert_eq!(script_contents(b""), b"\n".to_vec());
}

#[test]
fn script_paths_carry_the_suffix() {
    assert_eq!(script_path_for(12345), b"/box/.script-12345.sh".to_vec());
    let fresh = fresh_script_path();
    assert!(fresh.starts_with(b"/box/.script-"));
    assert!(fresh.ends_with(b".sh"));
}

#[test]
fn exec_args_follow_the_fixed_order() {
    let b = sample_box();
    let mut options = IsolatedBoxOptions::default();
    options.environment = Some(vec![(b"A".to_vec(), b"1".to_vec())]);
    let args = b.exec_args(&options, b"/box/.script-7.sh");
    let expected: Vec<Vec<u8>> = [
        &b"isolate"[..],
        b"--cg",
        b"-s",
        b"-b 42",
        b"-M/var/local/lib/isolate/42/metadata",
        b"-t 5",
        b"-x 0",
        b"-w 10",
        b"-k 128000",
        b"-p120",
        b"--cg-mem=512000",
        b"-f 10240",
        b"--cg-timing",
        b"-EHOME=/tmp",
        b"-EPATH=/usr/local/sbin:/usr/local/bin:/usr/sbin:/usr/bin:/sbin:/bin",
        b"-EA=1",
        b"--run",
        b"--",
        b"/bin/bash",
        b"/box/.script-7.sh",
    ]
    .iter()
    .map(|s| s.to_vec())
    .collect();
    assert_eq!(args, expected);
}

#[test]
fn profiling_inserts_the_profiler_prefix() {
    let b = sample_box();
    let mut options = IsolatedBoxOptions::default();
    options.profiling = true;
    let args = b.exec_args(&options, b"/box/.script-7.sh");
    let tail: Vec<Vec<u8>> = args[args.len() - 5..].to_vec();
    let expected: Vec<Vec<u8>> = [
        &b"/usr/bin/perf_5.10"[..],
        b"record",
        b"-g",
        b"/bin/bash",
        b"/box/.script-7.sh",
    ]
    .iter()
    .map(|s| s.to_vec())
    .collect();
    assert_eq!(tail, expected);
}

#[test]
fn merged_settings_change_the_limit_flags() {
    let b = sample_box();
    let settings = PhaseSettings {
        name: None,
        script: b"true".to_vec(),
        environment: None,
        sandbox_settings: Some(PhaseRunSettings {
            memory_limit: Some(200000),
            ..Default::default()
        }),
        profiling: None,
    };
    let options = IsolatedBoxOptions::from(settings);
    let args = b.exec_args(&options, b"/box/.script-7.sh");
    assert!(args.contains(&b"--cg-mem=200000".to_vec()));
    assert!(!args.contains(&b"--cg-mem=512000".to_vec()));
}

#[test]
fn init_and_cleanup_args_name_the_box() {
    let expected_init: Vec<Vec<u8>> =
        [&b"isolate"[..], b"--cg", b"-b 42", b"--init"].iter().map(|s| s.to_vec()).collect();
    let expected_cleanup: Vec<Vec<u8>> =
        [&b"isolate"[..], b"--cg", b"-b 42", b"--cleanup"].iter().map(|s| s.to_vec()).collect();
    assert_eq!(init_args(42), expected_init);
    assert_eq!(cleanup_args(42), expected_cleanup);
}

#[test]
fn the_registry_tracks_live_boxes() {
    let mut isolate = Isolate::new();
    let b = sample_box();
    isolate.register(b);
    assert!(isolate.get_box(42).is_some());
    assert!(isolate.get_box(7).is_none());
    let args = isolate.destroy_box(42);
    assert_eq!(args[3], b"--cleanup".to_vec());
    assert!(isolate.get_box(42).is_none());
}

#[test]
fn drawn_box_ids_stay_in_the_31_bit_range() {
    for _ in 0..64 {
        assert!(Isolate::draw_box_id() <= i32::MAX as u32);
    }
}

#[test]
fn a_reported_exit_code_wins_over_the_raw_status() {
    let meta = IsolateMetadata::parse(b"exitcode:7\n").unwrap();
    let r = IsolatedExecutedCommandResult::assemble(1, Vec::new(), Vec::new(), meta);
    assert_eq!(r.status, 7);
}

#[test]
fn without_an_exit_code_the_raw_status_stands() {
    let meta = IsolateMetadata::parse(b"status:TO\n").unwrap();
    let r = IsolatedExecutedCommandResult::assemble(1, Vec::new(), Vec::new(), meta);
    assert_eq!(r.status, 1);
    assert_eq!(r.metadata.status, Some(b"TO".to_vec()));
}
