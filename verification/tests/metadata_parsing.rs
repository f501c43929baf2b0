use sandbox_runner::metadata::IsolateMetadata;

#[test]
fn parses_a_full_report() {
    let text = b"time:0.123\ntime-wall:0.456\nmax-rss:1024\nexitcode:0\nstatus:OK\nunknown-key:xyz\n";
    let m = IsolateMetadata::parse(text).unwrap();
    assert_eq!(m.time, Some(b"0.123".to_vec()));
    assert_eq!(m.time_wall, Some(b"0.456".to_vec()));
    assert_eq!(m.max_rss, Some(1024));
    assert_eq!(m.exit_code, Some(0));
    assert_eq!(m.status, Some(b"OK".to_vec()));
    assert_eq!(m.csw_voluntary, None);
    assert_eq!(m.csw_forced, None);
    assert_eq!(m.cg_mem, None);
}

#[test]
fn ignores_unrecognized_keys() {
    // The sandbox tool writes `exitcode`; any other spelling is an unknown
    // key and is skipped, like `unknown-key`.
    let text = b"time:0.123\ntime-wall:0.456\nmax-rss:1024\nexit_code:0\nstatus:OK\nunknown-key:xyz\n";
    let m = IsolateMetadata::parse(text).unwrap();
    assert_eq!(m.time, Some(b"0.123".to_vec()));
    assert_eq!(m.time_wall, Some(b"0.456".to_vec()));
    assert_eq!(m.max_rss, Some(1024));
    assert_eq!(m.exit_code, None);
    assert_eq!(m.status, Some(b"OK".to_vec()));
}

#[test]
fn parses_every_numeric_key() {
    let text = b"csw-voluntary:12\ncsw-forced:3\ncg-mem:2048\nexitcode:7\n";
    let m = IsolateMetadata::parse(text).unwrap();
    assert_eq!(m.csw_voluntary, Some(12));
    assert_eq!(m.csw_forced, Some(3));
    assert_eq!(m.cg_mem, Some(2048));
    assert_eq!(m.exit_code, Some(7));
}

#[test]
fn skips_lines_without_a_colon_or_value() {
    let text = b"garbage line\nstatus:\ntime:1.5\n";
    let m = IsolateMetadata::parse(text).unwrap();
    assert_eq!(m.status, None);
    assert_eq!(m.time, Some(b"1.5".to_vec()));
}

#[test]
fn takes_the_value_before_a_second_colon() {
    let text = b"status:TO:extra\n";
    let m = IsolateMetadata::parse(text).unwrap();
    assert_eq!(m.status, Some(b"TO".to_vec()));
}

#[test]
fn handles_crlf_and_missing_final_newline() {
    let text = b"max-rss:10\r\nstatus:SG";
    let m = IsolateMetadata::parse(text).unwrap();
    assert_eq!(m.max_rss, Some(10));
    assert_eq!(m.status, Some(b"SG".to_vec()));
}

#[test]
fn later_lines_override_earlier_ones() {
    let text = b"max-rss:1\nmax-rss:2\n";
    let m = IsolateMetadata::parse(text).unwrap();
    assert_eq!(m.max_rss, Some(2));
}

#[test]
fn negative_exit_codes_parse() {
    let m = IsolateMetadata::parse(b"exitcode:-9\n").unwrap();
    assert_eq!(m.exit_code, Some(-9));
}

#[test]
fn bad_numeric_values_are_fatal() {
    assert!(IsolateMetadata::parse(b"max-rss:abc\n").is_err());
    assert!(IsolateMetadata::parse(b"time:abc\n").is_err());
    assert!(IsolateMetadata::parse(b"exitcode:4000000000\n").is_err());
    assert!(IsolateMetadata::parse(b"cg-mem:18446744073709551616\n").is_err());
}

#[test]
fn empty_report_parses_to_empty_record() {
    let m = IsolateMetadata::parse(b"").unwrap();
    assert_eq!(m.time, None);
    assert_eq!(m.time_wall, None);
    assert_eq!(m.max_rss, None);
    assert_eq!(m.csw_voluntary, None);
    assert_eq!(m.csw_forced, None);
    assert_eq!(m.cg_mem, None);
    assert_eq!(m.exit_code, None);
    assert_eq!(m.status, None);
}

#[test]
fn timeout_report_keeps_status() {
    // What the sandbox writes when a wall-clock limit ends the program.
    let text = b"time:0.002\ntime-wall:1.001\nstatus:TO\n";
    let m = IsolateMetadata::parse(text).unwrap();
    assert_eq!(m.status, Some(b"TO".to_vec()));
    assert_eq!(m.exit_code, None);
}
