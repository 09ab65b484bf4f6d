use r0_metal_doctor::bundle::{dir_name, matched_log, readme, redaction_note, summary_file, BundleOpts};
use r0_metal_doctor::prove::{ProveOpts, ProveReport};
use r0_metal_doctor::sanitize::HostIdentity;

#[test]
fn bundle_directory_is_named_by_epoch() {
    assert_eq!(dir_name(1_700_000_000), "r0-metal-doctor-bundle-1700000000");
    assert_eq!(dir_name(0), "r0-metal-doctor-bundle-0");
}

#[test]
fn readme_carries_summary_and_redaction_state() {
    let r = readme("S", true);
    assert!(r.starts_with("r0-metal-doctor evidence bundle\n\nS\n\nAll files in this bundle are REDACTED"));
    assert!(r.ends_with("  summary.txt        the one-line summary\n"));
    let r = readme("S", false);
    assert!(r.contains("\n\nWARNING: generated with --no-redact"));
    assert!(redaction_note(false).starts_with("WARNING"));
    assert_eq!(summary_file("one line"), "one line\n");
}

#[test]
fn matched_log_joins_lines() {
    let opts = ProveOpts { rust_log: "debug".into(), timeout_secs: 1, redact: false };
    let host = HostIdentity { home: None, user: None };
    let captured = vec![
        "DEBUG risc0_zkp::hal::cpu: a".to_string(),
        "noise".to_string(),
        "DEBUG risc0_zkp::hal::metal: b".to_string(),
    ];
    let r = ProveReport::from_run("p", None, &opts, None, None, Some(0), false, 0, 0, &captured, &host);
    assert_eq!(matched_log(&r), "DEBUG risc0_zkp::hal::metal: b\nDEBUG risc0_zkp::hal::cpu: a");
    let o = BundleOpts { out_dir: None, project: None, timeout_secs: 9, redact: true }.prove_opts();
    assert_eq!((o.rust_log.as_str(), o.timeout_secs, o.redact), ("debug", 9, true));
}
