use r0_metal_doctor::check::{
    dev_mode_string, device_string, lane_string, risc0_string, run, summary_line, tool_string,
    CheckOpts,
};
use r0_metal_doctor::device::{probe as no_metal, DeviceReport};
use r0_metal_doctor::envprobe::EnvReport;
use r0_metal_doctor::lane::Lane;
use r0_metal_doctor::prove::{ProveOpts, ProveReport};
use r0_metal_doctor::sanitize::HostIdentity;

fn m4() -> DeviceReport {
    DeviceReport {
        metal_available: true,
        device_name: Some("Apple M4 Max".into()),
        unified_memory: Some(true),
        recommended_max_working_set_bytes: Some(1),
        max_buffer_length_bytes: Some(1),
        max_threads_per_threadgroup: Some([1024, 1024, 1024]),
        apple_gpu_family: Some("apple9".into()),
        registry_id: Some(7),
        note: None,
    }
}

fn env(r0vm: Option<&str>, dev_mode: Option<&str>) -> EnvReport {
    EnvReport::from_facts(
        "macos".into(),
        "aarch64".into(),
        None,
        None,
        None,
        None,
        r0vm.map(String::from),
        dev_mode.map(String::from),
        None,
        None,
        true,
    )
}

fn observed(status: Option<i32>, timed_out: bool, rust_log: &str) -> ProveReport {
    let opts = ProveOpts { rust_log: rust_log.into(), timeout_secs: 60, redact: true };
    let host = HostIdentity { home: None, user: None };
    let captured = vec!["DEBUG risc0_zkp::hal::cpu: io".to_string()];
    ProveReport::from_run("p", None, &opts, None, None, status, timed_out, 0, 0, &captured, &host)
}

#[test]
fn tool_string_names_the_version() {
    assert_eq!(tool_string(), "r0-metal-doctor 0.2.0");
}

#[test]
fn device_string_describes_the_gpu() {
    assert_eq!(device_string(&m4()), "Apple M4 Max (apple9, unified)");
    assert_eq!(device_string(&no_metal()), "no Metal device");
    let mut d = m4();
    d.device_name = None;
    d.apple_gpu_family = None;
    d.unified_memory = None;
    assert_eq!(device_string(&d), "Metal device (?, discrete)");
}

#[test]
fn risc0_and_dev_mode_strings() {
    assert_eq!(risc0_string(&env(Some("risc0-r0vm 3.0.5"), None)), "risc0 3.0.5");
    assert_eq!(risc0_string(&env(None, None)), "risc0 toolchain not installed");
    assert_eq!(risc0_string(&env(Some("r0vm (no version)"), None)), "risc0 toolchain not installed");
    assert_eq!(dev_mode_string(&env(None, Some("on"))), "ON (fake receipts!)");
    assert_eq!(dev_mode_string(&env(None, Some("0"))), "off");
    assert_eq!(dev_mode_string(&env(None, None)), "off");
}

#[test]
fn lane_string_follows_the_run() {
    assert_eq!(lane_string(None), "not observed (pass --project <crate>)");
    assert_eq!(lane_string(Some(&observed(Some(0), false, "debug"))), "cpu-observed (debug)");
    assert_eq!(lane_string(Some(&observed(None, true, "debug"))), "timed out");
    assert_eq!(lane_string(Some(&observed(Some(1), false, "trace"))), "indeterminate (trace)");
}

#[test]
fn summary_line_joins_every_part() {
    let line = summary_line(&m4(), &env(Some("risc0-r0vm 3.0.5"), None), None);
    assert_eq!(
        line,
        "r0-metal-doctor 0.2.0 | Apple M4 Max (apple9, unified) | risc0 3.0.5 | lane: not observed (pass --project <crate>) | DEV_MODE off"
    );
}

#[test]
fn check_report_copies_the_run() {
    let p = observed(Some(0), false, "debug");
    let e = env(None, Some("yes"));
    let r = run(&no_metal(), &e, Some(&p));
    assert_eq!(r.tool, "r0-metal-doctor 0.2.0");
    assert_eq!(r.device, "no Metal device");
    assert_eq!(r.risc0, "risc0 toolchain not installed");
    assert_eq!(r.dev_mode, "ON (fake receipts!)");
    assert_eq!(r.lane, "cpu-observed (debug)");
    assert_eq!(r.lane_lines, 1);
    assert_eq!(r.observed_lane, Some(Lane::Cpu));
    assert!(!r.timed_out);
    assert_eq!(r.summary_line, summary_line(&no_metal(), &e, Some(&p)));
    let r = run(&no_metal(), &e, None);
    assert_eq!(r.lane_lines, 0);
    assert_eq!(r.observed_lane, None);
}

#[test]
fn check_options_observe_at_debug() {
    let o = CheckOpts { project: None, timeout_secs: 42, redact: false }.prove_opts();
    assert_eq!(o.rust_log, "debug");
    assert_eq!(o.timeout_secs, 42);
    assert!(!o.redact);
}
