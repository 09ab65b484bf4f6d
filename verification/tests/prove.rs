use r0_metal_doctor::lane::{Lane, LaneCounts, EXIT_INDETERMINATE, EXIT_MISMATCH, EXIT_OK};
use r0_metal_doctor::prove::{cargo_args, command_line, decide_verdict, ProveOpts, ProveReport};
use r0_metal_doctor::sanitize::HostIdentity;

fn tester() -> HostIdentity {
    HostIdentity { home: Some("/home/tester".to_string()), user: Some("tester".to_string()) }
}

fn lines(v: &[&str]) -> Vec<String> {
    v.iter().map(|s| s.to_string()).collect()
}

const METAL: &str = "DEBUG risc0_circuit_rv32im::prove::hal::metal: witgen(metal-hybrid): 32768";
const CPU: &str = "DEBUG risc0_zkp::hal::cpu: io: 32768";

fn run(status: Option<i32>, timed_out: bool, captured: &[&str], redact: bool) -> ProveReport {
    let opts = ProveOpts { rust_log: "debug".into(), timeout_secs: 5, redact };
    ProveReport::from_run(
        "/home/tester/host",
        Some("--iterations 3"),
        &opts,
        Some("risc0-r0vm 3.0.5".into()),
        None,
        status,
        timed_out,
        12,
        500_000_000,
        &lines(captured),
        &tester(),
    )
}

#[test]
fn default_options_observe_at_debug_with_redaction() {
    let o = ProveOpts::default();
    assert_eq!(o.rust_log, "debug");
    assert_eq!(o.timeout_secs, 600);
    assert!(o.redact);
}

#[test]
fn command_and_arguments_carry_the_extra_args() {
    assert_eq!(command_line(None), "cargo run --release");
    assert_eq!(command_line(Some("a  b")), "cargo run --release -- a  b");
    assert_eq!(cargo_args(None), vec!["run", "--release"]);
    assert_eq!(cargo_args(Some("  --x 1\tfoo ")), vec!["run", "--release", "--", "--x", "1", "foo"]);
}

#[test]
fn successful_metal_run_claims_metal() {
    let r = run(Some(0), false, &["Compiling host", METAL, METAL], true);
    assert_eq!(r.verdict, "metal-observed");
    assert_eq!(r.observed_lane, Some(Lane::Metal));
    assert_eq!(r.lane_counts, LaneCounts { metal: 2, cuda: 0, cpu: 0 });
    assert_eq!(r.matched_lines.len(), 2);
    assert_eq!(r.project, "~/host");
    assert_eq!(r.command, "cargo run --release -- --iterations 3");
    assert_eq!(r.risc0_dev_mode, "0");
    assert!(r.risc0_matrix.in_tested_matrix);
    assert_eq!(r.verdict_short(), "metal-observed");
    assert_eq!(r.exit(Some(Lane::Metal)), EXIT_OK);
    assert_eq!(r.exit(Some(Lane::Cpu)), EXIT_MISMATCH);
    assert_eq!(r.exit(None), EXIT_OK);
}

#[test]
fn mixed_run_reports_its_dominant_lane() {
    let r = run(Some(0), false, &[CPU, METAL, CPU], false);
    assert_eq!(r.verdict, "mixed — dominant cpu (also: metal)");
    assert_eq!(r.observed_lane, Some(Lane::Cpu));
    assert_eq!(r.verdict_short(), "mixed→cpu");
    assert_eq!(r.project, "/home/tester/host");
}

#[test]
fn failed_run_claims_no_lane_even_with_lane_lines() {
    let r = run(Some(101), false, &[METAL], true);
    assert_eq!(
        r.verdict,
        "indeterminate — the proof run exited with code 101 (no successful proof observed); no lane is claimed"
    );
    assert_eq!(r.observed_lane, None);
    assert_eq!(r.lane_counts.metal, 1);
    assert_eq!(r.exit(Some(Lane::Metal)), EXIT_INDETERMINATE);
    let r = run(Some(-1), false, &[], true);
    assert!(r.verdict.contains("with code -1"));
    let r = run(None, false, &[], true);
    assert!(r.verdict.contains("exited via a signal"));
    assert_eq!(r.verdict_short(), "indeterminate");
}

#[test]
fn timed_out_run_is_indeterminate_never_a_mismatch() {
    let r = run(None, true, &[CPU], true);
    assert_eq!(
        r.verdict,
        "indeterminate — timed out after 5s before the run completed; see lane_counts/matched_lines"
    );
    assert_eq!(r.verdict_short(), "indeterminate(timeout)");
    assert_eq!(r.exit(Some(Lane::Metal)), EXIT_INDETERMINATE);
    assert_eq!(r.wall_secs, 12);
    assert_eq!(r.wall_subsec_nanos, 500_000_000);
}

#[test]
fn matched_lines_are_redacted_only_when_asked() {
    let line = "DEBUG risc0_zkp::hal::metal: /home/tester/cache io";
    let r = run(Some(0), false, &[line], true);
    assert_eq!(r.matched_lines, vec!["DEBUG risc0_zkp::hal::metal: ~/cache io".to_string()]);
    let r = run(Some(0), false, &[line], false);
    assert_eq!(r.matched_lines, vec![line.to_string()]);
}

#[test]
fn decided_verdict_follows_the_counts() {
    let c = LaneCounts { metal: 0, cuda: 0, cpu: 0 };
    let (v, l) = decide_verdict(c, false, Some(0), 9);
    assert!(v.starts_with("indeterminate — no prover-selection lines captured"));
    assert_eq!(l, None);
    let c = LaneCounts { metal: 1, cuda: 1, cpu: 1 };
    let (v, l) = decide_verdict(c, false, Some(0), 9);
    assert_eq!(v, "mixed — dominant metal (also: cuda, cpu)");
    assert_eq!(l, Some(Lane::Metal));
}

#[test]
fn human_observation_lists_the_run() {
    let r = run(Some(0), false, &[METAL], true);
    let out = r.render_human("12.5");
    assert!(out.starts_with(
        "risc0 lane observation\n  project             ~/host\n  command             RUST_LOG=debug RISC0_DEV_MODE=0 cargo run --release -- --iterations 3\n  r0vm                risc0-r0vm 3.0.5\n  exit code           0\n  wall time           12.5s\n  lanes seen          metal=1 cuda=0 cpu=0\n  verdict             metal-observed\n"
    ));
    assert!(out.contains("\n\n  matched lines (the verdict derives only from these):\n    DEBUG risc0_circuit_rv32im::prove::hal::metal: witgen(metal-hybrid): 32768\n"));
    assert!(out.ends_with("\n  verdict derives only from the matched_lines above; if it says indeterminate, no claim is made\n"));
    let r = run(None, true, &[], true);
    let out = r.render_human("5.0");
    assert!(out.contains("  exit code           —\n  wall time           5.0s (TIMED OUT at 5s)\n"));
    assert!(!out.contains("matched lines"));
    let r = run(Some(-2), false, &[], true);
    assert!(r.render_human("0.1").contains("  exit code           -2\n"));
}
