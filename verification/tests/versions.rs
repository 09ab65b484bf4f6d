use r0_metal_doctor::versions::{classify, extract_semver};

#[test]
fn extracts_version_from_tool_string() {
    assert_eq!(
        extract_semver("risc0-r0vm 3.0.5"),
        Some("3.0.5".to_string())
    );
    assert_eq!(
        extract_semver("cargo-risczero 3.0.5 (abc 2026-02-03)"),
        Some("3.0.5".to_string())
    );
    assert_eq!(extract_semver("no version here"), None);
}

#[test]
fn pinned_version_is_in_matrix() {
    let c = classify(Some("risc0-r0vm 3.0.5"));
    assert!(c.in_tested_matrix);
    assert!(c.finding.contains("CPU"));
}

#[test]
fn unknown_version_makes_no_claim() {
    let c = classify(Some("risc0-r0vm 9.9.9"));
    assert!(!c.in_tested_matrix);
    assert!(c.finding.contains("not in the tested matrix"));
}

#[test]
fn five_x_flags_architecture_change() {
    let c = classify(Some("risc0-r0vm 5.0.0-rc.1"));
    assert!(!c.in_tested_matrix);
    assert!(c.finding.contains("m3") || c.finding.contains("architecture"));
}

use r0_metal_doctor::versions::matrix;

#[test]
fn exact_findings_per_version_line() {
    let c = classify(Some("risc0-r0vm 3.0.4"));
    assert_eq!(c.detected_version.as_deref(), Some("3.0.4"));
    assert_eq!(
        c.finding,
        "risc0 3.0.x: rv32im has no reachable Metal branch; proving runs on CPU on Apple Silicon (firsthand-established for 3.0.5/3.0.4/4.0.4)."
    );
    let c = classify(None);
    assert_eq!(c.detected_version, None);
    assert!(!c.in_tested_matrix);
    assert!(c.finding.starts_with("risc0 version not detected"));
    let c = classify(Some("risc0-r0vm 9.9.9"));
    assert_eq!(
        c.finding,
        "risc0 9.9.9: not in the tested matrix — no Metal/CPU claim is made from the version; run `prove` to observe the lane."
    );
}

#[test]
fn semver_edges() {
    assert_eq!(extract_semver("v3.0.5").as_deref(), Some("3.0.5"));
    assert_eq!(extract_semver("3.0").as_deref(), Some("3.0"));
    assert_eq!(extract_semver("r0vm 3 x.1").as_deref(), None);
    assert_eq!(extract_semver("vv2.5x").as_deref(), Some("2.5x"));
    assert_eq!(extract_semver("x 1.2.3-rc.1 y").as_deref(), Some("1.2.3-rc.1"));
}

#[test]
fn matrix_rows_start_with_the_pinned_stable_line() {
    let m = matrix();
    assert!(!m.is_empty());
    assert!(m[0].versions.contains("risc0-zkvm 3.0.5"));
    assert_eq!(m[0].channel, "stable (the doctor's pin)");
}
