use r0_metal_doctor::envprobe::{truthy, version_line, EnvCheck, EnvReport};
use r0_metal_doctor::sanitize::HostIdentity;

fn some(s: &str) -> Option<String> {
    Some(s.to_string())
}

fn report(
    rzup: Option<String>,
    cargo_risczero: Option<String>,
    r0vm: Option<String>,
    dev_mode: Option<String>,
    prover: Option<String>,
    apple_silicon: bool,
) -> EnvReport {
    EnvReport::from_facts(
        "macos".into(),
        "aarch64".into(),
        some("rustc 1.88.0"),
        some("cargo 1.88.0"),
        rzup,
        cargo_risczero,
        r0vm,
        dev_mode,
        prover,
        None,
        apple_silicon,
    )
}

fn levels(r: &EnvReport) -> Vec<&'static str> {
    r.checks.iter().map(|c| c.level).collect()
}

#[test]
fn truthiness_ignores_ascii_case() {
    for v in ["1", "true", "YES", "On"] {
        assert!(truthy(v), "{v}");
    }
    for v in ["0", "off", "", "yes ", "tru"] {
        assert!(!truthy(v), "{v}");
    }
}

#[test]
fn version_line_is_the_trimmed_first_line() {
    assert_eq!(version_line("  r0vm 3.0.5 \nmore\n").as_deref(), Some("r0vm 3.0.5"));
    assert_eq!(version_line(""), None);
    assert_eq!(version_line("   \nsecond"), None);
}

#[test]
fn healthy_toolchain_gets_one_ok_check_first() {
    let r = report(some("rzup 0.4"), some("cargo-risczero 3.0.5"), some("risc0-r0vm 3.0.5"), None, None, true);
    assert_eq!(levels(&r), vec!["ok"]);
    assert_eq!(r.checks[0].message, "no blocking misconfiguration detected");
    assert_eq!(r.checks[0].remediation, None);
    assert_eq!(
        r.observations,
        vec!["host is Apple Silicon macOS — CUDA is unavailable here by construction; the only GPU lane risc0 could use is Metal".to_string()]
    );
}

#[test]
fn prover_override_is_informational_and_keeps_the_ok_check() {
    let r = report(None, some("cargo-risczero 3.0.5"), None, None, some("ipc"), false);
    assert_eq!(levels(&r), vec!["ok", "info"]);
    assert_eq!(r.checks[1].message, "RISC0_PROVER is set (ipc) — it overrides default prover selection");
    assert_eq!(
        r.observations,
        vec!["RISC0_PROVER=ipc explicitly overrides prover selection — the observed lane will reflect this, not the default path".to_string()]
    );
}

#[test]
fn missing_toolchain_and_dev_mode_warn_without_an_ok_check() {
    let r = report(None, None, None, some("TRUE"), None, false);
    assert_eq!(levels(&r), vec!["warn", "warn"]);
    assert_eq!(r.checks[0].message, "RISC0_DEV_MODE is enabled — receipts are FAKE and no real proving runs");
    assert_eq!(r.checks[1].message, "risc0 toolchain not found (no cargo-risczero or r0vm on PATH)");
    assert_eq!(r.observations.len(), 2);
    assert!(r.observations[0].starts_with("risc0 toolchain not found (no rzup"));
    assert!(r.observations[1].starts_with("RISC0_DEV_MODE is enabled: receipts are fake"));
}

#[test]
fn rzup_without_r0vm_is_toolchain_skew() {
    let r = report(some("rzup 0.4"), some("cargo-risczero 3.0.5"), None, some("0"), None, false);
    assert_eq!(levels(&r), vec!["warn"]);
    assert_eq!(r.checks[0].message, "rzup is installed but r0vm is not on PATH — possible toolchain skew");
    assert!(r.observations.is_empty());
}

#[test]
fn redacted_scrubs_home_from_value_fields() {
    let home = "/home/tester".to_string();
    let host = HostIdentity { home: Some(home.clone()), user: Some("tester".to_string()) };
    let mut r = report(None, None, None, None, Some(format!("{home}/secret/prover")), false);
    r.rust_log = Some(format!("debug,{home}/trace"));
    r.observations.push(format!("RISC0_PROVER={home}/secret/prover overrides selection"));
    r.checks.push(EnvCheck::info(format!("RISC0_PROVER is set ({home}/secret)"), "unset RISC0_PROVER".into()));
    let red = r.redacted(&host);
    let all = format!("{red:?}");
    assert!(!all.contains(&home), "redacted report still contains $HOME: {all}");
    assert!(red.risc0_prover.as_deref().unwrap().starts_with('~'));
    assert_eq!(red.rust_log.as_deref(), Some("debug,~/trace"));
    assert_eq!(red.os, "macos");
    assert_eq!(red.checks.len(), r.checks.len());
}

#[test]
fn human_listing_shows_values_and_checks() {
    let r = report(None, None, Some("risc0-r0vm 3.0.5".into()), None, None, false);
    let out = r.render_human();
    assert!(out.starts_with("host environment (macos / aarch64)\n  rustc             rustc 1.88.0\n"));
    assert!(out.contains("\n  rzup              not found\n"));
    assert!(out.contains("\n  cargo-risczero    not found\n  r0vm              risc0-r0vm 3.0.5\n"));
    assert!(out.contains("\n  RUST_LOG          unset\n"));
    assert!(out.ends_with("\nchecks\n  [ok] no blocking misconfiguration detected\n"));
    let r = report(None, None, None, None, None, false);
    assert!(r.render_human().ends_with(
        "  [warn] risc0 toolchain not found (no cargo-risczero or r0vm on PATH)\n        → install via rzup: https://dev.risczero.com/api/zkvm/install\n"
    ));
}

use r0_metal_doctor::envprobe::build_checks;

#[test]
fn checks_can_be_recomputed_from_the_report() {
    let r = report(some("rzup 0.4"), None, None, some("on"), some("local"), true);
    let again = build_checks(&r.rzup, &r.cargo_risczero, &r.r0vm, &r.risc0_dev_mode, &r.risc0_prover);
    let view = |cs: &Vec<EnvCheck>| {
        cs.iter()
            .map(|c| (c.level, c.message.clone(), c.remediation.clone()))
            .collect::<Vec<_>>()
    };
    assert_eq!(view(&r.checks), view(&again));
    assert_eq!((r.os.as_str(), r.arch.as_str()), ("macos", "aarch64"));
    assert_eq!(r.risc0_dev_mode.as_deref(), Some("on"));
}
