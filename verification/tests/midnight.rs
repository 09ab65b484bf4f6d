use r0_metal_doctor::midnight::{is_local, parse_authority, PortKind};

fn port_value(p: &PortKind) -> Option<u16> {
    match p {
        PortKind::Valid(n) | PortKind::Default(n) => Some(*n),
        PortKind::Malformed(_) => None,
    }
}

#[test]
fn parses_default_localhost_url() {
    let a = parse_authority("http://127.0.0.1:6300/prove");
    assert_eq!(a.scheme, "http");
    assert_eq!(a.host, "127.0.0.1");
    assert_eq!(port_value(&a.port), Some(6300));
    assert!(is_local(&a.host));
}

#[test]
fn parses_remote_https_url_without_explicit_port() {
    let a = parse_authority("https://prover.example.com/prove");
    assert_eq!(a.scheme, "https");
    assert_eq!(a.host, "prover.example.com");
    assert_eq!(port_value(&a.port), Some(443));
    assert!(!is_local(&a.host));
}

#[test]
fn parses_ipv6_loopback_as_local() {
    let a = parse_authority("http://[::1]:6300/prove");
    assert_eq!(a.host, "::1");
    assert_eq!(port_value(&a.port), Some(6300));
    assert!(is_local(&a.host));
}

#[test]
fn malformed_port_is_surfaced_not_rebound() {
    let a = parse_authority("https://example.com:99999/prove");
    assert!(matches!(a.port, PortKind::Malformed(_)));
}

use r0_metal_doctor::midnight::{
    assess_proof_server, compactc_status, docker_probe, env_var, newest_install, probe, prove_url,
    render_human, routing_var_names, MidnightReport,
};
use r0_metal_doctor::sanitize::HostIdentity;
use r0_metal_doctor::target::ValidationStatus;

fn tester() -> HostIdentity {
    HostIdentity { home: Some("/home/tester".to_string()), user: Some("tester".to_string()) }
}

fn quiet_report() -> MidnightReport {
    let host = tester();
    let (url, source) = prove_url(None);
    let parsed = parse_authority(&url);
    let server = assess_proof_server(&url, source, &parsed, false, None, &host);
    let env = routing_var_names().into_iter().map(|n| env_var(n, None, &host)).collect();
    probe(compactc_status(None, None, &host), server, docker_probe(false, None), env)
}

#[test]
fn report_never_offers_a_metal_lane() {
    let r = quiet_report();
    assert!(r.metal_lane.contains("Structurally impossible"));
    assert_eq!(r.compute_lane.split_whitespace().next(), Some("cpu"));
    assert!(!format!("{r:?}").contains("metal-observed"));
    assert!(!render_human(&r).contains("metal-observed"));
}

#[test]
fn prove_url_prefers_a_non_empty_environment_value() {
    let (u, s) = prove_url(None);
    assert_eq!(u, "http://127.0.0.1:6300/prove");
    assert_eq!(s, "default (no ZKF_MIDNIGHT_PROOF_SERVER_PROVE_URL set)");
    let (u, _) = prove_url(Some(String::new()));
    assert_eq!(u, "http://127.0.0.1:6300/prove");
    let (u, s) = prove_url(Some("https://p.example/prove".to_string()));
    assert_eq!(u, "https://p.example/prove");
    assert_eq!(s, "env: ZKF_MIDNIGHT_PROOF_SERVER_PROVE_URL");
}

#[test]
fn url_without_scheme_or_port_falls_back_to_http_defaults() {
    let a = parse_authority("example.com:8080/x");
    assert_eq!(a.scheme, "http");
    assert_eq!(a.host, "example.com");
    assert_eq!(port_value(&a.port), Some(8080));
    let b = parse_authority("http://[::1]/prove");
    assert_eq!(b.host, "::1");
    assert!(matches!(b.port, PortKind::Default(80)));
    let c = parse_authority("http://localhost:/prove");
    assert!(matches!(c.port, PortKind::Default(80)));
    let d = parse_authority("http://localhost:abc");
    assert!(matches!(d.port, PortKind::Malformed(ref p) if p == "abc"));
    let e = parse_authority("http://h:+80");
    assert!(matches!(e.port, PortKind::Valid(80)));
    assert!(is_local("0.0.0.0") && is_local("[::1]") && !is_local("127.0.0.2"));
}

#[test]
fn nothing_listening_is_unconfigured() {
    let host = tester();
    let a = parse_authority("http://127.0.0.1:6300/prove");
    let p = assess_proof_server("http://127.0.0.1:6300/prove", "src".into(), &a, false, None, &host);
    assert_eq!(p.status, ValidationStatus::Unconfigured);
    assert_eq!(p.port, 6300);
    assert_eq!(p.locality, "localhost");
    assert_eq!(p.summary, "nothing listening on 127.0.0.1:6300 — proving lane not set up here");
}

#[test]
fn local_answer_is_reachable_never_validated() {
    let host = tester();
    let a = parse_authority("http://localhost:6300/prove");
    let p = assess_proof_server(
        "http://localhost:6300/prove",
        "src".into(),
        &a,
        true,
        Some("HTTP/1.1 200 OK".into()),
        &host,
    );
    assert_eq!(p.status, ValidationStatus::Reachable);
    assert_eq!(p.health_status_line.as_deref(), Some("HTTP/1.1 200 OK"));
    assert_eq!(p.summary, "reachable on localhost:6300 (GET /health → HTTP/1.1 200 OK)");
}

#[test]
fn remote_answer_is_round_trip_only_and_https_gets_no_health() {
    let host = tester();
    let a = parse_authority("https://prover.example.com/prove");
    let p = assess_proof_server(
        "https://prover.example.com/prove",
        "src".into(),
        &a,
        true,
        Some("ignored".into()),
        &host,
    );
    assert_eq!(p.status, ValidationStatus::Remote);
    assert_eq!(p.locality, "remote");
    assert_eq!(p.health_status_line, None);
    assert_eq!(p.summary, "prover.example.com:443 reachable; round-trip only, not locally observed");
}

#[test]
fn malformed_port_is_reported_and_not_probed() {
    let host = tester();
    let a = parse_authority("https://example.com:99999/prove");
    let p = assess_proof_server("https://example.com:99999/prove", "src".into(), &a, true, None, &host);
    assert_eq!(p.port, 0);
    assert!(!p.tcp_listening);
    assert_eq!(p.status, ValidationStatus::Unconfigured);
    assert_eq!(p.summary, "URL has a malformed port ('99999') — not probed");
}

#[test]
fn prove_url_is_redacted_in_the_probe() {
    let host = tester();
    let url = "http://127.0.0.1:6300/home/tester/prove";
    let a = parse_authority(url);
    let p = assess_proof_server(url, "src".into(), &a, false, None, &host);
    assert_eq!(p.prove_url, "http://127.0.0.1:6300~/prove");
}

#[test]
fn docker_lists_only_proof_server_containers() {
    let d = docker_probe(false, None);
    assert!(!d.docker_available);
    assert!(d.note.starts_with("docker not found"));
    let ps = "postgres db Up\n midnightntwrk/proof-server:4 ps Up 2h \nMidnight-Node node Up\n";
    let d = docker_probe(true, Some(ps.to_string()));
    assert_eq!(
        d.proof_server_containers,
        vec!["midnightntwrk/proof-server:4 ps Up 2h".to_string(), "Midnight-Node node Up".to_string()]
    );
    assert!(d.note.starts_with("Proof-server container(s) found"));
    let d = docker_probe(true, Some("postgres db Up\n".to_string()));
    assert!(d.proof_server_containers.is_empty());
    assert!(d.note.starts_with("docker is available but no Midnight proof-server container"));
}

#[test]
fn newest_install_picks_the_first_greatest_version() {
    let c = |v: &str, p: &str| (v.to_string(), p.to_string());
    assert_eq!(newest_install(&vec![]), None);
    let cands = vec![c("0.24.0", "a"), c("0.25.0", "b"), c("0.25.0", "c")];
    assert_eq!(newest_install(&cands), Some(1));
    // versions compare as text, as directory names do
    let cands = vec![c("0.25.0", "a"), c("0.3.0", "b")];
    assert_eq!(newest_install(&cands), Some(1));
}

#[test]
fn compactc_status_prefers_path_then_install() {
    let host = tester();
    let s = compactc_status(Some("compactc 0.25.0".into()), None, &host);
    assert!(s.found);
    assert_eq!(s.path.as_deref(), Some("compactc (on PATH)"));
    let s = compactc_status(
        None,
        Some((None, "/home/tester/.compact/versions/0.25.0/aarch64-darwin/compactc".into())),
        &host,
    );
    assert!(s.found);
    assert_eq!(s.version, None);
    assert_eq!(s.path.as_deref(), Some("~/.compact/versions/0.25.0/aarch64-darwin/compactc"));
    let s = compactc_status(None, None, &host);
    assert!(!s.found);
    assert!(s.note.starts_with("compactc not found"));
}

#[test]
fn env_var_is_set_only_when_non_empty_and_is_redacted() {
    let host = tester();
    let v = env_var("X", Some(String::new()), &host);
    assert!(!v.set);
    assert_eq!(v.value.as_deref(), Some(""));
    let v = env_var("X", Some("/home/tester/url".into()), &host);
    assert!(v.set);
    assert_eq!(v.value.as_deref(), Some("~/url"));
    let v = env_var("X", None, &host);
    assert!(!v.set && v.value.is_none());
}

#[test]
fn notes_follow_what_the_probes_found() {
    let r = quiet_report();
    assert_eq!(r.notes.len(), 3);
    assert!(r.notes[0].starts_with("Nothing is listening on the prove URL"));
    assert!(r.notes[1].starts_with("Midnight is a classical"));
    assert!(r.notes[2].starts_with("This observer does not parse"));
}

#[test]
fn human_rendering_shows_each_section() {
    let out = render_human(&quiet_report());
    assert!(out.starts_with("midnight proving target\n  finding             Midnight proving is CPU-only"));
    assert!(out.contains("\ncompactc            not found\n"));
    assert!(out.contains("  prove url           http://127.0.0.1:6300/prove  (default (no ZKF_MIDNIGHT_PROOF_SERVER_PROVE_URL set))\n"));
    assert!(out.contains("  status              [UNCONFIGURED] nothing listening on 127.0.0.1:6300"));
    assert!(out.contains("\ndocker              not found\n"));
    assert!(out.contains("  ZKF_MIDNIGHT_PROOF_SERVER_PROVE_URL        unset\n"));
    assert!(out.ends_with("not ready.\n  - Midnight is a classical, trusted-setup pairing SNARK (NOT post-quantum, NOT a STARK). GPU proving for Midnight exists only as a third-party NVIDIA-CUDA fork on Linux — never on Apple Silicon.\n  - This observer does not parse the proof server's verbose logs: no -v log schema has been verified firsthand, so any log-lane parser is left as an explicit experimental slot.\n"));
}

#[test]
fn rendered_rows_appear_in_order() {
    let host = tester();
    let (url, source) = prove_url(None);
    let parsed = parse_authority(&url);
    let server = assess_proof_server(&url, source, &parsed, true, Some("HTTP/1.1 200 OK".into()), &host);
    let docker = docker_probe(true, Some("a/proof-server:1 one Up\nb/proof-server:2 two Up\n".into()));
    let env = routing_var_names().into_iter().map(|n| env_var(n, None, &host)).collect();
    let r = probe(compactc_status(None, None, &host), server, docker, env);
    let out = render_human(&r);
    assert!(out.starts_with("midnight proving target\n"));
    assert!(out.ends_with('\n'));
    let rows: Vec<String> = vec![
        format!("  metal lane          [N/A] {}\n", r.metal_lane),
        "  status              [REACHABLE] reachable on 127.0.0.1:6300 (GET /health → HTTP/1.1 200 OK)\n".to_string(),
        "  container           a/proof-server:1 one Up\n".to_string(),
        "  container           b/proof-server:2 two Up\n".to_string(),
        format!("  - {}\n", r.notes[0]),
        format!("  - {}\n", r.notes[r.notes.len() - 1]),
    ];
    let mut from = 0;
    for row in &rows {
        let at = out[from..].find(row.as_str()).map(|p| p + from);
        assert!(at.is_some(), "{row}");
        from = at.unwrap() + row.len();
    }
}
