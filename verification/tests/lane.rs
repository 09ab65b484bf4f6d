use r0_metal_doctor::lane::{exit_code, scan, Lane, LaneCounts, Verdict};

fn counts(s: &str) -> LaneCounts {
    scan(s).0
}

#[test]
fn metal_line_yields_metal_verdict() {
    let (c, m) = scan("INFO risc0: using metal prover for segment\n");
    assert_eq!(c.verdict(), Verdict::Observed { lane: Lane::Metal });
    assert_eq!(m.len(), 1);
}

#[test]
fn cpu_line_yields_cpu_verdict() {
    let c = counts("DEBUG prove: falling back to cpu hal\n");
    assert_eq!(c.verdict(), Verdict::Observed { lane: Lane::Cpu });
}

#[test]
fn lane_word_without_a_hal_marker_is_ignored() {
    let (c, m) = scan("Compiling metal v0.32.0\nFinished release target\n");
    assert_eq!(c.verdict(), Verdict::Indeterminate);
    assert!(m.is_empty());
}

#[test]
fn ansi_is_stripped_before_matching_and_storing() {
    let line = "\u{1b}[2m..\u{1b}[0m DEBUG \u{1b}[2mrisc0_zkp::hal::metal\u{1b}[0m: io: 32768\n";
    let (c, m) = scan(line);
    assert_eq!(c.verdict(), Verdict::Observed { lane: Lane::Metal });
    assert!(!m[0].contains('\u{1b}'));
    assert!(m[0].contains("risc0_zkp::hal::metal"));
}

#[test]
fn compiler_diagnostic_pointing_at_metal_rs_is_ignored() {
    // A build failure whose error points at `risc0-zkp/src/hal/metal.rs:47`
    // must NOT be read as metal-observed (it is `hal/metal`, not the
    // `hal::metal` module path).
    let diag = "  --> ~/.cargo/registry/src/index.crates.io-1949cf8c/risc0-zkp-3.0.4/src/hal/metal.rs:47:26\n";
    let (c, m) = scan(diag);
    assert_eq!(c.verdict(), Verdict::Indeterminate);
    assert!(m.is_empty());
}

#[test]
fn real_tracing_lane_line_still_counts() {
    let line = "2026-06-13T20:59:57Z DEBUG risc0_circuit_rv32im::prove::hal::metal: witgen(metal-hybrid): 32768\n";
    let (c, _) = scan(line);
    assert_eq!(c.verdict(), Verdict::Observed { lane: Lane::Metal });
}

#[test]
fn cpu_executor_line_does_not_taint_a_metal_run() {
    // The RISC-V executor always runs on CPU regardless of the proving HAL. A
    // `prove::executor: … cpu …` line must NOT inject a CPU lane.
    let log = "\
2026 DEBUG risc0_zkp::prove::executor: cpu segments=4\n\
2026 DEBUG risc0_circuit_rv32im::prove::hal::metal: witgen(metal-hybrid): 32768\n\
2026 DEBUG risc0_zkp::hal::metal: io: 32768\n";
    let c = counts(log);
    assert_eq!(
        c,
        LaneCounts {
            metal: 2,
            cuda: 0,
            cpu: 0
        }
    );
    assert_eq!(c.verdict(), Verdict::Observed { lane: Lane::Metal });
}

#[test]
fn lane_line_with_source_location_still_counts() {
    // A real lane line may embed a span location like `metal.rs:88:`.
    let line = "DEBUG risc0_zkp::hal::metal metal.rs:88: io: 32768\n";
    let (c, _) = scan(line);
    assert_eq!(c.verdict(), Verdict::Observed { lane: Lane::Metal });
}

#[test]
fn dominant_lane_is_not_buried_by_a_minority_line() {
    // 3 metal lines + 1 cpu line = a hybrid run; dominant is metal.
    let log = "\
prover hal::metal witgen\n\
prover hal::metal accumulate\n\
prover hal::metal fri\n\
prover hal::cpu eval_check\n";
    let c = counts(log);
    assert_eq!(
        c,
        LaneCounts {
            metal: 3,
            cuda: 0,
            cpu: 1
        }
    );
    match c.verdict() {
        Verdict::Mixed {
            dominant,
            ref lanes,
        } => {
            assert_eq!(dominant, Lane::Metal);
            assert_eq!(lanes, &vec![Lane::Metal, Lane::Cpu]);
        }
        other => panic!("expected Mixed dominant metal, got {other:?}"),
    }
}

#[test]
fn exit_codes_match_the_scheme() {
    let metal = Verdict::Observed { lane: Lane::Metal };
    let cpu = Verdict::Observed { lane: Lane::Cpu };
    let indet = Verdict::Indeterminate;

    // no expectation: any observed lane is success; indeterminate is 2
    assert_eq!(exit_code(&metal, None), 0);
    assert_eq!(exit_code(&indet, None), 2);
    // expect metal: metal ok, cpu mismatch, indeterminate still 2
    assert_eq!(exit_code(&metal, Some(Lane::Metal)), 0);
    assert_eq!(exit_code(&cpu, Some(Lane::Metal)), 1);
    assert_eq!(exit_code(&indet, Some(Lane::Metal)), 2);
}

#[test]
fn expect_matches_the_dominant_lane_of_a_mixed_run() {
    // --expect compares against the DOMINANT lane of a hybrid run.
    let mixed = Verdict::Mixed {
        dominant: Lane::Metal,
        lanes: vec![Lane::Metal, Lane::Cpu],
    };
    assert_eq!(exit_code(&mixed, Some(Lane::Metal)), 0);
    assert_eq!(exit_code(&mixed, Some(Lane::Cpu)), 1);
}

use r0_metal_doctor::lane::{EXIT_ERROR, EXIT_INDETERMINATE, EXIT_MISMATCH, EXIT_OK, MATCHED_LINES_CAP};

#[test]
fn verdict_names_the_lane_with_most_lines_and_breaks_ties_by_rank() {
    let v = LaneCounts { metal: 1, cuda: 0, cpu: 3 }.verdict();
    assert_eq!(v, Verdict::Mixed { dominant: Lane::Cpu, lanes: vec![Lane::Cpu, Lane::Metal] });
    assert_eq!(v.label(), "mixed — dominant cpu (also: metal)");
    assert_eq!(v.effective_lane(), Some(Lane::Cpu));
    let v = LaneCounts { metal: 2, cuda: 2, cpu: 2 }.verdict();
    assert_eq!(v, Verdict::Mixed { dominant: Lane::Metal, lanes: vec![Lane::Metal, Lane::Cuda, Lane::Cpu] });
    let v = LaneCounts { metal: 0, cuda: 5, cpu: 0 }.verdict();
    assert_eq!(v, Verdict::Observed { lane: Lane::Cuda });
    assert_eq!(v.label(), "cuda-observed");
}

#[test]
fn no_lane_lines_means_indeterminate() {
    let v = LaneCounts::default().verdict();
    assert_eq!(v, Verdict::Indeterminate);
    assert_eq!(v.effective_lane(), None);
    assert_eq!(
        v.label(),
        "indeterminate — no prover-selection lines captured; rerun with RUST_LOG=debug"
    );
    assert_eq!(LaneCounts { metal: 1, cuda: 2, cpu: 3 }.total(), 6);
}

#[test]
fn exit_code_constants_are_distinct() {
    assert_eq!((EXIT_OK, EXIT_MISMATCH, EXIT_INDETERMINATE, EXIT_ERROR), (0, 1, 2, 3));
    let cuda = Verdict::Observed { lane: Lane::Cuda };
    assert_eq!(exit_code(&cuda, Some(Lane::Cpu)), EXIT_MISMATCH);
    assert_eq!(exit_code(&Verdict::Indeterminate, Some(Lane::Cpu)), EXIT_INDETERMINATE);
}

#[test]
fn unmarked_and_build_lines_move_no_count() {
    let base = "DEBUG risc0_zkp::hal::metal: io\n";
    let with_noise = "Compiling risc0-zkp (hal::cpu)\nerror: hal::cuda broke\nplain line\nDEBUG risc0_zkp::hal::metal: io\n";
    assert_eq!(counts(base), counts(with_noise));
    assert_eq!(scan(base).1, scan(with_noise).1);
}

#[test]
fn marker_phrases_and_case_are_recognised() {
    let c = counts("Using CUDA Prover\nmetal hal ready\ncpu fallback engaged\nCPU HAL\n");
    assert_eq!(c, LaneCounts { metal: 1, cuda: 1, cpu: 2 });
}

#[test]
fn matched_lines_are_capped_in_lane_order() {
    let mut log = String::new();
    for _ in 0..50 {
        log.push_str("DEBUG hal::cpu: x\n");
    }
    for _ in 0..20 {
        log.push_str("  DEBUG hal::metal: y  \n");
    }
    let (c, m) = scan(&log);
    assert_eq!(c, LaneCounts { metal: 20, cuda: 0, cpu: 50 });
    assert_eq!(m.len(), MATCHED_LINES_CAP);
    assert_eq!(m[0], "DEBUG hal::metal: y");
    assert_eq!(m[19], "DEBUG hal::metal: y");
    assert_eq!(m[20], "DEBUG hal::cpu: x");
}

#[test]
fn lane_names() {
    assert_eq!(Lane::Metal.as_str(), "metal");
    assert_eq!(Lane::Cuda.as_str(), "cuda");
    assert_eq!(Lane::Cpu.as_str(), "cpu");
}

#[test]
fn matched_lines_show_every_count_below_the_cap() {
    let log = "DEBUG hal::cpu: a\nDEBUG hal::metal: b\nnoise\nDEBUG hal::cuda: c\nDEBUG hal::metal: d\n";
    let (c, m) = scan(log);
    assert_eq!(c, LaneCounts { metal: 2, cuda: 1, cpu: 1 });
    assert_eq!(
        m,
        vec!["DEBUG hal::metal: b", "DEBUG hal::metal: d", "DEBUG hal::cuda: c", "DEBUG hal::cpu: a"]
    );
    assert_eq!(m.len(), c.total());
}
