use r0_metal_doctor::target::{by_id, ValidationStatus};

#[test]
fn midnight_has_no_validated_metal_lane() {
    let midnight = by_id("midnight").expect("midnight target exists");
    let metal = midnight
        .lanes
        .iter()
        .find(|l| l.name == "metal")
        .expect("metal lane listed");
    assert_eq!(metal.status, ValidationStatus::NotApplicable);
    assert!(
        !midnight
            .lanes
            .iter()
            .any(|l| l.name == "metal" && l.status == ValidationStatus::Validated),
        "Midnight must never have a Validated Metal lane"
    );
}

#[test]
fn risc0_metal_lane_is_validated() {
    let risc0 = by_id("risc0").expect("risc0 target exists");
    let metal = risc0.lanes.iter().find(|l| l.name == "metal").unwrap();
    assert_eq!(metal.status, ValidationStatus::Validated);
}

#[test]
fn unknown_target_is_none() {
    assert!(by_id("snark-machine").is_none());
}

use r0_metal_doctor::target::{all, render_targets};

#[test]
fn registry_listing_shows_badges_in_columns() {
    let out = render_targets(&all());
    assert!(out.starts_with("proving targets (2 known)\n\n"));
    assert!(out.contains("]\n  CPU-only — Metal is not applicable on Apple Silicon.\n"));
    assert!(out.contains("\n    [VALIDATED]    metal Observable firsthand"));
    assert!(out.contains("\n    [N/A]          metal Structurally impossible on a Mac"));
    assert!(out.contains("\n    [EXPERIMENTAL] cuda  A third-party CUDA fork"));
    assert!(out.contains("  observe: r0-metal-doctor midnight\n\nBadges: [VALIDATED]"));
    assert!(out.ends_with("        [REMOTE] round-trip only · [EXPERIMENTAL] unverified here\n"));
    let one = render_targets(&vec![by_id("risc0").unwrap()]);
    assert!(one.starts_with("proving targets (1 known)\n\n"));
    assert!(render_targets(&vec![]).starts_with("proving targets (0 known)\n\nBadges:"));
}

#[test]
fn badges_name_each_status() {
    assert_eq!(ValidationStatus::Validated.badge(), "[VALIDATED]");
    assert_eq!(ValidationStatus::NotApplicable.badge(), "[N/A]");
    assert_eq!(ValidationStatus::Unconfigured.badge(), "[UNCONFIGURED]");
    assert_eq!(ValidationStatus::Reachable.badge(), "[REACHABLE]");
    assert_eq!(ValidationStatus::Remote.badge(), "[REMOTE]");
    assert_eq!(ValidationStatus::Experimental.badge(), "[EXPERIMENTAL]");
}
