use r0_metal_doctor::device::{probe, DeviceReport};
use r0_metal_doctor::envprobe::EnvReport;
use r0_metal_doctor::report::Doctor;

fn env(r0vm: Option<&str>) -> EnvReport {
    EnvReport::from_facts(
        "macos".into(),
        "aarch64".into(),
        None,
        None,
        None,
        None,
        r0vm.map(String::from),
        None,
        Some("ipc".into()),
        None,
        false,
    )
}

#[test]
fn notes_without_device_or_toolchain() {
    let d = Doctor { device: probe(), env: env(None) };
    let n = d.notes();
    assert_eq!(n.len(), 4);
    assert_eq!(n[0], "no Metal device — any GPU-proving question ends here");
    assert!(n[1].starts_with("risc0 toolchain not detected"));
    assert!(n[2].starts_with("RISC0_PROVER=ipc explicitly overrides"));
    assert_eq!(
        n[3],
        "risc0 version not detected — install the toolchain (rzup) and run `prove` to observe the lane."
    );
}

#[test]
fn notes_with_unified_device_and_toolchain() {
    let dev = DeviceReport {
        metal_available: true,
        device_name: Some("Apple M4".into()),
        unified_memory: Some(true),
        recommended_max_working_set_bytes: None,
        max_buffer_length_bytes: None,
        max_threads_per_threadgroup: None,
        apple_gpu_family: None,
        registry_id: None,
        note: None,
    };
    let d = Doctor { device: dev, env: env(Some("risc0-r0vm 3.0.5")) };
    let n = d.notes();
    assert_eq!(
        n[0],
        "Metal device present with unified memory (Apple M4) — the hardware side of GPU proving is available"
    );
    assert!(n[1].starts_with("risc0 toolchain detected"));
    assert!(n.last().unwrap().contains("CPU"));
}
