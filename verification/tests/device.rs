use r0_metal_doctor::device::{highest_family, no_default_device, probe};

#[test]
fn without_metal_every_measurement_is_absent() {
    let d = probe();
    assert!(!d.metal_available);
    assert!(d.device_name.is_none() && d.registry_id.is_none() && d.apple_gpu_family.is_none());
    assert_eq!(d.note.as_deref(), Some("not macOS — Metal does not exist on this platform"));
    let d = no_default_device();
    assert_eq!(
        d.note.as_deref(),
        Some("no system default Metal device — GPU proving is impossible on this host")
    );
}

#[test]
fn highest_family_is_the_newest_supported() {
    assert_eq!(highest_family(&vec![false, false, true, true, true]).as_deref(), Some("apple7"));
    assert_eq!(highest_family(&vec![true, true, true, true, true]).as_deref(), Some("apple9"));
    assert_eq!(highest_family(&vec![false, false, false, false, true]).as_deref(), Some("apple5"));
    assert_eq!(highest_family(&vec![false; 5]), None);
}

#[test]
fn shareable_copy_drops_only_the_registry_id() {
    let mut d = probe();
    d.registry_id = Some(42);
    d.device_name = Some("GPU".into());
    let s = d.shareable(true);
    assert_eq!(s.registry_id, None);
    assert_eq!(s.device_name.as_deref(), Some("GPU"));
    assert_eq!(d.shareable(false).registry_id, Some(42));
}

#[test]
fn device_listing_shows_measured_rows_only() {
    let out = probe().render_human(&None, &None);
    assert_eq!(out, "metal device\n  none — not macOS — Metal does not exist on this platform\n");
    let mut d = probe();
    d.metal_available = true;
    d.device_name = Some("Apple M4 Max".into());
    d.unified_memory = Some(true);
    d.apple_gpu_family = Some("apple9".into());
    d.max_buffer_length_bytes = Some(1);
    assert_eq!(
        d.render_human(&None, &Some("0.0".into())),
        "metal device\n  name                Apple M4 Max\n  unified memory      true\n  max buffer          0.0 GB\n  gpu family          apple9\n"
    );
    d.device_name = None;
    d.unified_memory = None;
    d.apple_gpu_family = None;
    assert_eq!(
        d.render_human(&Some("38.7".into()), &None),
        "metal device\n  name                ?\n  unified memory      ?\n  working set (rec.)  38.7 GB\n"
    );
}
