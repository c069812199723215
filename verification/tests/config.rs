use dmlog::config::{deepmind_enabled, disable_deepmind, enable_deepmind, RecorderConfig};

#[test]
fn legacy_output_is_off_by_default() {
    let cfg = RecorderConfig::new();
    assert!(!deepmind_enabled(&cfg));
}

#[test]
fn legacy_output_can_be_switched() {
    let mut cfg = RecorderConfig::new();
    enable_deepmind(&mut cfg);
    assert!(deepmind_enabled(&cfg));
    enable_deepmind(&mut cfg);
    assert!(deepmind_enabled(&cfg));
    disable_deepmind(&mut cfg);
    assert!(!deepmind_enabled(&cfg));
    disable_deepmind(&mut cfg);
    assert!(!deepmind_enabled(&cfg));
}
