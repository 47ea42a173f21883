use peter_hook::debug::{disable, disable_trace, enable, enable_trace, is_enabled, is_trace_enabled, DebugFlags};

#[test]
fn test_debug_initially_disabled() {
    let mut flags = DebugFlags::new();
    // Reset state
    disable(&mut flags);
    assert!(!is_enabled(&flags), "Debug should be disabled by default");
}

#[test]
fn test_debug_enable() {
    let mut flags = DebugFlags::new();
    disable(&mut flags);
    assert!(!is_enabled(&flags));

    enable(&mut flags);
    assert!(is_enabled(&flags), "Debug should be enabled after enable()");

    // Clean up
    disable(&mut flags);
}

#[test]
fn test_debug_enable_disable_toggle() {
    let mut flags = DebugFlags::new();
    disable(&mut flags);
    assert!(!is_enabled(&flags));

    enable(&mut flags);
    assert!(is_enabled(&flags));

    disable(&mut flags);
    assert!(!is_enabled(&flags));

    enable(&mut flags);
    assert!(is_enabled(&flags));

    // Clean up
    disable(&mut flags);
}

#[test]
fn test_debug_multiple_enables() {
    let mut flags = DebugFlags::new();
    disable(&mut flags);

    enable(&mut flags);
    enable(&mut flags);
    enable(&mut flags);

    assert!(
        is_enabled(&flags),
        "Should remain enabled after multiple enable() calls"
    );

    // Clean up
    disable(&mut flags);
}

#[test]
fn test_trace_toggle() {
    let mut flags = DebugFlags::new();
    assert!(!is_trace_enabled(&flags));
    enable_trace(&mut flags);
    assert!(is_trace_enabled(&flags));
    assert!(!is_enabled(&flags));
    disable_trace(&mut flags);
    assert!(!is_trace_enabled(&flags));
}
