use eva_core::npu::NpuState;

#[test]
fn test_npu_state_starts_clean() {
    let state = NpuState::new();
    assert!(!state.is_initialized());
    assert_eq!(state.outstanding(), 0);
}

#[test]
fn test_npu_tracks_allocations() {
    let mut state = NpuState::new();
    state.mark_initialized();
    state.record_alloc(0x1000);
    state.record_alloc(0); // a failed allocation is not tracked
    state.record_alloc(0x2000);
    assert_eq!(state.outstanding(), 2);

    state.record_free(0x1000);
    assert_eq!(state.outstanding(), 1);
}

#[test]
fn test_npu_shutdown_drains_everything() {
    let mut state = NpuState::new();
    state.mark_initialized();
    state.record_alloc(0x10);
    state.record_alloc(0x20);
    let drained = state.shutdown();
    assert_eq!(drained, vec![0x10, 0x20]);
    assert_eq!(state.outstanding(), 0);
    assert!(!state.is_initialized());
}
