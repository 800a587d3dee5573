use oss_lma::capture_state::{CapturePhase, CaptureState, SourceReadiness};

#[test]
fn follows_the_meeting_lifecycle() {
    let mut state = CaptureState::default();

    state.begin_preflight().unwrap();
    assert_eq!(state.snapshot().phase, CapturePhase::Preflight);
    state.begin_starting().unwrap();
    assert_eq!(state.snapshot().phase, CapturePhase::Starting);
    state
        .activate(
            SourceReadiness {
                system: true,
                microphone: true,
            },
            "meeting-1".into(),
            "/recordings/meeting-1/audio.wav".into(),
        )
        .unwrap();
    assert_eq!(state.snapshot().phase, CapturePhase::Active);
    state.pause().unwrap();
    assert_eq!(state.snapshot().phase, CapturePhase::Paused);
    state.resume().unwrap();
    assert_eq!(state.snapshot().phase, CapturePhase::Active);
    state.begin_stopping().unwrap();
    assert_eq!(state.snapshot().phase, CapturePhase::Stopping);
    state.finish_stopping().unwrap();
    assert_eq!(state.snapshot().phase, CapturePhase::Idle);
}

#[test]
fn refuses_activation_until_both_sources_are_ready() {
    let mut state = CaptureState::default();
    state.begin_preflight().unwrap();
    state.begin_starting().unwrap();

    let error = state
        .activate(
            SourceReadiness {
                system: true,
                microphone: false,
            },
            "meeting-1".into(),
            "/recordings/meeting-1/audio.wav".into(),
        )
        .unwrap_err();

    assert_eq!(error, "both capture sources must be active");
    assert_eq!(state.snapshot().phase, CapturePhase::Starting);
}

#[test]
fn failure_is_terminal_until_a_new_start_attempt() {
    let mut state = CaptureState::default();
    state.begin_preflight().unwrap();
    state.fail("microphone permission denied".into());

    assert_eq!(state.snapshot().phase, CapturePhase::Failed);
    assert_eq!(
        state.snapshot().error.as_deref(),
        Some("microphone permission denied")
    );
    assert!(state.pause().is_err());

    state.begin_preflight().unwrap();
    assert_eq!(state.snapshot().phase, CapturePhase::Preflight);
    assert!(state.snapshot().error.is_none());
}

#[test]
fn an_active_snapshot_names_its_meeting_and_recording() {
    let mut state = CaptureState::new();
    state.begin_preflight().unwrap();
    state.begin_starting().unwrap();
    state
        .activate(
            SourceReadiness {
                system: true,
                microphone: true,
            },
            "meeting-7".into(),
            "/data/recordings/meeting-7/audio.wav".into(),
        )
        .unwrap();
    let snapshot = state.snapshot();
    assert_eq!(snapshot.meeting_id.as_deref(), Some("meeting-7"));
    assert_eq!(
        snapshot.recording_path.as_deref(),
        Some("/data/recordings/meeting-7/audio.wav")
    );
    assert!(snapshot.system_active && snapshot.microphone_active);
}

#[test]
fn a_superseded_start_neither_activates_nor_fails() {
    let mut state = CaptureState::new();
    state.begin_preflight().unwrap();
    let first = state.generation();
    state.fail("cancelled".into());
    state.begin_preflight().unwrap();
    state.begin_starting().unwrap();

    assert!(!state.fail_if_current(first, "late failure".into()));
    assert_eq!(state.snapshot().phase, CapturePhase::Starting);
    assert!(state
        .activate_if_current(
            first,
            SourceReadiness {
                system: true,
                microphone: true,
            },
            "meeting-1".into(),
            "/r/audio.wav".into(),
        )
        .is_err());
    assert_eq!(state.snapshot().phase, CapturePhase::Starting);
}

#[test]
fn every_phase_has_its_wire_name() {
    assert_eq!(CapturePhase::Idle.name(), "Idle");
    assert_eq!(CapturePhase::Active.name(), "Active");
    assert_eq!(CapturePhase::Failed.name(), "Failed");
}

#[test]
fn an_illegal_step_names_the_current_phase() {
    let mut state = CaptureState::new();
    let error = state.pause().unwrap_err();
    assert!(error.contains("Idle"), "{error}");
    assert_eq!(state.snapshot().phase, CapturePhase::Idle);
}
