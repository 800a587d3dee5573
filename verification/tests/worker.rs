use oss_lma::audio::{DeviceInfo, DeviceKind, PermissionState};
use oss_lma::capture::{CaptureDeviceKind, CaptureDeviceSelection, PermissionStatus};
use oss_lma::capture_state::SourceReadiness;
use oss_lma::macos::devices::DeviceSelection;
use oss_lma::macos::{SourceEvent, SourceKind};
use oss_lma::mixer::{SourceChannel, TICK_FRAMES};
use oss_lma::worker::{
    capture_device, first_stop_error, native_selection, pcm_samples, permission_status,
    source_event_action, SourceEventAction, WorkerSession,
};

fn selection() -> CaptureDeviceSelection {
    CaptureDeviceSelection {
        system_output_id: None,
        microphone_id: Some("usb-mic".into()),
    }
}

#[test]
fn a_link_may_start_only_for_the_running_start() {
    let mut session = WorkerSession::new();
    assert_eq!(
        session.check_link_start(1).unwrap_err(),
        "capture start was superseded"
    );
    session.sources_started(
        selection(),
        1,
        SourceReadiness {
            system: true,
            microphone: true,
        },
    );
    assert!(session.check_link_start(1).is_ok());
    assert!(session.check_link_start(2).is_err());
    assert_eq!(session.active_generation(), Some(1));
}

#[test]
fn sources_are_adopted_only_when_both_came_up() {
    let mut session = WorkerSession::new();
    let readiness = session.sources_started(
        selection(),
        3,
        SourceReadiness {
            system: true,
            microphone: false,
        },
    );
    assert!(!readiness.microphone);
    assert_eq!(session.active_generation(), None);
    assert_eq!(session.selection().microphone_id, None);
}

#[test]
fn pause_and_resume_follow_the_link() {
    let mut session = WorkerSession::new();
    assert_eq!(
        session.link_paused(None).unwrap_err(),
        "meeting link is not active"
    );
    assert_eq!(
        session.link_paused(Some(Err("send failed".into()))).unwrap_err(),
        "send failed"
    );
    session.link_paused(Some(Ok(()))).unwrap();
    assert!(session.mix(SourceChannel::System, &vec![1; TICK_FRAMES]).is_empty());
    assert!(session.mix(SourceChannel::Microphone, &vec![1; TICK_FRAMES]).is_empty());
    session.link_resumed(Some(Ok(()))).unwrap();
    session.mix(SourceChannel::System, &vec![1; TICK_FRAMES]);
    assert_eq!(
        session.mix(SourceChannel::Microphone, &vec![2; TICK_FRAMES]).len(),
        1
    );
}

#[test]
fn stopping_sources_reports_the_first_failure_and_ends_the_session() {
    let mut session = WorkerSession::new();
    session.sources_started(
        selection(),
        4,
        SourceReadiness {
            system: true,
            microphone: true,
        },
    );
    let result = session.sources_stopped(
        Some(Ok(())),
        Some(Err("microphone stop failed".into())),
    );
    assert_eq!(result.unwrap_err(), "microphone stop failed");
    assert_eq!(session.active_generation(), None);
    assert_eq!(
        first_stop_error(Some(Err("a".into())), Some(Err("b".into()))).unwrap_err(),
        "a"
    );
    assert!(first_stop_error(None, None).is_ok());
}

#[test]
fn source_events_rebuild_fail_or_pass() {
    assert_eq!(
        source_event_action(&selection(), SourceEvent::RebuildRequired(SourceKind::Microphone)),
        SourceEventAction::Rebuild(
            SourceKind::Microphone,
            DeviceSelection::DeviceId("usb-mic".into())
        )
    );
    assert_eq!(
        source_event_action(&selection(), SourceEvent::RebuildRequired(SourceKind::System)),
        SourceEventAction::Rebuild(SourceKind::System, DeviceSelection::Default)
    );
    assert_eq!(
        source_event_action(
            &selection(),
            SourceEvent::Error(SourceKind::System, "stream died".into())
        ),
        SourceEventAction::Fail("stream died".into())
    );
    assert_eq!(
        source_event_action(&selection(), SourceEvent::Started(SourceKind::System)),
        SourceEventAction::Ignore
    );
}

#[test]
fn recorded_samples_are_the_mixed_samples() {
    let mut session = WorkerSession::new();
    session.mix(SourceChannel::System, &vec![-2; TICK_FRAMES]);
    let chunks = session.mix(SourceChannel::Microphone, &vec![300; TICK_FRAMES]);
    let samples = pcm_samples(&chunks[0].pcm);
    assert_eq!(samples.len(), 2 * TICK_FRAMES);
    assert_eq!(samples[0..4], [-2, 300, -2, 300]);
    assert_eq!(pcm_samples(&vec![0x34, 0x12, 0xff]), vec![0x1234]);
}

#[test]
fn platform_values_map_to_capture_values() {
    assert_eq!(permission_status(PermissionState::Denied), PermissionStatus::Denied);
    assert_eq!(permission_status(PermissionState::Unknown), PermissionStatus::Unknown);
    let device = capture_device(DeviceInfo {
        id: "mic".into(),
        name: "Mic".into(),
        is_default: true,
        kind: DeviceKind::Microphone,
    });
    assert_eq!(device.kind, CaptureDeviceKind::Microphone);
    assert_eq!(device.id, "mic");
    assert_eq!(native_selection(&None), DeviceSelection::Default);
    assert_eq!(
        native_selection(&Some("x".into())),
        DeviceSelection::DeviceId("x".into())
    );
}
