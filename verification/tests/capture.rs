use std::sync::{Arc, Mutex};

use oss_lma::capture::{
    validate_selection, AppCapture, CaptureBackend, CaptureDevice, CaptureDeviceKind,
    CaptureDeviceSelection, LinkOptions, PermissionSnapshot, PermissionStatus, SilentEmitter,
    SnapshotEmitter,
};
use oss_lma::capture_state::{CapturePhase, CaptureSnapshot, SourceReadiness};

fn test_options() -> LinkOptions {
    LinkOptions {
        port: 8765,
        token: "secret".into(),
        diarize_microphone: false,
    }
}

#[derive(Clone, Copy, PartialEq, Eq)]
enum FailurePoint {
    StartSources,
    StartLink,
}

struct FakeBackend {
    permissions: PermissionSnapshot,
    readiness: SourceReadiness,
    actions: Arc<Mutex<Vec<String>>>,
    failure_point: Option<FailurePoint>,
    pending_failure: Option<(u64, String)>,
    pause_error: Option<String>,
    resume_error: Option<String>,
    devices: Vec<CaptureDevice>,
}

impl CaptureBackend for FakeBackend {
    fn permissions(&mut self) -> Result<PermissionSnapshot, String> {
        Ok(self.permissions)
    }

    fn devices(&mut self) -> Result<Vec<CaptureDevice>, String> {
        Ok(self.devices.clone())
    }

    fn start_sources(
        &mut self,
        _selection: &CaptureDeviceSelection,
        generation: u64,
    ) -> Result<SourceReadiness, String> {
        self.actions.lock().unwrap().push("sources:start".into());
        if self.failure_point == Some(FailurePoint::StartSources) {
            self.pending_failure = Some((generation, "source failed during startup".into()));
        }
        Ok(self.readiness)
    }

    fn create_recording_dir(&mut self, dir: &str) -> Result<(), String> {
        self.actions.lock().unwrap().push(format!("dir:create:{dir}"));
        Ok(())
    }

    fn open_recorder(&mut self, path: &str) -> Result<(), String> {
        self.actions
            .lock()
            .unwrap()
            .push(format!("recorder:open:{path}"));
        Ok(())
    }

    fn start_link(
        &mut self,
        call_id: &str,
        _options: &LinkOptions,
        generation: u64,
    ) -> Result<(), String> {
        self.actions
            .lock()
            .unwrap()
            .push(format!("link:start:{call_id}"));
        if self.failure_point == Some(FailurePoint::StartLink) {
            self.pending_failure = Some((generation, "source failed before activation".into()));
        }
        Ok(())
    }

    fn pause_link(&mut self) -> Result<(), String> {
        self.actions.lock().unwrap().push("link:pause".into());
        self.pause_error.clone().map_or(Ok(()), Err)
    }

    fn resume_link(&mut self) -> Result<(), String> {
        self.actions.lock().unwrap().push("link:resume".into());
        self.resume_error.clone().map_or(Ok(()), Err)
    }

    fn end_link(&mut self) -> Result<(), String> {
        self.actions.lock().unwrap().push("link:end".into());
        Ok(())
    }

    fn finish_recorder(&mut self) -> Result<(), String> {
        self.actions.lock().unwrap().push("recorder:finish".into());
        Ok(())
    }

    fn stop_sources(&mut self) -> Result<(), String> {
        self.actions.lock().unwrap().push("sources:stop".into());
        Ok(())
    }

    fn poll_failure(&mut self) -> Option<(u64, String)> {
        self.pending_failure.take()
    }
}

struct Recording(Arc<Mutex<Vec<CaptureSnapshot>>>);

impl SnapshotEmitter for Recording {
    fn emit(&mut self, snapshot: &CaptureSnapshot) {
        self.0.lock().unwrap().push(snapshot.clone());
    }
}

fn backend(
    permissions: PermissionSnapshot,
    readiness: SourceReadiness,
    failure_point: Option<FailurePoint>,
    pause_error: Option<String>,
    resume_error: Option<String>,
    devices: Vec<CaptureDevice>,
) -> (FakeBackend, Arc<Mutex<Vec<String>>>) {
    let actions = Arc::new(Mutex::new(Vec::new()));
    (
        FakeBackend {
            permissions,
            readiness,
            actions: actions.clone(),
            failure_point,
            pending_failure: None,
            pause_error,
            resume_error,
            devices,
        },
        actions,
    )
}

fn both_ready() -> SourceReadiness {
    SourceReadiness {
        system: true,
        microphone: true,
    }
}

fn service(
    permissions: PermissionSnapshot,
    readiness: SourceReadiness,
) -> (AppCapture<FakeBackend, SilentEmitter>, Arc<Mutex<Vec<String>>>) {
    let (backend, actions) = backend(permissions, readiness, None, None, None, Vec::new());
    (AppCapture::with_backend("/app-data".into(), backend), actions)
}

fn service_with_failure(
    failure_point: FailurePoint,
) -> (AppCapture<FakeBackend, SilentEmitter>, Arc<Mutex<Vec<String>>>) {
    let (backend, actions) = backend(
        PermissionSnapshot::granted(),
        both_ready(),
        Some(failure_point),
        None,
        None,
        Vec::new(),
    );
    (AppCapture::with_backend("/app-data".into(), backend), actions)
}

fn created_meeting_resources(actions: &[String]) -> bool {
    actions
        .iter()
        .any(|a| a.starts_with("dir:create:") || a.starts_with("recorder:open:") || a.starts_with("link:start:"))
}

#[test]
fn denied_permissions_prevent_source_start_and_meeting_creation() {
    let (mut service, actions) = service(
        PermissionSnapshot {
            screen_recording: PermissionStatus::Denied,
            microphone: PermissionStatus::Granted,
        },
        both_ready(),
    );

    let error = service.start(test_options()).unwrap_err();

    assert_eq!(error, "capture permissions are not granted");
    assert_eq!(service.status().phase, CapturePhase::Failed);
    assert!(actions.lock().unwrap().is_empty());
}

#[test]
fn one_inactive_source_prevents_call_id_and_recording_creation() {
    let (mut service, actions) = service(
        PermissionSnapshot::granted(),
        SourceReadiness {
            system: true,
            microphone: false,
        },
    );

    let error = service.start(test_options()).unwrap_err();

    assert_eq!(error, "both capture sources must be active");
    assert_eq!(service.status().phase, CapturePhase::Failed);
    assert_eq!(*actions.lock().unwrap(), ["sources:start", "sources:stop"]);
}

#[test]
fn undetermined_permissions_are_requested_by_starting_the_native_sources() {
    let (mut service, actions) = service(
        PermissionSnapshot {
            screen_recording: PermissionStatus::Unknown,
            microphone: PermissionStatus::Unknown,
        },
        SourceReadiness {
            system: false,
            microphone: false,
        },
    );

    let error = service.start(test_options()).unwrap_err();

    assert_eq!(error, "both capture sources must be active");
    assert_eq!(*actions.lock().unwrap(), ["sources:start", "sources:stop"]);
}

#[test]
fn valid_sources_create_one_call_id_and_recording_directory() {
    let (mut service, actions) = service(PermissionSnapshot::granted(), both_ready());

    let snapshot = service.start(test_options()).unwrap();

    let call_id = snapshot.meeting_id.clone().unwrap();
    assert!(uuid::Uuid::parse_str(&call_id).is_ok());
    assert_eq!(
        snapshot.recording_path.as_deref().unwrap(),
        format!("/app-data/recordings/{call_id}/audio.wav")
    );
    let actions = actions.lock().unwrap();
    assert_eq!(
        actions
            .iter()
            .filter(|action| action.starts_with("link:start:"))
            .count(),
        1
    );
    assert_eq!(actions[1], format!("dir:create:/app-data/recordings/{call_id}"));
    assert_eq!(actions[3], format!("link:start:{call_id}"));
    assert_eq!(service.status().phase, CapturePhase::Active);
}

#[test]
fn source_failure_during_startup_stops_before_creating_meeting_resources() {
    let (mut service, actions) = service_with_failure(FailurePoint::StartSources);

    let error = service.start(test_options()).unwrap_err();

    assert_eq!(error, "source failed during startup");
    assert_eq!(*actions.lock().unwrap(), ["sources:start", "sources:stop"]);
    assert!(!created_meeting_resources(&actions.lock().unwrap()));
}

#[test]
fn activation_race_closes_link_recorder_and_sources() {
    let (mut service, actions) = service_with_failure(FailurePoint::StartLink);

    let error = service.start(test_options()).unwrap_err();

    assert_eq!(error, "source failed before activation");
    let actions = actions.lock().unwrap();
    assert_eq!(&actions[4..], ["link:end", "recorder:finish", "sources:stop"]);
    assert_eq!(service.status().phase, CapturePhase::Failed);
}

#[test]
fn rejects_system_output_overrides_that_screen_capture_cannot_honor() {
    let devices = vec![CaptureDevice {
        id: "external-output".into(),
        name: "External Output".into(),
        is_default: false,
        kind: CaptureDeviceKind::SystemOutput,
    }];
    let (backend, _) = backend(
        PermissionSnapshot::granted(),
        both_ready(),
        None,
        None,
        None,
        devices,
    );
    let mut service = AppCapture::with_backend("/app-data".into(), backend);

    let error = service
        .set_devices(CaptureDeviceSelection {
            system_output_id: Some("external-output".into()),
            microphone_id: None,
        })
        .unwrap_err();

    assert_eq!(error, "system audio capture supports the default output only");
}

#[test]
fn pause_forwards_pause_before_exposing_paused_state() {
    let (mut service, actions) = service(PermissionSnapshot::granted(), both_ready());
    service.start(test_options()).unwrap();

    let snapshot = service.pause().unwrap();

    assert_eq!(snapshot.phase, CapturePhase::Paused);
    assert_eq!(actions.lock().unwrap().last().unwrap(), "link:pause");
}

#[test]
fn pause_failure_closes_the_active_session_and_emits_inactive_sources() {
    let (backend, actions) = backend(
        PermissionSnapshot::granted(),
        both_ready(),
        None,
        Some("pause transport failed".into()),
        None,
        Vec::new(),
    );
    let snapshots = Arc::new(Mutex::new(Vec::new()));
    let mut service = AppCapture::with_backend_and_emitter(
        "/app-data".into(),
        backend,
        Recording(snapshots.clone()),
    );
    service.start(test_options()).unwrap();

    let error = service.pause().unwrap_err();

    assert_eq!(error, "pause transport failed");
    assert_eq!(service.status().phase, CapturePhase::Failed);
    assert_eq!(
        &actions.lock().unwrap()[4..],
        ["link:pause", "link:end", "recorder:finish", "sources:stop"]
    );
    let failed = snapshots.lock().unwrap().last().unwrap().clone();
    assert!(!failed.system_active);
    assert!(!failed.microphone_active);
}

#[test]
fn resume_failure_closes_the_active_session() {
    let (backend, actions) = backend(
        PermissionSnapshot::granted(),
        both_ready(),
        None,
        None,
        Some("resume transport failed".into()),
        Vec::new(),
    );
    let mut service = AppCapture::with_backend("/app-data".into(), backend);
    service.start(test_options()).unwrap();
    service.pause().unwrap();

    let error = service.resume().unwrap_err();

    assert_eq!(error, "resume transport failed");
    assert_eq!(service.status().phase, CapturePhase::Failed);
    assert_eq!(
        &actions.lock().unwrap()[5..],
        ["link:resume", "link:end", "recorder:finish", "sources:stop"]
    );
}

#[test]
fn stop_sends_end_before_closing_the_wav_writer() {
    let (mut service, actions) = service(PermissionSnapshot::granted(), both_ready());
    service.start(test_options()).unwrap();

    let stopped = service.stop().unwrap();

    assert_eq!(stopped.phase, CapturePhase::Idle);
    assert_eq!(
        &actions.lock().unwrap()[4..],
        ["link:end", "recorder:finish", "sources:stop"]
    );
}

#[test]
fn a_late_source_failure_fails_only_its_own_meeting() {
    let (mut service, _) = service(PermissionSnapshot::granted(), both_ready());
    service.start(test_options()).unwrap();
    assert!(service.source_failed(999, "stale".into()).is_none());
    assert_eq!(service.status().phase, CapturePhase::Active);
}

#[test]
fn device_selection_must_name_an_offered_microphone() {
    let devices = vec![CaptureDevice {
        id: "usb-mic".into(),
        name: "USB Microphone".into(),
        is_default: false,
        kind: CaptureDeviceKind::Microphone,
    }];
    assert!(validate_selection(
        &devices,
        &CaptureDeviceSelection {
            system_output_id: None,
            microphone_id: Some("usb-mic".into()),
        }
    )
    .is_ok());
    assert_eq!(
        validate_selection(
            &devices,
            &CaptureDeviceSelection {
                system_output_id: None,
                microphone_id: Some("gone".into()),
            }
        )
        .unwrap_err(),
        "selected capture device is unavailable: gone"
    );
}
