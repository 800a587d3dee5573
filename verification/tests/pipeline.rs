use std::{cell::RefCell, rc::Rc, sync::mpsc};

use oss_lma::capture::CaptureDeviceSelection;
use oss_lma::capture_state::SourceReadiness;
use oss_lma::macos::devices::DeviceSelection;
use oss_lma::macos::{
    EventForwarder, MacSource, NativeStream, NativeStreamProvider, SourceEvent, SourceKind,
};
use oss_lma::worker::{source_event_action, SourceEventAction, WorkerSession};

type Actions = Rc<RefCell<Vec<(SourceKind, &'static str)>>>;

struct TestStream {
    kind: SourceKind,
    actions: Actions,
}

impl NativeStream for TestStream {
    fn stop(&mut self) -> Result<(), String> {
        self.actions.borrow_mut().push((self.kind, "stop"));
        Ok(())
    }
}

#[derive(Clone)]
struct TestProvider {
    actions: Actions,
}

impl NativeStreamProvider for TestProvider {
    type Frames = Vec<f32>;
    type Stream = TestStream;

    fn start(
        &self,
        kind: SourceKind,
        _selection: &DeviceSelection,
        _frames: mpsc::Sender<Vec<f32>>,
        _events: EventForwarder,
    ) -> Result<TestStream, String> {
        self.actions.borrow_mut().push((kind, "start"));
        Ok(TestStream {
            kind,
            actions: self.actions.clone(),
        })
    }
}

#[test]
fn rebuild_event_restarts_only_the_affected_production_source() {
    let actions = Rc::new(RefCell::new(Vec::new()));
    let provider = TestProvider {
        actions: actions.clone(),
    };
    let (source_events, events) = mpsc::channel();
    let (system_frames, _system_receiver) = mpsc::channel();
    let (microphone_frames, _microphone_receiver) = mpsc::channel();
    let mut system =
        MacSource::with_provider(SourceKind::System, provider.clone(), source_events.clone())
            .start(DeviceSelection::Default, system_frames);
    let mut microphone =
        MacSource::with_provider(SourceKind::Microphone, provider, source_events.clone())
            .start(DeviceSelection::Default, microphone_frames);
    let selection = CaptureDeviceSelection::default();
    while events.try_recv().is_ok() {}
    actions.borrow_mut().clear();

    source_events
        .send(SourceEvent::RebuildRequired(SourceKind::Microphone))
        .expect("rebuild event is injected");
    for event in events.try_iter().collect::<Vec<_>>() {
        match source_event_action(&selection, event) {
            SourceEventAction::Rebuild(SourceKind::System, selected) => {
                system.rebuild(selected).expect("affected source rebuilds")
            }
            SourceEventAction::Rebuild(SourceKind::Microphone, selected) => {
                microphone.rebuild(selected).expect("affected source rebuilds")
            }
            SourceEventAction::Fail(error) => panic!("unexpected failure {error}"),
            SourceEventAction::Ignore => {}
        }
    }

    assert_eq!(
        *actions.borrow(),
        [
            (SourceKind::Microphone, "stop"),
            (SourceKind::Microphone, "start")
        ]
    );
    assert!(system.is_active());
    assert!(microphone.is_active());
}

#[test]
fn active_native_source_error_closes_the_session_and_reports_failure() {
    let mut session = WorkerSession::new();
    session.sources_started(
        CaptureDeviceSelection::default(),
        7,
        SourceReadiness {
            system: true,
            microphone: true,
        },
    );
    let (events, source_events) = mpsc::channel();
    events
        .send(SourceEvent::Error(
            SourceKind::System,
            "ScreenCaptureKit stopped".into(),
        ))
        .unwrap();

    let mut failures = Vec::new();
    for event in source_events.try_iter().collect::<Vec<_>>() {
        if let SourceEventAction::Fail(error) = source_event_action(session.selection(), event) {
            let generation = session.active_generation();
            session.sources_stopped(None, None).unwrap();
            if let Some(generation) = generation {
                failures.push((generation, error));
            }
            break;
        }
    }

    assert_eq!(failures, [(7, "ScreenCaptureKit stopped".to_owned())]);
    assert_eq!(session.active_generation(), None);
}
