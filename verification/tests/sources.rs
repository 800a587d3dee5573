use std::{
    cell::RefCell,
    rc::Rc,
    sync::{mpsc, mpsc::Sender, Arc},
};

use oss_lma::macos::devices::DeviceSelection;
use oss_lma::macos::{
    EventForwarder, MacSource, NativeStream, NativeStreamEvents, NativeStreamProvider,
    SourceEvent, SourceKind,
};

type StreamAction = (SourceKind, &'static str, DeviceSelection);
type StreamActions = Rc<RefCell<Vec<StreamAction>>>;
type NativeObservers = Rc<RefCell<Vec<(SourceKind, Arc<dyn NativeStreamEvents>)>>>;

#[derive(Clone)]
struct FakeStreams {
    actions: StreamActions,
    observers: NativeObservers,
    stop_error: Option<String>,
    start_error: Option<String>,
}

struct FakeStream {
    kind: SourceKind,
    selection: DeviceSelection,
    actions: StreamActions,
    stop_error: Option<String>,
}

impl NativeStream for FakeStream {
    fn stop(&mut self) -> Result<(), String> {
        self.actions
            .borrow_mut()
            .push((self.kind, "stop", self.selection.clone()));
        match &self.stop_error {
            Some(error) => Err(error.clone()),
            None => Ok(()),
        }
    }
}

impl NativeStreamProvider for FakeStreams {
    type Frames = Vec<f32>;
    type Stream = FakeStream;

    fn start(
        &self,
        kind: SourceKind,
        selection: &DeviceSelection,
        _frames: Sender<Vec<f32>>,
        events: EventForwarder,
    ) -> Result<FakeStream, String> {
        self.actions
            .borrow_mut()
            .push((kind, "start", selection.clone()));
        self.observers.borrow_mut().push((kind, Arc::new(events)));
        if let Some(error) = &self.start_error {
            return Err(error.clone());
        }
        Ok(FakeStream {
            kind,
            selection: selection.clone(),
            actions: self.actions.clone(),
            stop_error: self.stop_error.clone(),
        })
    }
}

fn provider(actions: StreamActions, stop_error: Option<&str>) -> FakeStreams {
    FakeStreams {
        actions,
        observers: Rc::new(RefCell::new(Vec::new())),
        stop_error: stop_error.map(str::to_owned),
        start_error: None,
    }
}

#[test]
fn rebuilding_a_disconnected_microphone_leaves_system_audio_running() {
    let actions = Rc::new(RefCell::new(Vec::new()));
    let provider = provider(actions.clone(), None);
    let (frames_tx, _frames_rx) = mpsc::channel();
    let (events_tx, _events_rx) = mpsc::channel();
    let system = MacSource::with_provider(SourceKind::System, provider.clone(), events_tx.clone());
    let microphone = MacSource::with_provider(SourceKind::Microphone, provider, events_tx);
    let system_handle = system.start(DeviceSelection::Default, frames_tx.clone());
    let mut microphone_handle =
        microphone.start(DeviceSelection::DeviceId("external-mic".into()), frames_tx);
    actions.borrow_mut().clear();

    microphone_handle
        .rebuild(DeviceSelection::DeviceId("replacement-mic".into()))
        .unwrap();

    assert_eq!(
        *actions.borrow(),
        [
            (
                SourceKind::Microphone,
                "stop",
                DeviceSelection::DeviceId("external-mic".into())
            ),
            (
                SourceKind::Microphone,
                "start",
                DeviceSelection::DeviceId("replacement-mic".into())
            )
        ]
    );
    assert!(system_handle.is_active());
    assert!(microphone_handle.is_active());
}

#[test]
fn native_disconnect_emits_rebuild_event_for_that_source() {
    let provider = provider(Rc::new(RefCell::new(Vec::new())), None);
    let observers = provider.observers.clone();
    let (frames_tx, _frames_rx) = mpsc::channel();
    let (events_tx, events_rx) = mpsc::channel();
    let microphone = MacSource::with_provider(SourceKind::Microphone, provider, events_tx);
    let _handle = microphone.start(DeviceSelection::Default, frames_tx);
    assert_eq!(
        events_rx.recv().unwrap(),
        SourceEvent::Started(SourceKind::Microphone)
    );

    observers.borrow()[0].1.disconnected();

    assert_eq!(
        events_rx.recv().unwrap(),
        SourceEvent::RebuildRequired(SourceKind::Microphone)
    );
}

#[test]
fn failed_stop_emits_an_error_without_marking_the_source_stopped() {
    let provider = provider(Rc::new(RefCell::new(Vec::new())), Some("native stop failed"));
    let (frames_tx, _frames_rx) = mpsc::channel();
    let (events_tx, events_rx) = mpsc::channel();
    let source = MacSource::with_provider(SourceKind::System, provider, events_tx);
    let mut handle = source.start(DeviceSelection::Default, frames_tx);
    assert_eq!(
        events_rx.recv().unwrap(),
        SourceEvent::Started(SourceKind::System)
    );

    assert_eq!(handle.stop().unwrap_err(), "native stop failed");

    assert!(!handle.is_active());
    assert_eq!(
        events_rx.recv().unwrap(),
        SourceEvent::Error(SourceKind::System, "native stop failed".into())
    );
    assert!(events_rx.try_recv().is_err());
}

#[test]
fn rebuild_starts_a_new_stream_after_native_stop_fails() {
    let actions = Rc::new(RefCell::new(Vec::new()));
    let provider = provider(actions.clone(), Some("native stop failed"));
    let (frames_tx, _frames_rx) = mpsc::channel();
    let (events_tx, events_rx) = mpsc::channel();
    let source = MacSource::with_provider(SourceKind::Microphone, provider, events_tx);
    let mut handle = source.start(DeviceSelection::Default, frames_tx);
    assert_eq!(
        events_rx.recv().unwrap(),
        SourceEvent::Started(SourceKind::Microphone)
    );
    actions.borrow_mut().clear();

    handle
        .rebuild(DeviceSelection::DeviceId("replacement-mic".into()))
        .unwrap();

    assert!(handle.is_active());
    assert_eq!(
        *actions.borrow(),
        [
            (SourceKind::Microphone, "stop", DeviceSelection::Default),
            (
                SourceKind::Microphone,
                "start",
                DeviceSelection::DeviceId("replacement-mic".into())
            )
        ]
    );
    assert_eq!(
        events_rx.recv().unwrap(),
        SourceEvent::Error(SourceKind::Microphone, "native stop failed".into())
    );
    assert_eq!(
        events_rx.recv().unwrap(),
        SourceEvent::Started(SourceKind::Microphone)
    );
}

#[test]
fn a_source_that_fails_to_start_announces_the_error_and_stays_inactive() {
    let mut failing = provider(Rc::new(RefCell::new(Vec::new())), None);
    failing.start_error = Some("screen capture is not permitted".to_owned());
    let (frames_tx, _frames_rx) = mpsc::channel();
    let (events_tx, events_rx) = mpsc::channel();
    let mut handle =
        MacSource::with_provider(SourceKind::System, failing, events_tx).start(DeviceSelection::Default, frames_tx);
    assert!(!handle.is_active());
    assert_eq!(
        events_rx.recv().unwrap(),
        SourceEvent::Error(SourceKind::System, "screen capture is not permitted".into())
    );
    assert!(handle.stop().is_ok());
    assert!(events_rx.try_recv().is_err());
    assert_eq!(
        handle.rebuild(DeviceSelection::Default).unwrap_err(),
        "screen capture is not permitted"
    );
    assert!(!handle.is_active());
}
