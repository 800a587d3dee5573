//! The macOS capture layer's decisions: which devices exist and which one a
//! selection means, what the permission prompts answer, and how a source's
//! stream is started, stopped and rebuilt.

pub mod devices;
pub mod permissions;

use std::sync::mpsc::Sender;

use vstd::prelude::*;

use crate::macos::devices::DeviceSelection;

verus! {

/// The two capture sources.
#[derive(Clone, Copy, Debug, PartialEq, Eq, Structural)]
pub enum SourceKind {
    System,
    Microphone,
}

/// What a source announces about its stream.
#[derive(Clone, Debug, PartialEq, Eq)]
pub enum SourceEvent {
    Started(SourceKind),
    Stopped(SourceKind),
    RebuildRequired(SourceKind),
    Error(SourceKind, String),
}

/// A running platform capture stream.
pub trait NativeStream {
    fn stop(&mut self) -> Result<(), String>;
}

/// What a platform stream reports while it runs.
pub trait NativeStreamEvents: Send + Sync {
    fn disconnected(&self);

    fn error(&self, error: String);
}

#[verifier::external_type_specification]
#[verifier::external_body]
#[verifier::reject_recursive_types(T)]
pub struct ExSender<T>(std::sync::mpsc::Sender<T>);

/// Calls `std::sync::mpsc::Sender::send`. A receiver that is gone makes the
/// send fail; the source ignores that, so nothing is returned or claimed.
#[verifier::external_body]
fn send_event(sender: &Sender<SourceEvent>, event: SourceEvent) {
    let _ = sender.send(event);
}

/// Whether `event` was handed to the channel `events`.
pub closed spec fn sent_on(events: Sender<SourceEvent>, event: SourceEvent) -> bool {
    call_ensures(send_event, (&events, event), ())
}

/// Calls `Sender::clone`: another sender into the same channel; nothing is
/// claimed of it.
#[verifier::external_body]
fn clone_sender<T>(sender: &Sender<T>) -> (res: Sender<T>) {
    sender.clone()
}

/// `copy` is a sender that cloning `sender` may give: one into the same
/// channel.
pub closed spec fn cloned_sender<T>(sender: Sender<T>, copy: Sender<T>) -> bool {
    call_ensures(clone_sender::<T>, (&sender,), copy)
}

/// Passes a stream's reports on as events of its source.
pub struct EventForwarder {
    kind: SourceKind,
    sender: Sender<SourceEvent>,
}

impl EventForwarder {
    fn new(kind: SourceKind, sender: Sender<SourceEvent>) -> (res: Self)
        ensures
            res.source() == kind,
            res.channel() == sender,
    {
        EventForwarder { kind, sender }
    }

    /// The source whose events this forwards.
    pub closed spec fn source(&self) -> SourceKind {
        self.kind
    }

    /// The channel the events go to.
    pub closed spec fn channel(&self) -> Sender<SourceEvent> {
        self.sender
    }
}

impl NativeStreamEvents for EventForwarder {
    /// A lost device asks for the source to be rebuilt.
    fn disconnected(&self) {
        send_event(&self.sender, SourceEvent::RebuildRequired(self.kind));
    }

    /// A stream failure is announced as the source's error.
    fn error(&self, error: String) {
        send_event(&self.sender, SourceEvent::Error(self.kind, error));
    }
}

/// Starts platform capture streams. A stream delivers its frames into
/// `frames` and its reports to `events`.
pub trait NativeStreamProvider {
    /// What a stream delivers: mono frames in the platform's sample format.
    type Frames;

    /// A running stream.
    type Stream: NativeStream;

    fn start(
        &self,
        kind: SourceKind,
        selection: &DeviceSelection,
        frames: Sender<Self::Frames>,
        events: EventForwarder,
    ) -> Result<Self::Stream, String>;
}

/// The events a source announces when a start ends with `outcome`.
pub open spec fn start_events(kind: SourceKind, outcome: Result<(), String>) -> Seq<SourceEvent> {
    match outcome {
        Ok(()) => seq![SourceEvent::Started(kind)],
        Err(e) => seq![SourceEvent::Error(kind, e)],
    }
}

/// `o` is what `provider` may answer to a start of `kind`'s stream for
/// `selection` that delivers its frames into `frames`, its reports going to
/// a forwarder of that source into a clone of `events`.
pub open spec fn start_answer<P: NativeStreamProvider>(
    provider: P,
    kind: SourceKind,
    selection: DeviceSelection,
    frames: Sender<P::Frames>,
    events: Sender<SourceEvent>,
    o: Result<P::Stream, String>,
) -> bool {
    exists|fw: EventForwarder|
        fw.source() == kind && cloned_sender(events, fw.channel()) && #[trigger] call_ensures(
            P::start,
            (&provider, kind, &selection, frames, fw),
            o,
        )
}

/// `r` is what stopping the running stream `stream` may give.
pub open spec fn stream_stopped<S: NativeStream>(stream: S, r: Result<(), String>) -> bool {
    exists|m: &mut S| *m == stream && #[trigger] call_ensures(S::stop, (m,), r)
}

/// The events a source announces when stopping its stream gave `r`: that
/// it stopped, or the failure.
pub open spec fn stop_events(kind: SourceKind, r: Result<(), String>) -> Seq<SourceEvent> {
    match r {
        Ok(()) => seq![SourceEvent::Stopped(kind)],
        Err(e) => seq![SourceEvent::Error(kind, e)],
    }
}

/// The stream a start gave, if it gave one.
pub open spec fn stream_of<S>(o: Result<S, String>) -> Option<S> {
    match o {
        Ok(s) => Some(s),
        Err(_) => None,
    }
}

/// Whether a stream's start ended as `outcome`.
pub open spec fn outcome_of<S>(outcome: Result<S, String>) -> Result<(), String> {
    match outcome {
        Ok(_) => Ok(()),
        Err(e) => Err(e),
    }
}

/// One capture source, not yet started.
pub struct MacSource<P: NativeStreamProvider> {
    kind: SourceKind,
    provider: P,
    events: Sender<SourceEvent>,
}

impl<P: NativeStreamProvider + Default> MacSource<P> {
    /// The system audio, through the platform's provider.
    pub fn system(events: Sender<SourceEvent>) -> (res: Self)
        ensures
            res.source() == SourceKind::System,
    {
        MacSource { kind: SourceKind::System, provider: P::default(), events }
    }

    /// The microphone, through the platform's provider.
    pub fn microphone(events: Sender<SourceEvent>) -> (res: Self)
        ensures
            res.source() == SourceKind::Microphone,
    {
        MacSource { kind: SourceKind::Microphone, provider: P::default(), events }
    }
}

impl<P: NativeStreamProvider> MacSource<P> {
    /// Which source this is.
    pub closed spec fn source(&self) -> SourceKind {
        self.kind
    }

    /// The provider the source's streams are started through.
    pub closed spec fn provider(&self) -> P {
        self.provider
    }

    /// The channel the source's events go to.
    pub closed spec fn announcer(&self) -> Sender<SourceEvent> {
        self.events
    }

    /// `kind`'s source, through `provider`, announcing on `events`.
    pub fn with_provider(kind: SourceKind, provider: P, events: Sender<SourceEvent>) -> (res: Self)
        ensures
            res.source() == kind,
            res.provider() == provider,
            res.announcer() == events,
    {
        MacSource { kind, provider, events }
    }

    /// Starts the source's stream for `selection`, delivering into `frames`.
    /// The handle announces the start, or the failure, and is active only
    /// after a start.
    pub fn start(self, selection: DeviceSelection, frames: Sender<P::Frames>) -> (res: SourceHandle<P>)
        ensures
            res.source() == self.source(),
            res.selected() == selection,
            res.active() ==> res.sent() == seq![SourceEvent::Started(self.source())],
            !res.active() ==> exists|e: String| res.sent() == seq![SourceEvent::Error(self.source(), e)],
            res.delivered(),
            res.provider() == self.provider(),
            res.announcer() == self.announcer(),
            cloned_sender(frames, res.delivery()),
            exists|o: Result<P::Stream, String>| {
                &&& #[trigger] start_answer(
                    self.provider(),
                    self.source(),
                    selection,
                    frames,
                    self.announcer(),
                    o,
                )
                &&& res.running() == stream_of(o)
                &&& res.sent() == start_events(self.source(), outcome_of(o))
            },
    {
        let reports = clone_sender(&self.events);
        let ghost r = reports;
        assert(cloned_sender(self.events, r));
        let forwarder = EventForwarder::new(self.kind, reports);
        let kept = clone_sender(&frames);
        let ghost k = kept;
        assert(cloned_sender(frames, k));
        let ghost fw = forwarder;
        let ghost f = frames;
        let outcome = self.provider.start(self.kind, &selection, frames, forwarder);
        assert(call_ensures(P::start, (&self.provider, self.kind, &selection, f, fw), outcome));
        assert(start_answer(self.provider(), self.source(), selection, f, self.announcer(), outcome));
        let mut handle = SourceHandle {
            kind: self.kind,
            selection,
            frames: kept,
            events: self.events,
            provider: self.provider,
            stream: None,
            announced: Ghost(Seq::empty()),
        };
        match outcome {
            Ok(stream) => {
                handle.stream = Some(stream);
                handle.announce(SourceEvent::Started(self.kind));
            },
            Err(error) => {
                handle.announce(SourceEvent::Error(self.kind, error));
            },
        }
        assert(handle.announced@ =~= start_events(self.kind, outcome_of(outcome)));
        handle
    }
}

/// A started capture source: its stream, if one runs, and what it
/// announced so far.
pub struct SourceHandle<P: NativeStreamProvider> {
    kind: SourceKind,
    selection: DeviceSelection,
    frames: Sender<P::Frames>,
    events: Sender<SourceEvent>,
    provider: P,
    stream: Option<P::Stream>,
    announced: Ghost<Seq<SourceEvent>>,
}

impl<P: NativeStreamProvider> SourceHandle<P> {
    /// The events this handle has sent, oldest first.
    pub closed spec fn sent(&self) -> Seq<SourceEvent> {
        self.announced@
    }

    /// The stream that runs, if one does.
    pub closed spec fn running(&self) -> Option<P::Stream> {
        self.stream
    }

    /// The provider the source's streams are started through.
    pub closed spec fn provider(&self) -> P {
        self.provider
    }

    /// The sender the source's frames are delivered through.
    pub closed spec fn delivery(&self) -> Sender<P::Frames> {
        self.frames
    }

    /// The channel the source's events go to.
    pub closed spec fn announcer(&self) -> Sender<SourceEvent> {
        self.events
    }

    /// Every event counted as sent was handed to the source's event channel.
    pub closed spec fn delivered(&self) -> bool {
        forall|i: int| 0 <= i < self.announced@.len() ==> #[trigger] sent_on(self.events, self.announced@[i])
    }

    /// Sends `event` on the source's event channel and counts it as sent.
    fn announce(&mut self, event: SourceEvent)
        ensures
            final(self).sent() == old(self).sent().push(event),
            old(self).delivered() ==> final(self).delivered(),
            final(self).kind == old(self).kind,
            final(self).selection == old(self).selection,
            final(self).stream == old(self).stream,
            final(self).events == old(self).events,
            final(self).provider == old(self).provider,
            final(self).frames == old(self).frames,
    {
        let ghost e = event;
        send_event(&self.events, event);
        proof {
            assert(sent_on(self.events, e));
            self.announced@ = self.announced@.push(e);
        }
    }

    /// Whether a stream runs.
    pub closed spec fn active(&self) -> bool {
        self.stream is Some
    }

    /// Which source this is.
    pub closed spec fn source(&self) -> SourceKind {
        self.kind
    }

    /// The device selection the current or last stream was started with.
    pub closed spec fn selected(&self) -> DeviceSelection {
        self.selection
    }

    /// Whether a stream runs.
    pub fn is_active(&self) -> (res: bool)
        ensures
            res == self.active(),
    {
        self.stream.is_some()
    }

    /// Stops the stream, if one runs. The stream is gone either way; a failed
    /// stop is announced as an error and returned, and the source is not
    /// announced as stopped.
    pub fn stop(&mut self) -> (res: Result<(), String>)
        ensures
            !final(self).active(),
            old(self).delivered() ==> final(self).delivered(),
            final(self).provider() == old(self).provider(),
            final(self).source() == old(self).source(),
            final(self).selected() == old(self).selected(),
            final(self).delivery() == old(self).delivery(),
            final(self).announcer() == old(self).announcer(),
            !old(self).active() ==> res is Ok && final(self).sent() == old(self).sent(),
            old(self).running() matches Some(st) ==> stream_stopped(st, res),
            old(self).active() ==> final(self).sent() == old(self).sent() + stop_events(old(self).source(), res),
    {
        match self.stream.take() {
            Some(mut stream) => {
                let ghost st = stream;
                assert(old(self).running() == Some(st));
                let stopped = stream.stop();
                assert(stream_stopped(st, stopped));
                match &stopped {
                    Ok(()) => {
                        self.announce(SourceEvent::Stopped(self.kind));
                    },
                    Err(error) => {
                        self.announce(SourceEvent::Error(self.kind, error.clone()));
                    },
                }
                proof {
                    assert(self.announced@ =~= old(self).announced@ + stop_events(self.kind, stopped));
                }
                stopped
            },
            None => Ok(()),
        }
    }

    /// Replaces the stream by one for `selection`: the running stream is
    /// stopped first, whatever that gives; the new start is announced and
    /// adopted, or its failure announced and returned.
    pub fn rebuild(&mut self, selection: DeviceSelection) -> (res: Result<(), String>)
        ensures
            final(self).source() == old(self).source(),
            final(self).active() == res is Ok,
            old(self).delivered() ==> final(self).delivered(),
            final(self).provider() == old(self).provider(),
            final(self).delivery() == old(self).delivery(),
            final(self).announcer() == old(self).announcer(),
            exists|o: Result<P::Stream, String>, f: Sender<P::Frames>| {
                &&& cloned_sender(old(self).delivery(), f)
                &&& #[trigger] start_answer(
                    old(self).provider(),
                    old(self).source(),
                    selection,
                    f,
                    old(self).announcer(),
                    o,
                )
                &&& res == outcome_of(o)
                &&& final(self).running() == stream_of(o)
            },
            res is Ok ==> final(self).selected() == selection,
            res is Err ==> final(self).selected() == old(self).selected(),
            exists|stopped: Result<(), String>| {
                &&& old(self).running() matches Some(st) ==> stream_stopped(st, stopped)
                &&& final(self).sent() == old(self).sent() + (if old(self).active() {
                    stop_events(old(self).source(), stopped)
                } else {
                    Seq::<SourceEvent>::empty()
                }) + start_events(old(self).source(), res)
            },
    {
        let ghost before = self.announced@;
        let _stopped = self.stop();
        let ghost stopped = self.announced@.skip(before.len() as int);
        proof {
            assert(self.announced@ =~= before + stopped);
            if !old(self).active() {
                assert(stopped =~= Seq::<SourceEvent>::empty());
            }
        }
        let reports = clone_sender(&self.events);
        let ghost r = reports;
        assert(cloned_sender(self.events, r));
        let forwarder = EventForwarder::new(self.kind, reports);
        let delivery = clone_sender(&self.frames);
        let ghost fw = forwarder;
        let ghost f = delivery;
        assert(cloned_sender(self.frames, f));
        let outcome = self.provider.start(self.kind, &selection, delivery, forwarder);
        assert(call_ensures(P::start, (&self.provider, self.kind, &selection, f, fw), outcome));
        assert(start_answer(self.provider(), self.source(), selection, f, self.announcer(), outcome));
        match outcome {
            Ok(stream) => {
                self.selection = selection;
                self.stream = Some(stream);
                self.announce(SourceEvent::Started(self.kind));
                proof {
                    assert(self.announced@ =~= before + stopped + start_events(self.kind, Ok(())));
                }
                Ok(())
            },
            Err(error) => {
                let message = error.clone();
                self.announce(SourceEvent::Error(self.kind, error));
                proof {
                    assert(self.announced@ =~= before + stopped + start_events(self.kind, Err(message)));
                }
                Err(message)
            },
        }
    }
}

} // verus!
