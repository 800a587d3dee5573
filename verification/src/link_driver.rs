use vstd::prelude::*;

use crate::audio::{tick_bytes, ChunkView, StereoChunk};
use crate::link::{
    consistent_chunk, cut_into_frames, drops_reported, framed, kept_all, next_delay, remainder,
    LinkState, Session, SessionView,
};
use crate::protocol::ControlMessage;

verus! {

/// Where the link's connection stands.
#[derive(Clone, Copy, Debug, PartialEq, Eq, Structural)]
pub enum LinkPhase {
    /// No meeting to carry.
    Idle,
    /// Opening the socket and sending the meeting's start.
    Connecting,
    /// Connected: audio and controls go out as they come.
    Online,
    /// Out of reach: audio is kept until the next attempt.
    Waiting,
}

/// What happened: a request of the link's user, or how the last action went.
pub enum LinkInput {
    Start(Session),
    Chunk(StereoChunk),
    Pause,
    Resume,
    End,
    /// The link's user is gone.
    ClientGone,
    /// The socket is open and the meeting's start was sent.
    Opened,
    /// The socket could not be opened, or the start not sent.
    OpenFailed,
    /// The connection broke: a send or the socket failed.
    Lost,
    /// These frames could not be sent, the first one failing.
    Unsent(Vec<StereoChunk>),
    /// The delay before the next attempt is over.
    RetryDue,
}

/// What to do next.
pub enum LinkAction {
    Nothing,
    /// Open a socket to the sidecar on `port` with `token`, and send `start`.
    Connect { port: u16, token: String, start: ControlMessage },
    /// Announce the connection, then send every kept chunk, oldest first.
    GoOnline,
    /// Send these frames, in order.
    Send(Vec<StereoChunk>),
    /// Send this control event.
    Control(ControlMessage),
    /// Send this control event, whatever comes of it, then close the socket.
    Finish(ControlMessage),
    /// Announce this many dropped buffer frames.
    Dropped(usize),
    /// Close the socket, announce `dropped` dropped buffer frames and the
    /// disconnection, then wait `delay_ms` before the next attempt.
    Disconnect { dropped: usize, delay_ms: u64 },
    /// Wait `delay_ms` before the next attempt.
    Wait(u64),
    /// Stop the link.
    Stop,
}

/// The link's state once `next` has replaced its session: nothing kept,
/// nothing pending, and a buffer and frames fit for its rate.
pub open spec fn fresh_for(l: LinkState, next: SessionView) -> bool {
    &&& l.current() == Some(next)
    &&& l.buffered() == Seq::<ChunkView>::empty()
    &&& l.dropped() == 0
    &&& l.pending() == Seq::<u8>::empty()
    &&& l.capacity() == next.rate * 12
    &&& l.frame_size() == if tick_bytes(next.rate as int) >= 4 {
        tick_bytes(next.rate as int)
    } else {
        4
    }
}

/// Whether `a` connects to the sidecar for session `s` and starts its
/// meeting; the system channel is never diarized.
pub open spec fn connects_to(s: SessionView, a: LinkAction) -> bool {
    &&& a matches LinkAction::Connect { port, token, start }
    &&& a->port == s.port
    &&& a->token@ == s.token
    &&& a->start matches ControlMessage::Start {
        call_id,
        sampling_rate,
        diarize_system_channel,
        diarize_mic_channel,
    }
    &&& a->start->Start_call_id@ == s.call_id
    &&& a->start->sampling_rate == s.rate
    &&& !a->start->diarize_system_channel
    &&& a->start->diarize_mic_channel == s.diarization
}

/// What `keep_chunk` does to the link for `chunk`, with `drops` frames
/// that made room by dropping older audio.
pub open spec fn chunk_kept(before: LinkState, chunk: ChunkView, after: LinkState, drops: int) -> bool {
    &&& after.current() == before.current()
    &&& after.delay() == before.delay()
    &&& before.current() is None ==> drops == 0 && after.buffered() == before.buffered()
    &&& before.current() is Some ==> {
        let all = before.pending() + chunk.pcm;
        let f = if consistent_chunk(chunk) {
            framed(all, before.frame_size())
        } else {
            Seq::<ChunkView>::empty()
        };
        &&& (after.buffered(), after.dropped()) == kept_all(
            before.buffered(),
            before.dropped(),
            f,
            before.capacity(),
        )
        &&& drops == drops_reported(before.buffered(), before.dropped(), f, before.capacity())
        &&& after.pending() == if consistent_chunk(chunk) {
            remainder(all, before.frame_size())
        } else {
            before.pending()
        }
    }
}

/// What keeping the unsent `frames` does to the link of a session, with
/// `drops` of them made room for by dropping older audio.
pub open spec fn frames_kept(before: LinkState, frames: Seq<ChunkView>, after: LinkState, drops: int) -> bool {
    &&& after.current() == before.current()
    &&& after.delay() == before.delay()
    &&& after.pending() == before.pending()
    &&& (after.buffered(), after.dropped()) == kept_all(
        before.buffered(),
        before.dropped(),
        frames,
        before.capacity(),
    )
    &&& drops == drops_reported(before.buffered(), before.dropped(), frames, before.capacity())
}

/// Whether `m` is a pause (when `pausing`) or resume of meeting `call_id`.
pub open spec fn toggles(pausing: bool, call_id: Seq<char>, m: ControlMessage) -> bool {
    if pausing {
        m matches ControlMessage::Pause { call_id: c } && c@ == call_id
    } else {
        m matches ControlMessage::Resume { call_id: c } && c@ == call_id
    }
}

/// The end of a wait before the next attempt: the delay doubles, and the
/// session, if there still is one, is connected again.
pub open spec fn retried(o: LinkState, f: LinkState, to: LinkPhase, res: LinkAction) -> bool {
    &&& f.delay() == next_delay(o.delay())
    &&& f.current() == o.current() && f.buffered() == o.buffered()
    &&& f.pending() == o.pending()
    &&& match o.current() {
        Some(s) => to == LinkPhase::Connecting && connects_to(s, res),
        None => to == LinkPhase::Idle && res is Nothing,
    }
}

/// The link's connection loop: from each input and the state, the next
/// state and what to do.
pub struct LinkDriver {
    link: LinkState,
    phase: LinkPhase,
}

impl LinkDriver {
    /// Where the connection stands.
    pub closed spec fn stage(&self) -> LinkPhase {
        self.phase
    }

    /// The link's session, buffer, framing and backoff.
    pub closed spec fn state(&self) -> LinkState {
        self.link
    }

    /// A session exists while connecting or online, and none while idle.
    pub closed spec fn well_formed(&self) -> bool {
        &&& self.link.well_formed()
        &&& self.phase == LinkPhase::Idle ==> self.link.current() is None
        &&& (self.phase == LinkPhase::Connecting || self.phase == LinkPhase::Online)
            ==> self.link.current() is Some
    }

    /// Idle, with no session.
    pub fn new() -> (res: Self)
        ensures
            res.well_formed(),
            res.stage() == LinkPhase::Idle,
            res.state().current() is None,
            res.state().delay() == 500,
    {
        LinkDriver { link: LinkState::new(), phase: LinkPhase::Idle }
    }

    /// Where the connection stands.
    pub fn phase(&self) -> (res: LinkPhase)
        ensures
            res == self.stage(),
    {
        self.phase
    }

    /// The oldest kept chunk, the next to send once online.
    pub fn next_buffered(&self) -> (res: Option<&StereoChunk>)
        requires
            self.well_formed(),
        ensures
            self.state().buffered().len() == 0 ==> res is None,
            self.state().buffered().len() > 0 ==> (res matches Some(c) && c@
                == self.state().buffered()[0]),
    {
        self.link.next_buffered()
    }

    /// Lets go of the oldest kept chunk once it has been sent.
    pub fn sent_buffered(&mut self)
        requires
            old(self).well_formed(),
        ensures
            final(self).well_formed(),
            final(self).stage() == old(self).stage(),
            final(self).state().current() == old(self).state().current(),
            final(self).state().delay() == old(self).state().delay(),
            final(self).state().buffered() == if old(self).state().buffered().len() == 0 {
                old(self).state().buffered()
            } else {
                old(self).state().buffered().drop_first()
            },
    {
        self.link.sent_buffered();
    }

    fn connect_action(&self) -> (res: LinkAction)
        requires
            self.link.current() is Some,
        ensures
            connects_to(self.link.current()->0, res),
    {
        match self.link.session() {
            Some(s) => LinkAction::Connect {
                port: s.port,
                token: s.token.clone(),
                start: ControlMessage::start(s.call_id.clone(), s.rate, s.diarization),
            },
            None => LinkAction::Nothing,
        }
    }

    fn call_id(&self) -> (res: String)
        requires
            self.link.current() is Some,
        ensures
            res@ == self.link.current()->0.call_id,
    {
        match self.link.session() {
            Some(s) => s.call_id.clone(),
            None => String::new(),
        }
    }

    fn retry(&mut self) -> (res: LinkAction)
        requires
            old(self).well_formed(),
            old(self).phase == LinkPhase::Waiting,
        ensures
            final(self).well_formed(),
            retried(old(self).link, final(self).link, final(self).phase, res),
    {
        self.link.back_off();
        if self.link.session().is_some() {
            self.phase = LinkPhase::Connecting;
            self.connect_action()
        } else {
            self.phase = LinkPhase::Idle;
            LinkAction::Nothing
        }
    }

    /// Takes `input` and tells what to do. A new session while idle starts
    /// connecting at once; another one while online or waiting replaces the
    /// current one, breaking the connection. Audio goes out while online
    /// and is kept otherwise; a broken connection is announced, and the
    /// next attempt waits the current delay, which doubles after each wait
    /// and is reset once connected. Ending sends the meeting's end when
    /// online and drops the session. Once the user is gone the link stops,
    /// except that a wait ends at once in the next attempt.
    pub fn step(&mut self, input: LinkInput) -> (res: LinkAction)
        requires
            old(self).well_formed(),
            input matches LinkInput::Start(s) ==> s.rate >= 8000 && s.rate * 12 <= usize::MAX,
        ensures
            final(self).well_formed(),
            ({
                let o = old(self).state();
                let f = final(self).state();
                let from = old(self).stage();
                let to = final(self).stage();
                let unchanged = *final(self) == *old(self);
                match input {
                    LinkInput::ClientGone => if from == LinkPhase::Waiting {
                        retried(o, f, to, res)
                    } else {
                        res is Stop && unchanged
                    },
                    LinkInput::Start(next) => match from {
                        LinkPhase::Idle => {
                            &&& to == LinkPhase::Connecting
                            &&& fresh_for(f, next@)
                            &&& f.delay() == 500
                            &&& connects_to(next@, res)
                        },
                        LinkPhase::Online => if o.current() == Some(next@) {
                            res is Nothing && unchanged
                        } else {
                            &&& to == LinkPhase::Waiting
                            &&& fresh_for(f, next@)
                            &&& f.delay() == o.delay()
                            &&& res == (LinkAction::Disconnect { dropped: 0, delay_ms: o.delay() })
                        },
                        LinkPhase::Waiting => {
                            &&& res is Nothing
                            &&& to == LinkPhase::Waiting
                            &&& o.current() == Some(next@) ==> unchanged
                            &&& o.current() != Some(next@) ==> fresh_for(f, next@) && f.delay() == o.delay()
                        },
                        LinkPhase::Connecting => res is Nothing && unchanged,
                    },
                    LinkInput::Chunk(chunk) => match from {
                        LinkPhase::Online => {
                            &&& to == LinkPhase::Online
                            &&& res matches LinkAction::Send(v)
                            &&& cut_into_frames(
                                o.pending(),
                                o.frame_size(),
                                chunk@,
                                res->Send_0@.map_values(|c: StereoChunk| c@),
                                f.pending(),
                            )
                            &&& f.current() == o.current() && f.buffered() == o.buffered()
                            &&& f.dropped() == o.dropped() && f.delay() == o.delay()
                        },
                        LinkPhase::Waiting => {
                            &&& to == LinkPhase::Waiting
                            &&& res matches LinkAction::Dropped(n)
                            &&& chunk_kept(o, chunk@, f, res->Dropped_0 as int)
                        },
                        _ => res is Nothing && unchanged,
                    },
                    LinkInput::Pause => if from == LinkPhase::Online {
                        res matches LinkAction::Control(m) && toggles(true, o.current()->0.call_id, m)
                            && unchanged
                    } else {
                        res is Nothing && unchanged
                    },
                    LinkInput::Resume => if from == LinkPhase::Online {
                        res matches LinkAction::Control(m) && toggles(false, o.current()->0.call_id, m)
                            && unchanged
                    } else {
                        res is Nothing && unchanged
                    },
                    LinkInput::End => match from {
                        LinkPhase::Online => {
                            &&& to == LinkPhase::Idle
                            &&& f.current() is None && f.buffered() == Seq::<ChunkView>::empty()
                            &&& f.delay() == o.delay()
                            &&& res matches LinkAction::Finish(m)
                            &&& m matches ControlMessage::End { call_id }
                            &&& call_id@ == o.current()->0.call_id
                        },
                        LinkPhase::Waiting => {
                            &&& to == LinkPhase::Waiting
                            &&& f.current() is None && f.buffered() == Seq::<ChunkView>::empty()
                            &&& f.delay() == o.delay()
                            &&& res is Nothing
                        },
                        _ => res is Nothing && unchanged,
                    },
                    LinkInput::Opened => if from == LinkPhase::Connecting {
                        &&& to == LinkPhase::Online
                        &&& res is GoOnline
                        &&& f.delay() == 500
                        &&& f.current() == o.current() && f.buffered() == o.buffered()
                        &&& f.pending() == o.pending()
                    } else {
                        res is Nothing && unchanged
                    },
                    LinkInput::OpenFailed => if from == LinkPhase::Connecting {
                        &&& to == LinkPhase::Waiting
                        &&& res == LinkAction::Wait(o.delay())
                        &&& f == o
                    } else {
                        res is Nothing && unchanged
                    },
                    LinkInput::Lost => if from == LinkPhase::Online {
                        &&& to == LinkPhase::Waiting
                        &&& res == (LinkAction::Disconnect { dropped: 0, delay_ms: o.delay() })
                        &&& f == o
                    } else {
                        res is Nothing && unchanged
                    },
                    LinkInput::Unsent(frames) => if from == LinkPhase::Online {
                        &&& to == LinkPhase::Waiting
                        &&& res matches LinkAction::Disconnect { dropped, delay_ms }
                        &&& res->delay_ms == o.delay()
                        &&& frames_kept(
                            o,
                            frames@.map_values(|c: StereoChunk| c@),
                            f,
                            res->dropped as int,
                        )
                    } else {
                        res is Nothing && unchanged
                    },
                    LinkInput::RetryDue => if from == LinkPhase::Waiting {
                        retried(o, f, to, res)
                    } else {
                        res is Nothing && unchanged
                    },
                }
            }),
    {
        match input {
            LinkInput::ClientGone => if self.phase == LinkPhase::Waiting {
                self.retry()
            } else {
                LinkAction::Stop
            },
            LinkInput::Start(next) => match self.phase {
                LinkPhase::Idle => {
                    self.link.start(next);
                    self.link.reset_backoff();
                    self.phase = LinkPhase::Connecting;
                    self.connect_action()
                },
                LinkPhase::Online => {
                    let delay = self.link.retry_delay_ms();
                    if self.link.start(next) {
                        self.phase = LinkPhase::Waiting;
                        LinkAction::Disconnect { dropped: 0, delay_ms: delay }
                    } else {
                        LinkAction::Nothing
                    }
                },
                LinkPhase::Waiting => {
                    self.link.start(next);
                    LinkAction::Nothing
                },
                LinkPhase::Connecting => LinkAction::Nothing,
            },
            LinkInput::Chunk(chunk) => match self.phase {
                LinkPhase::Online => LinkAction::Send(self.link.frames(chunk)),
                LinkPhase::Waiting => LinkAction::Dropped(self.link.keep_chunk(chunk)),
                _ => LinkAction::Nothing,
            },
            LinkInput::Pause => if self.phase == LinkPhase::Online {
                LinkAction::Control(ControlMessage::pause(self.call_id()))
            } else {
                LinkAction::Nothing
            },
            LinkInput::Resume => if self.phase == LinkPhase::Online {
                LinkAction::Control(ControlMessage::resume(self.call_id()))
            } else {
                LinkAction::Nothing
            },
            LinkInput::End => match self.phase {
                LinkPhase::Online => {
                    let end = ControlMessage::end(self.call_id());
                    self.link.end();
                    self.phase = LinkPhase::Idle;
                    LinkAction::Finish(end)
                },
                LinkPhase::Waiting => {
                    self.link.end();
                    LinkAction::Nothing
                },
                _ => LinkAction::Nothing,
            },
            LinkInput::Opened => if self.phase == LinkPhase::Connecting {
                self.link.reset_backoff();
                self.phase = LinkPhase::Online;
                LinkAction::GoOnline
            } else {
                LinkAction::Nothing
            },
            LinkInput::OpenFailed => if self.phase == LinkPhase::Connecting {
                self.phase = LinkPhase::Waiting;
                LinkAction::Wait(self.link.retry_delay_ms())
            } else {
                LinkAction::Nothing
            },
            LinkInput::Lost => if self.phase == LinkPhase::Online {
                self.phase = LinkPhase::Waiting;
                LinkAction::Disconnect { dropped: 0, delay_ms: self.link.retry_delay_ms() }
            } else {
                LinkAction::Nothing
            },
            LinkInput::Unsent(frames) => if self.phase == LinkPhase::Online {
                let delay = self.link.retry_delay_ms();
                let dropped = self.link.keep_frames(&frames);
                self.phase = LinkPhase::Waiting;
                LinkAction::Disconnect { dropped, delay_ms: delay }
            } else {
                LinkAction::Nothing
            },
            LinkInput::RetryDue => if self.phase == LinkPhase::Waiting {
                self.retry()
            } else {
                LinkAction::Nothing
            },
        }
    }
}

} // verus!
