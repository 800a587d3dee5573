use vstd::prelude::*;

verus! {

/// The control events the link sends to the sidecar; their wire form names
/// every field in PascalCase and the event in `EventType`.
#[derive(Clone, Debug, PartialEq, Eq)]
pub enum ControlMessage {
    Start {
        call_id: String,
        sampling_rate: usize,
        diarize_system_channel: bool,
        diarize_mic_channel: bool,
    },
    Pause { call_id: String },
    Resume { call_id: String },
    End { call_id: String },
}

impl ControlMessage {
    /// Starts (or resumes after a reconnect) meeting `call_id`; the system
    /// channel is never diarized.
    pub fn start(call_id: String, sampling_rate: usize, diarize_mic_channel: bool) -> (res: Self)
        ensures
            res == (ControlMessage::Start {
                call_id,
                sampling_rate,
                diarize_system_channel: false,
                diarize_mic_channel,
            }),
    {
        ControlMessage::Start {
            call_id,
            sampling_rate,
            diarize_system_channel: false,
            diarize_mic_channel,
        }
    }

    /// Pauses meeting `call_id`.
    pub fn pause(call_id: String) -> (res: Self)
        ensures
            res == (ControlMessage::Pause { call_id }),
    {
        ControlMessage::Pause { call_id }
    }

    /// Resumes meeting `call_id`.
    pub fn resume(call_id: String) -> (res: Self)
        ensures
            res == (ControlMessage::Resume { call_id }),
    {
        ControlMessage::Resume { call_id }
    }

    /// Ends meeting `call_id`.
    pub fn end(call_id: String) -> (res: Self)
        ensures
            res == (ControlMessage::End { call_id }),
    {
        ControlMessage::End { call_id }
    }
}

} // verus!
