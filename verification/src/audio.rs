use vstd::prelude::*;

verus! {

/// Interleaved stereo PCM, signed 16-bit little-endian: the system audio in
/// the first channel, the microphone in the second.
#[derive(Clone, Debug, PartialEq, Eq)]
pub struct StereoChunk {
    pub pcm: Vec<u8>,
    pub frames: usize,
}

/// A chunk as plain values.
pub struct ChunkView {
    pub pcm: Seq<u8>,
    pub frames: usize,
}

impl View for StereoChunk {
    type V = ChunkView;

    open spec fn view(&self) -> ChunkView {
        ChunkView { pcm: self.pcm@, frames: self.frames }
    }
}

/// The bytes of 100 ms of stereo 16-bit audio at `rate` frames a second.
pub open spec fn tick_bytes(rate: int) -> int {
    rate * 2 * 2 / 10
}

impl StereoChunk {
    /// The bytes of 100 ms of stereo 16-bit audio at `rate` frames a second.
    pub fn byte_len(rate: usize) -> (res: usize)
        requires
            rate * 4 <= usize::MAX,
        ensures
            res == tick_bytes(rate as int),
    {
        rate * 2 * 2 / 10
    }

    /// An exact copy of the chunk.
    pub fn copy(&self) -> (res: Self)
        ensures
            res@ == self@,
    {
        StereoChunk { pcm: self.pcm.clone(), frames: self.frames }
    }
}

/// Whether the operating system lets the app use a capture source.
#[derive(Clone, Copy, Debug, PartialEq, Eq, Structural)]
pub enum PermissionState {
    Unknown,
    Denied,
    Granted,
}

/// What a capture device carries.
#[derive(Clone, Copy, Debug, Hash, PartialEq, Eq, Structural)]
pub enum DeviceKind {
    SystemOutput,
    Microphone,
}

/// A capture device as the platform layer reports it.
#[derive(Clone, Debug, PartialEq, Eq)]
pub struct DeviceInfo {
    pub id: String,
    pub name: String,
    pub is_default: bool,
    pub kind: DeviceKind,
}

/// A device as plain values.
pub struct DeviceInfoView {
    pub id: Seq<char>,
    pub name: Seq<char>,
    pub is_default: bool,
    pub kind: DeviceKind,
}

impl View for DeviceInfo {
    type V = DeviceInfoView;

    open spec fn view(&self) -> DeviceInfoView {
        DeviceInfoView { id: self.id@, name: self.name@, is_default: self.is_default, kind: self.kind }
    }
}

/// What the platform capture layer reports.
#[derive(Clone, Debug, PartialEq)]
pub enum CaptureEvent {
    PermissionChanged(PermissionState),
    DeviceAdded(DeviceInfo),
    DeviceRemoved(String),
    Started,
    Stopped,
    Chunk(StereoChunk),
    Error(String),
}

} // verus!
