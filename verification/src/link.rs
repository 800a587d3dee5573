use vstd::prelude::*;
use vstd::string::*;

use crate::audio::{tick_bytes, ChunkView, StereoChunk};
use crate::reconnect::{after_push, evicted, total_bytes, ReconnectBuffer};
use crate::text::join_text;

verus! {

/// The recovery codes of the error catalog.
#[derive(Clone, Copy, Debug, PartialEq, Eq, Structural)]
pub enum ErrorCode {
    SttProviderAuth,
    SttStreamReset,
    LinkDisconnected,
    CaptureDeviceLost,
    CapturePermissionDenied,
    VpContainerFailed,
    VpManualActionRequired,
    AgentToolFailure,
    RagEmbeddingUnavailable,
    DbWriteConflict,
    SidecarUnavailable,
    PortBindFailed,
}

/// The wire name of a recovery code.
pub open spec fn code_name(code: ErrorCode) -> Seq<char> {
    match code {
        ErrorCode::SttProviderAuth => "STT_PROVIDER_AUTH"@,
        ErrorCode::SttStreamReset => "STT_STREAM_RESET"@,
        ErrorCode::LinkDisconnected => "LINK_DISCONNECTED"@,
        ErrorCode::CaptureDeviceLost => "CAPTURE_DEVICE_LOST"@,
        ErrorCode::CapturePermissionDenied => "CAPTURE_PERMISSION_DENIED"@,
        ErrorCode::VpContainerFailed => "VP_CONTAINER_FAILED"@,
        ErrorCode::VpManualActionRequired => "VP_MANUAL_ACTION_REQUIRED"@,
        ErrorCode::AgentToolFailure => "AGENT_TOOL_FAILURE"@,
        ErrorCode::RagEmbeddingUnavailable => "RAG_EMBEDDING_UNAVAILABLE"@,
        ErrorCode::DbWriteConflict => "DB_WRITE_CONFLICT"@,
        ErrorCode::SidecarUnavailable => "SIDECAR_UNAVAILABLE"@,
        ErrorCode::PortBindFailed => "PORT_BIND_FAILED"@,
    }
}

/// The length and first character of a code's wire name.
proof fn wire_name_shape(code: ErrorCode)
    ensures
        code_name(code).len() == name_len(code),
        code_name(code)[0] == name_head(code),
{
    match code {
        ErrorCode::SttProviderAuth => {
            reveal_strlit("STT_PROVIDER_AUTH");
            assert(code_name(code).len() == 17 && code_name(code)[0] == 'S');
        },
        ErrorCode::SttStreamReset => {
            reveal_strlit("STT_STREAM_RESET");
            assert(code_name(code).len() == 16 && code_name(code)[0] == 'S');
        },
        ErrorCode::LinkDisconnected => {
            reveal_strlit("LINK_DISCONNECTED");
            assert(code_name(code).len() == 17 && code_name(code)[0] == 'L');
        },
        ErrorCode::CaptureDeviceLost => {
            reveal_strlit("CAPTURE_DEVICE_LOST");
            assert(code_name(code).len() == 19 && code_name(code)[0] == 'C');
        },
        ErrorCode::CapturePermissionDenied => {
            reveal_strlit("CAPTURE_PERMISSION_DENIED");
            assert(code_name(code).len() == 25 && code_name(code)[0] == 'C');
        },
        ErrorCode::VpContainerFailed => {
            reveal_strlit("VP_CONTAINER_FAILED");
            assert(code_name(code).len() == 19 && code_name(code)[0] == 'V');
        },
        ErrorCode::VpManualActionRequired => {
            reveal_strlit("VP_MANUAL_ACTION_REQUIRED");
            assert(code_name(code).len() == 25 && code_name(code)[0] == 'V');
        },
        ErrorCode::AgentToolFailure => {
            reveal_strlit("AGENT_TOOL_FAILURE");
            assert(code_name(code).len() == 18 && code_name(code)[0] == 'A');
        },
        ErrorCode::RagEmbeddingUnavailable => {
            reveal_strlit("RAG_EMBEDDING_UNAVAILABLE");
            assert(code_name(code).len() == 25 && code_name(code)[0] == 'R');
        },
        ErrorCode::DbWriteConflict => {
            reveal_strlit("DB_WRITE_CONFLICT");
            assert(code_name(code).len() == 17 && code_name(code)[0] == 'D');
        },
        ErrorCode::SidecarUnavailable => {
            reveal_strlit("SIDECAR_UNAVAILABLE");
            assert(code_name(code).len() == 19 && code_name(code)[0] == 'S');
        },
        ErrorCode::PortBindFailed => {
            reveal_strlit("PORT_BIND_FAILED");
            assert(code_name(code).len() == 16 && code_name(code)[0] == 'P');
        },
    }
}

spec fn name_len(code: ErrorCode) -> nat {
    match code {
        ErrorCode::SttProviderAuth => 17,
        ErrorCode::SttStreamReset => 16,
        ErrorCode::LinkDisconnected => 17,
        ErrorCode::CaptureDeviceLost => 19,
        ErrorCode::CapturePermissionDenied => 25,
        ErrorCode::VpContainerFailed => 19,
        ErrorCode::VpManualActionRequired => 25,
        ErrorCode::AgentToolFailure => 18,
        ErrorCode::RagEmbeddingUnavailable => 25,
        ErrorCode::DbWriteConflict => 17,
        ErrorCode::SidecarUnavailable => 19,
        ErrorCode::PortBindFailed => 16,
    }
}

spec fn name_head(code: ErrorCode) -> char {
    match code {
        ErrorCode::SttProviderAuth => 'S',
        ErrorCode::SttStreamReset => 'S',
        ErrorCode::LinkDisconnected => 'L',
        ErrorCode::CaptureDeviceLost => 'C',
        ErrorCode::CapturePermissionDenied => 'C',
        ErrorCode::VpContainerFailed => 'V',
        ErrorCode::VpManualActionRequired => 'V',
        ErrorCode::AgentToolFailure => 'A',
        ErrorCode::RagEmbeddingUnavailable => 'R',
        ErrorCode::DbWriteConflict => 'D',
        ErrorCode::SidecarUnavailable => 'S',
        ErrorCode::PortBindFailed => 'P',
    }
}

/// No two recovery codes share a wire name, so a wire name gives back the
/// code it was written for.
pub proof fn wire_names_are_distinct(a: ErrorCode, b: ErrorCode)
    requires
        code_name(a) == code_name(b),
    ensures
        a == b,
{
    wire_name_shape(a);
    wire_name_shape(b);
}

impl ErrorCode {
    /// Every recovery code, in catalog order.
    pub fn all() -> (res: [ErrorCode; 12])
        ensures
            res@ == seq![
                ErrorCode::SttProviderAuth,
                ErrorCode::SttStreamReset,
                ErrorCode::LinkDisconnected,
                ErrorCode::CaptureDeviceLost,
                ErrorCode::CapturePermissionDenied,
                ErrorCode::VpContainerFailed,
                ErrorCode::VpManualActionRequired,
                ErrorCode::AgentToolFailure,
                ErrorCode::RagEmbeddingUnavailable,
                ErrorCode::DbWriteConflict,
                ErrorCode::SidecarUnavailable,
                ErrorCode::PortBindFailed,
            ],
    {
        let res = [
            ErrorCode::SttProviderAuth,
            ErrorCode::SttStreamReset,
            ErrorCode::LinkDisconnected,
            ErrorCode::CaptureDeviceLost,
            ErrorCode::CapturePermissionDenied,
            ErrorCode::VpContainerFailed,
            ErrorCode::VpManualActionRequired,
            ErrorCode::AgentToolFailure,
            ErrorCode::RagEmbeddingUnavailable,
            ErrorCode::DbWriteConflict,
            ErrorCode::SidecarUnavailable,
            ErrorCode::PortBindFailed,
        ];
        assert(res@ =~= seq![
            ErrorCode::SttProviderAuth,
            ErrorCode::SttStreamReset,
            ErrorCode::LinkDisconnected,
            ErrorCode::CaptureDeviceLost,
            ErrorCode::CapturePermissionDenied,
            ErrorCode::VpContainerFailed,
            ErrorCode::VpManualActionRequired,
            ErrorCode::AgentToolFailure,
            ErrorCode::RagEmbeddingUnavailable,
            ErrorCode::DbWriteConflict,
            ErrorCode::SidecarUnavailable,
            ErrorCode::PortBindFailed,
        ]);
        res
    }

    /// The wire name of the code.
    pub fn as_str(self) -> (res: &'static str)
        ensures
            res@ == code_name(self),
    {
        match self {
            ErrorCode::SttProviderAuth => "STT_PROVIDER_AUTH",
            ErrorCode::SttStreamReset => "STT_STREAM_RESET",
            ErrorCode::LinkDisconnected => "LINK_DISCONNECTED",
            ErrorCode::CaptureDeviceLost => "CAPTURE_DEVICE_LOST",
            ErrorCode::CapturePermissionDenied => "CAPTURE_PERMISSION_DENIED",
            ErrorCode::VpContainerFailed => "VP_CONTAINER_FAILED",
            ErrorCode::VpManualActionRequired => "VP_MANUAL_ACTION_REQUIRED",
            ErrorCode::AgentToolFailure => "AGENT_TOOL_FAILURE",
            ErrorCode::RagEmbeddingUnavailable => "RAG_EMBEDDING_UNAVAILABLE",
            ErrorCode::DbWriteConflict => "DB_WRITE_CONFLICT",
            ErrorCode::SidecarUnavailable => "SIDECAR_UNAVAILABLE",
            ErrorCode::PortBindFailed => "PORT_BIND_FAILED",
        }
    }
}

/// Commands controlling the sidecar audio link.
#[derive(Clone, Copy, Debug, PartialEq, Eq, Structural)]
pub enum LinkCommand {
    Start,
    Pause,
    Resume,
    End,
}

/// State and telemetry notifications of the sidecar audio link; an error's
/// context is its JSON text.
#[derive(Clone, Debug, PartialEq, Eq)]
pub enum LinkEvent {
    Connected,
    Disconnected,
    BufferDropped,
    Error { call_id: String, code: ErrorCode, context: String },
}

/// Why the link refused a request.
#[derive(Clone, Copy, Debug, PartialEq, Eq, Structural)]
pub enum LinkError {
    Unavailable,
    InvalidSamplingRate(usize),
}

/// The text of a link error.
pub open spec fn link_error_message(e: LinkError) -> Seq<char> {
    match e {
        LinkError::Unavailable => "link client is unavailable"@,
        LinkError::InvalidSamplingRate(rate) => "sampling rate must be at least 8000 Hz, got "@ + decimal(rate as nat),
    }
}

impl LinkError {
    /// The error's text, as it is shown.
    pub fn message(&self) -> (res: String)
        ensures
            res@ == link_error_message(*self),
    {
        match self {
            LinkError::Unavailable => String::from_str("link client is unavailable"),
            LinkError::InvalidSamplingRate(rate) => {
                let digits = write_decimal(*rate as u64);
                join_text("sampling rate must be at least 8000 Hz, got ", digits.as_str())
            },
        }
    }
}

/// The lowest sampling rate the wire contract allows.
pub const MIN_SAMPLING_RATE: usize = 8000;

/// Checks a sampling rate against the wire contract's minimum.
pub fn check_sampling_rate(rate: usize) -> (res: Result<(), LinkError>)
    ensures
        res is Ok <==> rate >= 8000,
        res is Err ==> res == Err::<(), LinkError>(LinkError::InvalidSamplingRate(rate)),
{
    if rate < MIN_SAMPLING_RATE {
        Err(LinkError::InvalidSamplingRate(rate))
    } else {
        Ok(())
    }
}

/// The decimal digit `d`.
pub open spec fn digit_char(d: int) -> char {
    if d == 0 {
        '0'
    } else if d == 1 {
        '1'
    } else if d == 2 {
        '2'
    } else if d == 3 {
        '3'
    } else if d == 4 {
        '4'
    } else if d == 5 {
        '5'
    } else if d == 6 {
        '6'
    } else if d == 7 {
        '7'
    } else if d == 8 {
        '8'
    } else {
        '9'
    }
}

/// The decimal form of `n`, without leading zeros.
pub open spec fn decimal(n: nat) -> Seq<char>
    decreases n,
{
    if n < 10 {
        seq![digit_char(n as int)]
    } else {
        decimal(n / 10) + seq![digit_char((n % 10) as int)]
    }
}

fn digit_text(d: u64) -> (res: &'static str)
    requires
        d < 10,
    ensures
        res@ == seq![digit_char(d as int)],
{
    proof {
        reveal_strlit("0");
        reveal_strlit("1");
        reveal_strlit("2");
        reveal_strlit("3");
        reveal_strlit("4");
        reveal_strlit("5");
        reveal_strlit("6");
        reveal_strlit("7");
        reveal_strlit("8");
        reveal_strlit("9");
    }
    if d == 0 {
        "0"
    } else if d == 1 {
        "1"
    } else if d == 2 {
        "2"
    } else if d == 3 {
        "3"
    } else if d == 4 {
        "4"
    } else if d == 5 {
        "5"
    } else if d == 6 {
        "6"
    } else if d == 7 {
        "7"
    } else if d == 8 {
        "8"
    } else {
        "9"
    }
}

/// Writes `n` in decimal.
pub fn write_decimal(n: u64) -> (res: String)
    ensures
        res@ == decimal(n as nat),
    decreases n,
{
    if n < 10 {
        String::from_str(digit_text(n))
    } else {
        let mut res = write_decimal(n / 10);
        res.append(digit_text(n % 10));
        res
    }
}

/// Whether URL encoding leaves byte `b` as it is.
pub open spec fn is_unreserved(b: u8) -> bool {
    (48 <= b <= 57) || (65 <= b <= 90) || (97 <= b <= 122) || b == 45 || b == 46 || b == 95
        || b == 126
}

/// The upper-case hex digit of `d`.
pub open spec fn hex_upper(d: u8) -> char {
    if d < 10 {
        ((48 + d) as u8) as char
    } else {
        ((55 + d) as u8) as char
    }
}

/// Percent-encoding of `bytes`: letters, digits and `-._~` stay, every
/// other byte becomes `%` and two upper-case hex digits.
pub open spec fn percent_encoded(bytes: Seq<u8>) -> Seq<char>
    decreases bytes.len(),
{
    if bytes.len() == 0 {
        Seq::empty()
    } else {
        let b = bytes[0];
        let head = if is_unreserved(b) {
            seq![b as char]
        } else {
            seq!['%', hex_upper(b / 16), hex_upper(b % 16)]
        };
        head + percent_encoded(bytes.drop_first())
    }
}

/// `urlencoding::encode`: percent-encodes the UTF-8 bytes of `text`,
/// leaving letters, digits and `-._~` as they are.
#[verifier::external_body]
fn url_encode(text: &str) -> (res: String)
    ensures
        res@ == percent_encoded(text.spec_bytes()),
{
    urlencoding::encode(text).into_owned()
}

/// The WebSocket address of the local sidecar on `port`, authenticated
/// by `token`.
pub open spec fn endpoint_address(port: u16, token: Seq<u8>) -> Seq<char> {
    "ws://127.0.0.1:"@ + decimal(port as nat) + "/ws?token="@ + percent_encoded(token)
}

/// The WebSocket address of the local sidecar on `port`, authenticated
/// by `token`.
pub fn endpoint_url(port: u16, token: &str) -> (res: String)
    ensures
        res@ == endpoint_address(port, token.spec_bytes()),
{
    let mut res = String::from_str("ws://127.0.0.1:");
    let port_text = write_decimal(port as u64);
    res.append(port_text.as_str());
    res.append("/ws?token=");
    let encoded = url_encode(token);
    res.append(encoded.as_str());
    res
}

/// The frames `all` holds, `frame_bytes` bytes each, oldest first.
pub open spec fn whole_frames(all: Seq<u8>, frame_bytes: int) -> Seq<Seq<u8>>
    decreases all.len(),
{
    if frame_bytes <= 0 || all.len() < frame_bytes {
        Seq::empty()
    } else {
        seq![all.take(frame_bytes)] + whole_frames(all.skip(frame_bytes), frame_bytes)
    }
}

/// What is left of `all` after its whole frames.
pub open spec fn remainder(all: Seq<u8>, frame_bytes: int) -> Seq<u8>
    decreases all.len(),
{
    if frame_bytes <= 0 || all.len() < frame_bytes {
        all
    } else {
        remainder(all.skip(frame_bytes), frame_bytes)
    }
}

/// Reframing loses, adds and reorders no byte: the whole frames, joined,
/// followed by what is left, are exactly the bytes taken in; every frame is
/// whole, and less than one frame is left over.
pub proof fn reframing_keeps_every_byte(all: Seq<u8>, frame_bytes: int)
    requires
        frame_bytes > 0,
    ensures
        whole_frames(all, frame_bytes).flatten() + remainder(all, frame_bytes) == all,
        forall|i: int|
            0 <= i < whole_frames(all, frame_bytes).len() ==> (#[trigger] whole_frames(
                all,
                frame_bytes,
            )[i]).len() == frame_bytes,
        remainder(all, frame_bytes).len() < frame_bytes,
    decreases all.len(),
{
    if all.len() >= frame_bytes {
        let head = all.take(frame_bytes);
        let rest = all.skip(frame_bytes);
        reframing_keeps_every_byte(rest, frame_bytes);
        let w = whole_frames(all, frame_bytes);
        let wr = whole_frames(rest, frame_bytes);
        assert(w == seq![head] + wr);
        assert(w.first() == head);
        assert(w.drop_first() =~= wr);
        assert(w.flatten() == head + wr.flatten());
        assert(head + rest =~= all);
        assert((head + wr.flatten()) + remainder(rest, frame_bytes) =~= head + (wr.flatten()
            + remainder(rest, frame_bytes)));
        assert forall|i: int| 0 <= i < w.len() implies (#[trigger] w[i]).len() == frame_bytes by {
            if i > 0 {
                assert(w[i] == wr[i - 1]);
            }
        }
    } else {
        assert(whole_frames(all, frame_bytes).flatten() =~= Seq::<u8>::empty());
        assert(Seq::<u8>::empty() + all =~= all);
    }
}

/// Whether a chunk's byte count matches its frame count.
pub open spec fn consistent_chunk(c: ChunkView) -> bool {
    c.pcm.len() == c.frames * 4
}

/// Cuts the PCM it is given into frames of exactly 100 ms, carrying what is
/// left over into the next chunk.
pub struct FrameAssembler {
    frame_bytes: usize,
    pcm: Vec<u8>,
}

impl FrameAssembler {
    /// The bytes of one frame.
    pub closed spec fn frame_size(&self) -> int {
        self.frame_bytes as int
    }

    /// The bytes waiting for the next frame.
    pub closed spec fn pending(&self) -> Seq<u8> {
        self.pcm@
    }

    /// An assembler for 100 ms frames at `rate` frames a second, and at least
    /// one stereo sample.
    pub fn new(rate: usize) -> (res: Self)
        requires
            rate * 4 <= usize::MAX,
        ensures
            res.frame_size() == if tick_bytes(rate as int) >= 4 {
                tick_bytes(rate as int)
            } else {
                4
            },
            res.pending() == Seq::<u8>::empty(),
    {
        let bytes = StereoChunk::byte_len(rate);
        FrameAssembler { frame_bytes: if bytes >= 4 { bytes } else { 4 }, pcm: Vec::new() }
    }

    /// Takes a chunk and hands back every whole frame now available; a chunk
    /// whose bytes do not match its frame count is ignored.
    pub fn push(&mut self, chunk: StereoChunk) -> (res: Vec<StereoChunk>)
        requires
            old(self).frame_size() >= 4,
        ensures
            final(self).frame_size() == old(self).frame_size(),
            !consistent_chunk(chunk@) ==> res@.len() == 0 && final(self).pending()
                == old(self).pending(),
            consistent_chunk(chunk@) ==> {
                let all = old(self).pending() + chunk.pcm@;
                &&& res@.map_values(|c: StereoChunk| c@.pcm) == whole_frames(
                    all,
                    old(self).frame_size(),
                )
                &&& forall|i: int|
                    0 <= i < res@.len() ==> #[trigger] res@[i].frames == old(self).frame_size() / 4
                &&& final(self).pending() == remainder(all, old(self).frame_size())
            },
    {
        let len = chunk.pcm.len();
        let expected = chunk.frames.checked_mul(4);
        let consistent = match expected {
            Some(bytes) => bytes == len,
            None => false,
        };
        if !consistent || len % 4 != 0 {
            return Vec::new();
        }
        let mut incoming = chunk.pcm;
        self.pcm.append(&mut incoming);
        let ghost all = self.pcm@;
        let fb = self.frame_bytes;
        let mut frames: Vec<StereoChunk> = Vec::new();
        while self.pcm.len() >= fb
            invariant
                fb == self.frame_bytes,
                fb >= 4,
                frames@.map_values(|c: StereoChunk| c@.pcm) + whole_frames(self.pcm@, fb as int)
                    == whole_frames(all, fb as int),
                remainder(self.pcm@, fb as int) == remainder(all, fb as int),
                forall|i: int| 0 <= i < frames@.len() ==> #[trigger] frames@[i].frames == fb / 4,
            decreases self.pcm@.len(),
        {
            let ghost before = self.pcm@;
            let ghost done = frames@;
            let mut frame = self.pcm.split_off(fb);
            std::mem::swap(&mut frame, &mut self.pcm);
            frames.push(StereoChunk { pcm: frame, frames: fb / 4 });
            proof {
                assert(before.take(fb as int) =~= frame@);
                assert(before.skip(fb as int) =~= self.pcm@);
                assert(frames@.map_values(|c: StereoChunk| c@.pcm) =~= done.map_values(
                    |c: StereoChunk| c@.pcm,
                ).push(frame@));
                assert(whole_frames(before, fb as int) == seq![frame@] + whole_frames(
                    self.pcm@,
                    fb as int,
                ));
                assert(frames@.map_values(|c: StereoChunk| c@.pcm) + whole_frames(
                    self.pcm@,
                    fb as int,
                ) =~= done.map_values(|c: StereoChunk| c@.pcm) + whole_frames(before, fb as int));
            }
        }
        proof {
            assert(whole_frames(self.pcm@, fb as int) =~= Seq::<Seq<u8>>::empty());
            assert(frames@.map_values(|c: StereoChunk| c@.pcm) =~= frames@.map_values(
                |c: StereoChunk| c@.pcm,
            ) + whole_frames(self.pcm@, fb as int));
        }
        frames
    }
}

/// One meeting's link to the sidecar.
#[derive(Clone, Debug)]
pub struct Session {
    pub call_id: String,
    pub port: u16,
    pub token: String,
    pub rate: usize,
    pub diarization: bool,
}

/// A session as plain values.
pub struct SessionView {
    pub call_id: Seq<char>,
    pub port: u16,
    pub token: Seq<char>,
    pub rate: usize,
    pub diarization: bool,
}

impl View for Session {
    type V = SessionView;

    open spec fn view(&self) -> SessionView {
        SessionView {
            call_id: self.call_id@,
            port: self.port,
            token: self.token@,
            rate: self.rate,
            diarization: self.diarization,
        }
    }
}

impl Session {
    /// Whether `other` is the same session.
    pub fn same_as(&self, other: &Session) -> (res: bool)
        ensures
            res == (self@ == other@),
    {
        self.call_id == other.call_id && self.port == other.port && self.token == other.token
            && self.rate == other.rate && self.diarization == other.diarization
    }
}

/// The first delay before reconnecting, in milliseconds.
pub const FIRST_RETRY_DELAY_MS: u64 = 500;

/// The longest delay before reconnecting, in milliseconds.
pub const MAX_RETRY_DELAY_MS: u64 = 10000;

/// The delay after `delay` when a reconnect failed: twice as long, at most
/// ten seconds.
pub open spec fn next_delay(delay: u64) -> u64 {
    if delay * 2 <= 10000 {
        (delay * 2) as u64
    } else {
        10000
    }
}

/// The chunks of `fb` bytes each that `all` holds whole, as the assembler
/// hands them out.
pub open spec fn framed(all: Seq<u8>, fb: int) -> Seq<ChunkView> {
    whole_frames(all, fb).map_values(|p: Seq<u8>| ChunkView { pcm: p, frames: (fb / 4) as usize })
}

/// The buffer's chunks and drop count after each of `frames` is kept in
/// turn.
pub open spec fn kept_all(s: Seq<ChunkView>, dropped: int, frames: Seq<ChunkView>, capacity: int) -> (Seq<ChunkView>, int)
    decreases frames.len(),
{
    if frames.len() == 0 {
        (s, dropped)
    } else {
        let (s1, d1) = kept_all(s, dropped, frames.drop_last(), capacity);
        after_push(s1, d1, frames.last(), capacity)
    }
}

/// How many of `frames`, kept in turn, made the drop count grow.
pub open spec fn drops_reported(s: Seq<ChunkView>, dropped: int, frames: Seq<ChunkView>, capacity: int) -> int
    decreases frames.len(),
{
    if frames.len() == 0 {
        0
    } else {
        let (s1, d1) = kept_all(s, dropped, frames.drop_last(), capacity);
        drops_reported(s, dropped, frames.drop_last(), capacity) + if after_push(
            s1,
            d1,
            frames.last(),
            capacity,
        ).1 > d1 {
            1int
        } else {
            0int
        }
    }
}

/// What cutting `chunk` into frames of `fb` bytes after `pending` gives:
/// the whole frames `out` and the bytes `rest` left for the next chunk; a
/// chunk whose bytes do not match its frame count is ignored.
pub open spec fn cut_into_frames(pending: Seq<u8>, fb: int, chunk: ChunkView, out: Seq<ChunkView>, rest: Seq<u8>) -> bool {
    if consistent_chunk(chunk) {
        &&& out == framed(pending + chunk.pcm, fb)
        &&& rest == remainder(pending + chunk.pcm, fb)
    } else {
        &&& out == Seq::<ChunkView>::empty()
        &&& rest == pending
    }
}

/// The link's decisions: the meeting it carries, the audio it keeps while the
/// sidecar is out of reach, the framing of what it sends, and the delay
/// before the next reconnect.
pub struct LinkState {
    session: Option<Session>,
    buffer: Option<ReconnectBuffer>,
    assembler: Option<FrameAssembler>,
    retry_delay_ms: u64,
}

impl LinkState {
    /// The session carried, if any.
    pub closed spec fn current(&self) -> Option<SessionView> {
        match self.session {
            Some(s) => Some(s@),
            None => None,
        }
    }

    /// The chunks kept for the next connection.
    pub closed spec fn buffered(&self) -> Seq<ChunkView> {
        match self.buffer {
            Some(b) => b.chunks(),
            None => Seq::empty(),
        }
    }

    /// The frames dropped from the buffer of the current session.
    pub closed spec fn dropped(&self) -> int {
        match self.buffer {
            Some(b) => b.dropped(),
            None => 0,
        }
    }

    /// The PCM waiting for the next whole frame.
    pub closed spec fn pending(&self) -> Seq<u8> {
        match self.assembler {
            Some(a) => a.pending(),
            None => Seq::empty(),
        }
    }

    /// The delay before the next reconnect, in milliseconds.
    pub closed spec fn delay(&self) -> u64 {
        self.retry_delay_ms
    }

    /// A buffer and an assembler exist exactly while there is a session, fit
    /// for its rate, and the delay is within its bounds.
    pub closed spec fn well_formed(&self) -> bool {
        &&& (self.session is Some <==> self.buffer is Some)
        &&& (self.session is Some <==> self.assembler is Some)
        &&& (self.buffer matches Some(b) ==> b.well_formed())
        &&& (self.assembler matches Some(a) ==> a.frame_size() >= 4)
        &&& 500 <= self.retry_delay_ms <= 10000
    }

    /// No session yet.
    pub fn new() -> (res: Self)
        ensures
            res.well_formed(),
            res.current() is None,
            res.delay() == 500,
            res.buffered() == Seq::<ChunkView>::empty(),
    {
        LinkState { session: None, buffer: None, assembler: None, retry_delay_ms: FIRST_RETRY_DELAY_MS }
    }

    /// The session carried, if any.
    pub fn session(&self) -> (res: Option<&Session>)
        ensures
            match res {
                Some(s) => self.current() == Some(s@),
                None => self.current() is None,
            },
    {
        match &self.session {
            Some(s) => Some(s),
            None => None,
        }
    }

    /// Takes a start request: the same session is joined as it is, another
    /// one replaces it with an empty buffer and assembler. Tells whether it
    /// was replaced.
    pub fn start(&mut self, next: Session) -> (res: bool)
        requires
            old(self).well_formed(),
            next.rate >= 8000,
            next.rate * 12 <= usize::MAX,
        ensures
            final(self).well_formed(),
            final(self).delay() == old(self).delay(),
            res == (old(self).current() != Some(next@)),
            !res ==> *final(self) == *old(self),
            res ==> final(self).current() == Some(next@) && final(self).buffered()
                == Seq::<ChunkView>::empty() && final(self).dropped() == 0
                && final(self).pending() == Seq::<u8>::empty(),
            res ==> final(self).capacity() == next.rate * 12 && final(self).frame_size() == if tick_bytes(
                next.rate as int,
            ) >= 4 {
                tick_bytes(next.rate as int)
            } else {
                4
            },
    {
        let same = match &self.session {
            Some(current) => current.same_as(&next),
            None => false,
        };
        if same {
            return false;
        }
        let rate = next.rate;
        self.buffer = Some(ReconnectBuffer::new(rate));
        self.assembler = Some(FrameAssembler::new(rate));
        self.session = Some(next);
        true
    }

    /// Ends the session: nothing is kept.
    pub fn end(&mut self)
        requires
            old(self).well_formed(),
        ensures
            final(self).well_formed(),
            final(self).current() is None,
            final(self).buffered() == Seq::<ChunkView>::empty(),
            final(self).delay() == old(self).delay(),
    {
        self.session = None;
        self.buffer = None;
        self.assembler = None;
    }

    /// The delay before the next reconnect, in milliseconds.
    pub fn retry_delay_ms(&self) -> (res: u64)
        ensures
            res == self.delay(),
    {
        self.retry_delay_ms
    }

    /// A connection came up: the next failure waits the shortest delay again.
    pub fn reset_backoff(&mut self)
        requires
            old(self).well_formed(),
        ensures
            final(self).well_formed(),
            final(self).delay() == 500,
            final(self).current() == old(self).current(),
            final(self).buffered() == old(self).buffered(),
            final(self).pending() == old(self).pending(),
            final(self).dropped() == old(self).dropped(),
            final(self).capacity() == old(self).capacity(),
            final(self).frame_size() == old(self).frame_size(),
    {
        self.retry_delay_ms = FIRST_RETRY_DELAY_MS;
    }

    /// A reconnect failed: the next one waits twice as long, at most ten
    /// seconds.
    pub fn back_off(&mut self)
        requires
            old(self).well_formed(),
        ensures
            final(self).well_formed(),
            final(self).delay() == next_delay(old(self).delay()),
            final(self).current() == old(self).current(),
            final(self).buffered() == old(self).buffered(),
            final(self).pending() == old(self).pending(),
            final(self).dropped() == old(self).dropped(),
            final(self).capacity() == old(self).capacity(),
            final(self).frame_size() == old(self).frame_size(),
    {
        let doubled = self.retry_delay_ms * 2;
        self.retry_delay_ms = if doubled <= MAX_RETRY_DELAY_MS {
            doubled
        } else {
            MAX_RETRY_DELAY_MS
        };
    }

    /// Cuts a chunk of the session into whole frames; without a session
    /// nothing comes out.
    pub fn frames(&mut self, chunk: StereoChunk) -> (res: Vec<StereoChunk>)
        requires
            old(self).well_formed(),
        ensures
            final(self).well_formed(),
            final(self).current() == old(self).current(),
            final(self).buffered() == old(self).buffered(),
            final(self).dropped() == old(self).dropped(),
            final(self).delay() == old(self).delay(),
            old(self).current() is None ==> res@.len() == 0,
            old(self).current() is Some && consistent_chunk(chunk@) ==> res@.map_values(
                |c: StereoChunk| c@.pcm,
            ) == whole_frames(old(self).pending() + chunk.pcm@, old(self).frame_size())
                && final(self).pending() == remainder(
                old(self).pending() + chunk.pcm@,
                old(self).frame_size(),
            ),
            old(self).current() is Some && !consistent_chunk(chunk@) ==> res@.len() == 0
                && final(self).pending() == old(self).pending(),
            forall|i: int|
                0 <= i < res@.len() ==> #[trigger] res@[i].frames == old(self).frame_size() / 4,
            final(self).frame_size() == old(self).frame_size(),
            final(self).capacity() == old(self).capacity(),
            old(self).current() is Some ==> cut_into_frames(
                old(self).pending(),
                old(self).frame_size(),
                chunk@,
                res@.map_values(|c: StereoChunk| c@),
                final(self).pending(),
            ),
    {
        let ghost all = self.pending() + chunk.pcm@;
        let ghost fb = self.frame_size();
        let ghost consistent = consistent_chunk(chunk@);
        let res = match &mut self.assembler {
            Some(assembler) => assembler.push(chunk),
            None => Vec::new(),
        };
        proof {
            let fv = res@.map_values(|c: StereoChunk| c@);
            if old(self).current() is Some {
                if consistent {
                    assert forall|j: int| 0 <= j < fv.len() implies fv[j] == framed(all, fb)[j] by {
                        assert(res@.map_values(|c: StereoChunk| c@.pcm)[j] == res@[j]@.pcm);
                        assert(res@[j].frames == fb / 4);
                    }
                    assert(fv =~= framed(all, fb));
                } else {
                    assert(fv =~= Seq::<ChunkView>::empty());
                }
            }
        }
        res
    }

    /// The frame size of the session's assembler.
    pub closed spec fn frame_size(&self) -> int {
        match self.assembler {
            Some(a) => a.frame_size(),
            None => 4,
        }
    }

    /// Keeps a frame that could not be sent; tells whether audio was
    /// dropped to make room. Without a session the frame is let go.
    pub fn keep(&mut self, frame: StereoChunk) -> (res: bool)
        requires
            old(self).well_formed(),
        ensures
            final(self).well_formed(),
            final(self).current() == old(self).current(),
            final(self).pending() == old(self).pending(),
            final(self).delay() == old(self).delay(),
            res == (final(self).dropped() > old(self).dropped()),
            old(self).current() is Some ==> {
                let k = evicted(old(self).buffered(), frame.pcm@.len() as int, old(self).capacity());
                let kept = old(self).buffered().skip(k);
                if total_bytes(kept) + frame.pcm@.len() <= old(self).capacity() {
                    final(self).buffered() == kept.push(frame@)
                } else {
                    final(self).buffered() == Seq::<ChunkView>::empty()
                }
            },
            old(self).current() is None ==> final(self).buffered() == old(self).buffered() && !res,
            old(self).current() is Some ==> (final(self).buffered(), final(self).dropped())
                == after_push(old(self).buffered(), old(self).dropped(), frame@, old(self).capacity()),
            old(self).current() is None ==> final(self).dropped() == old(self).dropped(),
            final(self).capacity() == old(self).capacity(),
            final(self).frame_size() == old(self).frame_size(),
    {
        match &mut self.buffer {
            Some(buffer) => {
                let before = buffer.dropped_frames();
                buffer.push(frame);
                buffer.dropped_frames() > before
            },
            None => false,
        }
    }

    /// The capacity of the session's buffer, in bytes.
    pub closed spec fn capacity(&self) -> int {
        match self.buffer {
            Some(b) => b.capacity(),
            None => 0,
        }
    }

    /// Cuts a chunk that arrived while the sidecar is out of reach into
    /// frames and keeps them; tells how many of them made room by dropping
    /// older audio.
    pub fn keep_chunk(&mut self, chunk: StereoChunk) -> (res: usize)
        requires
            old(self).well_formed(),
        ensures
            final(self).well_formed(),
            final(self).current() == old(self).current(),
            final(self).delay() == old(self).delay(),
            old(self).current() is None ==> res == 0 && final(self).buffered() == old(self).buffered(),
            old(self).current() is Some ==> ({
                let all = old(self).pending() + chunk.pcm@;
                let f = if consistent_chunk(chunk@) {
                    framed(all, old(self).frame_size())
                } else {
                    Seq::<ChunkView>::empty()
                };
                &&& (final(self).buffered(), final(self).dropped()) == kept_all(
                    old(self).buffered(),
                    old(self).dropped(),
                    f,
                    old(self).capacity(),
                )
                &&& res == drops_reported(
                    old(self).buffered(),
                    old(self).dropped(),
                    f,
                    old(self).capacity(),
                )
                &&& final(self).pending() == if consistent_chunk(chunk@) {
                    remainder(all, old(self).frame_size())
                } else {
                    old(self).pending()
                }
            }),
    {
        let ghost b0 = self.buffered();
        let ghost d0 = self.dropped();
        let ghost cap = self.capacity();
        let ghost fb = self.frame_size();
        let ghost all = self.pending() + chunk.pcm@;
        let ghost consistent = consistent_chunk(chunk@);
        let frames = self.frames(chunk);
        let ghost fv = frames@.map_values(|c: StereoChunk| c@);
        let ghost expected = if consistent {
            framed(all, fb)
        } else {
            Seq::<ChunkView>::empty()
        };
        proof {
            if old(self).current() is Some {
                if consistent {
                    let w = whole_frames(all, fb);
                    assert(frames@.map_values(|c: StereoChunk| c@.pcm) == w);
                    assert forall|j: int| 0 <= j < fv.len() implies fv[j] == framed(all, fb)[j] by {
                        assert(frames@.map_values(|c: StereoChunk| c@.pcm)[j] == frames@[j]@.pcm);
                        assert(frames@[j].frames == fb / 4);
                    }
                    assert(fv =~= framed(all, fb));
                } else {
                    assert(fv =~= Seq::<ChunkView>::empty());
                }
            } else {
                assert(fv =~= Seq::<ChunkView>::empty());
            }
            assert(fv.take(0) =~= Seq::<ChunkView>::empty());
        }
        let drops = self.keep_frames(&frames);
        proof {
            assert(fv.take(0) =~= Seq::<ChunkView>::empty());
        }
        drops
    }

    /// Keeps frames that could not be sent, oldest first; tells how many of
    /// them made room by dropping older audio. Without a session they are
    /// let go.
    pub fn keep_frames(&mut self, frames: &Vec<StereoChunk>) -> (res: usize)
        requires
            old(self).well_formed(),
        ensures
            final(self).well_formed(),
            final(self).current() == old(self).current(),
            final(self).delay() == old(self).delay(),
            final(self).pending() == old(self).pending(),
            final(self).capacity() == old(self).capacity(),
            final(self).frame_size() == old(self).frame_size(),
            old(self).current() is None ==> res == 0 && final(self).buffered() == old(self).buffered()
                && final(self).dropped() == old(self).dropped(),
            old(self).current() is Some ==> {
                let fv = frames@.map_values(|c: StereoChunk| c@);
                &&& (final(self).buffered(), final(self).dropped()) == kept_all(
                    old(self).buffered(),
                    old(self).dropped(),
                    fv,
                    old(self).capacity(),
                )
                &&& res == drops_reported(
                    old(self).buffered(),
                    old(self).dropped(),
                    fv,
                    old(self).capacity(),
                )
            },
    {
        let ghost b0 = self.buffered();
        let ghost d0 = self.dropped();
        let ghost cap = self.capacity();
        let ghost fv = frames@.map_values(|c: StereoChunk| c@);
        proof {
            assert(fv.take(0) =~= Seq::<ChunkView>::empty());
        }
        let mut drops: usize = 0;
        let mut i: usize = 0;
        while i < frames.len()
            invariant
                self.well_formed(),
                self.current() == old(self).current(),
                self.delay() == old(self).delay(),
                self.capacity() == cap,
                cap == old(self).capacity(),
                self.frame_size() == old(self).frame_size(),
                self.pending() == old(self).pending(),
                fv == frames@.map_values(|c: StereoChunk| c@),
                b0 == old(self).buffered(),
                d0 == old(self).dropped(),
                old(self).current() is Some ==> (self.buffered(), self.dropped()) == kept_all(
                    b0,
                    d0,
                    fv.take(i as int),
                    cap,
                ),
                old(self).current() is Some ==> drops == drops_reported(b0, d0, fv.take(i as int), cap),
                old(self).current() is None ==> self.buffered() == b0 && self.dropped() == d0 && drops == 0,
                drops <= i <= frames@.len(),
            decreases frames@.len() - i,
        {
            let frame = frames[i].copy();
            proof {
                assert(fv.take(i + 1).drop_last() =~= fv.take(i as int));
                assert(fv.take(i + 1).last() == fv[i as int]);
                assert(fv[i as int] == frames@[i as int]@);
            }
            if self.keep(frame) {
                drops = drops + 1;
            }
            i = i + 1;
        }
        proof {
            assert(fv.take(i as int) =~= fv);
        }
        drops
    }

    /// The oldest kept chunk, the next to send after a reconnect.
    pub fn next_buffered(&self) -> (res: Option<&StereoChunk>)
        requires
            self.well_formed(),
        ensures
            self.buffered().len() == 0 ==> res is None,
            self.buffered().len() > 0 ==> (res matches Some(c) && c@ == self.buffered()[0]),
    {
        match &self.buffer {
            Some(buffer) => buffer.front(),
            None => None,
        }
    }

    /// Lets go of the oldest kept chunk once it has been sent.
    pub fn sent_buffered(&mut self)
        requires
            old(self).well_formed(),
        ensures
            final(self).well_formed(),
            final(self).current() == old(self).current(),
            final(self).delay() == old(self).delay(),
            final(self).buffered() == if old(self).buffered().len() == 0 {
                old(self).buffered()
            } else {
                old(self).buffered().drop_first()
            },
    {
        match &mut self.buffer {
            Some(buffer) => buffer.pop_front(),
            None => {},
        }
    }
}

/// Reconnect delays start at half a second and double up to ten seconds,
/// never leaving those bounds.
pub proof fn backoff_stays_within_bounds(delay: u64)
    requires
        500 <= delay <= 10000,
    ensures
        500 <= next_delay(delay) <= 10000,
        next_delay(delay) >= delay,
        next_delay(500) == 1000,
        next_delay(next_delay(next_delay(next_delay(next_delay(500))))) == 10000,
        next_delay(10000) == 10000,
{
}

} // verus!
