use vstd::prelude::*;
use vstd::string::*;

use crate::audio::{DeviceInfo, DeviceKind, PermissionState, StereoChunk};
use crate::capture::{CaptureDevice, CaptureDeviceKind, CaptureDeviceSelection, PermissionStatus};
use crate::capture_state::{text_view, SourceReadiness};
use crate::macos::devices::DeviceSelection;
use crate::macos::{SourceEvent, SourceKind};
use crate::mixer::{
    chunk_views, drained, filled, le_bytes, mixed, mixer_well_formed, Mixer, MixerView,
    SourceChannel,
};

verus! {

/// The capture command's permission status for the platform's state.
pub fn permission_status(state: PermissionState) -> (res: PermissionStatus)
    ensures
        res == (match state {
            PermissionState::Unknown => PermissionStatus::Unknown,
            PermissionState::Denied => PermissionStatus::Denied,
            PermissionState::Granted => PermissionStatus::Granted,
        }),
{
    match state {
        PermissionState::Unknown => PermissionStatus::Unknown,
        PermissionState::Denied => PermissionStatus::Denied,
        PermissionState::Granted => PermissionStatus::Granted,
    }
}

/// A platform device as the capture commands list it.
pub fn capture_device(device: DeviceInfo) -> (res: CaptureDevice)
    ensures
        res.id == device.id,
        res.name == device.name,
        res.is_default == device.is_default,
        res.kind == (match device.kind {
            DeviceKind::SystemOutput => CaptureDeviceKind::SystemOutput,
            DeviceKind::Microphone => CaptureDeviceKind::Microphone,
        }),
{
    CaptureDevice {
        id: device.id,
        name: device.name,
        is_default: device.is_default,
        kind: match device.kind {
            DeviceKind::SystemOutput => CaptureDeviceKind::SystemOutput,
            DeviceKind::Microphone => CaptureDeviceKind::Microphone,
        },
    }
}

/// The platform selection for a picked device id: the default when none
/// was picked.
pub fn native_selection(id: &Option<String>) -> (res: DeviceSelection)
    ensures
        match *id {
            None => res == DeviceSelection::Default,
            Some(t) => res matches DeviceSelection::DeviceId(r) && r@ == t@,
        },
{
    match id {
        Some(id) => DeviceSelection::DeviceId(id.clone()),
        None => DeviceSelection::Default,
    }
}

/// The sample stored in the little-endian bytes `lo`, `hi`.
pub open spec fn le_sample(lo: u8, hi: u8) -> i16 {
    let u = lo + 256 * hi;
    if u >= 32768 {
        (u - 65536) as i16
    } else {
        u as i16
    }
}

/// The 16-bit samples of little-endian PCM, a trailing odd byte ignored.
pub open spec fn samples_of(pcm: Seq<u8>) -> Seq<i16> {
    Seq::new(pcm.len() / 2, |i: int| le_sample(pcm[2 * i], pcm[2 * i + 1]))
}

/// Reads the 16-bit samples of little-endian PCM, as the recorder takes
/// them.
pub fn pcm_samples(pcm: &Vec<u8>) -> (res: Vec<i16>)
    ensures
        res@ == samples_of(pcm@),
{
    let n = pcm.len() / 2;
    let mut res: Vec<i16> = Vec::new();
    let mut i: usize = 0;
    while i < n
        invariant
            n == pcm@.len() / 2,
            i <= n,
            res@.len() == i,
            forall|k: int| 0 <= k < i ==> res@[k] == le_sample(pcm@[2 * k], pcm@[2 * k + 1]),
        decreases n - i,
    {
        assert(2 * i + 1 < pcm@.len()) by (nonlinear_arith)
            requires
                i < n,
                n == pcm@.len() / 2,
        ;
        assert(pcm@.len() == pcm.len());
        assert(2 * i + 1 < usize::MAX);
        let lo = pcm[2 * i];
        let hi = pcm[2 * i + 1];
        let u: i32 = lo as i32 + 256 * (hi as i32);
        let sample: i16 = if u >= 32768 {
            (u - 65536) as i16
        } else {
            u as i16
        };
        res.push(sample);
        i = i + 1;
    }
    assert(res@ =~= samples_of(pcm@));
    res
}

/// What stopping both sources reports: the system's error, else the
/// microphone's, else success; a source that was not running reports
/// nothing.
pub open spec fn first_stop_error_of(
    system: Option<Result<(), String>>,
    microphone: Option<Result<(), String>>,
) -> Result<(), String> {
    match (system, microphone) {
        (Some(Err(e)), _) => Err(e),
        (_, Some(Err(e))) => Err(e),
        _ => Ok(()),
    }
}

/// What stopping both sources reports: the system's error, else the
/// microphone's, else success.
pub fn first_stop_error(system: Option<Result<(), String>>, microphone: Option<Result<(), String>>) -> (res: Result<(), String>)
    ensures
        res == first_stop_error_of(system, microphone),
{
    match system {
        Some(Err(e)) => Err(e),
        _ => match microphone {
            Some(Err(e)) => Err(e),
            _ => Ok(()),
        },
    }
}

/// What the worker does with a source's event.
#[derive(Debug, PartialEq, Eq)]
pub enum SourceEventAction {
    /// Rebuild that source's stream for this selection.
    Rebuild(SourceKind, DeviceSelection),
    /// Close the session, reporting this error.
    Fail(String),
    /// Nothing.
    Ignore,
}

/// What the worker does with `event` while `selection` is active: a lost
/// device rebuilds its source for the same selection, an error fails the
/// session, starts and stops are only news.
pub fn source_event_action(selection: &CaptureDeviceSelection, event: SourceEvent) -> (res: SourceEventAction)
    ensures
        match event {
            SourceEvent::RebuildRequired(SourceKind::System) => res matches SourceEventAction::Rebuild(
                k,
                s,
            ) && k == SourceKind::System && match selection.system_output_id {
                None => s == DeviceSelection::Default,
                Some(t) => s matches DeviceSelection::DeviceId(r) && r@ == t@,
            },
            SourceEvent::RebuildRequired(SourceKind::Microphone) => res matches SourceEventAction::Rebuild(
                k,
                s,
            ) && k == SourceKind::Microphone && match selection.microphone_id {
                None => s == DeviceSelection::Default,
                Some(t) => s matches DeviceSelection::DeviceId(r) && r@ == t@,
            },
            SourceEvent::Error(_, e) => res == SourceEventAction::Fail(e),
            _ => res is Ignore,
        },
{
    match event {
        SourceEvent::RebuildRequired(SourceKind::System) => SourceEventAction::Rebuild(
            SourceKind::System,
            native_selection(&selection.system_output_id),
        ),
        SourceEvent::RebuildRequired(SourceKind::Microphone) => SourceEventAction::Rebuild(
            SourceKind::Microphone,
            native_selection(&selection.microphone_id),
        ),
        SourceEvent::Error(_, error) => SourceEventAction::Fail(error),
        SourceEvent::Started(_) => SourceEventAction::Ignore,
        SourceEvent::Stopped(_) => SourceEventAction::Ignore,
    }
}

/// The error for a link start whose capture start was superseded.
pub open spec fn superseded_link_error() -> Seq<char> {
    "capture start was superseded"@
}

/// The error for a pause or resume without a meeting link.
pub open spec fn link_inactive_error() -> Seq<char> {
    "meeting link is not active"@
}

/// What the capture worker keeps between commands, apart from the platform
/// streams, the recorder and the link: the generation of the start whose
/// sources run, the selection they were started with, and the mixer.
pub struct WorkerSession {
    active_generation: Option<u64>,
    selection: CaptureDeviceSelection,
    mixer: Mixer,
}

impl WorkerSession {
    /// The generation of the start whose sources run.
    pub closed spec fn generation(&self) -> Option<u64> {
        self.active_generation
    }

    /// The selection the running sources were started with.
    pub closed spec fn selected(&self) -> CaptureDeviceSelection {
        self.selection
    }

    /// The mixer's state.
    pub closed spec fn mixing(&self) -> MixerView {
        self.mixer@
    }

    /// The mixer never holds more than three seconds per source.
    pub closed spec fn well_formed(&self) -> bool {
        mixer_well_formed(self.mixer@)
    }

    /// A worker with no session.
    pub fn new() -> (res: Self)
        ensures
            res.well_formed(),
            res.generation() is None,
            res.selected().system_output_id is None,
            res.selected().microphone_id is None,
            res.mixing().system.len() == 0,
            res.mixing().microphone.len() == 0,
            !res.mixing().system_muted,
            !res.mixing().microphone_muted,
            !res.mixing().paused,
    {
        WorkerSession {
            active_generation: None,
            selection: CaptureDeviceSelection { system_output_id: None, microphone_id: None },
            mixer: Mixer::new(),
        }
    }

    /// The generation of the start whose sources run.
    pub fn active_generation(&self) -> (res: Option<u64>)
        ensures
            res == self.generation(),
    {
        self.active_generation
    }

    /// The selection the running sources were started with.
    pub fn selection(&self) -> (res: &CaptureDeviceSelection)
        ensures
            *res == self.selected(),
    {
        &self.selection
    }

    /// A link may start only for the start whose sources run.
    pub fn check_link_start(&self, generation: u64) -> (res: Result<(), String>)
        ensures
            res is Ok <==> self.generation() == Some(generation),
            res matches Err(e) ==> e@ == superseded_link_error(),
    {
        match self.active_generation {
            Some(active) => if active == generation {
                return Ok(());
            },
            None => {},
        }
        Err(String::from_str("capture start was superseded"))
    }

    /// Takes in what the link said to a pause, `None` when there is no link:
    /// the mixer pauses only once the link has.
    pub fn link_paused(&mut self, link: Option<Result<(), String>>) -> (res: Result<(), String>)
        requires
            old(self).well_formed(),
        ensures
            final(self).well_formed(),
            final(self).generation() == old(self).generation(),
            final(self).selected() == old(self).selected(),
            match link {
                None => res matches Err(e) && e@ == link_inactive_error() && final(self).mixing() == old(self).mixing(),
                Some(Err(e)) => res == Err::<(), String>(e) && final(self).mixing() == old(self).mixing(),
                Some(Ok(())) => res is Ok && final(self).mixing() == (MixerView {
                    system: Seq::empty(),
                    microphone: Seq::empty(),
                    paused: true,
                    ..old(self).mixing()
                }),
            },
    {
        match link {
            None => Err(String::from_str("meeting link is not active")),
            Some(Err(e)) => Err(e),
            Some(Ok(())) => {
                self.mixer.pause();
                Ok(())
            },
        }
    }

    /// Takes in what the link said to a resume, `None` when there is no
    /// link: the mixer resumes only once the link has.
    pub fn link_resumed(&mut self, link: Option<Result<(), String>>) -> (res: Result<(), String>)
        requires
            old(self).well_formed(),
        ensures
            final(self).well_formed(),
            final(self).generation() == old(self).generation(),
            final(self).selected() == old(self).selected(),
            match link {
                None => res matches Err(e) && e@ == link_inactive_error() && final(self).mixing() == old(self).mixing(),
                Some(Err(e)) => res == Err::<(), String>(e) && final(self).mixing() == old(self).mixing(),
                Some(Ok(())) => res is Ok && final(self).mixing() == (MixerView {
                    paused: false,
                    ..old(self).mixing()
                }),
            },
    {
        match link {
            None => Err(String::from_str("meeting link is not active")),
            Some(Err(e)) => Err(e),
            Some(Ok(())) => {
                self.mixer.resume();
                Ok(())
            },
        }
    }

    /// The link was ended: the mixer stops taking audio.
    pub fn link_ended(&mut self)
        requires
            old(self).well_formed(),
        ensures
            final(self).well_formed(),
            final(self).generation() == old(self).generation(),
            final(self).selected() == old(self).selected(),
            final(self).mixing() == (MixerView {
                system: Seq::empty(),
                microphone: Seq::empty(),
                paused: true,
                ..old(self).mixing()
            }),
    {
        self.mixer.pause();
    }

    /// Takes in which sources came up for start `generation` with
    /// `selection`: only when both did does the session adopt them.
    pub fn sources_started(&mut self, selection: CaptureDeviceSelection, generation: u64, readiness: SourceReadiness) -> (res: SourceReadiness)
        requires
            old(self).well_formed(),
        ensures
            final(self).well_formed(),
            res == readiness,
            final(self).mixing() == old(self).mixing(),
            readiness.system && readiness.microphone ==> final(self).generation() == Some(generation)
                && final(self).selected() == selection,
            !(readiness.system && readiness.microphone) ==> final(self).generation() == old(self).generation()
                && final(self).selected() == old(self).selected(),
    {
        if readiness.both_active() {
            self.selection = selection;
            self.active_generation = Some(generation);
        }
        readiness
    }

    /// Takes in how stopping the two sources went: the session ends, the
    /// mixer starts afresh, and the first failure is reported.
    pub fn sources_stopped(&mut self, system: Option<Result<(), String>>, microphone: Option<Result<(), String>>) -> (res: Result<(), String>)
        ensures
            final(self).well_formed(),
            final(self).generation() is None,
            final(self).selected() == old(self).selected(),
            final(self).mixing().system.len() == 0,
            final(self).mixing().microphone.len() == 0,
            !final(self).mixing().paused,
            !final(self).mixing().system_muted,
            !final(self).mixing().microphone_muted,
            res == first_stop_error_of(system, microphone),
    {
        self.active_generation = None;
        self.mixer = Mixer::new();
        first_stop_error(system, microphone)
    }

    /// Mixes `frames` of `channel` into the session's chunks.
    pub fn mix(&mut self, channel: SourceChannel, frames: &[i16]) -> (res: Vec<StereoChunk>)
        requires
            old(self).well_formed(),
        ensures
            final(self).well_formed(),
            final(self).generation() == old(self).generation(),
            final(self).selected() == old(self).selected(),
            old(self).mixing().paused ==> res@.len() == 0 && final(self).mixing() == old(self).mixing(),
            !old(self).mixing().paused ==> chunk_views(res@) == mixed(filled(old(self).mixing(), channel, frames@))
                && final(self).mixing() == drained(filled(old(self).mixing(), channel, frames@)),
    {
        self.mixer.push(channel, frames)
    }
}

/// Reading back what the mixer wrote gives the samples it was given:
/// little-endian encoding loses nothing.
pub proof fn samples_read_back(v: i16)
    ensures
        le_sample(le_bytes(v)[0], le_bytes(v)[1]) == v,
{
    let u: int = if v < 0 {
        v + 65536
    } else {
        v as int
    };
    let lo = u % 256;
    let hi = u / 256;
    assert(0 <= lo < 256 && 0 <= hi < 256 && lo + 256 * hi == u) by (nonlinear_arith)
        requires
            0 <= u < 65536,
            lo == u % 256,
            hi == u / 256,
    ;
    assert(le_bytes(v)[0] == lo as u8);
    assert(le_bytes(v)[1] == hi as u8);
}

} // verus!
