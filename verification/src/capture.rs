use vstd::prelude::*;
use vstd::string::*;

use crate::capture_state::{
    activated_model, after_source_failure, allows, blank_view, failed_model, failure_applies,
    moved_to, preflighted, text_view, transition_error, CaptureModel, CapturePhase,
    CaptureSnapshot, CaptureState, SnapshotView, SourceReadiness, Transition,
};
use crate::text::{join_path, join_text, joined_path};

verus! {

/// Whether the operating system lets the app use one capture source.
#[derive(Clone, Copy, Debug, PartialEq, Eq, Structural)]
pub enum PermissionStatus {
    Unknown,
    Denied,
    Granted,
}

/// The permissions of both capture sources.
#[derive(Clone, Copy, Debug, PartialEq, Eq, Structural)]
pub struct PermissionSnapshot {
    pub screen_recording: PermissionStatus,
    pub microphone: PermissionStatus,
}

/// Whether either permission has been refused.
pub open spec fn has_denial(p: PermissionSnapshot) -> bool {
    p.screen_recording == PermissionStatus::Denied || p.microphone == PermissionStatus::Denied
}

impl PermissionSnapshot {
    /// Both permissions granted.
    pub fn granted() -> (res: Self)
        ensures
            res.screen_recording == PermissionStatus::Granted,
            res.microphone == PermissionStatus::Granted,
    {
        PermissionSnapshot {
            screen_recording: PermissionStatus::Granted,
            microphone: PermissionStatus::Granted,
        }
    }

    /// Whether either permission has been refused; an undetermined
    /// permission is asked for when the sources start.
    pub fn has_denial(&self) -> (res: bool)
        ensures
            res == has_denial(*self),
    {
        self.screen_recording == PermissionStatus::Denied || self.microphone
            == PermissionStatus::Denied
    }
}

/// What a capture device carries.
#[derive(Clone, Copy, Debug, PartialEq, Eq, Structural)]
pub enum CaptureDeviceKind {
    SystemOutput,
    Microphone,
}

/// A device the user can pick.
#[derive(Clone, Debug, PartialEq, Eq)]
pub struct CaptureDevice {
    pub id: String,
    pub name: String,
    pub is_default: bool,
    pub kind: CaptureDeviceKind,
}

/// A capture device as plain values.
pub struct DeviceView {
    pub id: Seq<char>,
    pub name: Seq<char>,
    pub is_default: bool,
    pub kind: CaptureDeviceKind,
}

impl View for CaptureDevice {
    type V = DeviceView;

    open spec fn view(&self) -> DeviceView {
        DeviceView { id: self.id@, name: self.name@, is_default: self.is_default, kind: self.kind }
    }
}

/// The devices the user picked; `None` stands for the system default.
#[derive(Clone, Debug, PartialEq, Eq)]
pub struct CaptureDeviceSelection {
    pub system_output_id: Option<String>,
    pub microphone_id: Option<String>,
}

/// A device selection as plain values.
pub struct SelectionView {
    pub system_output_id: Option<Seq<char>>,
    pub microphone_id: Option<Seq<char>>,
}

impl View for CaptureDeviceSelection {
    type V = SelectionView;

    open spec fn view(&self) -> SelectionView {
        SelectionView {
            system_output_id: text_view(self.system_output_id),
            microphone_id: text_view(self.microphone_id),
        }
    }
}

fn copy_text(value: &Option<String>) -> (res: Option<String>)
    ensures
        res == *value,
{
    match value {
        Some(text) => Some(text.clone()),
        None => None,
    }
}

impl CaptureDeviceSelection {
    /// An exact copy of the selection.
    pub fn copy(&self) -> (res: Self)
        ensures
            res == *self,
    {
        CaptureDeviceSelection {
            system_output_id: copy_text(&self.system_output_id),
            microphone_id: copy_text(&self.microphone_id),
        }
    }
}

impl Default for CaptureDeviceSelection {
    fn default() -> (res: Self)
        ensures
            res.system_output_id is None,
            res.microphone_id is None,
    {
        CaptureDeviceSelection { system_output_id: None, microphone_id: None }
    }
}

/// Where the sidecar listens, and how the microphone is transcribed.
#[derive(Clone, Debug)]
pub struct LinkOptions {
    pub port: u16,
    pub token: String,
    pub diarize_microphone: bool,
}

/// Link options as plain values.
pub struct LinkOptionsView {
    pub port: u16,
    pub token: Seq<char>,
    pub diarize_microphone: bool,
}

impl View for LinkOptions {
    type V = LinkOptionsView;

    open spec fn view(&self) -> LinkOptionsView {
        LinkOptionsView {
            port: self.port,
            token: self.token@,
            diarize_microphone: self.diarize_microphone,
        }
    }
}

/// The platform side of a capture: permissions, devices, the two sources,
/// the recording and the sidecar link.
pub trait CaptureBackend {
    fn permissions(&mut self) -> Result<PermissionSnapshot, String>;

    fn devices(&mut self) -> Result<Vec<CaptureDevice>, String>;

    fn start_sources(&mut self, selection: &CaptureDeviceSelection, generation: u64) -> Result<
        SourceReadiness,
        String,
    >;

    /// Creates the directory a meeting's recording goes to.
    fn create_recording_dir(&mut self, dir: &str) -> Result<(), String>;

    fn open_recorder(&mut self, path: &str) -> Result<(), String>;

    fn start_link(&mut self, call_id: &str, options: &LinkOptions, generation: u64) -> Result<
        (),
        String,
    >;

    fn pause_link(&mut self) -> Result<(), String>;

    fn resume_link(&mut self) -> Result<(), String>;

    fn end_link(&mut self) -> Result<(), String>;

    fn finish_recorder(&mut self) -> Result<(), String>;

    fn stop_sources(&mut self) -> Result<(), String>;

    /// A source failure observed since the last call, with the start attempt
    /// it belongs to.
    fn poll_failure(&mut self) -> (res: Option<(u64, String)>)
        default_ensures
            res is None,
    {
        None
    }
}

/// Where every new snapshot of the capture is announced.
pub trait SnapshotEmitter {
    fn emit(&mut self, snapshot: &CaptureSnapshot);
}

/// An emitter that announces nothing.
pub struct SilentEmitter;

impl SnapshotEmitter for SilentEmitter {
    fn emit(&mut self, snapshot: &CaptureSnapshot) {
    }
}

/// One exchange of the capture with its backend or emitter, with what came
/// back.
pub enum BackendStep {
    Permissions(Result<PermissionSnapshot, Seq<char>>),
    Devices(Result<Seq<DeviceView>, Seq<char>>),
    StartSources(SelectionView, u64, Result<SourceReadiness, Seq<char>>),
    CreateRecordingDir(Seq<char>, Result<(), Seq<char>>),
    OpenRecorder(Seq<char>, Result<(), Seq<char>>),
    StartLink(Seq<char>, LinkOptionsView, u64, Result<(), Seq<char>>),
    PauseLink(Result<(), Seq<char>>),
    ResumeLink(Result<(), Seq<char>>),
    EndLink(Result<(), Seq<char>>),
    FinishRecorder(Result<(), Seq<char>>),
    StopSources(Result<(), Seq<char>>),
    PollFailure(Option<(u64, Seq<char>)>),
    MeetingId(Seq<char>),
    Emitted(SnapshotView),
}

/// A unit result as plain values.
pub open spec fn unit_view(r: Result<(), String>) -> Result<(), Seq<char>> {
    match r {
        Ok(()) => Ok(()),
        Err(e) => Err(e@),
    }
}

/// A permissions result as plain values.
pub open spec fn permissions_view(r: Result<PermissionSnapshot, String>) -> Result<PermissionSnapshot, Seq<char>> {
    match r {
        Ok(p) => Ok(p),
        Err(e) => Err(e@),
    }
}

/// A device listing as plain values.
pub open spec fn devices_view(r: Result<Vec<CaptureDevice>, String>) -> Result<Seq<DeviceView>, Seq<char>> {
    match r {
        Ok(d) => Ok(d@.map_values(|x: CaptureDevice| x@)),
        Err(e) => Err(e@),
    }
}

/// A source start result as plain values.
pub open spec fn readiness_view(r: Result<SourceReadiness, String>) -> Result<SourceReadiness, Seq<char>> {
    match r {
        Ok(p) => Ok(p),
        Err(e) => Err(e@),
    }
}

/// A snapshot result as plain values.
pub open spec fn outcome_view(r: Result<CaptureSnapshot, String>) -> Result<SnapshotView, Seq<char>> {
    match r {
        Ok(s) => Ok(s@),
        Err(e) => Err(e@),
    }
}

/// A polled failure as plain values.
pub open spec fn failure_view(p: Option<(u64, String)>) -> Option<(u64, Seq<char>)> {
    match p {
        Some((g, e)) => Some((g, e@)),
        None => None,
    }
}

/// The error of a start refused for denied permissions.
pub open spec fn permissions_error() -> Seq<char> {
    "capture permissions are not granted"@
}

/// The error of a start whose sources did not both come up.
pub open spec fn inactive_sources_error() -> Seq<char> {
    "both capture sources must be active"@
}

/// The error of a start whose recording directory could not be made.
pub open spec fn directory_error(cause: Seq<char>) -> Seq<char> {
    "recording directory could not be created: "@ + cause
}

/// `m` after a polled failure was applied.
pub open spec fn polled(m: CaptureModel, p: Option<(u64, Seq<char>)>) -> CaptureModel {
    match p {
        Some((g, e)) => after_source_failure(m, g, e),
        None => m,
    }
}

/// Whether a polled failure was taken by the capture.
pub open spec fn taken(m: CaptureModel, p: Option<(u64, Seq<char>)>) -> bool {
    match p {
        Some((g, e)) => g == m.attempt && failure_applies(m.snapshot.phase),
        None => false,
    }
}

/// The steps of one poll for failures: the poll, and the new snapshot when
/// the failure was taken.
pub open spec fn poll_steps(m: CaptureModel, p: Option<(u64, Seq<char>)>) -> Seq<BackendStep> {
    if taken(m, p) {
        seq![BackendStep::PollFailure(p), BackendStep::Emitted(polled(m, p).snapshot)]
    } else {
        seq![BackendStep::PollFailure(p)]
    }
}

/// Whether start attempt `generation` has been cut short.
pub open spec fn interrupted(m: CaptureModel, generation: u64) -> bool {
    m.attempt != generation || m.snapshot.phase != CapturePhase::Starting
}

/// The error an interrupted start reports.
pub open spec fn interruption_error(m: CaptureModel) -> Seq<char> {
    match m.snapshot.error {
        Some(e) => e,
        None => "capture start was interrupted"@,
    }
}

/// The capture failed with `error` at `m`: the failed snapshot is the last
/// step, and the error is the result.
pub open spec fn ends_failed(
    m: CaptureModel,
    error: Seq<char>,
    rest: Seq<BackendStep>,
    res: Result<SnapshotView, Seq<char>>,
    m2: CaptureModel,
) -> bool {
    &&& rest == seq![BackendStep::Emitted(failed_model(m, error).snapshot)]
    &&& res == Err::<SnapshotView, Seq<char>>(error)
    &&& m2 == failed_model(m, error)
}

/// A poll for failures as the first of `t`, then `cleanup` and the
/// interruption error if the start was cut short, else `then` holds of the
/// steps after the poll.
pub open spec fn checked_poll(
    m: CaptureModel,
    t: Seq<BackendStep>,
    cleanup: spec_fn(Seq<BackendStep>) -> bool,
    res: Result<SnapshotView, Seq<char>>,
    m2: CaptureModel,
    then: spec_fn(Seq<BackendStep>) -> bool,
) -> bool {
    &&& t.len() >= 1
    &&& t[0] matches BackendStep::PollFailure(p)
    &&& {
        let k = poll_steps(m, p).len() as int;
        &&& t.len() >= k
        &&& t.take(k) == poll_steps(m, p)
        &&& if interrupted(polled(m, p), m.attempt) {
            &&& cleanup(t.skip(k))
            &&& res == Err::<SnapshotView, Seq<char>>(interruption_error(polled(m, p)))
            &&& m2 == polled(m, p)
        } else {
            then(t.skip(k))
        }
    }
}

/// The activation that ends a successful start.
pub open spec fn activation_ran(
    m: CaptureModel,
    id: Seq<char>,
    path: Seq<char>,
    t: Seq<BackendStep>,
    res: Result<SnapshotView, Seq<char>>,
    m2: CaptureModel,
) -> bool {
    checked_poll(
        m,
        t,
        |rest: Seq<BackendStep>|
            rest.len() == 3 && rest[0] is EndLink && rest[1] is FinishRecorder
                && rest[2] is StopSources,
        res,
        m2,
        |rest: Seq<BackendStep>|
            {
                &&& rest == seq![BackendStep::Emitted(activated_model(m, id, path).snapshot)]
                &&& res == Ok::<SnapshotView, Seq<char>>(activated_model(m, id, path).snapshot)
                &&& m2 == activated_model(m, id, path)
            },
    )
}

/// Starting the link to the sidecar for meeting `id`.
pub open spec fn link_ran(
    m: CaptureModel,
    id: Seq<char>,
    path: Seq<char>,
    opts: LinkOptionsView,
    t: Seq<BackendStep>,
    res: Result<SnapshotView, Seq<char>>,
    m2: CaptureModel,
) -> bool {
    &&& t.len() >= 1
    &&& t[0] matches BackendStep::StartLink(call_id, o, g, r)
    &&& call_id == id && o == opts && g == m.attempt
    &&& match r {
        Err(e) => t.len() >= 3 && t[1] is FinishRecorder && t[2] is StopSources && ends_failed(
            m,
            e,
            t.skip(3),
            res,
            m2,
        ),
        Ok(_) => activation_ran(m, id, path, t.skip(1), res, m2),
    }
}

/// Opening the recording at `path`, then the link.
pub open spec fn recording_ran(
    m: CaptureModel,
    id: Seq<char>,
    path: Seq<char>,
    opts: LinkOptionsView,
    t: Seq<BackendStep>,
    res: Result<SnapshotView, Seq<char>>,
    m2: CaptureModel,
) -> bool {
    &&& t.len() >= 1
    &&& t[0] matches BackendStep::OpenRecorder(p, r)
    &&& p == path
    &&& match r {
        Err(e) => t.len() >= 2 && t[1] is StopSources && ends_failed(m, e, t.skip(2), res, m2),
        Ok(_) => checked_poll(
            m,
            t.skip(1),
            |rest: Seq<BackendStep>|
                rest.len() == 2 && rest[0] is FinishRecorder && rest[1] is StopSources,
            res,
            m2,
            |rest: Seq<BackendStep>| link_ran(m, id, path, opts, rest, res, m2),
        ),
    }
}

/// The directory of meeting `id` under the app's data directory `dir`.
pub open spec fn meeting_dir(dir: Seq<char>, id: Seq<char>) -> Seq<char> {
    joined_path(joined_path(dir, "recordings"@), id)
}

/// The recording of meeting `id` under the app's data directory `dir`.
pub open spec fn recording_path(dir: Seq<char>, id: Seq<char>) -> Seq<char> {
    joined_path(meeting_dir(dir, id), "audio.wav"@)
}

/// With both sources up: a new meeting, its directory and recording, and
/// the link.
pub open spec fn meeting_ran(
    m: CaptureModel,
    dir: Seq<char>,
    opts: LinkOptionsView,
    t: Seq<BackendStep>,
    res: Result<SnapshotView, Seq<char>>,
    m2: CaptureModel,
) -> bool {
    &&& t.len() >= 2
    &&& t[0] matches BackendStep::MeetingId(id)
    &&& is_v4_uuid_text(id)
    &&& t[1] matches BackendStep::CreateRecordingDir(d, r)
    &&& d == meeting_dir(dir, id)
    &&& match r {
        Err(e) => t.len() >= 3 && t[2] is StopSources && ends_failed(
            m,
            directory_error(e),
            t.skip(3),
            res,
            m2,
        ),
        Ok(_) => recording_ran(m, id, recording_path(dir, id), opts, t.skip(2), res, m2),
    }
}

/// From the starting phase: the sources, then the meeting.
pub open spec fn sources_ran(
    m: CaptureModel,
    dir: Seq<char>,
    selection: SelectionView,
    opts: LinkOptionsView,
    t: Seq<BackendStep>,
    res: Result<SnapshotView, Seq<char>>,
    m2: CaptureModel,
) -> bool {
    &&& t.len() >= 2
    &&& t[0] == BackendStep::Emitted(m.snapshot)
    &&& t[1] matches BackendStep::StartSources(s, g, r)
    &&& s == selection && g == m.attempt
    &&& match r {
        Err(e) => ends_failed(m, e, t.skip(2), res, m2),
        Ok(ready) => if !(ready.system && ready.microphone) {
            t.len() >= 3 && t[2] is StopSources && ends_failed(
                m,
                inactive_sources_error(),
                t.skip(3),
                res,
                m2,
            )
        } else {
            checked_poll(
                m,
                t.skip(2),
                |rest: Seq<BackendStep>| rest.len() == 1 && rest[0] is StopSources,
                res,
                m2,
                |rest: Seq<BackendStep>| meeting_ran(m, dir, opts, rest, res, m2),
            )
        },
    }
}

/// A start of a meeting from capture `m`, with data directory `dir`, device
/// selection `selection` and link options `opts`, made exactly the steps `t`
/// and ended with result `res` in capture `m2`.
pub open spec fn start_ran(
    m: CaptureModel,
    dir: Seq<char>,
    selection: SelectionView,
    opts: LinkOptionsView,
    t: Seq<BackendStep>,
    res: Result<SnapshotView, Seq<char>>,
    m2: CaptureModel,
) -> bool {
    if !allows(Transition::BeginPreflight, m.snapshot.phase) {
        &&& t == Seq::<BackendStep>::empty()
        &&& res == Err::<SnapshotView, Seq<char>>(transition_error(m.snapshot.phase))
        &&& m2 == m
    } else {
        let m1 = preflighted(m);
        &&& t.len() >= 2
        &&& t[0] == BackendStep::Emitted(m1.snapshot)
        &&& t[1] matches BackendStep::Permissions(p)
        &&& match p {
            Err(e) => ends_failed(m1, e, t.skip(2), res, m2),
            Ok(perms) => if has_denial(perms) {
                ends_failed(m1, permissions_error(), t.skip(2), res, m2)
            } else {
                sources_ran(
                    moved_to(m1, CapturePhase::Starting),
                    dir,
                    selection,
                    opts,
                    t.skip(2),
                    res,
                    m2,
                )
            },
        }
    }
}

/// A pause (when `pausing`) or resume of capture `m` made exactly the steps
/// `t` and ended with result `res` in capture `m2`.
pub open spec fn toggle_ran(
    pausing: bool,
    m: CaptureModel,
    t: Seq<BackendStep>,
    res: Result<SnapshotView, Seq<char>>,
    m2: CaptureModel,
) -> bool {
    let from = if pausing {
        CapturePhase::Active
    } else {
        CapturePhase::Paused
    };
    let to = if pausing {
        CapturePhase::Paused
    } else {
        CapturePhase::Active
    };
    if m.snapshot.phase != from {
        &&& t == Seq::<BackendStep>::empty()
        &&& res == Err::<SnapshotView, Seq<char>>(
            if pausing {
                "capture can only pause an active meeting"@
            } else {
                "capture can only resume a paused meeting"@
            },
        )
        &&& m2 == m
    } else {
        &&& t.len() >= 1
        &&& if pausing {
            t[0] is PauseLink
        } else {
            t[0] is ResumeLink
        }
        &&& {
            let r = if pausing {
                t[0]->PauseLink_0
            } else {
                t[0]->ResumeLink_0
            };
            match r {
                Err(e) => t.len() >= 4 && t[1] is EndLink && t[2] is FinishRecorder
                    && t[3] is StopSources && ends_failed(m, e, t.skip(4), res, m2),
                Ok(_) => {
                    &&& t.skip(1) == seq![BackendStep::Emitted(moved_to(m, to).snapshot)]
                    &&& res == Ok::<SnapshotView, Seq<char>>(moved_to(m, to).snapshot)
                    &&& m2 == moved_to(m, to)
                },
            }
        }
    }
}

/// The first error of the three steps that close a meeting.
pub open spec fn first_error(
    a: Result<(), Seq<char>>,
    b: Result<(), Seq<char>>,
    c: Result<(), Seq<char>>,
) -> Option<Seq<char>> {
    match (a, b, c) {
        (Err(e), _, _) => Some(e),
        (_, Err(e), _) => Some(e),
        (_, _, Err(e)) => Some(e),
        _ => None,
    }
}

/// `m` after a stop completed.
pub open spec fn stopped_model(m: CaptureModel) -> CaptureModel {
    CaptureModel { snapshot: blank_view(CapturePhase::Idle), ..m }
}

/// A stop of capture `m` made exactly the steps `t` and ended with result
/// `res` in capture `m2`: the link ends before the recording is finished,
/// and the sources stop last.
pub open spec fn stop_ran(
    m: CaptureModel,
    t: Seq<BackendStep>,
    res: Result<SnapshotView, Seq<char>>,
    m2: CaptureModel,
) -> bool {
    if !allows(Transition::BeginStopping, m.snapshot.phase) {
        &&& t == Seq::<BackendStep>::empty()
        &&& res == Err::<SnapshotView, Seq<char>>(transition_error(m.snapshot.phase))
        &&& m2 == m
    } else {
        let m1 = moved_to(m, CapturePhase::Stopping);
        &&& t.len() >= 4
        &&& t[0] == BackendStep::Emitted(m1.snapshot)
        &&& t[1] matches BackendStep::EndLink(a)
        &&& t[2] matches BackendStep::FinishRecorder(b)
        &&& t[3] matches BackendStep::StopSources(c)
        &&& match first_error(a, b, c) {
            Some(e) => ends_failed(m1, e, t.skip(4), res, m2),
            None => {
                &&& t.skip(4) == seq![BackendStep::Emitted(stopped_model(m1).snapshot)]
                &&& res == Ok::<SnapshotView, Seq<char>>(stopped_model(m1).snapshot)
                &&& m2 == stopped_model(m1)
            },
        }
    }
}

/// Whether `id` names a device of `kind` in `devices`.
pub open spec fn offers(devices: Seq<DeviceView>, id: Seq<char>, kind: CaptureDeviceKind) -> bool {
    exists|i: int| 0 <= i < devices.len() && #[trigger] devices[i].id == id && devices[i].kind == kind
}

/// A device is offered as a `kind` exactly when the list holds a device of
/// that kind with that id: an id that only devices of another kind carry
/// is not offered, whatever else the list holds.
pub proof fn only_a_device_of_the_kind_is_offered(devices: Seq<DeviceView>, id: Seq<char>, kind: CaptureDeviceKind)
    ensures
        (forall|i: int| 0 <= i < devices.len() && devices[i].id == id ==> devices[i].kind != kind)
            ==> !offers(devices, id, kind),
        forall|i: int|
            0 <= i < devices.len() && #[trigger] devices[i].id == id && devices[i].kind == kind
                ==> offers(devices, id, kind),
{
}

/// The error a selection that overrides the system output reports.
pub open spec fn system_override_error() -> Seq<char> {
    "system audio capture supports the default output only"@
}

/// The error a selection of a missing device reports.
pub open spec fn unavailable_error(id: Seq<char>) -> Seq<char> {
    "selected capture device is unavailable: "@ + id
}

/// Checks a device selection against the devices on offer: the system
/// output cannot be overridden, and a chosen microphone must exist.
pub fn validate_selection(devices: &Vec<CaptureDevice>, selection: &CaptureDeviceSelection) -> (res: Result<(), String>)
    ensures
        res is Ok <==> (selection.system_output_id is None && (selection.microphone_id matches Some(
            id,
        ) ==> offers(devices@.map_values(|d: CaptureDevice| d@), id@, CaptureDeviceKind::Microphone))),
        res matches Err(e) ==> if selection.system_output_id is Some {
            e@ == system_override_error()
        } else {
            e@ == unavailable_error(selection.microphone_id->0@)
        },
{
    if selection.system_output_id.is_some() {
        return Err(String::from_str("system audio capture supports the default output only"));
    }
    match &selection.microphone_id {
        None => Ok(()),
        Some(id) => {
            let ghost views = devices@.map_values(|d: CaptureDevice| d@);
            let mut i: usize = 0;
            while i < devices.len()
                invariant
                    i <= devices.len(),
                    views == devices@.map_values(|d: CaptureDevice| d@),
                    selection.system_output_id is None,
                    selection.microphone_id == Some(*id),
                    forall|j: int|
                        0 <= j < i ==> !(#[trigger] views[j].id == id@ && views[j].kind
                            == CaptureDeviceKind::Microphone),
                decreases devices.len() - i,
            {
                if devices[i].id == *id && devices[i].kind == CaptureDeviceKind::Microphone {
                    assert(views[i as int] == devices@[i as int]@);
                    assert(views[i as int].id == id@ && views[i as int].kind
                        == CaptureDeviceKind::Microphone);
                    return Ok(());
                }
                i = i + 1;
            }
            let e = join_text("selected capture device is unavailable: ", id.as_str());
            proof {
                reveal_strlit("selected capture device is unavailable: ");
            }
            Err(e)
        },
    }
}

/// Whether `c` is a lower-case hexadecimal digit.
pub open spec fn is_lower_hex(c: char) -> bool {
    ||| '0' <= c <= '9'
    ||| 'a' <= c <= 'f'
}

/// Whether `s` is a version 4 UUID in its hyphenated, lower-case form:
/// 36 characters, hyphens at 8, 13, 18 and 23, lower-case hexadecimal
/// digits elsewhere, the version `4` at 14 and the variant, one of `8`,
/// `9`, `a` and `b`, at 19.
pub open spec fn is_v4_uuid_text(s: Seq<char>) -> bool {
    &&& s.len() == 36
    &&& forall|i: int|
        0 <= i < 36 ==> if i == 8 || i == 13 || i == 18 || i == 23 {
            #[trigger] s[i] == '-'
        } else {
            is_lower_hex(s[i])
        }
    &&& s[14] == '4'
    &&& (s[19] == '8' || s[19] == '9' || s[19] == 'a' || s[19] == 'b')
}

/// The id of a new meeting: `uuid::Uuid::new_v4` shown by its `Display`
/// impl. Every outcome is a version 4 UUID in its hyphenated, lower-case
/// form; which one is random, and nothing more is claimed.
#[verifier::external_body]
fn new_meeting_id() -> (res: String)
    ensures
        is_v4_uuid_text(res@),
{
    uuid::Uuid::new_v4().to_string()
}

/// A meeting capture: the lifecycle, the platform backend it drives, and
/// the emitter it announces its snapshots on.
pub struct AppCapture<B: CaptureBackend, E: SnapshotEmitter> {
    app_data_dir: String,
    backend: B,
    selection: CaptureDeviceSelection,
    state: CaptureState,
    emitter: E,
    steps: Ghost<Seq<BackendStep>>,
}

impl<B: CaptureBackend> AppCapture<B, SilentEmitter> {
    /// A capture with data under `app_data_dir` that announces nothing.
    pub fn with_backend(app_data_dir: String, backend: B) -> (res: Self)
        ensures
            res.model().snapshot == blank_view(CapturePhase::Idle),
            res.model().attempt == 0,
            res.data_dir() == app_data_dir@,
            res.selection().system_output_id is None,
            res.selection().microphone_id is None,
            res.steps() == Seq::<BackendStep>::empty(),
            res.well_formed(),
    {
        Self::with_backend_and_emitter(app_data_dir, backend, SilentEmitter)
    }
}

impl<B: CaptureBackend, E: SnapshotEmitter> AppCapture<B, E> {
    /// The capture lifecycle as plain values.
    pub closed spec fn model(&self) -> CaptureModel {
        self.state.model()
    }

    /// The directory under which meetings are recorded.
    pub closed spec fn data_dir(&self) -> Seq<char> {
        self.app_data_dir@
    }

    /// The device selection the next start uses.
    pub closed spec fn selection(&self) -> SelectionView {
        self.selection@
    }

    /// Every exchange with the backend and emitter so far.
    pub closed spec fn steps(&self) -> Seq<BackendStep> {
        self.steps@
    }

    /// The lifecycle invariant holds.
    pub closed spec fn well_formed(&self) -> bool {
        self.state.well_formed()
    }

    /// The steps made since `before`.
    pub open spec fn steps_since(&self, before: &Self) -> Seq<BackendStep> {
        self.steps().skip(before.steps().len() as int)
    }

    /// Only the steps, and the backend and emitter, changed since `before`.
    pub open spec fn same_capture(&self, before: &Self) -> bool {
        &&& self.model() == before.model()
        &&& self.data_dir() == before.data_dir()
        &&& self.selection() == before.selection()
        &&& self.well_formed() == before.well_formed()
    }

    /// Nothing but the lifecycle changed since `before`, and the steps only
    /// grew.
    pub open spec fn grew_from(&self, before: &Self) -> bool {
        &&& self.data_dir() == before.data_dir()
        &&& self.selection() == before.selection()
        &&& self.steps().len() >= before.steps().len()
        &&& self.steps().take(before.steps().len() as int) == before.steps()
        &&& (before.well_formed() ==> self.well_formed())
    }

    /// A capture with data under `app_data_dir` that announces its
    /// snapshots on `emitter`.
    pub fn with_backend_and_emitter(app_data_dir: String, backend: B, emitter: E) -> (res: Self)
        ensures
            res.model().snapshot == blank_view(CapturePhase::Idle),
            res.model().attempt == 0,
            res.data_dir() == app_data_dir@,
            res.selection().system_output_id is None,
            res.selection().microphone_id is None,
            res.steps() == Seq::<BackendStep>::empty(),
            res.well_formed(),
    {
        AppCapture {
            app_data_dir,
            backend,
            selection: CaptureDeviceSelection::default(),
            state: CaptureState::new(),
            emitter,
            steps: Ghost(Seq::empty()),
        }
    }

    fn record(&mut self, step: Ghost<BackendStep>)
        ensures
            final(self).steps() == old(self).steps().push(step@),
            final(self).state == old(self).state,
            final(self).app_data_dir == old(self).app_data_dir,
            final(self).selection == old(self).selection,
    {
        self.steps = Ghost(self.steps@.push(step@));
    }

    /// Announces the current snapshot and hands it back.
    fn emit_snapshot(&mut self) -> (res: CaptureSnapshot)
        ensures
            res == old(self).state.current(),
            final(self).steps() == old(self).steps().push(BackendStep::Emitted(res@)),
            final(self).state == old(self).state,
            final(self).app_data_dir == old(self).app_data_dir,
            final(self).selection == old(self).selection,
    {
        let snapshot = self.state.snapshot();
        self.emitter.emit(&snapshot);
        self.record(Ghost(BackendStep::Emitted(snapshot@)));
        snapshot
    }

    /// Fails the capture with `error`, announces it, and hands the error back.
    fn fail_with(&mut self, error: String) -> (res: String)
        ensures
            res == error,
            final(self).model() == failed_model(old(self).model(), error@),
            final(self).steps() == old(self).steps().push(
                BackendStep::Emitted(failed_model(old(self).model(), error@).snapshot),
            ),
            final(self).app_data_dir == old(self).app_data_dir,
            final(self).selection == old(self).selection,
            old(self).well_formed() ==> final(self).well_formed(),
    {
        self.state.fail(error.clone());
        self.emit_snapshot();
        error
    }

    fn call_stop_sources(&mut self) -> (res: Result<(), String>)
        ensures
            final(self).steps() == old(self).steps().push(BackendStep::StopSources(unit_view(res))),
            final(self).state == old(self).state,
            final(self).app_data_dir == old(self).app_data_dir,
            final(self).selection == old(self).selection,
    {
        let r = self.backend.stop_sources();
        self.record(Ghost(BackendStep::StopSources(unit_view(r))));
        r
    }

    fn call_finish_recorder(&mut self) -> (res: Result<(), String>)
        ensures
            final(self).steps() == old(self).steps().push(
                BackendStep::FinishRecorder(unit_view(res)),
            ),
            final(self).state == old(self).state,
            final(self).app_data_dir == old(self).app_data_dir,
            final(self).selection == old(self).selection,
    {
        let r = self.backend.finish_recorder();
        self.record(Ghost(BackendStep::FinishRecorder(unit_view(r))));
        r
    }

    fn call_end_link(&mut self) -> (res: Result<(), String>)
        ensures
            final(self).steps() == old(self).steps().push(BackendStep::EndLink(unit_view(res))),
            final(self).state == old(self).state,
            final(self).app_data_dir == old(self).app_data_dir,
            final(self).selection == old(self).selection,
    {
        let r = self.backend.end_link();
        self.record(Ghost(BackendStep::EndLink(unit_view(r))));
        r
    }

    /// Takes a failure the backend observed, applies it when it belongs to
    /// the live attempt, and announces the failed snapshot if so.
    fn poll_source_failure(&mut self) -> (res: Ghost<Option<(u64, Seq<char>)>>)
        ensures
            final(self).model() == polled(old(self).model(), res@),
            final(self).steps() == old(self).steps() + poll_steps(old(self).model(), res@),
            final(self).app_data_dir == old(self).app_data_dir,
            final(self).selection == old(self).selection,
            old(self).well_formed() ==> final(self).well_formed(),
    {
        let polled = self.backend.poll_failure();
        let ghost p = failure_view(polled);
        self.record(Ghost(BackendStep::PollFailure(p)));
        match polled {
            Some((generation, error)) => {
                let ghost before = self.state.model();
                if self.state.fail_if_current(generation, error) {
                    self.emit_snapshot();
                }
            },
            None => {},
        }
        proof {
            assert(self.steps@ =~= old(self).steps@ + poll_steps(old(self).model(), p));
        }
        Ghost(p)
    }

    /// The error of start attempt `generation` when it has been cut short.
    fn startup_error(&self, generation: u64) -> (res: Option<String>)
        ensures
            res is Some <==> interrupted(self.model(), generation),
            res matches Some(e) ==> e@ == interruption_error(self.model()),
    {
        if self.state.generation() != generation || self.state.snapshot().phase
            != CapturePhase::Starting {
            let snapshot = self.state.snapshot();
            match snapshot.error {
                Some(e) => Some(e),
                None => Some(String::from_str("capture start was interrupted")),
            }
        } else {
            None
        }
    }

    /// Asks the backend for the permissions of both sources.
    pub fn permissions(&mut self) -> (res: Result<PermissionSnapshot, String>)
        ensures
            final(self).same_capture(old(self)),
            final(self).steps() == old(self).steps().push(
                BackendStep::Permissions(permissions_view(res)),
            ),
    {
        let r = self.backend.permissions();
        self.record(Ghost(BackendStep::Permissions(permissions_view(r))));
        r
    }

    /// Asks the backend for the devices on offer.
    pub fn devices(&mut self) -> (res: Result<Vec<CaptureDevice>, String>)
        ensures
            final(self).same_capture(old(self)),
            final(self).steps() == old(self).steps().push(
                BackendStep::Devices(devices_view(res)),
            ),
    {
        let r = self.backend.devices();
        self.record(Ghost(BackendStep::Devices(devices_view(r))));
        r
    }

    /// The current snapshot.
    pub fn status(&self) -> (res: CaptureSnapshot)
        ensures
            res@ == self.model().snapshot,
    {
        self.state.snapshot()
    }

    /// Takes a failure that a source of start attempt `generation` reported
    /// on its own; the new snapshot, when the failure was taken, is announced
    /// and handed back.
    pub fn source_failed(&mut self, generation: u64, error: String) -> (res: Option<
        CaptureSnapshot,
    >)
        ensures
            final(self).model() == after_source_failure(old(self).model(), generation, error@),
            final(self).data_dir() == old(self).data_dir(),
            final(self).selection() == old(self).selection(),
            old(self).well_formed() ==> final(self).well_formed(),
            res is Some <==> (generation == old(self).model().attempt && failure_applies(
                old(self).model().snapshot.phase,
            )),
            res matches Some(s) ==> s@ == final(self).model().snapshot && final(self).steps()
                == old(self).steps().push(BackendStep::Emitted(s@)),
            res is None ==> final(self).steps() == old(self).steps(),
    {
        if self.state.fail_if_current(generation, error) {
            Some(self.emit_snapshot())
        } else {
            None
        }
    }

    /// Changes the devices the next meeting uses, between meetings only.
    pub fn set_devices(&mut self, selection: CaptureDeviceSelection) -> (res: Result<
        CaptureDeviceSelection,
        String,
    >)
        ensures
            final(self).model() == old(self).model(),
            final(self).data_dir() == old(self).data_dir(),
            final(self).well_formed() == old(self).well_formed(),
            !(old(self).model().snapshot.phase == CapturePhase::Idle || old(self).model().snapshot.phase
                == CapturePhase::Failed) ==> {
                &&& res matches Err(e) && e@ == "capture devices cannot change during a meeting"@
                &&& final(self).steps() == old(self).steps()
                &&& final(self).selection() == old(self).selection()
            },
            (old(self).model().snapshot.phase == CapturePhase::Idle || old(self).model().snapshot.phase
                == CapturePhase::Failed) ==> {
                &&& final(self).steps().len() == old(self).steps().len() + 1
                &&& final(self).steps().drop_last() == old(self).steps()
                &&& final(self).steps().last() matches BackendStep::Devices(listed)
                &&& match listed {
                    Err(e) => res == Err::<CaptureDeviceSelection, String>(res->Err_0) && res->Err_0@
                        == e && final(self).selection() == old(self).selection(),
                    Ok(devices) => {
                        let accepted = selection.system_output_id is None && (
                        selection.microphone_id matches Some(id) ==> offers(
                            devices,
                            id@,
                            CaptureDeviceKind::Microphone,
                        ));
                        &&& (res is Ok <==> accepted)
                        &&& res is Ok ==> res->Ok_0 == selection && final(self).selection()
                            == selection@
                        &&& res is Err ==> final(self).selection() == old(self).selection() && if selection.system_output_id is Some {
                            res->Err_0@ == system_override_error()
                        } else {
                            res->Err_0@ == unavailable_error(selection.microphone_id->0@)
                        }
                    },
                }
            },
    {
        let phase = self.state.snapshot().phase;
        if !(phase == CapturePhase::Idle || phase == CapturePhase::Failed) {
            return Err(String::from_str("capture devices cannot change during a meeting"));
        }
        let devices = self.devices()?;
        validate_selection(&devices, &selection)?;
        self.selection = selection.copy();
        Ok(selection)
    }

    /// The cleanup after the link is up and the start was cut short.
    fn close_all(&mut self)
        ensures
            final(self).steps().len() == old(self).steps().len() + 3,
            final(self).steps_since(old(self)).len() == 3,
            final(self).steps_since(old(self))[0] is EndLink,
            final(self).steps_since(old(self))[1] is FinishRecorder,
            final(self).steps_since(old(self))[2] is StopSources,
            final(self).state == old(self).state,
            final(self).app_data_dir == old(self).app_data_dir,
            final(self).selection == old(self).selection,
            final(self).steps().take(old(self).steps().len() as int) == old(self).steps(),
    {
        let _ = self.call_end_link();
        let _ = self.call_finish_recorder();
        let _ = self.call_stop_sources();
    }

    /// With the link up: the last check for failures, then activation.
    fn run_activation(&mut self, id: String, path: String) -> (res: Result<CaptureSnapshot, String>)
        requires
            old(self).model().snapshot.phase == CapturePhase::Starting,
            old(self).model().snapshot.error is None,
        ensures
            activation_ran(
                old(self).model(),
                id@,
                path@,
                final(self).steps_since(old(self)),
                outcome_view(res),
                final(self).model(),
            ),
            final(self).grew_from(old(self)),
    {
        let ghost m = self.model();
        let ghost s0 = self.steps();
        let generation = self.state.generation();
        let p = self.poll_source_failure();
        let ghost s1 = self.steps();
        let ghost k = poll_steps(m, p@).len() as int;
        let ghost mp = polled(m, p@);
        assert(s1 == s0 + poll_steps(m, p@));
        assert(s1.skip(s0.len() as int) =~= poll_steps(m, p@));
        let ready = SourceReadiness { system: true, microphone: true };
        match self.state.activate_if_current(generation, ready, id, path) {
            Ok(()) => {
                let snapshot = self.emit_snapshot();
                let ghost t = self.steps().skip(s0.len() as int);
                assert(t.take(k) =~= poll_steps(m, p@));
                assert(!interrupted(mp, m.attempt));
                assert(mp == m);
                assert(t.skip(k) =~= seq![
                    BackendStep::Emitted(activated_model(m, id@, path@).snapshot),
                ]);
                assert(self.model() == activated_model(m, id@, path@));
                assert(self.steps().take(s0.len() as int) =~= s0);
                Ok(snapshot)
            },
            Err(e) => {
                self.close_all();
                let error = match self.startup_error(generation) {
                    Some(error) => error,
                    None => e,
                };
                let ghost t = self.steps().skip(s0.len() as int);
                assert(self.steps().take(s1.len() as int) == s1);
                assert(t.take(k) =~= poll_steps(m, p@));
                assert(t.skip(k) =~= self.steps().skip(s1.len() as int));
                assert(interrupted(mp, m.attempt));
                assert(self.model() == mp);
                assert(self.steps().take(s0.len() as int) =~= s0);
                Err(error)
            },
        }
    }


    /// Starts the link to the sidecar for meeting `id`, then activates.
    fn run_link(&mut self, id: String, path: String, options: &LinkOptions) -> (res: Result<
        CaptureSnapshot,
        String,
    >)
        requires
            old(self).model().snapshot.phase == CapturePhase::Starting,
            old(self).model().snapshot.error is None,
        ensures
            link_ran(
                old(self).model(),
                id@,
                path@,
                options@,
                final(self).steps_since(old(self)),
                outcome_view(res),
                final(self).model(),
            ),
            final(self).grew_from(old(self)),
    {
        let ghost m = self.model();
        let ghost s0 = self.steps();
        let generation = self.state.generation();
        let linked = self.backend.start_link(id.as_str(), options, generation);
        self.record(Ghost(BackendStep::StartLink(id@, options@, generation, unit_view(linked))));
        let ghost s1 = self.steps();
        match linked {
            Err(e) => {
                let _ = self.call_finish_recorder();
                let _ = self.call_stop_sources();
                let e = self.fail_with(e);
                let ghost t = self.steps().skip(s0.len() as int);
                assert(t =~= seq![
                    BackendStep::StartLink(id@, options@, generation, Err(e@)),
                    BackendStep::FinishRecorder(t[1]->FinishRecorder_0),
                    BackendStep::StopSources(t[2]->StopSources_0),
                    BackendStep::Emitted(failed_model(m, e@).snapshot),
                ]);
                assert(t.skip(3) =~= seq![BackendStep::Emitted(failed_model(m, e@).snapshot)]);
                assert(self.steps().take(s0.len() as int) =~= s0);
                Err(e)
            },
            Ok(()) => {
                let ghost idv = id@;
                let ghost pathv = path@;
                let res = self.run_activation(id, path);
                let ghost t = self.steps().skip(s0.len() as int);
                assert(t.skip(1) =~= self.steps().skip(s1.len() as int));
                assert(self.steps().take(s0.len() as int) =~= s0) by {
                    assert(self.steps().take(s1.len() as int) == s1);
                }
                assert(t[0] == s1[s0.len() as int]);
                res
            },
        }
    }

    /// Opens the recording at `path`, checks for failures, then starts the
    /// link.
    fn run_recording(&mut self, id: String, path: String, options: &LinkOptions) -> (res: Result<
        CaptureSnapshot,
        String,
    >)
        requires
            old(self).model().snapshot.phase == CapturePhase::Starting,
            old(self).model().snapshot.error is None,
        ensures
            recording_ran(
                old(self).model(),
                id@,
                path@,
                options@,
                final(self).steps_since(old(self)),
                outcome_view(res),
                final(self).model(),
            ),
            final(self).grew_from(old(self)),
    {
        let ghost m = self.model();
        let ghost s0 = self.steps();
        let generation = self.state.generation();
        let opened = self.backend.open_recorder(path.as_str());
        self.record(Ghost(BackendStep::OpenRecorder(path@, unit_view(opened))));
        let ghost s1 = self.steps();
        if let Err(e) = opened {
            let _ = self.call_stop_sources();
            let e = self.fail_with(e);
            let ghost t = self.steps().skip(s0.len() as int);
            assert(t =~= seq![
                BackendStep::OpenRecorder(path@, Err(e@)),
                BackendStep::StopSources(t[1]->StopSources_0),
                BackendStep::Emitted(failed_model(m, e@).snapshot),
            ]);
            assert(t.skip(2) =~= seq![BackendStep::Emitted(failed_model(m, e@).snapshot)]);
            assert(self.steps().take(s0.len() as int) =~= s0);
            return Err(e);
        }
        let p = self.poll_source_failure();
        let ghost s2 = self.steps();
        let ghost k = poll_steps(m, p@).len() as int;
        let ghost mp = polled(m, p@);
        assert(s2 == s1 + poll_steps(m, p@));
        if let Some(error) = self.startup_error(generation) {
            let _ = self.call_finish_recorder();
            let _ = self.call_stop_sources();
            let ghost t = self.steps().skip(s0.len() as int);
            let ghost u = t.skip(1);
            assert(s1.len() == s0.len() + 1);
            assert(s2.len() == s1.len() + k);
            assert(t[0] == s1[s0.len() as int]);
            assert(u.take(k) =~= poll_steps(m, p@));
            assert(u.skip(k) =~= self.steps().skip(s2.len() as int));
            assert(self.steps().take(s0.len() as int) =~= s0);
            return Err(error);
        }
        assert(mp == m);
        let ghost idv = id@;
        let ghost pathv = path@;
        let res = self.run_link(id, path, options);
        let ghost t = self.steps().skip(s0.len() as int);
        let ghost u = t.skip(1);
        assert(s1.len() == s0.len() + 1);
        assert(s2.len() == s1.len() + k);
        assert(self.steps().take(s2.len() as int) == s2);
        assert(self.steps()[s0.len() as int] == s2[s0.len() as int]);
        assert(s2[s0.len() as int] == s1[s0.len() as int]);
        assert(t[0] == s1[s0.len() as int]);
        assert forall|j: int| 0 <= j < k implies u[j] == poll_steps(m, p@)[j] by {
            assert(u[j] == self.steps()[s0.len() + 1 + j]);
            assert(self.steps()[s0.len() + 1 + j] == s2[s0.len() + 1 + j]);
        }
        assert(u.take(k) =~= poll_steps(m, p@));
        assert(u.skip(k) =~= self.steps().skip(s2.len() as int));
        assert(self.steps().take(s0.len() as int) =~= s0);
        res
    }

    /// Names the meeting, makes its directory, then opens its recording.
    fn run_meeting(&mut self, options: &LinkOptions) -> (res: Result<CaptureSnapshot, String>)
        requires
            old(self).model().snapshot.phase == CapturePhase::Starting,
            old(self).model().snapshot.error is None,
        ensures
            meeting_ran(
                old(self).model(),
                old(self).data_dir(),
                options@,
                final(self).steps_since(old(self)),
                outcome_view(res),
                final(self).model(),
            ),
            final(self).grew_from(old(self)),
    {
        let ghost m = self.model();
        let ghost s0 = self.steps();
        let meeting_id = new_meeting_id();
        self.record(Ghost(BackendStep::MeetingId(meeting_id@)));
        let ghost sa = self.steps();
        let recordings = join_path(self.app_data_dir.as_str(), "recordings");
        let meeting_dir = join_path(recordings.as_str(), meeting_id.as_str());
        let made = self.backend.create_recording_dir(meeting_dir.as_str());
        self.record(Ghost(BackendStep::CreateRecordingDir(meeting_dir@, unit_view(made))));
        let ghost s1 = self.steps();
        if let Err(e) = made {
            let _ = self.call_stop_sources();
            let message = join_text("recording directory could not be created: ", e.as_str());
            proof {
                reveal_strlit("recording directory could not be created: ");
            }
            let message = self.fail_with(message);
            let ghost t = self.steps().skip(s0.len() as int);
            assert(t.skip(3) =~= seq![
                BackendStep::Emitted(failed_model(m, directory_error(e@)).snapshot),
            ]);
            assert(self.steps().take(s0.len() as int) =~= s0);
            return Err(message);
        }
        let path = join_path(meeting_dir.as_str(), "audio.wav");
        let ghost idv = meeting_id@;
        let res = self.run_recording(meeting_id, path, options);
        let ghost t = self.steps().skip(s0.len() as int);
        assert(self.steps().take(s1.len() as int) == s1);
        assert(s1.len() == s0.len() + 2);
        assert(t.skip(2) =~= self.steps().skip(s1.len() as int));
        assert(sa[s0.len() as int] == BackendStep::MeetingId(idv));
        assert(s1[s0.len() as int] == sa[s0.len() as int]);
        assert(t[0] == s1[s0.len() as int]);
        assert(t[1] == s1[s0.len() as int + 1]);
        assert(self.steps().take(s0.len() as int) =~= s0);
        res
    }

    /// From the starting phase: announces it, starts the sources, checks for
    /// failures, then sets up the meeting.
    fn run_sources(&mut self, options: &LinkOptions) -> (res: Result<CaptureSnapshot, String>)
        requires
            old(self).model().snapshot.phase == CapturePhase::Starting,
            old(self).model().snapshot.error is None,
        ensures
            sources_ran(
                old(self).model(),
                old(self).data_dir(),
                old(self).selection(),
                options@,
                final(self).steps_since(old(self)),
                outcome_view(res),
                final(self).model(),
            ),
            final(self).grew_from(old(self)),
    {
        let ghost m = self.model();
        let ghost s0 = self.steps();
        let generation = self.state.generation();
        self.emit_snapshot();
        let ghost sa = self.steps();
        let selection = self.selection.copy();
        let started = self.backend.start_sources(&selection, generation);
        self.record(
            Ghost(
                BackendStep::StartSources(selection@, generation, readiness_view(started)),
            ),
        );
        let ghost s1 = self.steps();
        assert(s1.len() == s0.len() + 2);
        assert(s1[s0.len() as int] == sa[s0.len() as int]);
        let readiness = match started {
            Err(e) => {
                let e = self.fail_with(e);
                let ghost t = self.steps().skip(s0.len() as int);
                assert(t[0] == s1[s0.len() as int]);
                assert(t[1] == s1[s0.len() as int + 1]);
                assert(t.skip(2) =~= seq![BackendStep::Emitted(failed_model(m, e@).snapshot)]);
                assert(self.steps().take(s0.len() as int) =~= s0);
                return Err(e);
            },
            Ok(readiness) => readiness,
        };
        if !readiness.both_active() {
            let _ = self.call_stop_sources();
            let e = self.fail_with(String::from_str("both capture sources must be active"));
            let ghost t = self.steps().skip(s0.len() as int);
            assert(t[0] == s1[s0.len() as int]);
            assert(t[1] == s1[s0.len() as int + 1]);
            assert(t.skip(3) =~= seq![BackendStep::Emitted(failed_model(m, e@).snapshot)]);
            assert(self.steps().take(s0.len() as int) =~= s0);
            return Err(e);
        }
        let p = self.poll_source_failure();
        let ghost s2 = self.steps();
        let ghost k = poll_steps(m, p@).len() as int;
        let ghost mp = polled(m, p@);
        assert(s2 == s1 + poll_steps(m, p@));
        if let Some(error) = self.startup_error(generation) {
            let _ = self.call_stop_sources();
            let ghost t = self.steps().skip(s0.len() as int);
            let ghost u = t.skip(2);
            assert(t[0] == s1[s0.len() as int]);
            assert(t[1] == s1[s0.len() as int + 1]);
            assert(u.take(k) =~= poll_steps(m, p@));
            assert(u.skip(k) =~= self.steps().skip(s2.len() as int));
            assert(self.steps().take(s0.len() as int) =~= s0);
            return Err(error);
        }
        assert(mp == m);
        let res = self.run_meeting(options);
        let ghost t = self.steps().skip(s0.len() as int);
        let ghost u = t.skip(2);
        assert(self.steps().take(s2.len() as int) == s2);
        assert(self.steps()[s0.len() as int] == s2[s0.len() as int]);
        assert(s2[s0.len() as int] == s1[s0.len() as int]);
        assert(self.steps()[s0.len() as int + 1] == s2[s0.len() as int + 1]);
        assert(s2[s0.len() as int + 1] == s1[s0.len() as int + 1]);
        assert(t[0] == s1[s0.len() as int]);
        assert(t[1] == s1[s0.len() as int + 1]);
        assert forall|j: int| 0 <= j < k implies u[j] == poll_steps(m, p@)[j] by {
            assert(u[j] == self.steps()[s0.len() + 2 + j]);
            assert(self.steps()[s0.len() + 2 + j] == s2[s0.len() + 2 + j]);
        }
        assert(u.take(k) =~= poll_steps(m, p@));
        assert(u.skip(k) =~= self.steps().skip(s2.len() as int));
        assert(self.steps().take(s0.len() as int) =~= s0);
        res
    }

    /// Starts a meeting: checks the permissions, starts both sources, names
    /// the meeting, makes its recording directory, opens the recording and
    /// starts the sidecar link, then activates. Whatever was already up is
    /// closed again when a step fails.
    pub fn start(&mut self, options: LinkOptions) -> (res: Result<CaptureSnapshot, String>)
        ensures
            start_ran(
                old(self).model(),
                old(self).data_dir(),
                old(self).selection(),
                options@,
                final(self).steps_since(old(self)),
                outcome_view(res),
                final(self).model(),
            ),
            final(self).grew_from(old(self)),
    {
        let ghost m = self.model();
        let ghost s0 = self.steps();
        if let Err(e) = self.state.begin_preflight() {
            assert(self.steps_since(old(self)) =~= Seq::<BackendStep>::empty());
            assert(self.steps().take(s0.len() as int) =~= s0);
            return Err(e);
        }
        let ghost m1 = self.model();
        assert(m1 == preflighted(m));
        self.emit_snapshot();
        let ghost sa = self.steps();
        let permissions = self.permissions();
        let ghost s1 = self.steps();
        assert(s1.len() == s0.len() + 2);
        assert(s1[s0.len() as int] == sa[s0.len() as int]);
        let permissions = match permissions {
            Err(e) => {
                let e = self.fail_with(e);
                let ghost t = self.steps().skip(s0.len() as int);
                assert(t[0] == s1[s0.len() as int]);
                assert(t[1] == s1[s0.len() as int + 1]);
                assert(t.skip(2) =~= seq![BackendStep::Emitted(failed_model(m1, e@).snapshot)]);
                assert(self.steps().take(s0.len() as int) =~= s0);
                return Err(e);
            },
            Ok(permissions) => permissions,
        };
        if permissions.has_denial() {
            let e = self.fail_with(String::from_str("capture permissions are not granted"));
            let ghost t = self.steps().skip(s0.len() as int);
            assert(t[0] == s1[s0.len() as int]);
            assert(t[1] == s1[s0.len() as int + 1]);
            assert(t.skip(2) =~= seq![BackendStep::Emitted(failed_model(m1, e@).snapshot)]);
            assert(self.steps().take(s0.len() as int) =~= s0);
            return Err(e);
        }
        let started = self.state.begin_starting();
        assert(started is Ok);
        let res = self.run_sources(&options);
        let ghost t = self.steps().skip(s0.len() as int);
        assert(self.steps().take(s1.len() as int) == s1);
        assert(t[0] == s1[s0.len() as int]);
        assert(t[1] == s1[s0.len() as int + 1]);
        assert(t.skip(2) =~= self.steps().skip(s1.len() as int));
        assert(self.steps().take(s0.len() as int) =~= s0);
        res
    }

    /// Pauses an active meeting: the sidecar is told first, and the meeting
    /// is closed and failed when that does not go through.
    pub fn pause(&mut self) -> (res: Result<CaptureSnapshot, String>)
        ensures
            toggle_ran(
                true,
                old(self).model(),
                final(self).steps_since(old(self)),
                outcome_view(res),
                final(self).model(),
            ),
            final(self).grew_from(old(self)),
    {
        let ghost m = self.model();
        let ghost s0 = self.steps();
        if self.state.snapshot().phase != CapturePhase::Active {
            assert(self.steps().skip(s0.len() as int) =~= Seq::<BackendStep>::empty());
            assert(self.steps().take(s0.len() as int) =~= s0);
            return Err(String::from_str("capture can only pause an active meeting"));
        }
        let r = self.backend.pause_link();
        self.record(Ghost(BackendStep::PauseLink(unit_view(r))));
        let ghost s1 = self.steps();
        if let Err(e) = r {
            self.close_all();
            let ghost s2 = self.steps();
            assert(s2.take(s1.len() as int) == s1);
            assert(s2.take(s1.len() as int)[s0.len() as int] == s2[s0.len() as int]);
            let e = self.fail_with(e);
            let ghost t = self.steps().skip(s0.len() as int);
            assert(t[0] == s2[s0.len() as int]);
            assert(t[0] == s1[s0.len() as int]);
            assert(s1.len() == s0.len() + 1);
            assert(s2.len() == s0.len() + 4);
            assert(self.steps() == s2.push(BackendStep::Emitted(failed_model(m, e@).snapshot)));
            assert(t.skip(4) =~= seq![BackendStep::Emitted(failed_model(m, e@).snapshot)]);
            assert forall|i: int| 0 <= i < s0.len() implies self.steps()[i] == s0[i] by {
                assert(s2.take(s1.len() as int)[i] == s2[i]);
            }
            assert(self.steps().take(s0.len() as int) =~= s0);
            return Err(e);
        }
        let paused = self.state.pause();
        assert(paused is Ok);
        let snapshot = self.emit_snapshot();
        let ghost t = self.steps().skip(s0.len() as int);
        assert(t.skip(1) =~= seq![BackendStep::Emitted(moved_to(m, CapturePhase::Paused).snapshot)]);
        assert(self.steps().take(s0.len() as int) =~= s0);
        Ok(snapshot)
    }

    /// Resumes a paused meeting: the sidecar is told first, and the meeting
    /// is closed and failed when that does not go through.
    pub fn resume(&mut self) -> (res: Result<CaptureSnapshot, String>)
        ensures
            toggle_ran(
                false,
                old(self).model(),
                final(self).steps_since(old(self)),
                outcome_view(res),
                final(self).model(),
            ),
            final(self).grew_from(old(self)),
    {
        let ghost m = self.model();
        let ghost s0 = self.steps();
        if self.state.snapshot().phase != CapturePhase::Paused {
            assert(self.steps().skip(s0.len() as int) =~= Seq::<BackendStep>::empty());
            assert(self.steps().take(s0.len() as int) =~= s0);
            return Err(String::from_str("capture can only resume a paused meeting"));
        }
        let r = self.backend.resume_link();
        self.record(Ghost(BackendStep::ResumeLink(unit_view(r))));
        let ghost s1 = self.steps();
        if let Err(e) = r {
            self.close_all();
            let ghost s2 = self.steps();
            assert(s2.take(s1.len() as int) == s1);
            assert(s2.take(s1.len() as int)[s0.len() as int] == s2[s0.len() as int]);
            let e = self.fail_with(e);
            let ghost t = self.steps().skip(s0.len() as int);
            assert(t[0] == s2[s0.len() as int]);
            assert(t[0] == s1[s0.len() as int]);
            assert(s1.len() == s0.len() + 1);
            assert(s2.len() == s0.len() + 4);
            assert(self.steps() == s2.push(BackendStep::Emitted(failed_model(m, e@).snapshot)));
            assert(t.skip(4) =~= seq![BackendStep::Emitted(failed_model(m, e@).snapshot)]);
            assert forall|i: int| 0 <= i < s0.len() implies self.steps()[i] == s0[i] by {
                assert(s2.take(s1.len() as int)[i] == s2[i]);
            }
            assert(self.steps().take(s0.len() as int) =~= s0);
            return Err(e);
        }
        let resumed = self.state.resume();
        assert(resumed is Ok);
        let snapshot = self.emit_snapshot();
        let ghost t = self.steps().skip(s0.len() as int);
        assert(t.skip(1) =~= seq![BackendStep::Emitted(moved_to(m, CapturePhase::Active).snapshot)]);
        assert(self.steps().take(s0.len() as int) =~= s0);
        Ok(snapshot)
    }

    /// Stops a meeting: the link ends before the recording is finished, and
    /// the sources stop last; the first of their errors fails the capture.
    pub fn stop(&mut self) -> (res: Result<CaptureSnapshot, String>)
        ensures
            stop_ran(
                old(self).model(),
                final(self).steps_since(old(self)),
                outcome_view(res),
                final(self).model(),
            ),
            final(self).grew_from(old(self)),
    {
        let ghost m = self.model();
        let ghost s0 = self.steps();
        if let Err(e) = self.state.begin_stopping() {
            assert(self.steps().skip(s0.len() as int) =~= Seq::<BackendStep>::empty());
            assert(self.steps().take(s0.len() as int) =~= s0);
            return Err(e);
        }
        let ghost m1 = self.model();
        self.emit_snapshot();
        let ghost sa = self.steps();
        let end = self.call_end_link();
        let ghost sb = self.steps();
        let finish = self.call_finish_recorder();
        let ghost sc = self.steps();
        let stop = self.call_stop_sources();
        let ghost s1 = self.steps();
        assert(s1.len() == s0.len() + 4);
        assert(s1[s0.len() as int] == sa[s0.len() as int]);
        assert(s1[s0.len() as int + 1] == sb[s0.len() as int + 1]);
        assert(s1[s0.len() as int + 2] == sc[s0.len() as int + 2]);
        let first = match end {
            Err(e) => Some(e),
            Ok(()) => match finish {
                Err(e) => Some(e),
                Ok(()) => match stop {
                    Err(e) => Some(e),
                    Ok(()) => None,
                },
            },
        };
        if let Some(e) = first {
            let e = self.fail_with(e);
            let ghost t = self.steps().skip(s0.len() as int);
            assert(t[0] == s1[s0.len() as int]);
            assert(t[1] == s1[s0.len() as int + 1]);
            assert(t[2] == s1[s0.len() as int + 2]);
            assert(t[3] == s1[s0.len() as int + 3]);
            assert(t.skip(4) =~= seq![BackendStep::Emitted(failed_model(m1, e@).snapshot)]);
            assert(self.steps().take(s0.len() as int) =~= s0);
            return Err(e);
        }
        let finished = self.state.finish_stopping();
        assert(finished is Ok);
        let snapshot = self.emit_snapshot();
        let ghost t = self.steps().skip(s0.len() as int);
        assert(t[0] == s1[s0.len() as int]);
        assert(t[1] == s1[s0.len() as int + 1]);
        assert(t[2] == s1[s0.len() as int + 2]);
        assert(t[3] == s1[s0.len() as int + 3]);
        assert(t.skip(4) =~= seq![BackendStep::Emitted(stopped_model(m1).snapshot)]);
        assert(self.steps().take(s0.len() as int) =~= s0);
        Ok(snapshot)
    }
}

/// A stop that may run ends the link first, then finishes the recording,
/// then stops the sources, and only then reports the capture idle or
/// failed.
pub proof fn stop_ends_the_link_before_the_recording(
    m: CaptureModel,
    t: Seq<BackendStep>,
    res: Result<SnapshotView, Seq<char>>,
    m2: CaptureModel,
)
    requires
        stop_ran(m, t, res, m2),
        allows(Transition::BeginStopping, m.snapshot.phase),
    ensures
        t.len() == 5,
        t[1] is EndLink,
        t[2] is FinishRecorder,
        t[3] is StopSources,
        t[4] is Emitted,
        res is Ok <==> m2.snapshot.phase == CapturePhase::Idle,
        res is Err ==> m2.snapshot.phase == CapturePhase::Failed,
{
    assert(t.skip(4).len() == 1);
    assert(t[4] == t.skip(4)[0]);
}

/// A pause or resume that the sidecar refuses closes the meeting: the link
/// ends, the recording is finished, the sources stop, and the capture is
/// reported failed with both sources inactive.
pub proof fn a_refused_toggle_closes_the_meeting(
    pausing: bool,
    m: CaptureModel,
    t: Seq<BackendStep>,
    res: Result<SnapshotView, Seq<char>>,
    m2: CaptureModel,
)
    requires
        toggle_ran(pausing, m, t, res, m2),
        m.snapshot.phase == (if pausing {
            CapturePhase::Active
        } else {
            CapturePhase::Paused
        }),
        res is Err,
    ensures
        t.len() == 5,
        t[1] is EndLink,
        t[2] is FinishRecorder,
        t[3] is StopSources,
        t[4] matches BackendStep::Emitted(s) && s == m2.snapshot,
        m2.snapshot.phase == CapturePhase::Failed,
        !m2.snapshot.system_active && !m2.snapshot.microphone_active,
{
    assert(t.skip(4).len() == 1);
    assert(t[4] == t.skip(4)[0]);
}

/// A pause or resume that goes through tells the sidecar first and then
/// shows the new phase: paused after a pause, active after a resume.
pub proof fn a_toggle_tells_the_sidecar_first(
    pausing: bool,
    m: CaptureModel,
    t: Seq<BackendStep>,
    res: Result<SnapshotView, Seq<char>>,
    m2: CaptureModel,
)
    requires
        toggle_ran(pausing, m, t, res, m2),
        res is Ok,
    ensures
        t.len() == 2,
        pausing ==> t[0] is PauseLink && m2.snapshot.phase == CapturePhase::Paused,
        !pausing ==> t[0] is ResumeLink && m2.snapshot.phase == CapturePhase::Active,
        t[1] == BackendStep::Emitted(m2.snapshot),
{
    assert(t.skip(1).len() == 1);
    assert(t[1] == t.skip(1)[0]);
}

/// The steps end by stopping the sources: that is the last step, or the
/// one before the failed snapshot.
pub open spec fn ends_by_stopping_sources(t: Seq<BackendStep>) -> bool {
    ||| (t.len() >= 1 && t.last() is StopSources)
    ||| (t.len() >= 2 && t[t.len() - 2] is StopSources && t.last() is Emitted)
}

proof fn lemma_activation_failure_stops(
    m: CaptureModel,
    id: Seq<char>,
    path: Seq<char>,
    t: Seq<BackendStep>,
    res: Result<SnapshotView, Seq<char>>,
    m2: CaptureModel,
)
    requires
        activation_ran(m, id, path, t, res, m2),
        res is Err,
    ensures
        ends_by_stopping_sources(t),
{
    let p = t[0]->PollFailure_0;
    let k = poll_steps(m, p).len() as int;
    let rest = t.skip(k);
    assert(rest.last() == t.last());
}

proof fn lemma_link_failure_stops(
    m: CaptureModel,
    id: Seq<char>,
    path: Seq<char>,
    opts: LinkOptionsView,
    t: Seq<BackendStep>,
    res: Result<SnapshotView, Seq<char>>,
    m2: CaptureModel,
)
    requires
        link_ran(m, id, path, opts, t, res, m2),
        res is Err,
    ensures
        ends_by_stopping_sources(t),
{
    match t[0]->StartLink_3 {
        Err(e) => {
            assert(t.skip(3).len() == 1);
            assert(t.len() == 4);
            assert(t.last() == t.skip(3)[0]);
        },
        Ok(_) => {
            lemma_activation_failure_stops(m, id, path, t.skip(1), res, m2);
            let u = t.skip(1);
            assert(u.last() == t.last());
            if u.len() >= 2 {
                assert(u[u.len() - 2] == t[t.len() - 2]);
            }
        },
    }
}

proof fn lemma_recording_failure_stops(
    m: CaptureModel,
    id: Seq<char>,
    path: Seq<char>,
    opts: LinkOptionsView,
    t: Seq<BackendStep>,
    res: Result<SnapshotView, Seq<char>>,
    m2: CaptureModel,
)
    requires
        recording_ran(m, id, path, opts, t, res, m2),
        res is Err,
    ensures
        ends_by_stopping_sources(t),
{
    match t[0]->OpenRecorder_1 {
        Err(e) => {
            assert(t.skip(2).len() == 1);
            assert(t.len() == 3);
            assert(t.last() == t.skip(2)[0]);
        },
        Ok(_) => {
            let u = t.skip(1);
            let p = u[0]->PollFailure_0;
            let k = poll_steps(m, p).len() as int;
            let rest = u.skip(k);
            if interrupted(polled(m, p), m.attempt) {
                assert(rest.last() == t.last());
            } else {
                lemma_link_failure_stops(m, id, path, opts, rest, res, m2);
                assert(rest.last() == t.last());
                if rest.len() >= 2 {
                    assert(rest[rest.len() - 2] == t[t.len() - 2]);
                }
            }
        },
    }
}

proof fn lemma_meeting_failure_stops(
    m: CaptureModel,
    dir: Seq<char>,
    opts: LinkOptionsView,
    t: Seq<BackendStep>,
    res: Result<SnapshotView, Seq<char>>,
    m2: CaptureModel,
)
    requires
        meeting_ran(m, dir, opts, t, res, m2),
        res is Err,
    ensures
        ends_by_stopping_sources(t),
{
    let id = t[0]->MeetingId_0;
    match t[1]->CreateRecordingDir_1 {
        Err(e) => {
            assert(t.skip(3).len() == 1);
            assert(t.len() == 4);
            assert(t.last() == t.skip(3)[0]);
        },
        Ok(_) => {
            let u = t.skip(2);
            lemma_recording_failure_stops(m, id, recording_path(dir, id), opts, u, res, m2);
            assert(u.last() == t.last());
            if u.len() >= 2 {
                assert(u[u.len() - 2] == t[t.len() - 2]);
            }
        },
    }
}

/// A start that fails once both sources have come up stops them before it
/// reports the failure: stopping the sources is its last call to the
/// backend, followed at most by the failed snapshot.
pub proof fn a_failed_start_stops_the_sources_it_started(
    m: CaptureModel,
    dir: Seq<char>,
    selection: SelectionView,
    opts: LinkOptionsView,
    t: Seq<BackendStep>,
    res: Result<SnapshotView, Seq<char>>,
    m2: CaptureModel,
    ready: SourceReadiness,
)
    requires
        start_ran(m, dir, selection, opts, t, res, m2),
        res is Err,
        t.len() > 3,
        t[3] matches BackendStep::StartSources(_, _, r) && r == Ok::<SourceReadiness, Seq<char>>(ready),
        ready.system && ready.microphone,
    ensures
        ends_by_stopping_sources(t),
{
    assert(allows(Transition::BeginPreflight, m.snapshot.phase));
    let m1 = preflighted(m);
    let ms = moved_to(m1, CapturePhase::Starting);
    let perms = t[1]->Permissions_0;
    let s = t.skip(2);
    assert(s[1] == t[3]);
    if perms is Err || has_denial(perms->Ok_0) {
        assert(s.len() == 1);
    } else {
        let u = s.skip(2);
        let p = u[0]->PollFailure_0;
        let k = poll_steps(ms, p).len() as int;
        let rest = u.skip(k);
        if interrupted(polled(ms, p), ms.attempt) {
            assert(rest.last() == t.last());
        } else {
            lemma_meeting_failure_stops(ms, dir, opts, rest, res, m2);
            assert(rest.last() == t.last());
            if rest.len() >= 2 {
                assert(rest[rest.len() - 2] == t[t.len() - 2]);
            }
        }
    }
}

/// A start whose screen recording or microphone permission was refused
/// starts no source and creates no meeting: it ends failed with the
/// permissions error right after asking for the permissions.
pub proof fn denied_permissions_start_nothing(
    m: CaptureModel,
    dir: Seq<char>,
    selection: SelectionView,
    opts: LinkOptionsView,
    t: Seq<BackendStep>,
    res: Result<SnapshotView, Seq<char>>,
    m2: CaptureModel,
    perms: PermissionSnapshot,
)
    requires
        start_ran(m, dir, selection, opts, t, res, m2),
        t.len() >= 2,
        t[1] == BackendStep::Permissions(Ok(perms)),
        perms.screen_recording == PermissionStatus::Denied || perms.microphone
            == PermissionStatus::Denied,
    ensures
        t.len() == 3,
        t[2] is Emitted,
        res == Err::<SnapshotView, Seq<char>>(permissions_error()),
        m2.snapshot.phase == CapturePhase::Failed,
        forall|i: int| 0 <= i < t.len() ==> !(#[trigger] t[i] is StartSources),
{
    assert(allows(Transition::BeginPreflight, m.snapshot.phase));
    assert(t.skip(2).len() == 1);
    assert(t[2] == t.skip(2)[0]);
}

/// A start whose sources did not both come up stops them again and creates
/// no meeting: no id, no directory, no recording, no link.
pub proof fn inactive_source_creates_no_meeting(
    m: CaptureModel,
    dir: Seq<char>,
    selection: SelectionView,
    opts: LinkOptionsView,
    t: Seq<BackendStep>,
    res: Result<SnapshotView, Seq<char>>,
    m2: CaptureModel,
    g: u64,
    ready: SourceReadiness,
)
    requires
        start_ran(m, dir, selection, opts, t, res, m2),
        t.len() >= 4,
        t[3] == BackendStep::StartSources(selection, g, Ok(ready)),
        !(ready.system && ready.microphone),
    ensures
        t.len() == 6,
        t[4] is StopSources,
        res == Err::<SnapshotView, Seq<char>>(inactive_sources_error()),
        m2.snapshot.phase == CapturePhase::Failed,
        forall|i: int|
            0 <= i < t.len() ==> !(#[trigger] t[i] is MeetingId) && !(t[i] is CreateRecordingDir)
                && !(t[i] is OpenRecorder) && !(t[i] is StartLink),
{
    assert(allows(Transition::BeginPreflight, m.snapshot.phase));
    let u = t.skip(2);
    assert(u[1] == t[3]);
    assert(u.skip(3).len() == 1);
    assert(t[4] == u[2]);
    assert(t[5] == u.skip(3)[0]);
}

/// A successful start names exactly one meeting, by a version 4 UUID, makes its directory under
/// `recordings`, records to `audio.wav` in it, starts the link with the same
/// id, and leaves the capture active on that meeting.
pub proof fn successful_start_has_one_meeting(
    m: CaptureModel,
    dir: Seq<char>,
    selection: SelectionView,
    opts: LinkOptionsView,
    t: Seq<BackendStep>,
    res: Result<SnapshotView, Seq<char>>,
    m2: CaptureModel,
)
    requires
        start_ran(m, dir, selection, opts, t, res, m2),
        res is Ok,
    ensures
        t.len() == 12,
        t[5] is MeetingId,
        is_v4_uuid_text(t[5]->MeetingId_0),
        t[6] matches BackendStep::CreateRecordingDir(d, r) && d == meeting_dir(dir, t[5]->MeetingId_0)
            && r is Ok,
        t[7] matches BackendStep::OpenRecorder(p, r) && p == recording_path(dir, t[5]->MeetingId_0)
            && r is Ok,
        t[9] matches BackendStep::StartLink(id, o, _, r) && id == t[5]->MeetingId_0 && o == opts
            && r is Ok,
        forall|i: int| 0 <= i < t.len() && i != 5 ==> !(#[trigger] t[i] is MeetingId),
        m2.snapshot.phase == CapturePhase::Active,
        m2.snapshot.meeting_id == Some(t[5]->MeetingId_0),
        m2.snapshot.recording_path == Some(recording_path(dir, t[5]->MeetingId_0)),
        res == Ok::<SnapshotView, Seq<char>>(m2.snapshot),
{
    assert(allows(Transition::BeginPreflight, m.snapshot.phase));
    let m1 = moved_to(preflighted(m), CapturePhase::Starting);
    let u = t.skip(2);
    assert(sources_ran(m1, dir, selection, opts, u, res, m2));
    let p1 = u[2]->PollFailure_0;
    assert(!taken(m1, p1));
    assert(polled(m1, p1) == m1);
    let v = u.skip(3);
    assert(u.skip(2).skip(1) == v);
    assert(meeting_ran(m1, dir, opts, v, res, m2));
    let id = v[0]->MeetingId_0;
    let w = v.skip(2);
    assert(recording_ran(m1, id, recording_path(dir, id), opts, w, res, m2));
    let p2 = w[1]->PollFailure_0;
    assert(!taken(m1, p2));
    let x = w.skip(2);
    assert(w.skip(1).skip(1) == x);
    assert(link_ran(m1, id, recording_path(dir, id), opts, x, res, m2));
    let y = x.skip(1);
    assert(activation_ran(m1, id, recording_path(dir, id), y, res, m2));
    let p3 = y[0]->PollFailure_0;
    assert(!taken(m1, p3));
    let z = y.skip(1);
    assert(z.len() == 1);
    assert(t[5] == v[0]);
    assert(t[6] == v[1]);
    assert(t[7] == w[0]);
    assert(t[8] == w[1]);
    assert(t[9] == x[0]);
    assert(t[10] == y[0]);
    assert(t[11] == z[0]);
}

} // verus!
