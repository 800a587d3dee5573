use vstd::prelude::*;
use vstd::string::*;

use crate::text::join_text;

verus! {

/// Where a meeting capture stands in its lifecycle.
#[derive(Clone, Copy, Debug, PartialEq, Eq, Structural)]
pub enum CapturePhase {
    Idle,
    Preflight,
    Starting,
    Active,
    Paused,
    Stopping,
    Failed,
}

/// The name a phase prints with.
pub open spec fn phase_name(phase: CapturePhase) -> Seq<char> {
    match phase {
        CapturePhase::Idle => "Idle"@,
        CapturePhase::Preflight => "Preflight"@,
        CapturePhase::Starting => "Starting"@,
        CapturePhase::Active => "Active"@,
        CapturePhase::Paused => "Paused"@,
        CapturePhase::Stopping => "Stopping"@,
        CapturePhase::Failed => "Failed"@,
    }
}

impl CapturePhase {
    /// The name of the phase, as `{:?}` prints it.
    pub fn name(self) -> (res: &'static str)
        ensures
            res@ == phase_name(self),
    {
        match self {
            CapturePhase::Idle => "Idle",
            CapturePhase::Preflight => "Preflight",
            CapturePhase::Starting => "Starting",
            CapturePhase::Active => "Active",
            CapturePhase::Paused => "Paused",
            CapturePhase::Stopping => "Stopping",
            CapturePhase::Failed => "Failed",
        }
    }
}

impl Default for CapturePhase {
    fn default() -> (res: Self)
        ensures
            res == CapturePhase::Idle,
    {
        CapturePhase::Idle
    }
}

/// Whether each of the two capture sources came up.
#[derive(Clone, Copy, Debug, PartialEq, Eq, Structural)]
pub struct SourceReadiness {
    pub system: bool,
    pub microphone: bool,
}

impl SourceReadiness {
    /// A meeting needs both the system audio and the microphone.
    pub fn both_active(self) -> (res: bool)
        ensures
            res == (self.system && self.microphone),
    {
        self.system && self.microphone
    }
}

/// What the user interface is told about the capture.
#[derive(Clone, Debug, PartialEq, Eq)]
pub struct CaptureSnapshot {
    pub phase: CapturePhase,
    pub meeting_id: Option<String>,
    pub recording_path: Option<String>,
    pub system_active: bool,
    pub microphone_active: bool,
    pub error: Option<String>,
}

/// A snapshot as plain values.
pub struct SnapshotView {
    pub phase: CapturePhase,
    pub meeting_id: Option<Seq<char>>,
    pub recording_path: Option<Seq<char>>,
    pub system_active: bool,
    pub microphone_active: bool,
    pub error: Option<Seq<char>>,
}

/// An optional text as plain characters.
pub open spec fn text_view(value: Option<String>) -> Option<Seq<char>> {
    match value {
        Some(text) => Some(text@),
        None => None,
    }
}

impl View for CaptureSnapshot {
    type V = SnapshotView;

    open spec fn view(&self) -> SnapshotView {
        SnapshotView {
            phase: self.phase,
            meeting_id: text_view(self.meeting_id),
            recording_path: text_view(self.recording_path),
            system_active: self.system_active,
            microphone_active: self.microphone_active,
            error: text_view(self.error),
        }
    }
}

/// The view of a snapshot with nothing going on, in `phase`.
pub open spec fn blank_view(phase: CapturePhase) -> SnapshotView {
    SnapshotView {
        phase,
        meeting_id: None,
        recording_path: None,
        system_active: false,
        microphone_active: false,
        error: None,
    }
}

/// The capture lifecycle as plain values: the snapshot and the number of
/// the current start attempt.
pub struct CaptureModel {
    pub snapshot: SnapshotView,
    pub attempt: u64,
}

/// `m` in `phase`, with nothing else changed.
pub open spec fn moved_to(m: CaptureModel, phase: CapturePhase) -> CaptureModel {
    CaptureModel { snapshot: SnapshotView { phase, ..m.snapshot }, ..m }
}

/// `m` after a new start attempt began.
pub open spec fn preflighted(m: CaptureModel) -> CaptureModel {
    CaptureModel { snapshot: blank_view(CapturePhase::Preflight), attempt: m.attempt.wrapping_add(1) }
}

/// `m` after it failed with `error`.
pub open spec fn failed_model(m: CaptureModel, error: Seq<char>) -> CaptureModel {
    CaptureModel {
        snapshot: SnapshotView {
            phase: CapturePhase::Failed,
            system_active: false,
            microphone_active: false,
            error: Some(error),
            ..m.snapshot
        },
        ..m
    }
}

/// `m` after activation of the meeting `meeting_id` recording to `path`.
pub open spec fn activated_model(m: CaptureModel, meeting_id: Seq<char>, path: Seq<char>) -> CaptureModel {
    CaptureModel {
        snapshot: SnapshotView {
            phase: CapturePhase::Active,
            meeting_id: Some(meeting_id),
            recording_path: Some(path),
            system_active: true,
            microphone_active: true,
            ..m.snapshot
        },
        ..m
    }
}

/// `m` after a source failure of attempt `generation` was reported.
pub open spec fn after_source_failure(m: CaptureModel, generation: u64, error: Seq<char>) -> CaptureModel {
    if generation == m.attempt && failure_applies(m.snapshot.phase) {
        failed_model(m, error)
    } else {
        m
    }
}

/// The snapshot of a capture that has nothing going on, in `phase`.
pub open spec fn blank_snapshot(phase: CapturePhase) -> CaptureSnapshot {
    CaptureSnapshot {
        phase,
        meeting_id: None,
        recording_path: None,
        system_active: false,
        microphone_active: false,
        error: None,
    }
}

fn copy_text(value: &Option<String>) -> (res: Option<String>)
    ensures
        res == *value,
{
    match value {
        Some(text) => Some(text.clone()),
        None => None,
    }
}

impl CaptureSnapshot {
    /// An exact copy of the snapshot.
    pub fn copy(&self) -> (res: CaptureSnapshot)
        ensures
            res == *self,
    {
        CaptureSnapshot {
            phase: self.phase,
            meeting_id: copy_text(&self.meeting_id),
            recording_path: copy_text(&self.recording_path),
            system_active: self.system_active,
            microphone_active: self.microphone_active,
            error: copy_text(&self.error),
        }
    }
}

impl Default for CaptureSnapshot {
    fn default() -> (res: Self)
        ensures
            res == blank_snapshot(CapturePhase::Idle),
    {
        CaptureSnapshot {
            phase: CapturePhase::Idle,
            meeting_id: None,
            recording_path: None,
            system_active: false,
            microphone_active: false,
            error: None,
        }
    }
}

/// `s` after the capture failed with `error`.
pub open spec fn failed_snapshot(s: CaptureSnapshot, error: String) -> CaptureSnapshot {
    CaptureSnapshot {
        phase: CapturePhase::Failed,
        system_active: false,
        microphone_active: false,
        error: Some(error),
        ..s
    }
}

/// The error a refused transition out of `phase` reports.
pub open spec fn transition_error(phase: CapturePhase) -> Seq<char> {
    "capture cannot transition from "@ + phase_name(phase)
}

/// The error an activation without both sources reports.
pub open spec fn sources_inactive_error() -> Seq<char> {
    "both capture sources must be active"@
}

/// The error an activation for a superseded start attempt reports.
pub open spec fn superseded_error() -> Seq<char> {
    "capture start was superseded"@
}

/// The lifecycle steps of a capture, other than failing.
#[derive(Clone, Copy, Debug, PartialEq, Eq, Structural)]
pub enum Transition {
    BeginPreflight,
    BeginStarting,
    Activate,
    Pause,
    Resume,
    BeginStopping,
    FinishStopping,
}

/// The phase a step leads to from `from`, or `None` when the step is refused
/// there.
pub open spec fn transition_target(step: Transition, from: CapturePhase) -> Option<CapturePhase> {
    match (step, from) {
        (Transition::BeginPreflight, CapturePhase::Idle) => Some(CapturePhase::Preflight),
        (Transition::BeginPreflight, CapturePhase::Failed) => Some(CapturePhase::Preflight),
        (Transition::BeginStarting, CapturePhase::Preflight) => Some(CapturePhase::Starting),
        (Transition::Activate, CapturePhase::Starting) => Some(CapturePhase::Active),
        (Transition::Pause, CapturePhase::Active) => Some(CapturePhase::Paused),
        (Transition::Resume, CapturePhase::Paused) => Some(CapturePhase::Active),
        (Transition::BeginStopping, CapturePhase::Active) => Some(CapturePhase::Stopping),
        (Transition::BeginStopping, CapturePhase::Paused) => Some(CapturePhase::Stopping),
        (Transition::BeginStopping, CapturePhase::Failed) => Some(CapturePhase::Stopping),
        (Transition::FinishStopping, CapturePhase::Stopping) => Some(CapturePhase::Idle),
        _ => None,
    }
}

/// Whether `step` is taken from `from`.
pub open spec fn allows(step: Transition, from: CapturePhase) -> bool {
    transition_target(step, from) is Some
}

/// An active or paused capture always has a meeting, a recording path and
/// both sources running, and no error; an idle capture, and one being
/// checked or started, has none of these.
pub open spec fn snapshot_well_formed(s: CaptureSnapshot) -> bool {
    &&& (s.phase == CapturePhase::Active || s.phase == CapturePhase::Paused) ==> (s.meeting_id is Some
        && s.recording_path is Some && s.system_active && s.microphone_active && s.error is None)
    &&& blank_phase(s.phase) ==> snapshot_blank(s)
}

/// The phases in which a capture has no meeting: idle, and a start being
/// checked or brought up.
pub open spec fn blank_phase(phase: CapturePhase) -> bool {
    phase == CapturePhase::Idle || phase == CapturePhase::Preflight || phase == CapturePhase::Starting
}

/// A snapshot with no meeting, no recording, no source running and no error.
pub open spec fn snapshot_blank(s: CaptureSnapshot) -> bool {
    &&& s.meeting_id is None
    &&& s.recording_path is None
    &&& !s.system_active
    &&& !s.microphone_active
    &&& s.error is None
}

/// Phases in which a source failure of the current attempt ends the capture.
pub open spec fn failure_applies(phase: CapturePhase) -> bool {
    phase == CapturePhase::Starting || phase == CapturePhase::Active || phase
        == CapturePhase::Paused
}

/// The capture lifecycle: one snapshot, and the number of the current start
/// attempt, which tells failures of an abandoned attempt from current ones.
pub struct CaptureState {
    snapshot: CaptureSnapshot,
    generation: u64,
}

impl CaptureState {
    /// The snapshot the state holds.
    pub closed spec fn current(&self) -> CaptureSnapshot {
        self.snapshot
    }

    /// The number of the current start attempt.
    pub closed spec fn attempt(&self) -> u64 {
        self.generation
    }

    /// The state as plain values.
    pub open spec fn model(&self) -> CaptureModel {
        CaptureModel { snapshot: self.current()@, attempt: self.attempt() }
    }

    /// The phase the state is in.
    pub open spec fn phase(&self) -> CapturePhase {
        self.current().phase
    }

    /// The lifecycle invariant holds of the state.
    pub open spec fn well_formed(&self) -> bool {
        snapshot_well_formed(self.current())
    }

    /// Every state the lifecycle can be in keeps its invariant.
    #[verifier::type_invariant]
    spec fn lifecycle_invariant(&self) -> bool {
        snapshot_well_formed(self.snapshot)
    }

    /// A state that is idle before any start attempt.
    pub fn new() -> (res: Self)
        ensures
            res.current() == blank_snapshot(CapturePhase::Idle),
            res.attempt() == 0,
            res.well_formed(),
    {
        CaptureState { snapshot: CaptureSnapshot::default(), generation: 0 }
    }

    /// A copy of the current snapshot. Every state meets the lifecycle
    /// invariant: an active or paused capture has its meeting, recording
    /// path and both sources, and no error; an idle one, or one checking or
    /// starting a meeting, has none of these.
    pub fn snapshot(&self) -> (res: CaptureSnapshot)
        ensures
            res == self.current(),
            self.well_formed(),
            snapshot_well_formed(res),
    {
        proof {
            use_type_invariant(self);
        }
        self.snapshot.copy()
    }

    /// The number of the current start attempt.
    pub fn generation(&self) -> (res: u64)
        ensures
            res == self.attempt(),
    {
        self.generation
    }

    fn require_phase(&self, a: CapturePhase, b: CapturePhase, c: CapturePhase) -> (res: Result<
        (),
        String,
    >)
        ensures
            res is Ok <==> (self.phase() == a || self.phase() == b || self.phase() == c),
            res matches Err(e) ==> e@ == transition_error(self.phase()),
    {
        let phase = self.snapshot.phase;
        if phase == a || phase == b || phase == c {
            Ok(())
        } else {
            let res = join_text("capture cannot transition from ", phase.name());
            proof {
                reveal_strlit("capture cannot transition from ");
            }
            Err(res)
        }
    }

    fn transition(&mut self, expected: CapturePhase, next: CapturePhase) -> (res: Result<
        (),
        String,
    >)
        requires
            (expected == CapturePhase::Preflight && next == CapturePhase::Starting) || (expected
                == CapturePhase::Active && next == CapturePhase::Paused) || (expected
                == CapturePhase::Paused && next == CapturePhase::Active),
        ensures
            final(self).attempt() == old(self).attempt(),
            res is Ok <==> old(self).phase() == expected,
            res is Ok ==> final(self).current() == (CaptureSnapshot {
                phase: next,
                ..old(self).current()
            }),
            res matches Err(e) ==> e@ == transition_error(old(self).phase()) && *final(self)
                == *old(self),
    {
        proof {
            use_type_invariant(&*self);
        }
        self.require_phase(expected, expected, expected)?;
        self.snapshot.phase = next;
        Ok(())
    }

    /// Begins a new start attempt from an idle or failed capture, clearing
    /// everything an earlier meeting left behind.
    pub fn begin_preflight(&mut self) -> (res: Result<(), String>)
        ensures
            old(self).well_formed() ==> final(self).well_formed(),
            res is Ok <==> allows(Transition::BeginPreflight, old(self).phase()),
            res is Ok ==> final(self).current() == blank_snapshot(CapturePhase::Preflight)
                && final(self).attempt() == old(self).attempt().wrapping_add(1),
            res matches Err(e) ==> e@ == transition_error(old(self).phase()) && *final(self)
                == *old(self),
    {
        self.require_phase(CapturePhase::Idle, CapturePhase::Failed, CapturePhase::Failed)?;
        self.snapshot = CaptureSnapshot {
            phase: CapturePhase::Preflight,
            meeting_id: None,
            recording_path: None,
            system_active: false,
            microphone_active: false,
            error: None,
        };
        self.generation = self.generation.wrapping_add(1);
        Ok(())
    }

    /// Moves a preflight that passed on to starting the sources.
    pub fn begin_starting(&mut self) -> (res: Result<(), String>)
        ensures
            old(self).well_formed() ==> final(self).well_formed(),
            final(self).attempt() == old(self).attempt(),
            res is Ok <==> allows(Transition::BeginStarting, old(self).phase()),
            res is Ok ==> final(self).current() == (CaptureSnapshot {
                phase: CapturePhase::Starting,
                ..old(self).current()
            }),
            res matches Err(e) ==> e@ == transition_error(old(self).phase()) && *final(self)
                == *old(self),
    {
        self.transition(CapturePhase::Preflight, CapturePhase::Starting)
    }

    /// Makes a starting capture active once both sources are up, recording
    /// the meeting and where its audio goes.
    pub fn activate(&mut self, readiness: SourceReadiness, meeting_id: String, recording_path: String) -> (res: Result<(), String>)
        ensures
            old(self).well_formed() ==> final(self).well_formed(),
            final(self).attempt() == old(self).attempt(),
            res is Ok <==> (allows(Transition::Activate, old(self).phase()) && readiness.system
                && readiness.microphone),
            res is Ok ==> final(self).current() == (CaptureSnapshot {
                phase: CapturePhase::Active,
                meeting_id: Some(meeting_id),
                recording_path: Some(recording_path),
                system_active: true,
                microphone_active: true,
                ..old(self).current()
            }),
            res matches Err(e) ==> *final(self) == *old(self) && (if old(self).phase()
                != CapturePhase::Starting {
                e@ == transition_error(old(self).phase())
            } else {
                e@ == sources_inactive_error()
            }),
    {
        self.require_phase(CapturePhase::Starting, CapturePhase::Starting, CapturePhase::Starting)?;
        if !readiness.both_active() {
            let e = String::from_str("both capture sources must be active");
            return Err(e);
        }
        proof {
            use_type_invariant(&*self);
        }
        self.snapshot = CaptureSnapshot {
            phase: CapturePhase::Active,
            meeting_id: Some(meeting_id),
            recording_path: Some(recording_path),
            system_active: readiness.system,
            microphone_active: readiness.microphone,
            error: None,
        };
        Ok(())
    }

    /// Activates only when `generation` is still the current start attempt.
    pub fn activate_if_current(
        &mut self,
        generation: u64,
        readiness: SourceReadiness,
        meeting_id: String,
        recording_path: String,
    ) -> (res: Result<(), String>)
        ensures
            old(self).well_formed() ==> final(self).well_formed(),
            final(self).attempt() == old(self).attempt(),
            res is Ok <==> (generation == old(self).attempt() && allows(
                Transition::Activate,
                old(self).phase(),
            ) && readiness.system && readiness.microphone),
            res is Ok ==> final(self).current() == (CaptureSnapshot {
                phase: CapturePhase::Active,
                meeting_id: Some(meeting_id),
                recording_path: Some(recording_path),
                system_active: true,
                microphone_active: true,
                ..old(self).current()
            }),
            res matches Err(e) ==> *final(self) == *old(self) && (if generation
                != old(self).attempt() {
                e@ == superseded_error()
            } else if old(self).phase() != CapturePhase::Starting {
                e@ == transition_error(old(self).phase())
            } else {
                e@ == sources_inactive_error()
            }),
    {
        if generation != self.generation {
            return Err(String::from_str("capture start was superseded"));
        }
        self.activate(readiness, meeting_id, recording_path)
    }

    /// Pauses an active meeting.
    pub fn pause(&mut self) -> (res: Result<(), String>)
        ensures
            old(self).well_formed() ==> final(self).well_formed(),
            final(self).attempt() == old(self).attempt(),
            res is Ok <==> allows(Transition::Pause, old(self).phase()),
            res is Ok ==> final(self).current() == (CaptureSnapshot {
                phase: CapturePhase::Paused,
                ..old(self).current()
            }),
            res matches Err(e) ==> e@ == transition_error(old(self).phase()) && *final(self)
                == *old(self),
    {
        self.transition(CapturePhase::Active, CapturePhase::Paused)
    }

    /// Resumes a paused meeting.
    pub fn resume(&mut self) -> (res: Result<(), String>)
        ensures
            old(self).well_formed() ==> final(self).well_formed(),
            final(self).attempt() == old(self).attempt(),
            res is Ok <==> allows(Transition::Resume, old(self).phase()),
            res is Ok ==> final(self).current() == (CaptureSnapshot {
                phase: CapturePhase::Active,
                ..old(self).current()
            }),
            res matches Err(e) ==> e@ == transition_error(old(self).phase()) && *final(self)
                == *old(self),
    {
        self.transition(CapturePhase::Paused, CapturePhase::Active)
    }

    /// Begins stopping an active, paused or failed meeting.
    pub fn begin_stopping(&mut self) -> (res: Result<(), String>)
        ensures
            old(self).well_formed() ==> final(self).well_formed(),
            final(self).attempt() == old(self).attempt(),
            res is Ok <==> allows(Transition::BeginStopping, old(self).phase()),
            res is Ok ==> final(self).current() == (CaptureSnapshot {
                phase: CapturePhase::Stopping,
                ..old(self).current()
            }),
            res matches Err(e) ==> e@ == transition_error(old(self).phase()) && *final(self)
                == *old(self),
    {
        self.require_phase(CapturePhase::Active, CapturePhase::Paused, CapturePhase::Failed)?;
        self.snapshot.phase = CapturePhase::Stopping;
        Ok(())
    }

    /// Completes a stop: the capture is idle again, with nothing left of the
    /// meeting.
    pub fn finish_stopping(&mut self) -> (res: Result<(), String>)
        ensures
            old(self).well_formed() ==> final(self).well_formed(),
            final(self).attempt() == old(self).attempt(),
            res is Ok <==> allows(Transition::FinishStopping, old(self).phase()),
            res is Ok ==> final(self).current() == blank_snapshot(CapturePhase::Idle),
            res matches Err(e) ==> e@ == transition_error(old(self).phase()) && *final(self)
                == *old(self),
    {
        self.require_phase(CapturePhase::Stopping, CapturePhase::Stopping, CapturePhase::Stopping)?;
        self.snapshot = CaptureSnapshot::default();
        Ok(())
    }

    /// Marks the capture failed with `error`, whatever phase it is in: both
    /// sources are reported inactive, and the meeting and its recording path
    /// stay on record.
    pub fn fail(&mut self, error: String)
        ensures
            old(self).well_formed() ==> final(self).well_formed(),
            final(self).attempt() == old(self).attempt(),
            final(self).current() == failed_snapshot(old(self).current(), error),
    {
        self.snapshot.phase = CapturePhase::Failed;
        self.snapshot.system_active = false;
        self.snapshot.microphone_active = false;
        self.snapshot.error = Some(error);
    }

    /// Fails the capture for a source failure of start attempt `generation`,
    /// unless that attempt has been superseded or is no longer live; tells
    /// whether the failure was taken.
    pub fn fail_if_current(&mut self, generation: u64, error: String) -> (res: bool)
        ensures
            old(self).well_formed() ==> final(self).well_formed(),
            final(self).attempt() == old(self).attempt(),
            res == (generation == old(self).attempt() && failure_applies(old(self).phase())),
            res ==> final(self).current() == failed_snapshot(old(self).current(), error),
            !res ==> *final(self) == *old(self),
    {
        let phase = self.snapshot.phase;
        if generation == self.generation && (phase == CapturePhase::Starting || phase
            == CapturePhase::Active || phase == CapturePhase::Paused) {
            self.fail(error);
            true
        } else {
            false
        }
    }
}

impl Default for CaptureState {
    fn default() -> (res: Self)
        ensures
            res.current() == blank_snapshot(CapturePhase::Idle),
            res.attempt() == 0,
            res.well_formed(),
    {
        CaptureState::new()
    }
}

/// A failed capture takes no step but a fresh start attempt or a stop.
pub proof fn failure_is_terminal_until_a_new_start(step: Transition)
    ensures
        allows(step, CapturePhase::Failed) <==> (step == Transition::BeginPreflight || step
            == Transition::BeginStopping),
        transition_target(Transition::BeginPreflight, CapturePhase::Failed) == Some(
            CapturePhase::Preflight,
        ),
{
}

/// An idle capture can only begin a start attempt.
pub proof fn idle_only_begins_a_start(step: Transition)
    ensures
        allows(step, CapturePhase::Idle) <==> step == Transition::BeginPreflight,
{
}

/// The meeting lifecycle: preflight, starting, active, paused, active again,
/// stopping, and back to idle.
pub proof fn meeting_lifecycle_returns_to_idle()
    ensures
        transition_target(Transition::BeginPreflight, CapturePhase::Idle) == Some(
            CapturePhase::Preflight,
        ),
        transition_target(Transition::BeginStarting, CapturePhase::Preflight) == Some(
            CapturePhase::Starting,
        ),
        transition_target(Transition::Activate, CapturePhase::Starting) == Some(
            CapturePhase::Active,
        ),
        transition_target(Transition::Pause, CapturePhase::Active) == Some(CapturePhase::Paused),
        transition_target(Transition::Resume, CapturePhase::Paused) == Some(CapturePhase::Active),
        transition_target(Transition::BeginStopping, CapturePhase::Active) == Some(
            CapturePhase::Stopping,
        ),
        transition_target(Transition::FinishStopping, CapturePhase::Stopping) == Some(
            CapturePhase::Idle,
        ),
{
}

/// No step that is taken leaves the capture in the phase it was in.
pub proof fn every_step_changes_the_phase(step: Transition, from: CapturePhase)
    requires
        allows(step, from),
    ensures
        transition_target(step, from) != Some(from),
{
}

/// Where each step of the lifecycle may be taken, and where it leads: a
/// start from idle or after a failure, its checks to starting, activation
/// of a starting capture, pause of an active meeting and resume of a paused
/// one, and the end of a stop back to idle.
pub proof fn where_each_step_leads(from: CapturePhase)
    ensures
        allows(Transition::BeginPreflight, from) <==> (from == CapturePhase::Idle || from
            == CapturePhase::Failed),
        allows(Transition::BeginStarting, from) <==> from == CapturePhase::Preflight,
        allows(Transition::Activate, from) <==> from == CapturePhase::Starting,
        allows(Transition::Pause, from) <==> from == CapturePhase::Active,
        allows(Transition::Resume, from) <==> from == CapturePhase::Paused,
        allows(Transition::FinishStopping, from) <==> from == CapturePhase::Stopping,
        allows(Transition::BeginPreflight, from) ==> transition_target(Transition::BeginPreflight, from)
            == Some(CapturePhase::Preflight),
        allows(Transition::BeginStarting, from) ==> transition_target(Transition::BeginStarting, from)
            == Some(CapturePhase::Starting),
        allows(Transition::Activate, from) ==> transition_target(Transition::Activate, from)
            == Some(CapturePhase::Active),
        allows(Transition::Pause, from) ==> transition_target(Transition::Pause, from)
            == Some(CapturePhase::Paused),
        allows(Transition::Resume, from) ==> transition_target(Transition::Resume, from)
            == Some(CapturePhase::Active),
        allows(Transition::FinishStopping, from) ==> transition_target(Transition::FinishStopping, from)
            == Some(CapturePhase::Idle),
{
}

/// A stop can begin from a meeting that is active or paused, or from a
/// failed capture, and from no other phase; it always leads to stopping.
pub proof fn a_meeting_under_way_can_be_stopped(from: CapturePhase)
    ensures
        allows(Transition::BeginStopping, from) <==> (from == CapturePhase::Active || from
            == CapturePhase::Paused || from == CapturePhase::Failed),
        allows(Transition::BeginStopping, from) ==> transition_target(Transition::BeginStopping, from)
            == Some(CapturePhase::Stopping),
{
}

/// A well-formed active or paused capture has its meeting, its recording
/// path, and both sources running, and no error.
pub proof fn active_capture_has_its_meeting(s: CaptureSnapshot)
    requires
        snapshot_well_formed(s),
        s.phase == CapturePhase::Active || s.phase == CapturePhase::Paused,
    ensures
        s.meeting_id is Some,
        s.recording_path is Some,
        s.system_active && s.microphone_active,
        s.error is None,
{
}

/// A well-formed capture that is idle, or checking or starting a meeting,
/// has no meeting, no recording path, no source running and no error.
pub proof fn capture_without_a_meeting_is_blank(s: CaptureSnapshot)
    requires
        snapshot_well_formed(s),
        s.phase == CapturePhase::Idle || s.phase == CapturePhase::Preflight || s.phase
            == CapturePhase::Starting,
    ensures
        s.meeting_id is None,
        s.recording_path is None,
        !s.system_active && !s.microphone_active,
        s.error is None,
{
}

} // verus!
