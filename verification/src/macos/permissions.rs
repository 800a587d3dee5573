use vstd::prelude::*;
use vstd::string::*;

use crate::audio::PermissionState;
use crate::text::join_text;

verus! {

/// Remembers whether the last screen-recording request was refused: the
/// platform's preflight cannot tell a refusal from a question not yet asked.
pub trait ScreenDenialHistory {
    fn denied(&self) -> bool;

    fn set_denied(&self, denied: bool);
}

/// The permissions capture needs.
#[derive(Clone, Copy, Debug, PartialEq, Eq, Structural)]
pub enum PermissionKind {
    ScreenRecording,
    Microphone,
}

/// What the platform says of a permission.
#[derive(Clone, Copy, Debug, PartialEq, Eq, Structural)]
pub enum NativeAuthorization {
    Authorized,
    Denied,
    NotDetermined,
}

/// Asks the platform about permissions, prompts for them, and opens their
/// System Settings pane.
pub trait PermissionProvider {
    fn status(&self, kind: PermissionKind) -> NativeAuthorization;

    fn request(&self, kind: PermissionKind) -> Result<NativeAuthorization, String>;

    fn open_settings(&self, kind: PermissionKind) -> Result<(), String>;
}

/// Screen recording's authorization: granted when the preflight passes,
/// denied when it fails after a refused request, else not yet determined.
pub open spec fn screen_authorization_of(preflight_granted: bool, previous_request_was_denied: bool) -> NativeAuthorization {
    if preflight_granted {
        NativeAuthorization::Authorized
    } else if previous_request_was_denied {
        NativeAuthorization::Denied
    } else {
        NativeAuthorization::NotDetermined
    }
}

/// Screen recording's authorization from the preflight and whether the
/// previous request was refused.
pub fn screen_authorization(preflight_granted: bool, previous_request_was_denied: bool) -> (res: NativeAuthorization)
    ensures
        res == screen_authorization_of(preflight_granted, previous_request_was_denied),
{
    if preflight_granted {
        NativeAuthorization::Authorized
    } else if previous_request_was_denied {
        NativeAuthorization::Denied
    } else {
        NativeAuthorization::NotDetermined
    }
}

/// Screen recording's authorization, consulting and maintaining `history`:
/// a passing preflight clears any remembered refusal.
pub fn screen_authorization_with_history<H: ScreenDenialHistory>(preflight_granted: bool, history: &H) -> (res: NativeAuthorization)
    ensures
        preflight_granted <==> res == NativeAuthorization::Authorized,
        preflight_granted ==> call_ensures(H::set_denied, (history, false), ()),
        exists|denied: bool|
            #[trigger] call_ensures(H::denied, (history,), denied) && res == screen_authorization_of(
                preflight_granted,
                denied,
            ),
{
    if preflight_granted {
        history.set_denied(false);
        assert(call_ensures(H::set_denied, (history, false), ()));
    }
    let denied = history.denied();
    assert(call_ensures(H::denied, (history,), denied));
    screen_authorization(preflight_granted, denied)
}

/// Remembers how a screen-recording request was answered.
pub fn remember_screen_request<H: ScreenDenialHistory>(granted: bool, history: &H)
    ensures
        call_ensures(H::set_denied, (history, !granted), ()),
{
    history.set_denied(!granted);
}

/// Across adapters that share one denial history which reports what was
/// last stored in it: after a request answered `granted` was remembered, a
/// passing preflight is authorized, a failing one is denied exactly when
/// that request was refused, and otherwise not yet determined.
pub proof fn remembered_refusal_decides_screen_state(granted: bool, preflight_granted: bool, stored: bool)
    requires
        stored == !granted,
    ensures
        screen_authorization_of(preflight_granted, stored) == if preflight_granted {
            NativeAuthorization::Authorized
        } else if !granted {
            NativeAuthorization::Denied
        } else {
            NativeAuthorization::NotDetermined
        },
{
}

/// The capture layer's permission state for a platform authorization.
pub open spec fn state_of(a: NativeAuthorization) -> PermissionState {
    match a {
        NativeAuthorization::Authorized => PermissionState::Granted,
        NativeAuthorization::Denied => PermissionState::Denied,
        NativeAuthorization::NotDetermined => PermissionState::Unknown,
    }
}

/// The capture layer's permission state for a platform authorization.
pub fn permission_state(a: NativeAuthorization) -> (res: PermissionState)
    ensures
        res == state_of(a),
{
    match a {
        NativeAuthorization::Authorized => PermissionState::Granted,
        NativeAuthorization::Denied => PermissionState::Denied,
        NativeAuthorization::NotDetermined => PermissionState::Unknown,
    }
}

/// The permission's name in messages.
pub open spec fn permission_name(kind: PermissionKind) -> Seq<char> {
    match kind {
        PermissionKind::ScreenRecording => "Screen Recording"@,
        PermissionKind::Microphone => "Microphone"@,
    }
}

/// The error for a permission that is not granted, after trying to open
/// its System Settings pane.
pub open spec fn denied_access_error(kind: PermissionKind, opened: Result<(), Seq<char>>) -> Seq<char> {
    match opened {
        Ok(()) => permission_name(kind) + " permission was not granted; System Settings was opened"@,
        Err(e) => permission_name(kind) + " permission was not granted: "@ + e,
    }
}

/// How opening a System Settings pane went, with its error as text.
pub open spec fn opened_text(o: Result<(), String>) -> Result<(), Seq<char>> {
    match o {
        Ok(()) => Ok(()),
        Err(e) => Err(e@),
    }
}

fn permission_label(kind: PermissionKind) -> (res: &'static str)
    ensures
        res@ == permission_name(kind),
{
    match kind {
        PermissionKind::ScreenRecording => "Screen Recording",
        PermissionKind::Microphone => "Microphone",
    }
}

/// The error for a permission that is not granted, given how opening its
/// System Settings pane went.
pub fn denied_access(kind: PermissionKind, opened: Result<(), String>) -> (res: String)
    ensures
        res@ == denied_access_error(kind, match opened {
            Ok(()) => Ok(()),
            Err(e) => Err(e@),
        }),
{
    let name = permission_label(kind);
    match opened {
        Ok(()) => join_text(name, " permission was not granted; System Settings was opened"),
        Err(e) => {
            let head = join_text(name, " permission was not granted: ");
            let res = join_text(head.as_str(), e.as_str());
            res
        },
    }
}

/// A call made to a permission provider.
#[derive(Clone, Copy, Debug, PartialEq, Eq, Structural)]
pub enum PermissionCall {
    Status,
    Request,
    OpenSettings,
}

/// The provider calls a request makes once the platform reported `status`:
/// the status query, and a prompt only when nothing was determined yet.
pub open spec fn access_calls(status: NativeAuthorization) -> Seq<PermissionCall> {
    if status == NativeAuthorization::NotDetermined {
        seq![PermissionCall::Status, PermissionCall::Request]
    } else {
        seq![PermissionCall::Status]
    }
}

/// One permission, checked and requested through a provider; it counts the
/// provider calls it makes.
pub struct MacPermissions<P: PermissionProvider> {
    kind: PermissionKind,
    provider: P,
    calls: Ghost<Seq<PermissionCall>>,
}

impl<P: PermissionProvider + Default> MacPermissions<P> {
    /// Screen recording, through the platform's provider.
    pub fn screen_recording() -> (res: Self)
        ensures
            res.kind() == PermissionKind::ScreenRecording,
            res.made() == Seq::<PermissionCall>::empty(),
    {
        MacPermissions {
            kind: PermissionKind::ScreenRecording,
            provider: P::default(),
            calls: Ghost(Seq::empty()),
        }
    }

    /// The microphone, through the platform's provider.
    pub fn microphone() -> (res: Self)
        ensures
            res.kind() == PermissionKind::Microphone,
            res.made() == Seq::<PermissionCall>::empty(),
    {
        MacPermissions {
            kind: PermissionKind::Microphone,
            provider: P::default(),
            calls: Ghost(Seq::empty()),
        }
    }
}

impl<P: PermissionProvider> MacPermissions<P> {
    /// The permission `kind`, through `provider`.
    pub fn with_provider(kind: PermissionKind, provider: P) -> (res: Self)
        ensures
            res.kind() == kind,
            res.provider() == provider,
            res.made() == Seq::<PermissionCall>::empty(),
    {
        MacPermissions { kind, provider, calls: Ghost(Seq::empty()) }
    }

    /// The permission this handles.
    pub closed spec fn kind(&self) -> PermissionKind {
        self.kind
    }

    /// The provider the permission is checked and requested through.
    pub closed spec fn provider(&self) -> P {
        self.provider
    }

    /// The provider calls made so far, oldest first.
    pub closed spec fn made(&self) -> Seq<PermissionCall> {
        self.calls@
    }

    /// `a` is a status the provider may report for this permission.
    pub open spec fn reported(&self, a: NativeAuthorization) -> bool {
        call_ensures(P::status, (&self.provider(), self.kind()), a)
    }

    /// `r` is an answer the provider may give to a prompt for this
    /// permission.
    pub open spec fn prompted(&self, r: Result<NativeAuthorization, String>) -> bool {
        call_ensures(P::request, (&self.provider(), self.kind()), r)
    }

    /// `o` is how opening this permission's System Settings pane may go.
    pub open spec fn opened(&self, o: Result<(), String>) -> bool {
        call_ensures(P::open_settings, (&self.provider(), self.kind()), o)
    }

    /// What a request for this permission gives once the provider reported
    /// `status` and, when that was not yet determined, answered the prompt
    /// with `answer`.
    pub open spec fn access_answer(
        &self,
        status: NativeAuthorization,
        answer: Result<NativeAuthorization, String>,
        r: Result<PermissionState, String>,
    ) -> bool {
        &&& self.reported(status)
        &&& if status == NativeAuthorization::NotDetermined {
            &&& self.prompted(answer)
            &&& r == match answer {
                Ok(a) => Ok::<PermissionState, String>(state_of(a)),
                Err(e) => Err(e),
            }
        } else {
            r == Ok::<PermissionState, String>(state_of(status))
        }
    }

    /// A request for this permission may give `r`, taking the provider's
    /// calls from `before` to `after`.
    pub open spec fn requested(
        &self,
        before: Seq<PermissionCall>,
        after: Seq<PermissionCall>,
        r: Result<PermissionState, String>,
    ) -> bool {
        exists|status: NativeAuthorization, answer: Result<NativeAuthorization, String>|
            #[trigger] self.access_answer(status, answer, r) && after == before + access_calls(status)
    }

    fn query_status(&mut self) -> (res: NativeAuthorization)
        ensures
            old(self).reported(res),
            final(self).made() == old(self).made().push(PermissionCall::Status),
            final(self).kind() == old(self).kind(),
            final(self).provider() == old(self).provider(),
    {
        let res = self.provider.status(self.kind);
        proof {
            self.calls@ = self.calls@.push(PermissionCall::Status);
        }
        res
    }

    fn prompt(&mut self) -> (res: Result<NativeAuthorization, String>)
        ensures
            old(self).prompted(res),
            final(self).made() == old(self).made().push(PermissionCall::Request),
            final(self).kind() == old(self).kind(),
            final(self).provider() == old(self).provider(),
    {
        let res = self.provider.request(self.kind);
        proof {
            self.calls@ = self.calls@.push(PermissionCall::Request);
        }
        res
    }

    fn open_pane(&mut self) -> (res: Result<(), String>)
        ensures
            old(self).opened(res),
            final(self).made() == old(self).made().push(PermissionCall::OpenSettings),
            final(self).kind() == old(self).kind(),
            final(self).provider() == old(self).provider(),
    {
        let res = self.provider.open_settings(self.kind);
        proof {
            self.calls@ = self.calls@.push(PermissionCall::OpenSettings);
        }
        res
    }

    /// The permission's state, as the provider reports it; nothing is
    /// requested and no pane is opened.
    pub fn status(&mut self) -> (res: PermissionState)
        ensures
            exists|a: NativeAuthorization| old(self).reported(a) && res == state_of(a),
            final(self).made() == old(self).made().push(PermissionCall::Status),
            final(self).kind() == old(self).kind(),
            final(self).provider() == old(self).provider(),
    {
        let a = self.query_status();
        permission_state(a)
    }

    /// Opens the permission's System Settings pane.
    pub fn open_settings(&mut self) -> (res: Result<(), String>)
        ensures
            old(self).opened(res),
            final(self).made() == old(self).made().push(PermissionCall::OpenSettings),
            final(self).kind() == old(self).kind(),
            final(self).provider() == old(self).provider(),
    {
        self.open_pane()
    }

    /// The permission's state, prompting for it first when the platform has
    /// not asked yet; no pane is opened. Prompt failures are returned as
    /// they are.
    pub fn request_access(&mut self) -> (res: Result<PermissionState, String>)
        ensures
            old(self).requested(old(self).made(), final(self).made(), res),
            final(self).kind() == old(self).kind(),
            final(self).provider() == old(self).provider(),
    {
        let ghost before = self.made();
        let status = self.query_status();
        if status == NativeAuthorization::NotDetermined {
            let answer = self.prompt();
            let res = match answer {
                Ok(a) => Ok(permission_state(a)),
                Err(e) => Err(e),
            };
            assert(old(self).access_answer(status, answer, res));
            assert(self.made() =~= before + access_calls(status));
            res
        } else {
            let res = Ok(permission_state(status));
            let ghost answer = Ok::<NativeAuthorization, String>(status);
            assert(old(self).access_answer(status, answer, res));
            assert(self.made() =~= before + access_calls(status));
            res
        }
    }

    /// Succeeds when the permission is granted, prompting for it when needed;
    /// otherwise opens its System Settings pane, once, and fails with a
    /// message that says so. A failed prompt opens nothing.
    pub fn ensure_access(&mut self) -> (res: Result<(), String>)
        ensures
            final(self).kind() == old(self).kind(),
            final(self).provider() == old(self).provider(),
            exists|r: Result<PermissionState, String>, mid: Seq<PermissionCall>| {
                &&& #[trigger] old(self).requested(old(self).made(), mid, r)
                &&& match r {
                    Ok(PermissionState::Granted) => res == Ok::<(), String>(()) && final(self).made() == mid,
                    Ok(_) => exists|o: Result<(), String>| {
                        &&& #[trigger] old(self).opened(o)
                        &&& final(self).made() == mid.push(PermissionCall::OpenSettings)
                        &&& res matches Err(e)
                        &&& e@ == denied_access_error(old(self).kind(), opened_text(o))
                    },
                    Err(e) => res == Err::<(), String>(e) && final(self).made() == mid,
                }
            },
    {
        let state = self.request_access();
        let ghost mid = self.made();
        match state {
            Err(e) => Err(e),
            Ok(s) => {
                if s == PermissionState::Granted {
                    return Ok(());
                }
                let opened = self.open_pane();
                let res = Err(denied_access(self.kind, opened));
                assert(old(self).opened(opened));
                res
            },
        }
    }
}

} // verus!
