use std::{
    cell::{Cell, RefCell},
    rc::Rc,
};

use oss_lma::audio::PermissionState;
use oss_lma::macos::permissions::{
    denied_access, permission_state, remember_screen_request, screen_authorization,
    screen_authorization_with_history, MacPermissions, NativeAuthorization, PermissionKind,
    PermissionProvider, ScreenDenialHistory,
};

#[derive(Clone)]
struct FakePermissions {
    screen: NativeAuthorization,
    microphone: NativeAuthorization,
    requested: Rc<RefCell<Vec<PermissionKind>>>,
    opened: Rc<RefCell<Vec<PermissionKind>>>,
}

impl PermissionProvider for FakePermissions {
    fn status(&self, kind: PermissionKind) -> NativeAuthorization {
        match kind {
            PermissionKind::ScreenRecording => self.screen,
            PermissionKind::Microphone => self.microphone,
        }
    }

    fn open_settings(&self, kind: PermissionKind) -> Result<(), String> {
        self.opened.borrow_mut().push(kind);
        Ok(())
    }

    fn request(&self, kind: PermissionKind) -> Result<NativeAuthorization, String> {
        self.requested.borrow_mut().push(kind);
        Ok(NativeAuthorization::Denied)
    }
}

#[derive(Clone)]
struct SharedHistory(Rc<Cell<bool>>);

impl ScreenDenialHistory for SharedHistory {
    fn denied(&self) -> bool {
        self.0.get()
    }

    fn set_denied(&self, denied: bool) {
        self.0.set(denied);
    }
}

#[test]
fn maps_native_authorization_states() {
    let cases = [
        (NativeAuthorization::Authorized, PermissionState::Granted),
        (NativeAuthorization::Denied, PermissionState::Denied),
        (NativeAuthorization::NotDetermined, PermissionState::Unknown),
    ];

    for (native, expected) in cases {
        let mut permissions = MacPermissions::with_provider(
            PermissionKind::Microphone,
            FakePermissions {
                screen: NativeAuthorization::Authorized,
                microphone: native,
                requested: Rc::new(RefCell::new(Vec::new())),
                opened: Rc::new(RefCell::new(Vec::new())),
            },
        );
        assert_eq!(permissions.status(), expected);
        assert_eq!(permission_state(native), expected);
    }
}

#[test]
fn opens_the_settings_pane_for_the_selected_permission() {
    let opened = Rc::new(RefCell::new(Vec::new()));
    let provider = FakePermissions {
        screen: NativeAuthorization::Denied,
        microphone: NativeAuthorization::Denied,
        requested: Rc::new(RefCell::new(Vec::new())),
        opened: opened.clone(),
    };
    let mut screen = MacPermissions::with_provider(PermissionKind::ScreenRecording, provider.clone());
    let mut microphone = MacPermissions::with_provider(PermissionKind::Microphone, provider);

    screen.open_settings().unwrap();
    microphone.open_settings().unwrap();

    assert_eq!(
        *opened.borrow(),
        [PermissionKind::ScreenRecording, PermissionKind::Microphone]
    );
}

#[test]
fn failed_screen_preflight_is_conservatively_unknown() {
    assert_eq!(
        screen_authorization(false, false),
        NativeAuthorization::NotDetermined
    );
}

#[test]
fn failed_screen_request_is_remembered_as_denied() {
    assert_eq!(screen_authorization(false, true), NativeAuthorization::Denied);
}

#[test]
fn screen_denial_history_survives_a_new_permission_adapter() {
    let storage = Rc::new(Cell::new(false));
    let first_launch = SharedHistory(storage.clone());
    remember_screen_request(false, &first_launch);
    let next_launch = SharedHistory(storage);

    assert_eq!(
        screen_authorization_with_history(false, &next_launch),
        NativeAuthorization::Denied
    );
    remember_screen_request(true, &next_launch);
    assert_eq!(
        screen_authorization_with_history(true, &next_launch),
        NativeAuthorization::Authorized
    );
    assert!(!ScreenDenialHistory::denied(&next_launch));
}

#[test]
fn denied_permission_request_opens_settings_and_returns_an_error() {
    let opened = Rc::new(RefCell::new(Vec::new()));
    let requested = Rc::new(RefCell::new(Vec::new()));
    let mut permissions = MacPermissions::with_provider(
        PermissionKind::ScreenRecording,
        FakePermissions {
            screen: NativeAuthorization::NotDetermined,
            microphone: NativeAuthorization::Authorized,
            requested: requested.clone(),
            opened: opened.clone(),
        },
    );

    let error = permissions.ensure_access().unwrap_err();

    assert!(error.contains("Screen Recording permission was not granted"));
    assert_eq!(*requested.borrow(), [PermissionKind::ScreenRecording]);
    assert_eq!(*opened.borrow(), [PermissionKind::ScreenRecording]);
}

#[test]
fn explicit_permission_request_reports_denial_without_opening_settings() {
    let opened = Rc::new(RefCell::new(Vec::new()));
    let requested = Rc::new(RefCell::new(Vec::new()));
    let mut permissions = MacPermissions::with_provider(
        PermissionKind::ScreenRecording,
        FakePermissions {
            screen: NativeAuthorization::NotDetermined,
            microphone: NativeAuthorization::Authorized,
            requested: requested.clone(),
            opened: opened.clone(),
        },
    );

    assert_eq!(
        permissions.request_access().unwrap(),
        PermissionState::Denied
    );
    assert_eq!(*requested.borrow(), [PermissionKind::ScreenRecording]);
    assert!(opened.borrow().is_empty());
}

#[test]
fn granted_access_neither_prompts_nor_opens_settings() {
    let opened = Rc::new(RefCell::new(Vec::new()));
    let requested = Rc::new(RefCell::new(Vec::new()));
    let mut permissions = MacPermissions::with_provider(
        PermissionKind::Microphone,
        FakePermissions {
            screen: NativeAuthorization::Denied,
            microphone: NativeAuthorization::Authorized,
            requested: requested.clone(),
            opened: opened.clone(),
        },
    );
    assert!(permissions.ensure_access().is_ok());
    assert!(requested.borrow().is_empty());
    assert!(opened.borrow().is_empty());
}

#[test]
fn denial_messages_name_the_permission_and_the_outcome() {
    assert_eq!(
        denied_access(PermissionKind::Microphone, Ok(())),
        "Microphone permission was not granted; System Settings was opened"
    );
    assert_eq!(
        denied_access(
            PermissionKind::ScreenRecording,
            Err("invalid System Settings URL".to_owned())
        ),
        "Screen Recording permission was not granted: invalid System Settings URL"
    );
}
