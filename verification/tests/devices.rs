use oss_lma::audio::{DeviceInfo, DeviceKind};
use oss_lma::macos::devices::{DeviceProvider, DeviceSelection, MacDevices, NativeDevice};

#[derive(Clone)]
struct FakeDevices(Vec<NativeDevice>);

impl DeviceProvider for FakeDevices {
    fn list(&self) -> Result<Vec<NativeDevice>, String> {
        Ok(self.0.clone())
    }
}

struct FailingDevices;

impl DeviceProvider for FailingDevices {
    fn list(&self) -> Result<Vec<NativeDevice>, String> {
        Err("core audio is unavailable".to_owned())
    }
}

fn devices() -> MacDevices<FakeDevices> {
    MacDevices::with_provider(FakeDevices(vec![
        NativeDevice {
            id: "speaker-default".into(),
            name: "MacBook Speakers".into(),
            kind: DeviceKind::SystemOutput,
            is_default: true,
        },
        NativeDevice {
            id: "mic-default".into(),
            name: "MacBook Microphone".into(),
            kind: DeviceKind::Microphone,
            is_default: true,
        },
        NativeDevice {
            id: "mic-usb".into(),
            name: "USB Microphone".into(),
            kind: DeviceKind::Microphone,
            is_default: false,
        },
    ]))
}

#[test]
fn exposes_stable_ids_and_default_devices() {
    let devices = devices();

    assert_eq!(
        devices.list(),
        vec![
            DeviceInfo {
                id: "speaker-default".into(),
                name: "MacBook Speakers".into(),
                is_default: true,
                kind: DeviceKind::SystemOutput,
            },
            DeviceInfo {
                id: "mic-default".into(),
                name: "MacBook Microphone".into(),
                is_default: true,
                kind: DeviceKind::Microphone,
            },
            DeviceInfo {
                id: "mic-usb".into(),
                name: "USB Microphone".into(),
                is_default: false,
                kind: DeviceKind::Microphone,
            },
        ]
    );
    assert_eq!(devices.default_system().unwrap().id, "speaker-default");
    assert_eq!(devices.default_microphone().unwrap().id, "mic-default");
}

#[test]
fn resolves_default_and_override_selections() {
    let devices = devices();

    assert_eq!(
        devices
            .resolve(DeviceKind::Microphone, &DeviceSelection::Default)
            .unwrap()
            .id,
        "mic-default"
    );
    assert_eq!(
        devices
            .resolve(
                DeviceKind::Microphone,
                &DeviceSelection::DeviceId("mic-usb".into())
            )
            .unwrap()
            .id,
        "mic-usb"
    );
    assert!(devices
        .resolve(
            DeviceKind::SystemOutput,
            &DeviceSelection::DeviceId("mic-usb".into())
        )
        .is_none());
}

#[test]
fn a_device_listed_twice_is_kept_once_per_kind() {
    let aggregate = NativeDevice {
        id: "aggregate".into(),
        name: "Aggregate".into(),
        kind: DeviceKind::Microphone,
        is_default: false,
    };
    let devices = MacDevices::with_provider(FakeDevices(vec![
        aggregate.clone(),
        NativeDevice {
            kind: DeviceKind::SystemOutput,
            ..aggregate.clone()
        },
        NativeDevice {
            name: "Aggregate again".into(),
            ..aggregate.clone()
        },
    ]));
    let listed = devices.list();
    assert_eq!(listed.len(), 2);
    assert_eq!(listed[0].name, "Aggregate");
    assert_eq!(listed[0].kind, DeviceKind::Microphone);
    assert_eq!(listed[1].kind, DeviceKind::SystemOutput);
}

#[test]
fn a_failed_listing_offers_no_devices() {
    let devices = MacDevices::with_provider(FailingDevices);
    assert!(devices.list().is_empty());
    assert!(devices.default_microphone().is_none());
    assert!(devices
        .resolve(DeviceKind::Microphone, &DeviceSelection::DeviceId("x".into()))
        .is_none());
}
