use kdeconnect::device::{Address, Device, DeviceError, DeviceId, PairState};
use kdeconnect::pairing::{DeviceManager, PairEvent, PairStep, PairingManager, Storage};

fn address(host: &str) -> Address {
    Address { host: host.to_string(), port: 1716 }
}

fn phone() -> DeviceId {
    DeviceId("phone".into())
}

#[test]
fn device_ids_cannot_select_paths() {
    for id in ["", "../phone", "/tmp/phone", ".", "a/b", "a\\b"] {
        assert!(DeviceId(id.into()).validate().is_err());
    }
    assert!(DeviceId("77f4e7c7_3593-4fa5".into()).validate().is_ok());
}

#[test]
fn device_ids_are_bounded() {
    assert!(DeviceId("a".repeat(128)).validate().is_ok());
    assert_eq!(
        DeviceId("a".repeat(129)).validate(),
        Err(DeviceError::InvalidId)
    );
    assert!(DeviceId("caf\u{e9}".into()).validate().is_err());
}

#[test]
fn legacy_pairing_requires_new_approval() {
    let stored = Device {
        name: "old".into(),
        device_id: phone(),
        address: address("127.0.0.1"),
        pair_state: PairState::Paired,
        paired_certificate: None,
        connection_certificate: None,
    };
    let mut device =
        Device::new("phone".into(), "new".into(), address("127.0.0.2"), Some(stored)).ok().unwrap();
    assert_eq!(device.pair_state, PairState::NotPaired);
    assert_eq!(device.address.host, "127.0.0.2");
    assert_eq!(device.name, "new");
    device.bind_certificate(vec![1, 2, 3]).unwrap();
    assert!(device.payload_certificate().is_err());
    assert!(device.paired_certificate.is_none());
}

#[test]
fn pin_survives_restart_and_is_cleared_on_unpair() {
    let device = Device {
        device_id: phone(),
        pair_state: PairState::Paired,
        paired_certificate: Some(vec![1, 2, 3]),
        connection_certificate: Some(vec![1, 2, 3]),
        ..Device::default()
    };
    let record = device.store_device_identity(PairState::Paired).ok().unwrap();
    let mut restored =
        Device::new("phone".into(), "phone".into(), address("127.0.0.1"), Some(record))
            .ok()
            .unwrap();
    assert_eq!(restored.pair_state, PairState::Paired);
    assert!(restored.connection_certificate.is_none());
    assert!(restored.bind_certificate(vec![9, 9, 9]).is_err());
    restored.bind_certificate(vec![1, 2, 3]).unwrap();
    assert_eq!(restored.payload_certificate().unwrap(), &[1, 2, 3]);
    let record = restored.store_device_identity(PairState::NotPaired).ok().unwrap();
    let unpaired =
        Device::new("phone".into(), "phone".into(), address("127.0.0.1"), Some(record))
            .ok()
            .unwrap();
    assert!(unpaired.paired_certificate.is_none());
    assert!(unpaired.payload_certificate().is_err());
}

#[test]
fn pending_approval_does_not_survive_reconnection() {
    let device = Device {
        device_id: phone(),
        connection_certificate: Some(vec![1, 2, 3]),
        ..Device::default()
    };
    let record = device.store_device_identity(PairState::Requesting).ok().unwrap();
    let restored =
        Device::new("phone".into(), "phone".into(), address("127.0.0.1"), Some(record))
            .ok()
            .unwrap();
    assert_eq!(restored.pair_state, PairState::NotPaired);
    assert!(restored.paired_certificate.is_none());
    assert!(restored.connection_certificate.is_none());
}

#[test]
fn records_of_other_devices_are_refused() {
    let stored = Device { device_id: DeviceId("other".into()), ..Device::default() };
    let r = Device::new("phone".into(), "n".into(), address("127.0.0.1"), Some(stored));
    assert_eq!(r.err(), Some(DeviceError::StoredIdMismatch));
    let r = Device::new("../x".into(), "n".into(), address("127.0.0.1"), None);
    assert_eq!(r.err(), Some(DeviceError::InvalidId));
}

#[test]
fn certificates_are_checked() {
    let mut d = Device { device_id: phone(), ..Device::default() };
    assert_eq!(d.bind_certificate(vec![]), Err(DeviceError::NoPeerCertificate));
    assert_eq!(d.payload_certificate().err(), Some(DeviceError::NotPaired));
    d.pair_state = PairState::Paired;
    assert_eq!(d.payload_certificate().err(), Some(DeviceError::NoPinnedCertificate));
    assert_eq!(d.bind_certificate(vec![1]), Err(DeviceError::CertificateChanged));
    assert_eq!(
        DeviceError::CertificateChanged.message(),
        "paired peer certificate changed; unpair locally before pairing again"
    );
}

#[test]
fn approval_pins_the_certificate_of_the_connection() {
    let mut m = DeviceManager::new();
    assert_eq!(m.set_paired(&phone(), true, true).err(), Some(DeviceError::NoLiveConnection));
    let mut d = Device { device_id: phone(), ..Device::default() };
    d.bind_certificate(vec![7, 7]).unwrap();
    m.add_or_update_device(phone(), d);
    assert_eq!(m.set_paired(&phone(), true, true).err(), Some(DeviceError::NoPendingRequest));
    assert!(m.update_pair_state(&phone(), PairState::Requested, true).is_some());
    match m.pairing_record(&phone(), true) {
        Ok(Storage::Write(record)) => {
            assert_eq!(record.pair_state, PairState::Paired);
            assert_eq!(record.paired_certificate, Some(vec![7, 7]));
            assert!(record.connection_certificate.is_none());
        }
        _ => panic!("expected a record to write"),
    }
    match m.set_paired(&phone(), true, true) {
        Ok(PairEvent::Paired(id, device)) => {
            assert_eq!(id.0, "phone");
            assert_eq!(device.paired_certificate, Some(vec![7, 7]));
        }
        _ => panic!("expected pairing"),
    }
    assert_eq!(m.get_device(&phone()).unwrap().pair_state, PairState::Paired);
    assert_eq!(m.get_devices().len(), 1);
}

#[test]
fn unpairing_forgets_the_pin() {
    let mut m = DeviceManager::new();
    m.add_or_update_device(
        phone(),
        Device {
            device_id: phone(),
            pair_state: PairState::Paired,
            paired_certificate: Some(vec![1]),
            ..Device::default()
        },
    );
    assert_eq!(m.set_paired(&phone(), false, false).err(), Some(DeviceError::StoreFailed));
    assert_eq!(m.get_device(&phone()).unwrap().pair_state, PairState::Paired);
    assert!(matches!(m.set_paired(&phone(), false, true), Ok(PairEvent::Cancelled(_))));
    let d = m.get_device(&phone()).unwrap();
    assert_eq!(d.pair_state, PairState::NotPaired);
    assert!(d.paired_certificate.is_none());
}

#[test]
fn unpairing_an_absent_device_deletes_its_record() {
    let m = DeviceManager::new();
    match m.pairing_record(&phone(), false) {
        Ok(Storage::Delete(id)) => assert_eq!(id.0, "phone"),
        _ => panic!("expected a record to delete"),
    }
}

#[test]
fn pair_requests_of_unknown_devices_are_errors() {
    let m = PairingManager::new(DeviceManager::new());
    assert_eq!(
        m.handle_pair_request(&phone(), Some(true)).err(),
        Some(DeviceError::NoLiveDevice)
    );
}

#[test]
fn pair_requests_wait_for_the_user() {
    let mut devices = DeviceManager::new();
    devices.add_or_update_device(phone(), Device { device_id: phone(), ..Device::default() });
    let m = PairingManager::new(devices);
    assert!(matches!(m.handle_pair_request(&phone(), Some(true)), Ok(PairStep::Ask)));
}
