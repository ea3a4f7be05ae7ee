use kdeconnect::device::{Address, Device, DeviceError, DeviceId, PairState};
use kdeconnect::packet::PacketType;
use kdeconnect::share::ReceiveStage;
use kdeconnect::table::TextSet;
use kdeconnect::transport::{
    accept_connection, accept_identity, announced_peer, check_size, filtered_identity_for_device,
    is_other_device, packet_line, payload_port, read_identity, retry_bind, verify_payload_peer,
    Connections, Handshakes, Identity, IdentityError, IdentityLine, IdentityReader, PayloadAction,
    PayloadEvent, PayloadFailure, PayloadReceiver, Reading,
};

fn texts(list: &[&str]) -> Vec<String> {
    list.iter().map(|s| s.to_string()).collect()
}

fn identity() -> Identity {
    Identity {
        device_id: "desktop".into(),
        device_name: "desktop".into(),
        device_type: "desktop".into(),
        protocol_version: 8,
        tcp_port: Some(1716),
        incoming_capabilities: vec![],
        outgoing_capabilities: vec![],
    }
}

fn pinned(certificate: &[u8]) -> Device {
    Device {
        device_id: DeviceId("phone".into()),
        pair_state: PairState::Paired,
        paired_certificate: Some(certificate.to_vec()),
        ..Device::default()
    }
}

#[test]
fn payload_pin_is_checked_in_both_tls_directions() {
    let server_cert = vec![1, 2, 3];
    let client_cert = vec![4, 5, 6];
    let seen_by_server = vec![client_cert.clone()];
    let seen_by_client = vec![server_cert.clone()];
    let expected_client = pinned(&client_cert);
    let expected_server = pinned(&server_cert);
    assert!(verify_payload_peer(&expected_client, Some(&seen_by_server)).is_ok());
    assert!(verify_payload_peer(&expected_server, Some(&seen_by_client)).is_ok());
    assert_eq!(
        verify_payload_peer(&expected_server, Some(&seen_by_server)),
        Err(DeviceError::PayloadCertificateMismatch)
    );
    assert_eq!(
        verify_payload_peer(&expected_client, Some(&seen_by_client)),
        Err(DeviceError::PayloadCertificateMismatch)
    );
    assert_eq!(
        verify_payload_peer(&expected_client, None),
        Err(DeviceError::NoPayloadCertificate)
    );
    assert_eq!(
        verify_payload_peer(&Device::default(), Some(&seen_by_server)),
        Err(DeviceError::NotPaired)
    );
}

#[test]
fn identity_reader_does_not_consume_tls_bytes() {
    let mut input = b"{\"deviceId\":\"desktop\"}\n".to_vec();
    let line = input.len() - 1;
    input.extend_from_slice(b"TLS bytes");
    assert_eq!(read_identity(&input), IdentityLine::Line(line));
    assert_eq!(&input[line + 1..], b"TLS bytes");
    let accepted = accept_identity(&PacketType::Identity, Some(identity())).unwrap();
    assert_eq!(accepted.device_id, "desktop");
    let mut invalid = identity();
    invalid.device_id = "../escape".into();
    assert_eq!(
        accept_identity(&PacketType::Identity, Some(invalid)).err(),
        Some(IdentityError::InvalidId)
    );
    assert_eq!(
        accept_identity(&PacketType::Identity, None).err(),
        Some(IdentityError::Malformed)
    );
    assert_eq!(
        accept_identity(&PacketType::Ping, Some(identity())).err(),
        Some(IdentityError::NotIdentity)
    );
}

#[test]
fn identity_length_is_bounded() {
    let bytes = vec![b'x'; 65537];
    assert_eq!(read_identity(&bytes), IdentityLine::TooLong);
    let mut fits = vec![b'x'; 65535];
    fits.push(b'\n');
    assert_eq!(read_identity(&fits), IdentityLine::Line(65535));
    assert_eq!(read_identity(&vec![b'x'; 10]), IdentityLine::Unfinished);
}

#[test]
fn identities_are_read_byte_by_byte() {
    let mut reader = IdentityReader::new();
    assert_eq!(reader.push(b'{'), Reading::More);
    assert_eq!(reader.push(b'}'), Reading::More);
    assert_eq!(reader.push(b'\n'), Reading::Complete);
    assert_eq!(reader.line(), b"{}");
}

#[test]
fn handshakes_have_slots() {
    // A client that withholds its identity takes one of the slots, and the next
    // is served; only when all slots are taken is one turned away.
    let mut handshakes = Handshakes::new();
    assert!(handshakes.begin());
    assert!(handshakes.begin());
    for _ in 2..32 {
        assert!(handshakes.begin());
    }
    assert!(!handshakes.begin());
    handshakes.end();
    assert!(handshakes.begin());
}

#[test]
fn connections_end_by_their_number() {
    let mut connections = Connections::new();
    connections.register("phone", 42);
    assert_eq!(connections.current("phone"), Some(42));
    assert!(connections.disconnected("phone", 42));
    assert_eq!(connections.current("phone"), None);
    assert!(!connections.disconnected("phone", 42));
}

#[test]
fn stale_disconnects_change_nothing() {
    let mut connections = Connections::new();
    let first = connections.number();
    let second = connections.number();
    assert_ne!(first, second);
    connections.register("phone", first);
    connections.register("phone", second);
    assert!(!connections.disconnected("phone", first));
    assert_eq!(connections.current("phone"), Some(second));
}

#[test]
fn announcements_lead_to_a_connection() {
    let from = Address { host: "10.0.0.2".into(), port: 5000 };
    let peer = Identity { device_id: "phone".into(), tcp_port: Some(1720), ..identity() };
    assert!(is_other_device(&identity(), &peer));
    let to = announced_peer(&identity(), Some(&peer), &from).unwrap();
    assert_eq!((to.host.as_str(), to.port), ("10.0.0.2", 1720));
    assert!(announced_peer(&identity(), Some(&identity()), &from).is_none());
    assert!(announced_peer(&identity(), None, &from).is_none());
}

#[test]
fn connections_are_bound_to_their_certificate() {
    let address = || Address { host: "10.0.0.2".into(), port: 1716 };
    let device = accept_connection("phone".into(), "Pixel".into(), address(), None, vec![1, 2])
        .ok()
        .unwrap();
    assert_eq!(device.connection_certificate, Some(vec![1, 2]));
    assert_eq!(device.pair_state, PairState::NotPaired);
    let stored = || Some(pinned(&[9]));
    assert_eq!(
        accept_connection("phone".into(), "Pixel".into(), address(), stored(), vec![1, 2]).err(),
        Some(DeviceError::CertificateChanged)
    );
    assert!(
        accept_connection("phone".into(), "Pixel".into(), address(), stored(), vec![9]).is_ok()
    );
}

#[test]
fn disabled_capabilities_are_hidden() {
    let base = Identity {
        incoming_capabilities: texts(&["kdeconnect.battery", "kdeconnect.ping"]),
        outgoing_capabilities: texts(&["kdeconnect.ping", "kdeconnect.battery.request"]),
        ..identity()
    };
    let all = filtered_identity_for_device(&base, &TextSet::new());
    assert_eq!(all.incoming_capabilities, base.incoming_capabilities);
    assert_eq!(all.outgoing_capabilities, base.outgoing_capabilities);
    let some = filtered_identity_for_device(&base, &TextSet::of(texts(&["ping"])));
    assert_eq!(some.incoming_capabilities, texts(&["kdeconnect.battery"]));
    assert!(!some.outgoing_capabilities.contains(&"kdeconnect.ping".to_string()));
    assert_eq!(some.device_id, "desktop");
    let both = texts(&[
        "kdeconnect.systemvolume",
        "kdeconnect.clipboard.connect",
        "kdeconnect.runcommand",
        "kdeconnect.systemvolume.request",
        "kdeconnect.sftp",
        "kdeconnect.pair",
    ]);
    let base = Identity {
        incoming_capabilities: both.clone(),
        outgoing_capabilities: both.clone(),
        ..identity()
    };
    let off = TextSet::of(texts(&["systemvolume", "runcommand", "clipboard"]));
    let left = filtered_identity_for_device(&base, &off);
    assert_eq!(left.incoming_capabilities, texts(&["kdeconnect.sftp", "kdeconnect.pair"]));
    assert_eq!(left.outgoing_capabilities, left.incoming_capabilities);
    let left = filtered_identity_for_device(&base, &TextSet::of(texts(&["sftp"])));
    assert_eq!(left.incoming_capabilities.len(), 5);
    assert!(!left.outgoing_capabilities.contains(&"kdeconnect.sftp".to_string()));
}

#[test]
fn payloads_are_received_in_stages() {
    let device = pinned(&[7]);
    let (mut p, first) = PayloadReceiver::new(Some(5));
    assert!(matches!(first, PayloadAction::Connect { .. }));
    assert!(matches!(
        p.receive_payload(&device, PayloadEvent::Connected),
        PayloadAction::Secure { .. }
    ));
    assert!(matches!(
        p.receive_payload(&device, PayloadEvent::Secured(Some(vec![vec![7]]))),
        PayloadAction::Read { .. }
    ));
    p.receive_payload(&device, PayloadEvent::Chunk(2));
    p.receive_payload(&device, PayloadEvent::Chunk(3));
    assert_eq!(p.receive_payload(&device, PayloadEvent::End), PayloadAction::Finish);
    assert_eq!(
        p.receive_payload(&device, PayloadEvent::Finished),
        PayloadAction::Done { bytes: 5 }
    );
    assert_eq!(p.receive_payload(&device, PayloadEvent::End), PayloadAction::Ignore);
}

#[test]
fn payloads_of_strangers_are_refused() {
    let device = pinned(&[7]);
    let (mut p, _) = PayloadReceiver::new(None);
    p.receive_payload(&device, PayloadEvent::Connected);
    assert_eq!(
        p.receive_payload(&device, PayloadEvent::Secured(Some(vec![vec![8]]))),
        PayloadAction::Fail {
            stage: ReceiveStage::VerifyPeer,
            cause: PayloadFailure::Peer(DeviceError::PayloadCertificateMismatch)
        }
    );
}

#[test]
fn payload_sizes_are_checked() {
    assert_eq!(check_size(None, 9), None);
    assert_eq!(check_size(Some(9), 9), None);
    assert_eq!(
        check_size(Some(9), 8),
        Some(PayloadFailure::Truncated { expected: 9, received: 8 })
    );
    assert_eq!(
        check_size(Some(9), 10),
        Some(PayloadFailure::Excess { expected: 9, received: 10 })
    );
    let device = pinned(&[7]);
    let (mut p, _) = PayloadReceiver::new(Some(5));
    p.receive_payload(&device, PayloadEvent::Connected);
    p.receive_payload(&device, PayloadEvent::Secured(Some(vec![vec![7]])));
    p.receive_payload(&device, PayloadEvent::Chunk(2));
    assert_eq!(
        p.receive_payload(&device, PayloadEvent::End),
        PayloadAction::Fail {
            stage: ReceiveStage::SizeValidation,
            cause: PayloadFailure::Truncated { expected: 5, received: 2 }
        }
    );
}

#[test]
fn payloads_time_out_in_their_stage() {
    let device = pinned(&[7]);
    let (mut p, _) = PayloadReceiver::new(None);
    assert_eq!(
        p.receive_payload(&device, PayloadEvent::TimedOut),
        PayloadAction::Fail { stage: ReceiveStage::Connect, cause: PayloadFailure::TimedOut }
    );
    let (mut p, _) = PayloadReceiver::new(None);
    p.receive_payload(&device, PayloadEvent::Connected);
    assert_eq!(
        p.receive_payload(&device, PayloadEvent::Failed("reset".into())),
        PayloadAction::Fail {
            stage: ReceiveStage::TlsHandshake,
            cause: PayloadFailure::Reason("reset".into())
        }
    );
}

#[test]
fn ports_and_lines() {
    assert_eq!(payload_port(0), Some(1739));
    assert_eq!(payload_port(29), Some(1768));
    assert_eq!(payload_port(30), None);
    assert!(retry_bind(0));
    assert!(!retry_bind(10));
    assert_eq!(packet_line("  {\"a\":1}\r\n"), Some("{\"a\":1}".to_string()));
    assert_eq!(packet_line(" \n"), None);
}
