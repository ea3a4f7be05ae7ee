use kdeconnect::device::{Device, DeviceError, DeviceId, PairState};
use kdeconnect::event::ConnectionEvent;
use kdeconnect::json::{
    items_under, list_members, list_text, members_of, members_text, read_text_map, text_map,
    text_map_text, text_under, texts_under,
};
use kdeconnect::mpris::{Mpris, MprisPlayer, MprisRequest};
use kdeconnect::packet::{Body, Field, PacketType, ProtocolPacket};
use kdeconnect::plugins::{
    art_event, browse_event, packet_plugin_id, route_packet, send, send_payload, Admission, Effect,
    Handler, IncomingBody, IncomingPacket, PayloadOffer, PluginRegistry, Sending, Stamp,
};
use kdeconnect::portal::{pick_files, pick_folder, save_file, uri_to_path, FileFilter};
use kdeconnect::run_command::{
    send_command_list, shell_command, CommandStep, LocalCommand, RunCommand, RunCommandRequest,
};
use kdeconnect::share::{
    link_notification, saved_notification, settle, ReceiveStage, Received, ShareError,
    ShareRequest, ShareRequestFile, ShareStep,
};
use kdeconnect::sms::{
    attachments_dir, build_send_packet, guess_mime_type, has_unread, AttachmentError, SmsAttachment,
    SmsAttachmentFile, SmsMessage, SmsMessages, SmsOutgoingAttachment, SmsRequestAttachment,
};
use kdeconnect::table::{TextMap, TextSet};
use kdeconnect::transfer::{IncomingTransfer, TransferState};

fn texts(list: &[&str]) -> Vec<String> {
    list.iter().map(|s| s.to_string()).collect()
}

fn phone() -> Device {
    Device {
        device_id: DeviceId("phone".into()),
        pair_state: PairState::Paired,
        paired_certificate: Some(vec![1]),
        connection_certificate: Some(vec![1]),
        ..Device::default()
    }
}

fn incoming(packet_type: PacketType, body: IncomingBody) -> IncomingPacket {
    IncomingPacket { packet_type, body, payload_size: None, payload_port: None }
}

fn stamp() -> Stamp {
    Stamp { millis: 5, counter: 1 }
}

#[test]
fn portal_uris_become_paths() {
    assert_eq!(uri_to_path("file:///home/me/A%20B.txt"), "/home/me/A B.txt");
    assert_eq!(uri_to_path("file:///caf%C3%A9"), "/caf\u{e9}");
    assert_eq!(uri_to_path("/plain"), "/plain");
    assert_eq!(uri_to_path("file:///bad%FF"), "");
    assert_eq!(
        pick_files(&Some(texts(&["file:///a", "file:///b%2Fc"]))),
        texts(&["/a", "/b/c"])
    );
    assert!(pick_files(&None).is_empty());
    assert_eq!(save_file(&Some(texts(&["file:///a", "file:///b"]))), Some("/a".to_string()));
    assert_eq!(save_file(&Some(vec![])), None);
    assert_eq!(pick_folder(&None), None);
}

#[test]
fn filters_collect_patterns() {
    let f = FileFilter::new("Images".into()).pattern("*.png".into()).pattern("*.jpg".into());
    assert_eq!(f.name, "Images");
    assert_eq!(f.patterns, texts(&["*.png", "*.jpg"]));
    assert_eq!(f.patterns(texts(&["*.gif"])).patterns, texts(&["*.gif"]));
}

#[test]
fn json_maps_read_back() {
    let mut map: TextMap<String> = TextMap::new();
    map.insert("+1".into(), "Ada \"A\"".into());
    map.insert("+2".into(), "Bob".into());
    let text = text_map_text(&map);
    let read = read_text_map(&text).unwrap();
    assert_eq!(read.len(), 2);
    assert_eq!(read.get("+1").map(String::as_str), Some("Ada \"A\""));
    assert_eq!(read.get("+2").map(String::as_str), Some("Bob"));
    assert!(read_text_map("[1]").is_none());
    assert_eq!(text_map("nonsense").len(), 0);
}

#[test]
fn json_members_are_found() {
    let body = "{\"uids\":[\"a\",1,\"b\"],\"a\":\"card\",\"n\":3,\"messages\":[{\"x\":1},[2]]}";
    assert_eq!(texts_under(body, "uids"), Some(texts(&["a", "b"])));
    assert_eq!(texts_under(body, "a"), None);
    assert_eq!(text_under(body, "a"), Some("card".to_string()));
    assert_eq!(text_under(body, "n"), None);
    assert_eq!(items_under(body, "messages"), texts(&["{\"x\":1}", "[2]"]));
    assert!(items_under("{", "messages").is_empty());
}

#[test]
fn json_lists_read_back() {
    let items = vec![("k".to_string(), "n".to_string(), "c".to_string())];
    let text = list_text(&items, "key", "name", "command");
    assert_eq!(
        list_members(&text, "key", "name"),
        Some(vec![(Some("k".to_string()), Some("n".to_string()))])
    );
    let text = members_text(&items, "name", "command");
    assert_eq!(
        members_of(&text, "name", "command"),
        Some(vec![("k".to_string(), Some("n".to_string()), Some("c".to_string()))])
    );
    assert_eq!(list_members("{}", "key", "name"), None);
}

#[test]
fn mime_types_go_by_extension() {
    assert_eq!(guess_mime_type("/a/photo.JPG"), "image/jpeg");
    assert_eq!(guess_mime_type("clip.mkv"), "video/x-matroska");
    assert_eq!(guess_mime_type("voice.amr"), "audio/amr");
    assert_eq!(guess_mime_type("noextension"), "application/octet-stream");
    assert_eq!(guess_mime_type(".png"), "application/octet-stream");
}

#[test]
fn attachments_are_encoded() {
    let a = SmsOutgoingAttachment::from_path("/tmp/note.txt", &b"Hello".to_vec());
    assert_eq!(a.file_name, "note.txt");
    assert_eq!(a.base64_encoded_file, "SGVsbG8=");
    assert_eq!(a.mime_type, "application/octet-stream");
    let thumbnail = |t: Option<&str>| SmsAttachment {
        part_id: 1,
        mime_type: "image/png".into(),
        encoded_thumbnail: t.map(str::to_string),
        unique_identifier: None,
    };
    assert_eq!(thumbnail(Some("SGVsbG8=")).decode_thumbnail(), Some(b"Hello".to_vec()));
    assert_eq!(thumbnail(Some("***")).decode_thumbnail(), None);
    assert_eq!(thumbnail(None).decode_thumbnail(), None);
}

#[test]
fn messages_are_packed() {
    let p = build_send_packet("+1", "hi", &vec![], &vec![]);
    assert_eq!(p.packet_type, PacketType::SmsRequest);
    assert_eq!(
        p.body,
        Body::Object(vec![
            ("sendSms".into(), Field::Flag(true)),
            (
                "addresses".into(),
                Field::Records(vec![vec![("address".into(), "+1".into())]])
            ),
            ("messageBody".into(), Field::Text("hi".into())),
            ("version".into(), Field::Number(2)),
        ])
    );
    assert_eq!(p.payload_size, None);
}

#[test]
fn unreadable_attachments_are_left_out() {
    let paths = texts(&["/gone.png", "/a/b.png"]);
    let p = build_send_packet("+1", "hi", &paths, &vec![None, Some(b"A".to_vec())]);
    let Body::Object(members) = p.body else { panic!("not an object") };
    assert_eq!(members.len(), 5);
    assert_eq!(
        members[4],
        (
            "attachments".to_string(),
            Field::Records(vec![vec![
                ("fileName".into(), "b.png".into()),
                ("base64EncodedFile".into(), "QQ==".into()),
                ("mimeType".into(), "image/png".into()),
            ]])
        )
    );
    let p = build_send_packet("+1", "hi", &texts(&["/gone"]), &vec![None]);
    let Body::Object(members) = p.body else { panic!("not an object") };
    assert_eq!(members.len(), 4);
}

#[test]
fn attachments_stay_in_their_directory() {
    let file = SmsAttachmentFile { filename: "a.png".into() };
    let d = file.receive(&phone(), &Some("/data".into()), "kdeconnect").unwrap();
    assert_eq!(
        d.path(),
        format!("{}/a.png", attachments_dir(&Some("/data".into()), "kdeconnect", "phone"))
    );
    let file = SmsAttachmentFile { filename: "../a.png".into() };
    assert_eq!(
        file.receive(&phone(), &None, "kdeconnect").err(),
        Some(AttachmentError::UnsafeFilename)
    );
    let file = SmsAttachmentFile { filename: "a.png".into() };
    let device = Device { device_id: DeviceId("../x".into()), ..Device::default() };
    assert_eq!(
        file.receive(&device, &None, "kdeconnect").err(),
        Some(AttachmentError::InvalidDevice)
    );
}

#[test]
fn attachments_are_requested_by_part() {
    let p = SmsRequestAttachment { part_id: 7, unique_identifier: "u".into() }.into_packet();
    assert_eq!(p.packet_type, PacketType::SmsRequestAttachment);
    let Body::Object(members) = p.body else { panic!("not an object") };
    assert!(members.contains(&("part_id".to_string(), Field::Number(7))));
    assert!(members.contains(&("unique_identifier".to_string(), Field::Text("u".into()))));
}

fn message(thread_id: i64, date: i64, read: i32) -> SmsMessage {
    SmsMessage {
        id: date,
        addresses: vec![],
        attachments: vec![],
        body: String::new(),
        date,
        message_type: 1,
        read,
        thread_id,
        sub_id: None,
        event: None,
    }
}

#[test]
fn unread_messages_are_noticed() {
    let mut seen: TextMap<i64> = TextMap::new();
    let data = |list: Vec<SmsMessage>| Some(SmsMessages { messages: list, version: None });
    assert!(!has_unread(&None, &seen));
    assert!(has_unread(&data(vec![message(1, 10, 0)]), &seen));
    // Any message counts, not only the newest of its thread.
    assert!(has_unread(&data(vec![message(7, 10, 0), message(7, 20, 1)]), &seen));
    assert!(!has_unread(&data(vec![message(7, 10, 1), message(7, 20, 1)]), &seen));
    assert!(has_unread(&data(vec![message(1, 11, 1), message(1, 11, 0)]), &seen));
    // What was seen here counts more than what the phone says.
    seen.insert("1".into(), 10);
    assert!(!has_unread(&data(vec![message(1, 10, 0)]), &seen));
    assert!(has_unread(&data(vec![message(1, 11, 1)]), &seen));
    assert!(has_unread(&data(vec![message(1, 10, 1), message(2, 5, 0)]), &seen));
}

fn command(id: &str, name: &str, what: &str) -> LocalCommand {
    LocalCommand { id: id.into(), name: name.into(), command: what.into() }
}

#[test]
fn commands_of_a_phone_are_taken_over() {
    let own = vec![command("a", "A", "do a")];
    let offer = RunCommand {
        command_list: "{\"b\":{\"name\":\"B\",\"command\":\"do b\"},\"a\":{\"name\":\"X\",\"command\":\"x\"},\"c\":{\"name\":\"\",\"command\":\"c\"}}"
            .into(),
        can_add_command: false,
    };
    let now = offer.received_packet(&own).unwrap();
    assert_eq!(now.len(), 2);
    assert!(now.iter().any(|c| c.id == "a" && c.name == "A"));
    assert!(now.iter().any(|c| c.id == "b" && c.command == "do b"));
    let nonsense = RunCommand { command_list: "nonsense".into(), can_add_command: false };
    assert!(nonsense.received_packet(&own).is_none());
}

#[test]
fn own_command_list_adds_nothing() {
    let own = vec![command("a", "A", "do a"), command("b", "B", "do b")];
    let p = send_command_list(&own);
    assert_eq!(p.packet_type, PacketType::RunCommand);
    let Body::Object(members) = p.body else { panic!("not an object") };
    let list = members
        .iter()
        .find_map(|(k, v)| match v {
            Field::Text(t) if k == "commandList" => Some(t.clone()),
            _ => None,
        })
        .unwrap();
    let back = RunCommand { command_list: list, can_add_command: true };
    assert!(back.received_packet(&own).is_none());
}

#[test]
fn commands_are_run_by_key() {
    let own = vec![command("a", "A", "do a")];
    let ask = |key: Option<&str>, list: Option<bool>| RunCommandRequest {
        key: key.map(str::to_string),
        request_command_list: list,
    };
    assert_eq!(
        ask(Some("a"), None).received_packet(&own),
        CommandStep::Run { command: "do a".into() }
    );
    assert_eq!(ask(Some("z"), None).received_packet(&own), CommandStep::Unknown);
    assert_eq!(ask(None, Some(true)).received_packet(&own), CommandStep::SendList);
    assert_eq!(ask(None, None).received_packet(&own), CommandStep::Nothing);
    assert_eq!(RunCommandRequest::default().key, None);
    assert_eq!(shell_command(false, "ls"), texts(&["sh", "-c", "ls"]));
    assert_eq!(
        shell_command(true, "ls"),
        texts(&["flatpak-spawn", "--host", "sh", "-c", "ls"])
    );
}

#[test]
fn packets_belong_to_plugins() {
    assert_eq!(packet_plugin_id(&PacketType::Battery), Some("battery"));
    assert_eq!(packet_plugin_id(&PacketType::SmsRequestConversation), Some("sms"));
    assert_eq!(packet_plugin_id(&PacketType::Sftp), None);
    assert_eq!(packet_plugin_id(&PacketType::Unknown("kdeconnect.x".into())), None);
}

#[test]
fn switched_off_plugins_get_nothing() {
    let mut registry = PluginRegistry::new();
    let ping = || incoming(PacketType::Ping, IncomingBody::Readable);
    assert!(matches!(
        registry.dispatch(&phone(), ping(), &stamp())[..],
        [Effect::Handle(Handler::Ping)]
    ));
    registry.set_device_disabled("phone", TextSet::of(texts(&["ping"])));
    assert!(!registry.is_plugin_enabled("phone", "ping"));
    assert!(registry.is_plugin_enabled("tablet", "ping"));
    assert!(registry.dispatch(&phone(), ping(), &stamp()).is_empty());
    let battery = incoming(PacketType::Battery, IncomingBody::Readable);
    assert_eq!(registry.dispatch(&phone(), battery, &stamp()).len(), 1);
    let unreadable = incoming(PacketType::Battery, IncomingBody::Unreadable);
    assert!(registry.dispatch(&phone(), unreadable, &stamp()).is_empty());
}

#[test]
fn shared_files_are_reported_and_received() {
    let registry = PluginRegistry::new();
    let request = || ShareRequest::File(ShareRequestFile { filename: "a.txt".into(), open: None });
    let packet = IncomingPacket {
        packet_type: PacketType::ShareRequest,
        body: IncomingBody::Share(request()),
        payload_size: Some(3),
        payload_port: Some(1739),
    };
    let effects = registry.dispatch(&phone(), packet, &stamp());
    assert_eq!(effects.len(), 2);
    assert!(matches!(&effects[0], Effect::Event(ConnectionEvent::TransferStatus(s))
        if s.filename.as_deref() == Some("a.txt")
            && s.device_id == "phone"
            && s.expected_size == Some(3)
            && s.state == TransferState::Receiving));
    assert!(matches!(&effects[1], Effect::ReceiveShare { payload_port: Some(1739), reporter: Some(_), .. }));
    let packet = incoming(
        PacketType::ShareRequest,
        IncomingBody::Share(ShareRequest::Text { text: "hi".into() }),
    );
    assert!(matches!(
        &registry.dispatch(&phone(), packet, &stamp())[..],
        [Effect::ReceiveShare { reporter: None, .. }]
    ));
}

#[test]
fn contacts_are_asked_for_and_read() {
    let registry = PluginRegistry::new();
    let packet = incoming(
        PacketType::ContactsResponseUidsTimestamps,
        IncomingBody::Json("{\"uids\":[\"u1\",\"u2\"]}".into()),
    );
    let effects = registry.dispatch(&phone(), packet, &stamp());
    assert!(matches!(&effects[..], [Effect::Send(p)]
        if p.packet_type == PacketType::ContactsRequestVcardsByUid
            && p.body == Body::Object(vec![("uids".into(), Field::Texts(texts(&["u1", "u2"])))])));
    let none = incoming(
        PacketType::ContactsResponseUidsTimestamps,
        IncomingBody::Json("{\"uids\":[]}".into()),
    );
    assert!(registry.dispatch(&phone(), none, &stamp()).is_empty());
    let cards = incoming(
        PacketType::ContactsResponseVcards,
        IncomingBody::Json(
            "{\"uids\":[\"u1\"],\"u1\":\"FN:Ada\\nTEL:123\\nPHOTO;ENCODING=B:QUJD\"}".into(),
        ),
    );
    let effects = registry.dispatch(&phone(), cards, &stamp());
    assert_eq!(effects.len(), 2);
    assert!(matches!(&effects[0], Effect::Event(ConnectionEvent::ContactsReceived(m))
        if m.get("123").map(String::as_str) == Some("Ada")));
    assert!(matches!(&effects[1], Effect::Event(ConnectionEvent::ContactPhotosReceived(m))
        if m.get("123").map(String::as_str) == Some("QUJD")));
}

#[test]
fn media_packets_go_both_ways() {
    let registry = PluginRegistry::new();
    let body = || Mpris::Info(MprisPlayer { player: "p".into(), ..MprisPlayer::default() });
    let packet = incoming(PacketType::Mpris, IncomingBody::Mpris(body()));
    let effects = registry.dispatch(&phone(), packet, &stamp());
    assert!(matches!(
        &effects[..],
        [Effect::Event(ConnectionEvent::Mpris(_, _)), Effect::MediaEvent(ConnectionEvent::Mpris(_, _))]
    ));
    let art = IncomingPacket {
        packet_type: PacketType::Mpris,
        body: IncomingBody::Mpris(Mpris::TransferringArt {
            player: "p".into(),
            album_art_url: "u".into(),
            transferring_album_art: true,
        }),
        payload_size: Some(9),
        payload_port: Some(1740),
    };
    let effects = registry.dispatch(&phone(), art, &stamp());
    assert_eq!(effects.len(), 4);
    assert!(matches!(&effects[0], Effect::MediaEvent(ConnectionEvent::TransferStatus(s))
        if s.filename.as_deref() == Some("p album art")));
    assert!(matches!(&effects[1], Effect::ReceiveArt { port: 1740, expected_size: Some(9), .. }));
}

#[test]
fn payloads_are_offered_to_trusted_devices_only() {
    let body = || Some(Body::Share(ShareRequest::File(ShareRequestFile {
        filename: "a".into(),
        open: Some(false),
    })));
    let stranger = Device { pair_state: PairState::NotPaired, ..phone() };
    assert_eq!(
        send_payload(&stranger, &PacketType::ShareRequest, body(), 1, Some(1739)),
        PayloadOffer::Refused(DeviceError::NotPaired)
    );
    let unpinned = Device { paired_certificate: None, ..phone() };
    assert_eq!(
        send_payload(&unpinned, &PacketType::ShareRequest, body(), 1, Some(1739)),
        PayloadOffer::Refused(DeviceError::NoPinnedCertificate)
    );
    assert_eq!(
        send_payload(&phone(), &PacketType::ShareRequest, body(), 1, None),
        PayloadOffer::NoPort
    );
    assert_eq!(
        send_payload(&phone(), &PacketType::Ping, None, 1, Some(1739)),
        PayloadOffer::Unsupported
    );
    let offer = send_payload(&phone(), &PacketType::ShareRequest, body(), 1, Some(1739));
    assert!(matches!(offer, PayloadOffer::Offer(Some(p))
        if p.payload_size == Some(1) && p.payload_port == Some(1739)));
    assert_eq!(
        send_payload(&phone(), &PacketType::Mpris, body(), 1, Some(1739)),
        PayloadOffer::Offer(None)
    );
}

#[test]
fn packets_are_routed_by_connection_and_trust() {
    let paired = phone();
    let stranger = Device { pair_state: PairState::Requested, ..phone() };
    assert_eq!(route_packet(Some(&paired), Some(3), 3, &PacketType::Ping), Admission::Plugins);
    assert_eq!(route_packet(Some(&paired), Some(3), 3, &PacketType::Pair), Admission::Pairing);
    assert_eq!(route_packet(Some(&stranger), Some(3), 3, &PacketType::Pair), Admission::Pairing);
    assert_eq!(route_packet(Some(&stranger), Some(3), 3, &PacketType::Ping), Admission::Dropped);
    assert_eq!(route_packet(Some(&paired), Some(4), 3, &PacketType::Ping), Admission::Dropped);
    assert_eq!(route_packet(Some(&paired), None, 3, &PacketType::Ping), Admission::Dropped);
    assert_eq!(route_packet(None, Some(3), 3, &PacketType::Pair), Admission::Dropped);
}

#[test]
fn plugins_send_pings_and_media_requests() {
    assert_eq!(send(incoming(PacketType::Ping, IncomingBody::Readable)), Sending::Ping);
    let q = MprisRequest { request_player_list: Some(true), ..MprisRequest::default() };
    assert!(matches!(
        send(incoming(PacketType::MprisRequest, IncomingBody::MprisRequest(q))),
        Sending::Packet(ProtocolPacket { packet_type: PacketType::MprisRequest, .. })
    ));
    assert_eq!(send(incoming(PacketType::Battery, IncomingBody::Readable)), Sending::Nothing);
}

#[test]
fn outcomes_become_events() {
    let id = || DeviceId("phone".into());
    assert!(matches!(
        browse_event(id(), Ok(())),
        ConnectionEvent::SftpMountStateChanged(_, true)
    ));
    assert!(matches!(
        browse_event(id(), Err("no".into())),
        ConnectionEvent::SftpBrowseFailed(_, m) if m == "no"
    ));
    assert!(matches!(
        art_event(id(), "p".into(), "/a".into()),
        ConnectionEvent::Mpris(_, Mpris::TransferringArt { transferring_album_art: false, .. })
    ));
}

#[test]
fn files_are_shared_under_their_names() {
    let list = ShareRequest::share_files(&texts(&["/a/b.txt", "/gone"]), &vec![true, false]);
    assert_eq!(list.len(), 1);
    assert_eq!(
        list[0],
        (
            ShareRequest::File(ShareRequestFile { filename: "b.txt".into(), open: Some(false) }),
            "/a/b.txt".to_string()
        )
    );
}

#[test]
fn shares_are_received_by_kind() {
    let file = ShareRequest::File(ShareRequestFile { filename: "a".into(), open: None });
    assert_eq!(
        file.receive_share(Some(7), None),
        Ok(ShareStep::ReceiveFile { port: 7, transfer: None })
    );
    let failure = file.receive_share(None, None).unwrap_err();
    assert_eq!(failure.error, ShareError::MissingTransferInfo { filename: "a".into() });
    assert_eq!(failure.error.message(), "[share] file share 'a' missing payload transfer info");
    assert_eq!(failure.report, None);
    assert_eq!(
        ShareRequest::Text { text: "hi".into() }.receive_share(None, None),
        Ok(ShareStep::Notify { summary: "Text received from phone".into(), body: "hi".into() })
    );
    assert_eq!(
        ShareRequest::Url { url: "http://x".into() }.receive_share(None, None),
        Ok(ShareStep::Open { url: "http://x".into() })
    );
    assert_eq!(link_notification("http://x", true), None);
    assert_eq!(
        link_notification("http://x", false),
        Some(("URL received from phone".to_string(), "http://x".to_string()))
    );
}

#[test]
fn files_without_a_payload_end_their_transfer() {
    let file = ShareRequest::File(ShareRequestFile { filename: "a".into(), open: None });
    let transfer =
        IncomingTransfer::new(&DeviceId("phone".into()), Some("a".into()), Some(3), 5, 1);
    let report = file.receive_share(None, Some(transfer)).unwrap_err().report.unwrap();
    assert_eq!(report.device_id, "phone");
    assert_eq!(
        report.state,
        TransferState::Failed {
            stage: "metadata".into(),
            reason: "[share] file share 'a' missing payload transfer info".into(),
        }
    );
}

#[test]
fn files_go_to_the_downloads_or_nowhere() {
    let file = ShareRequestFile { filename: "a".into(), open: None };
    let target = file.destination(&Some("/home/me/Downloads".into())).unwrap();
    assert_eq!(target.path(), "/home/me/Downloads/a");
    let gone = file.destination(&None).unwrap_err();
    assert_eq!(
        gone.outcome(),
        Received::Failed {
            stage: ReceiveStage::Destination,
            reason: "Downloads directory is unavailable".into(),
        }
    );
    let odd = ShareRequestFile { filename: "../a".into(), open: None };
    assert_eq!(odd.destination(&Some("/d".into())).unwrap_err(), ShareError::RefusedName);
    assert_eq!(
        ShareError::RefusedName.outcome(),
        Received::Failed {
            stage: ReceiveStage::Destination,
            reason: "preparing destination file: invalid received filename".into(),
        }
    );
    assert_eq!(
        AttachmentError::UnsafeFilename.outcome(),
        Received::Failed {
            stage: ReceiveStage::Metadata,
            reason: "unsafe attachment filename: invalid received filename".into(),
        }
    );
}

#[test]
fn transfers_end_with_one_report() {
    let transfer =
        || IncomingTransfer::new(&DeviceId("phone".into()), Some("a".into()), Some(3), 5, 1);
    let done = settle(transfer(), Received::Saved { path: "/d/a".into(), bytes: 3 });
    assert_eq!(done.state, TransferState::Completed);
    assert_eq!(done.saved_path.as_deref(), Some("/d/a"));
    assert_eq!(done.received_bytes, 3);
    let failed = settle(
        transfer(),
        Received::Failed { stage: ReceiveStage::TlsHandshake, reason: "bad".into() },
    );
    assert_eq!(
        failed.state,
        TransferState::Failed { stage: "tls-handshake".into(), reason: "bad".into() }
    );
    assert_eq!(failed.transfer_id, done.transfer_id);
    let request = ShareRequestFile { filename: "a".into(), open: None };
    assert_eq!(
        saved_notification(&request, "/d/a"),
        ("File received: a".to_string(), "/d/a".to_string())
    );
}

#[test]
fn packet_types_go_by_their_names() {
    assert_eq!(PacketType::SystemVolumeRequest.name(), "kdeconnect.systemvolume.request");
    assert_eq!(PacketType::from_name("kdeconnect.sms.messages"), PacketType::SmsMessages);
    let odd = PacketType::from_name("ping");
    assert_eq!(odd, PacketType::Unknown("ping".into()));
    assert_eq!(odd.name(), "ping");
}
