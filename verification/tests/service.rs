use kdeconnect::client::{KdeConnectClient, ServiceEvent};
use kdeconnect::daemon::{
    automatic_clipboard, cache_file, clipboard_connect, clipboard_reply, wait_for_clipboard,
    Acknowledgement, CacheFile, ClipboardConfig, ClipboardContent, ClipboardRefusal,
    ContactsInterface, DaemonInterface, ShareRefusal, SmsInterface,
};
use kdeconnect::device::{Device, DeviceId, DeviceState, PairState};
use kdeconnect::event::{AppEvent, ConnectionEvent, RemoteCommand};
use kdeconnect::packet::{Body, Field, PacketType};
use kdeconnect::service::{
    should_accept_connect, KdeConnectService, ServiceAction, Signal, Surroundings,
};
use kdeconnect::sms::SmsMessages;
use kdeconnect::table::TextMap;
use kdeconnect::transfer::{TransferDirection, TransferState, TransferStatus};

fn texts(list: &[&str]) -> Vec<String> {
    list.iter().map(|s| s.to_string()).collect()
}

fn id(s: &str) -> DeviceId {
    DeviceId(s.into())
}

fn device(name: &str, pair_state: PairState) -> Device {
    Device { device_id: id(name), name: name.into(), pair_state, ..Device::default() }
}

fn around() -> Surroundings {
    Surroundings {
        contacts_file: None,
        sms_file: None,
        messages_json: String::new(),
        clipboard_timestamp: 0,
        clipboard_available: true,
    }
}

fn service() -> KdeConnectService {
    let mut s = KdeConnectService::new(&vec![]);
    s.handle_event(
        ConnectionEvent::Connected(id("phone"), device("phone", PairState::Paired)),
        &around(),
    );
    s
}

#[test]
fn paired_devices_are_shown_before_they_connect() {
    let s = KdeConnectService::new(&vec![
        ("/c/phone.ron".into(), Some(device("phone", PairState::Paired))),
        ("/c/tablet.ron".into(), Some(device("tablet", PairState::NotPaired))),
        ("/c/notes.txt".into(), Some(device("other", PairState::Paired))),
        ("/c/broken.ron".into(), None),
    ]);
    let list = s.list_devices();
    assert_eq!(list.len(), 1);
    assert_eq!(list[0].id, "phone");
    assert!(list[0].is_paired && !list[0].is_reachable);
    assert_eq!(s.device_name("phone"), Some("phone".to_string()));
    assert_eq!(s.device_name("tablet"), None);
    assert_eq!(s.device_names(), vec![("phone".to_string(), "phone".to_string())]);
}

#[test]
fn connected_devices_are_told_of() {
    let mut s = KdeConnectService::new(&vec![]);
    let surroundings = Surroundings {
        contacts_file: Some("{\"1\":\"Ada\"}".into()),
        sms_file: Some("[]".into()),
        ..around()
    };
    let actions = s.handle_event(
        ConnectionEvent::Connected(id("phone"), device("phone", PairState::Paired)),
        &surroundings,
    );
    assert!(matches!(&actions[0], ServiceAction::Emit(Signal::DeviceConnected(i, d))
        if i == "phone" && d.is_reachable && d.is_paired));
    assert!(matches!(&actions[1], ServiceAction::Broadcast(e) if e.event_type == "device_connected"));
    assert!(matches!(&actions[2], ServiceAction::OfferClipboard(i) if i == "phone"));
    assert!(matches!(&actions[3], ServiceAction::Emit(Signal::ContactsReceived(j))
        if j == "{\"1\":\"Ada\"}"));
    assert_eq!(s.get_cached_sms("phone", None), "[]");
    let actions = s.handle_event(
        ConnectionEvent::Connected(id("tablet"), device("tablet", PairState::NotPaired)),
        &surroundings,
    );
    assert_eq!(actions.len(), 2);
    assert_eq!(s.get_cached_sms("tablet", None), "");
}

#[test]
fn paired_devices_are_asked_for_messages_and_contacts() {
    let mut s = KdeConnectService::new(&vec![]);
    let actions = s.handle_event(
        ConnectionEvent::DevicePaired(id("phone"), device("phone", PairState::Paired)),
        &around(),
    );
    let later: Vec<(u64, &PacketType)> = actions
        .iter()
        .filter_map(|a| match a {
            ServiceAction::SendLater { delay_ms, packet, .. } => Some((*delay_ms, &packet.packet_type)),
            _ => None,
        })
        .collect();
    assert_eq!(
        later,
        vec![
            (2000, &PacketType::SmsRequestConversations),
            (2500, &PacketType::ContactsRequestAllUidsTimestamps)
        ]
    );
}

#[test]
fn devices_that_leave_stay_listed() {
    let mut s = service();
    let actions = s.handle_event(ConnectionEvent::Disconnected(id("phone")), &around());
    assert!(matches!(&actions[0], ServiceAction::Unmount { device_id, .. } if device_id == "phone"));
    assert!(matches!(&actions[1], ServiceAction::Emit(Signal::DeviceDisconnected(i)) if i == "phone"));
    let list = s.list_devices();
    assert!(!list[0].is_reachable && list[0].is_paired);
    assert_eq!(s.current_device_id, None);
}

#[test]
fn pairing_changes_are_told() {
    let mut s = service();
    let actions = s.handle_event(
        ConnectionEvent::PairStateChanged(id("phone"), PairState::NotPaired),
        &around(),
    );
    assert!(matches!(&actions[0], ServiceAction::Emit(Signal::DeviceConnected(_, d)) if !d.is_paired));
    assert!(!s.list_devices()[0].is_paired);
    let actions = s.handle_event(
        ConnectionEvent::PairStateChanged(id("ghost"), PairState::Paired),
        &around(),
    );
    assert!(actions.is_empty());
}

#[test]
fn two_phones_keep_their_messages() {
    let mut s = service();
    let messages = || SmsMessages { messages: vec![], version: None };
    s.handle_event(
        ConnectionEvent::SmsMessages(id("phone"), messages()),
        &Surroundings { messages_json: "one".into(), ..around() },
    );
    let actions = s.handle_event(
        ConnectionEvent::SmsMessages(id("tablet"), messages()),
        &Surroundings { messages_json: "two".into(), ..around() },
    );
    assert_eq!(s.get_cached_sms("phone", Some("disk".into())), "one");
    assert_eq!(s.get_cached_sms("tablet", None), "two");
    assert_eq!(s.get_cached_sms("watch", Some("disk".into())), "disk");
    assert!(matches!(&actions[0], ServiceAction::SaveSms { device_id, json }
        if device_id == "tablet" && json == "two"));
    assert!(matches!(&actions[1], ServiceAction::Emit(Signal::SmsMessagesReceived(d, j))
        if d == "tablet" && j == "two"));
}

#[test]
fn contacts_are_stored_and_told() {
    let mut s = service();
    let mut contacts: TextMap<String> = TextMap::new();
    contacts.insert("1".into(), "Ada".into());
    let actions = s.handle_event(ConnectionEvent::ContactsReceived(contacts), &around());
    assert!(matches!(&actions[0], ServiceAction::SaveContacts { device_id, json }
        if device_id == "phone" && json == "{\"1\":\"Ada\"}"));
    let ServiceAction::Emit(signal) = actions.into_iter().nth(1).unwrap() else {
        panic!("no signal")
    };
    let Some(ServiceEvent::ContactsReceived(map)) = KdeConnectClient::listen_for_events(signal)
    else {
        panic!("no contacts")
    };
    assert_eq!(map.get("1").map(String::as_str), Some("Ada"));
}

#[test]
fn readings_name_the_current_device() {
    let mut s = service();
    let battery = || ConnectionEvent::StateUpdated(DeviceState::Battery { level: 80, charging: true });
    let actions = s.handle_event(battery(), &around());
    assert!(matches!(&actions[0], ServiceAction::Emit(Signal::BatteryReceived(i, 80, true))
        if i == "phone"));
    s.handle_event(ConnectionEvent::Disconnected(id("phone")), &around());
    assert!(s.handle_event(battery(), &around()).is_empty());
}

#[test]
fn newer_clipboards_are_taken_over() {
    assert!(should_accept_connect(Some(5), 5));
    assert!(should_accept_connect(Some(6), 5));
    assert!(!should_accept_connect(Some(4), 5));
    assert!(!should_accept_connect(Some(0), 0));
    assert!(!should_accept_connect(None, 0));
    let mut s = service();
    let event = |t| ConnectionEvent::ClipboardConnectReceived { content: "x".into(), timestamp: Some(t) };
    let here = Surroundings { clipboard_timestamp: 10, ..around() };
    assert!(s.handle_event(event(9), &here).is_empty());
    let actions = s.handle_event(event(11), &here);
    assert!(matches!(&actions[0], ServiceAction::SetClipboard(t) if t == "x"));
    let unreachable = Surroundings { clipboard_available: false, ..around() };
    let actions = s.handle_event(ConnectionEvent::ClipboardReceived("y".into()), &unreachable);
    assert!(matches!(&actions[0], ServiceAction::Emit(Signal::ClipboardReceived(t)) if t == "y"));
}

#[test]
fn command_lists_are_told_as_json() {
    let mut s = service();
    let actions = s.handle_event(
        ConnectionEvent::RunCommandListReceived(
            id("phone"),
            vec![RemoteCommand { key: "k".into(), name: "N".into(), command: "c".into() }],
        ),
        &around(),
    );
    let ServiceAction::Emit(Signal::RunCommandListReceived(_, json)) = &actions[0] else {
        panic!("no list")
    };
    assert_eq!(
        kdeconnect::json::list_members(json, "key", "name"),
        Some(vec![(Some("k".to_string()), Some("N".to_string()))])
    );
}

fn status(transfer_id: &str) -> TransferStatus {
    TransferStatus {
        transfer_id: transfer_id.into(),
        device_id: "phone".into(),
        direction: TransferDirection::Incoming,
        filename: Some("a".into()),
        expected_size: None,
        received_bytes: 0,
        state: TransferState::Receiving,
        saved_path: None,
    }
}

#[test]
fn transfers_are_kept_and_forwarded() {
    let mut s = service();
    let actions = s.handle_event(ConnectionEvent::TransferStatus(status("t1")), &around());
    assert!(matches!(&actions[0], ServiceAction::Emit(Signal::TransferStatus(t)) if t.transfer_id == "t1"));
    assert!(matches!(&actions[1], ServiceAction::Broadcast(e)
        if e.event_type == "transfer_status" && e.transfer.is_some()));
    s.handle_event(ConnectionEvent::TransferStatus(status("t1")), &around());
    assert_eq!(s.transfers.of_device("phone").len(), 1);
    assert!(s.transfers.of_device("tablet").is_empty());
}

#[test]
fn signals_mean_events() {
    assert!(matches!(
        KdeConnectClient::listen_for_events(Signal::BatteryReceived("p".into(), 5, true)),
        Some(ServiceEvent::BatteryReceived(_, 5, true))
    ));
    assert!(KdeConnectClient::listen_for_events(Signal::UpdateTransferProgress(7)).is_none());
    assert_eq!(
        KdeConnectClient::transfer_progress_stream(&Signal::UpdateTransferProgress(7)),
        Some(7)
    );
    assert_eq!(
        KdeConnectClient::transfer_progress_stream(&Signal::DeviceDisconnected("p".into())),
        None
    );
}

#[test]
fn clipboard_sends_are_refused_for_a_reason() {
    let mut s = service();
    assert!(matches!(
        s.send_clipboard_packet("phone", "x", false),
        Ok(AppEvent::SendPacketWithReply(d, p)) if d.0 == "phone"
            && p.packet_type == PacketType::Clipboard
            && p.body == Body::Object(vec![("content".into(), Field::Text("x".into()))])
    ));
    assert_eq!(s.send_clipboard_packet("ghost", "x", false).err(), Some(ClipboardRefusal::Unknown));
    assert_eq!(
        s.send_clipboard_packet("phone", "x", true).err(),
        Some(ClipboardRefusal::PluginDisabled)
    );
    s.handle_event(ConnectionEvent::Disconnected(id("phone")), &around());
    assert_eq!(
        s.send_clipboard_packet("phone", "x", false).err(),
        Some(ClipboardRefusal::NotReachable)
    );
    s.handle_event(ConnectionEvent::PairStateChanged(id("phone"), PairState::NotPaired), &around());
    assert_eq!(
        s.send_clipboard_packet("phone", "x", false).err(),
        Some(ClipboardRefusal::NotPaired)
    );
    assert_eq!(ClipboardRefusal::Unknown.message("ghost"), "Unknown device: ghost");
}

#[test]
fn the_clipboard_is_shared_on_request() {
    let s = service();
    let content = ClipboardContent { text: "x".into(), timestamp: 1, sensitive: false };
    assert!(s.share_clipboard("phone", true, Some(&content), false).is_ok());
    assert_eq!(
        s.share_clipboard("phone", false, Some(&content), false).err(),
        Some(ShareRefusal::Unavailable)
    );
    assert_eq!(s.share_clipboard("phone", true, None, false).err(), Some(ShareRefusal::NoText));
    assert_eq!(
        s.share_clipboard("ghost", true, Some(&content), false).err(),
        Some(ShareRefusal::Refused(ClipboardRefusal::Unknown))
    );
    assert_eq!(s.clipboard_candidates(), texts(&["phone"]));
    assert_eq!(clipboard_reply(Acknowledgement::Answered(Ok(()))), Ok(()));
    assert_eq!(
        clipboard_reply(Acknowledgement::TimedOut),
        Err("Clipboard send acknowledgement timed out".to_string())
    );
    assert_eq!(
        clipboard_reply(Acknowledgement::Dropped),
        Err("Clipboard send acknowledgement was dropped".to_string())
    );
}

#[test]
fn passwords_are_kept() {
    let config = |send_password| ClipboardConfig {
        plugin_disabled: false,
        auto_share: true,
        send_password,
    };
    let secret = ClipboardContent { text: "pw".into(), timestamp: 3, sensitive: true };
    assert!(automatic_clipboard("phone", &secret, &config(false)).is_none());
    assert!(automatic_clipboard("phone", &secret, &config(true)).is_some());
    assert!(clipboard_connect("phone", Some(&secret), &config(false)).is_none());
    let plain = ClipboardContent { text: "x".into(), timestamp: 3, sensitive: false };
    assert!(matches!(
        clipboard_connect("phone", Some(&plain), &config(false)),
        Some(AppEvent::SendPacket(_, p)) if p.body == Body::Object(vec![
            ("content".into(), Field::Text("x".into())),
            ("timestamp".into(), Field::Unsigned(3)),
        ])
    ));
    assert!(clipboard_connect("phone", None, &config(true)).is_none());
    let off = ClipboardConfig { plugin_disabled: true, auto_share: true, send_password: true };
    assert!(automatic_clipboard("phone", &plain, &off).is_none());
    assert!(wait_for_clipboard(0, false));
    assert!(!wait_for_clipboard(0, true));
    assert!(!wait_for_clipboard(20, false));
}

#[test]
fn requests_become_packets() {
    assert!(matches!(DaemonInterface::pair_device("p".into()), AppEvent::Pair(d) if d.0 == "p"));
    assert!(matches!(DaemonInterface::unpair_device("p".into()), AppEvent::Unpair(_)));
    assert!(matches!(
        DaemonInterface::ring_device("p".into()),
        AppEvent::SendPacket(_, p) if p.packet_type == PacketType::FindMyPhoneRequest
    ));
    assert!(DaemonInterface::browse_device("p".into(), true).is_none());
    assert!(matches!(
        DaemonInterface::browse_device("p".into(), false),
        Some(AppEvent::SendPacket(_, p)) if p.packet_type == PacketType::SftpRequest
    ));
    assert!(DaemonInterface::unmount_device("p".into(), false).is_none());
    assert_eq!(
        DaemonInterface::unmount_device("p".into(), true),
        Some(Signal::MountStateChanged("p".into(), false))
    );
    assert!(matches!(
        SmsInterface::request_conversation("p".into(), 7),
        AppEvent::SendPacket(_, p) if p.packet_type == PacketType::SmsRequestConversation
    ));
    assert!(matches!(
        SmsInterface::send_sms("p".into(), "+1", "hi", &vec![], &vec![]),
        AppEvent::SendPacket(_, p) if p.packet_type == PacketType::SmsRequest
    ));
    assert!(matches!(
        ContactsInterface::request_contacts("p".into()),
        AppEvent::SendPacket(_, p)
            if p.packet_type == PacketType::ContactsRequestAllUidsTimestamps
    ));
}

#[test]
fn caches_are_kept_by_device() {
    assert_eq!(
        cache_file(&Some("/data".into()), "kdeconnect", "phone", CacheFile::Sms),
        "/data/kdeconnect/phone/sms_cache.json"
    );
    assert_eq!(ContactsInterface::get_cached_contacts(None), "{}");
    assert_eq!(ContactsInterface::get_cached_contacts(Some("nonsense".into())), "{}");
    assert_eq!(
        ContactsInterface::get_cached_contacts(Some(" {\"1\" : \"Ada\"} ".into())),
        "{\"1\":\"Ada\"}"
    );
}
