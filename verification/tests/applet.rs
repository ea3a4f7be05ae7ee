use kdeconnect::applet::{
    finished, read_commands, rotates_log, subscription, AppletTask, BackendCall, KdeConnectApplet,
    Message,
};
use kdeconnect::backend::{
    event_stream, fetch_devices, initialize, listed, merge_device, messages_to_check,
    poll_now_playing, read_now_playing, via_varlink, Access, AppletDevice, BusReading, DeviceWait,
    MprisControlAction, NowPlaying, StreamAction, StreamState, WaitEvent, WaitStep,
};
use kdeconnect::client::ServiceEvent;
use kdeconnect::popup::{create_popup_view, on_press, MenuItem, TransferLine};
use kdeconnect::service::DbusDevice;
use kdeconnect::settings::{self, SettingsApp, SettingsTask, StoredCommand, Tab};
use kdeconnect::table::TextMap;
use kdeconnect::theme::{accent_path, hex_color, is_dark, mode_path, recolor};
use kdeconnect::transfer::{TransferDirection, TransferState, TransferStatus};

fn texts(list: &[&str]) -> Vec<String> {
    list.iter().map(|s| s.to_string()).collect()
}

fn listed_device(id: &str, is_paired: bool, is_reachable: bool) -> DbusDevice {
    DbusDevice {
        id: id.into(),
        name: id.to_uppercase(),
        device_type: "tablet".into(),
        is_paired,
        is_reachable,
    }
}

fn device(id: &str, is_paired: bool, is_reachable: bool) -> AppletDevice {
    let mut cache = TextMap::new();
    merge_device(&listed_device(id, is_paired, is_reachable), &vec![], &mut cache)
}

fn applet() -> KdeConnectApplet {
    let mut a = KdeConnectApplet::init();
    a.update(
        Message::DevicesUpdated(vec![device("b", true, true), device("a", true, false), device("c", false, true)]),
        0,
    );
    a
}

#[test]
fn listing_keeps_reports() {
    let mut cache = TextMap::new();
    let mut d = merge_device(&listed_device("p", true, true), &vec![], &mut cache);
    assert!(d.has_ping && d.has_sms && d.has_share && d.has_sftp && !d.has_battery);
    assert_eq!(d.device_type, "tablet");
    d.battery_level = Some(50);
    d.run_commands = vec![("k".into(), "n".into())];
    cache.insert("p".into(), d);
    let d = merge_device(&listed_device("p", true, false), &texts(&["p"]), &mut cache);
    assert_eq!(d.battery_level, Some(50));
    assert_eq!(d.run_commands.len(), 1);
    assert!(!d.is_reachable);
    assert!(d.is_mounted);
}

#[test]
fn the_socket_is_asked_first() {
    let mut cache = TextMap::new();
    let list = || Some(vec![listed_device("p", true, true)]);
    let d = fetch_devices(list(), None, &vec![], &mut cache);
    assert_eq!(d[0].device_type, "tablet");
    let d = fetch_devices(None, list(), &vec![], &mut cache);
    assert_eq!(d[0].device_type, "phone");
    assert!(fetch_devices(None, None, &vec![], &mut cache).is_empty());
    assert_eq!(cache.len(), 1);
    assert_eq!(via_varlink(Some(Err("e".into())), Some(Ok(()))), Err("e".to_string()));
    assert_eq!(via_varlink(None, Some(Ok(()))), Ok(()));
    assert_eq!(via_varlink(None, None), Err("D-Bus client not initialized".to_string()));
    assert_eq!(listed(None, Some(texts(&["a"]))), texts(&["a"]));
    assert!(listed(None, None).is_empty());
    assert_eq!(initialize(true, Err("no".into())), Ok(Access { socket: true, bus: false }));
    assert_eq!(initialize(false, Ok(())), Ok(Access { socket: false, bus: true }));
    assert_eq!(initialize(false, Err("no".into())), Err("no".to_string()));
}

#[test]
fn waiting_for_devices_backs_off_and_ends() {
    let (mut wait, step) = DeviceWait::new();
    assert_eq!(step, WaitStep::Pause(1));
    let mut pauses = vec![];
    loop {
        match wait.next(WaitEvent::Looked(false)) {
            WaitStep::Pause(n) => pauses.push(n),
            step => {
                assert_eq!(step, WaitStep::Stop);
                break;
            }
        }
    }
    assert_eq!(&pauses[..5], [2, 4, 8, 10, 10]);
    assert!(pauses.len() < 20);
    let (mut wait, _) = DeviceWait::new();
    assert_eq!(wait.next(WaitEvent::Looked(true)), WaitStep::Refresh);
    let (mut wait, _) = DeviceWait::new();
    assert_eq!(wait.next(WaitEvent::OwnerChanged { gone: false }), WaitStep::Pause(1));
    assert_eq!(wait.next(WaitEvent::OwnerChanged { gone: true }), WaitStep::Stop);
    assert_eq!(wait.next(WaitEvent::StreamEnded), WaitStep::Stop);
    assert_eq!(event_stream(StreamState::NoClient), StreamAction::Connect(100));
    assert_eq!(event_stream(StreamState::Arrived(false)), StreamAction::Stop);
    assert_eq!(event_stream(StreamState::Checked(false)), StreamAction::Connect(0));
}

fn reading() -> BusReading {
    BusReading {
        identity: None,
        playback_status: Some("Playing".into()),
        can_play: None,
        can_pause: Some(false),
        can_go_next: Some(true),
        can_go_previous: None,
        title: Some("Song".into()),
        artists: Some(texts(&["A", "B"])),
        art_url: Some("file:///a.png".into()),
    }
}

#[test]
fn players_are_read_from_the_bus() {
    let p = read_now_playing("org.mpris.x", reading());
    assert_eq!(p.identity, "org.mpris.x");
    assert!(p.is_playing && p.can_play && !p.can_pause && p.can_go_previous);
    assert_eq!(p.artist.as_deref(), Some("B"));
    assert_eq!(p.art_path.as_deref(), Some("/a.png"));
    let paused = BusReading { playback_status: Some("Paused".into()), artists: Some(vec![]), ..reading() };
    let p = read_now_playing("x", paused);
    assert!(!p.is_playing);
    assert_eq!(p.artist, None);
    assert_eq!(
        poll_now_playing(&texts(&[
            "org.mpris.MediaPlayer2.vlc",
            "org.mpris.MediaPlayer2.KDEConnect_p_VLC"
        ])),
        texts(&["org.mpris.MediaPlayer2.KDEConnect_p_VLC"])
    );
    assert_eq!(MprisControlAction::PlayPause.method_name(), "PlayPause");
    assert_eq!(messages_to_check(Some(String::new()), Some("x".into())), None);
    assert_eq!(messages_to_check(None, Some("x".into())), Some("x".to_string()));
}

#[test]
fn the_popup_toggles() {
    let mut a = KdeConnectApplet::init();
    assert!(!a.polls());
    assert_eq!(
        a.update(Message::TogglePopup, 5),
        vec![AppletTask::OpenPopup(5), AppletTask::FetchDevices]
    );
    assert!(a.polls());
    assert!(a.view_window(5));
    assert!(!a.view_window(6));
    a.update(Message::PopupClosed(6), 0);
    assert_eq!(a.popup, Some(5));
    assert_eq!(a.update(Message::TogglePopup, 7), vec![AppletTask::DestroyPopup(5)]);
    assert_eq!(a.popup, None);
    a.update(Message::TogglePopup, 8);
    a.update(KdeConnectApplet::on_close_requested(8), 0);
    assert_eq!(a.popup, None);
}

#[test]
fn unread_messages_are_looked_for_while_open() {
    let mut a = applet();
    assert!(a.update(Message::DevicesUpdated(vec![device("a", true, true)]), 0).is_empty());
    a.update(Message::TogglePopup, 5);
    assert_eq!(
        a.update(Message::DevicesUpdated(vec![device("a", true, true)]), 0),
        vec![AppletTask::CheckUnread]
    );
    assert_eq!(a.device_ids(), texts(&["a"]));
    assert!(a.update(Message::DevicesUpdated(vec![]), 0).is_empty());
}

#[test]
fn menus_open_and_close() {
    let mut a = applet();
    assert_eq!(
        a.update(Message::ToggleDeviceMenu("b".into()), 0),
        vec![AppletTask::Call(BackendCall::RequestRunCommands("b".into()))]
    );
    assert_eq!(a.expanded_device.as_deref(), Some("b"));
    assert!(a.update(Message::ToggleDeviceMenu("b".into()), 0).is_empty());
    assert_eq!(a.expanded_device, None);
}

#[test]
fn reports_patch_devices_in_place() {
    let mut a = applet();
    let tasks = a.update(Message::BatteryUpdated("b".into(), 77, true), 0);
    assert!(matches!(&tasks[..], [AppletTask::Remember(i, d)]
        if i == "b" && d.battery_level == Some(77) && d.is_charging == Some(true)));
    assert_eq!(a.devices.get("b").unwrap().battery_level, Some(77));
    assert_eq!(a.devices.get("a").unwrap().battery_level, None);
    assert!(a.update(Message::BatteryUpdated("ghost".into(), 1, true), 0).is_empty());
    a.update(Message::ConnectivityUpdated("b".into(), 3), 0);
    assert_eq!(a.devices.get("b").unwrap().signal_strength, Some(3));
    let json = "[{\"key\":\"k\",\"name\":\"N\"},{\"key\":\"x\"}]";
    a.update(Message::RunCommandsReceived("b".into(), json.into()), 0);
    assert_eq!(a.devices.get("b").unwrap().run_commands, vec![("k".to_string(), "N".to_string())]);
    assert!(read_commands("{").is_empty());
    a.update(Message::ToggleDeviceMenu("b".into()), 0);
    a.update(Message::UpdateTransferProgress(40), 0);
    assert_eq!(a.devices.get("b").unwrap().share_progress, Some(40));
    a.update(Message::UpdateTransferProgress(100), 0);
    assert_eq!(a.devices.get("b").unwrap().share_progress, None);
}

#[test]
fn pairing_requests_wait_for_an_answer() {
    let mut a = applet();
    let tasks = a.update(Message::PairingRequestReceived("p".into(), "Pixel".into()), 0);
    assert_eq!(
        tasks,
        vec![AppletTask::NotifyPairing(
            "'Pixel' wants to pair with this device. Click the KDE Connect applet to accept or decline."
                .into()
        )]
    );
    assert_eq!(create_popup_view(&a).pairing_requests, vec![("p".to_string(), "Pixel".to_string())]);
    assert_eq!(
        a.update(Message::AcceptPairing("p".into()), 0),
        vec![AppletTask::Call(BackendCall::AcceptPairing("p".into()))]
    );
    assert!(create_popup_view(&a).pairing_requests.is_empty());
}

#[test]
fn failures_to_browse_are_shown() {
    let mut a = applet();
    let message = finished(BackendCall::Browse("b".into()), Err("no sshfs".into()));
    a.update(message, 0);
    assert_eq!(create_popup_view(&a).error_banner.as_deref(), Some("no sshfs"));
    a.update(Message::DismissError, 0);
    assert_eq!(a.error_banner, None);
    assert!(matches!(
        finished(BackendCall::Ping("b".into()), Err("x".into())),
        Message::RefreshDevices
    ));
    assert!(matches!(
        finished(BackendCall::ShareClipboard("b".into()), Err("x".into())),
        Message::ClipboardSendFinished { result: Err(_), .. }
    ));
}

#[test]
fn windows_are_launched() {
    let mut a = applet();
    assert_eq!(
        a.update(Message::SendSMS("b".into()), 0),
        vec![AppletTask::LaunchSms { device_id: "b".into(), device_name: "B".into() }]
    );
    assert_eq!(
        a.update(Message::SendSMS("ghost".into()), 0),
        vec![AppletTask::LaunchSms { device_id: "ghost".into(), device_name: "Unknown Device".into() }]
    );
    assert_eq!(a.update(Message::OpenSettings, 0), vec![AppletTask::LaunchSettings]);
    assert!(rotates_log(Some(1024 * 1024 + 1)));
    assert!(!rotates_log(Some(1024 * 1024)));
    assert!(!rotates_log(None));
}

#[test]
fn events_reach_the_applet() {
    assert!(matches!(
        subscription(ServiceEvent::DeviceDisconnected("p".into())),
        Some(Message::RefreshDevices)
    ));
    assert!(matches!(
        subscription(ServiceEvent::BrowseFailed("p".into(), "m".into())),
        Some(Message::BrowseDeviceFailed(m)) if m == "m"
    ));
    assert!(subscription(ServiceEvent::ClipboardReceived("x".into())).is_none());
}

fn status(id: &str, device: &str, state: TransferState) -> TransferStatus {
    TransferStatus {
        transfer_id: id.into(),
        device_id: device.into(),
        direction: TransferDirection::Incoming,
        filename: Some("f".into()),
        expected_size: Some(10),
        received_bytes: 4,
        state,
        saved_path: Some("/d/f".into()),
    }
}

#[test]
fn paired_devices_are_shown_by_name() {
    let mut a = applet();
    for i in 0..25 {
        a.update(
            Message::TransferStatusReceived(status(&i.to_string(), "b", TransferState::Receiving)),
            0,
        );
    }
    a.update(Message::TransferStatusReceived(status("x", "a", TransferState::Completed)), 0);
    let view = create_popup_view(&a);
    let names: Vec<_> = view.devices.iter().map(|d| d.name.as_str()).collect();
    assert_eq!(names, ["A", "B"]);
    assert!(!view.none_paired);
    assert!(!view.devices[0].online);
    assert_eq!(
        view.devices[0].transfers,
        vec![TransferLine::Completed(Some("f".into()), Some("/d/f".into()))]
    );
    assert_eq!(view.devices[1].transfers.len(), 19);
    assert!(create_popup_view(&KdeConnectApplet::init()).none_paired);
}

#[test]
fn menus_show_what_a_device_can_do() {
    let mut a = applet();
    a.update(Message::ToggleDeviceMenu("b".into()), 0);
    a.update(
        Message::RunCommandsReceived("b".into(), "[{\"key\":\"k\",\"name\":\"N\"}]".into()),
        0,
    );
    a.update(Message::UpdateTransferProgress(30), 0);
    let mut unread = TextMap::new();
    unread.insert("b".to_string(), true);
    a.update(Message::UnreadSmsUpdated(unread), 0);
    let view = create_popup_view(&a);
    assert_eq!(
        view.devices[1].menu,
        vec![
            MenuItem::Ping,
            MenuItem::FindPhone,
            MenuItem::ShareClipboard,
            MenuItem::Sms(true),
            MenuItem::FilesHeader,
            MenuItem::SendFile,
            MenuItem::Progress(30),
            MenuItem::Browse,
            MenuItem::CommandsHeader,
            MenuItem::Command("k".into(), "N".into()),
        ]
    );
    assert!(view.devices[0].menu.is_empty());
    a.update(Message::ToggleDeviceMenu("a".into()), 0);
    let view = create_popup_view(&a);
    assert!(view.devices[0].menu.is_empty());
    assert!(view.devices[0].unreachable);
    assert!(matches!(
        on_press(MenuItem::Command("k".into(), "N".into()), "b".into()),
        Some(Message::ExecuteRunCommand(d, k)) if d == "b" && k == "k"
    ));
    assert!(on_press(MenuItem::FilesHeader, "b".into()).is_none());
}

#[test]
fn players_without_controls_are_not_shown() {
    let player = |identity: &str, can: bool, title: Option<&str>| NowPlaying {
        identity: identity.into(),
        title: title.map(str::to_string),
        artist: Some(String::new()),
        is_playing: true,
        can_play: can,
        can_pause: false,
        can_go_next: can,
        can_go_previous: false,
        art_path: None,
    };
    let mut snapshot = TextMap::new();
    snapshot.insert("b2".to_string(), player("Zed", true, Some("Song")));
    snapshot.insert("b1".to_string(), player("Alpha", true, None));
    snapshot.insert("b0".to_string(), player("Dead", false, None));
    let mut a = applet();
    a.update(Message::MprisSnapshot(snapshot), 0);
    let view = create_popup_view(&a);
    assert_eq!(view.players.len(), 2);
    assert_eq!(view.players[0].heading, "Alpha");
    assert_eq!(view.players[0].caption, None);
    assert_eq!(view.players[1].heading, "Song");
    assert_eq!(view.players[1].caption.as_deref(), Some("Zed"));
    assert_eq!(view.players[1].artist, None);
    assert!(view.players[1].play_pause && view.players[1].next && !view.players[1].previous);
    assert_eq!(
        a.update(Message::MprisNext("b2".into()), 0),
        vec![AppletTask::Call(BackendCall::Mpris("b2".into(), MprisControlAction::Next))]
    );
}

#[test]
fn settings_select_a_paired_device() {
    let (mut s, _) = SettingsApp::init();
    assert!(s.view_plugin_panel().hint);
    let tasks = s.update(settings::Message::DevicesLoaded(vec![
        device("c", false, true),
        device("b", true, true),
    ]));
    assert_eq!(tasks, vec![SettingsTask::LoadPluginStates("b".into())]);
    assert_eq!(s.selected_device.as_deref(), Some("b"));
    assert_eq!(s.view_paired_sidebar().len(), 1);
    assert!(s.view_paired_sidebar()[0].selected);
    let available = s.view_available_devices();
    assert_eq!(available.len(), 1);
    assert_eq!(available[0].device_id, "c");
    assert!(!available[0].in_progress);
    let tasks = s.update(settings::Message::PairDevice("c".into()));
    assert_eq!(tasks, vec![SettingsTask::Pair("c".into())]);
    assert!(s.view_available_devices()[0].in_progress);
    // It is paired now, and the other is gone.
    let tasks = s.update(settings::Message::DevicesLoaded(vec![device("c", true, true)]));
    assert_eq!(tasks, vec![SettingsTask::LoadPluginStates("c".into())]);
    assert_eq!(s.pairing_in_progress.len(), 0);
    let tasks = s.update(settings::Message::UnpairDevice("c".into()));
    assert_eq!(tasks, vec![SettingsTask::Unpair("c".into())]);
    assert_eq!(s.selected_device, None);
}

#[test]
fn plugins_are_switched_by_device() {
    let (mut s, _) = SettingsApp::init();
    s.update(settings::Message::DevicesLoaded(vec![device("b", true, true), device("d", true, true)]));
    s.update(settings::Message::PluginStatesLoaded("b".into(), texts(&["ping"])));
    assert!(!s.plugin_enabled("ping"));
    assert!(s.plugin_enabled("sms"));
    let panel = s.view_plugin_panel();
    assert_eq!(panel.plugins.len(), 13);
    assert_eq!(panel.device, Some(("b".to_string(), "B".to_string())));
    let ping = panel.plugins.iter().find(|p| p.plugin.id == "ping").unwrap();
    assert!(!ping.enabled);
    assert!(panel.plugins.iter().any(|p| p.manages_commands && p.plugin.id == "runcommand"));
    assert_eq!(
        s.update(settings::Message::TogglePlugin("sms".into(), false)),
        vec![SettingsTask::SetPluginEnabled("b".into(), "sms".into(), false)]
    );
    assert!(!s.plugin_enabled("sms"));
    s.update(settings::Message::TogglePlugin("ping".into(), true));
    assert!(s.plugin_enabled("ping"));
    assert_eq!(
        s.update(settings::Message::SelectDevice("d".into())),
        vec![SettingsTask::LoadPluginStates("d".into())]
    );
    assert!(s.plugin_enabled("sms"));
    assert!(s.update(settings::Message::SelectDevice("d".into())).is_empty());
    assert_eq!(
        s.update(settings::Message::SelectTab(Tab::AvailableDevices)),
        vec![SettingsTask::FetchDevices]
    );
    assert!(s.update(settings::Message::SelectTab(Tab::PairedDevices)).is_empty());
}

#[test]
fn commands_are_added_and_deleted() {
    let (mut s, _) = SettingsApp::init();
    s.update(settings::Message::RunCommandsLoaded(vec![StoredCommand {
        id: None,
        name: Some("Old".into()),
        command: None,
    }]));
    assert!(s.update(settings::Message::AddRunCommand).is_empty());
    s.update(settings::Message::NewRunCommandName("  Lock ".into()));
    s.update(settings::Message::NewRunCommandCommand("loginctl lock-session".into()));
    assert_eq!(s.update(settings::Message::AddRunCommand), vec![SettingsTask::SaveCommands]);
    assert_eq!(s.new_cmd_name, "");
    let rows = s.view_run_commands_section();
    assert_eq!(rows[0], (String::new(), "Old".to_string(), String::new()));
    assert_eq!(rows[1].1, "Lock");
    let id = rows[1].0.clone();
    assert_eq!(id.len(), 36);
    assert_eq!(
        s.update(settings::Message::DeleteRunCommand(id)),
        vec![SettingsTask::SaveCommands]
    );
    assert_eq!(s.run_commands.len(), 1);
    s.update(settings::Message::DeleteRunCommand(String::new()));
    assert_eq!(s.run_commands.len(), 1);
    // Two commands never share an identifier.
    for _ in 0..2 {
        s.update(settings::Message::NewRunCommandName("n".into()));
        s.update(settings::Message::NewRunCommandCommand("c".into()));
        s.update(settings::Message::AddRunCommand);
    }
    assert_ne!(s.run_commands[1].id, s.run_commands[2].id);
}

#[test]
fn settings_refresh_on_changes_of_devices_only() {
    let (mut s, _) = SettingsApp::init();
    assert_eq!(
        s.update(settings::Message::ServiceEvent(ServiceEvent::DeviceDisconnected("p".into()))),
        vec![SettingsTask::FetchDevices]
    );
    assert!(s
        .update(settings::Message::ServiceEvent(ServiceEvent::ClipboardReceived("x".into())))
        .is_empty());
    assert_eq!(s.update(settings::Message::Refresh), vec![SettingsTask::FetchDevices]);
}

#[test]
fn themes_are_found() {
    assert!(is_dark(None));
    assert!(is_dark(Some("true\n")));
    assert!(!is_dark(Some("false")));
    assert_eq!(
        mode_path("/home/me"),
        "/home/me/.config/cosmic/com.system76.CosmicTheme.Mode/v1/is_dark"
    );
    assert_eq!(
        accent_path("/home/me", false),
        "/home/me/.config/cosmic/com.system76.CosmicTheme.Light/v1/accent"
    );
    assert_eq!(hex_color(0, 171, 255), "#00abff");
    assert_eq!(
        recolor("<path fill=\"#232323\"/><path fill=\"#232323\"/>#23232", 17, 136, 136),
        "<path fill=\"#118888\"/><path fill=\"#118888\"/>#23232"
    );
}

#[test]
fn settings_ask_for_devices_and_commands_as_they_open() {
    let (s, tasks) = SettingsApp::init();
    assert_eq!(
        tasks,
        vec![SettingsTask::SetTitle, SettingsTask::Connect, SettingsTask::LoadCommands]
    );
    assert_eq!(s.active_tab, Tab::PairedDevices);
    assert!(s.devices.is_empty() && s.run_commands.is_empty());
    assert_eq!(s.selected_device, None);
}
