use kdeconnect::device::DeviceId;
use kdeconnect::download::DownloadError;
use kdeconnect::monitor::{same_list, CallPause, PlayerMonitor};
use kdeconnect::mpris::{
    action_request, art_announcement, art_file_name, download_album_art, join_with,
    now_playing_request, sanitize_player, Mpris, MprisAction, MprisLoopStatus, MprisPlayer,
    MprisReply, MprisRequest, PlayerControl, PlayerReading,
};
use kdeconnect::phone::{
    is_phone_player, player_identity, service_name, PhonePlayers, PlayerTask,
};
use kdeconnect::vcard::{
    decode_quoted_printable, extract_vcard_photo, parse_vcard, unfold_vcard_lines, VcardPhoto,
};

fn texts(list: &[&str]) -> Vec<String> {
    list.iter().map(|s| s.to_string()).collect()
}

fn phone() -> DeviceId {
    DeviceId("phone".into())
}

#[test]
fn quoted_printable_is_decoded() {
    assert_eq!(decode_quoted_printable("caf=C3=A9"), "caf\u{e9}");
    assert_eq!(decode_quoted_printable("a=3db"), "a=b");
    let quoted: String = "Ren\u{e9}e =1".bytes().map(|b| format!("={b:02X}")).collect();
    assert_eq!(decode_quoted_printable(&quoted), "Ren\u{e9}e =1");
    assert_eq!(decode_quoted_printable("plain"), "plain");
    assert_eq!(decode_quoted_printable("=zz"), "=zz");
    assert_eq!(decode_quoted_printable("=4"), "=4");
    assert_eq!(decode_quoted_printable("=FF"), "\u{fffd}");
}

#[test]
fn folded_lines_are_joined() {
    assert_eq!(
        unfold_vcard_lines("PHOTO;BASE64:AAA\r\n BBB\r\n\tCCC\r\nTEL:1"),
        texts(&["PHOTO;BASE64:AAABBBCCC", "TEL:1"])
    );
}

#[test]
fn photos_are_told_apart() {
    assert_eq!(extract_vcard_photo("PHOTO;ENCODING=B", "AA BB\n"), VcardPhoto::Inline("AABB".into()));
    assert_eq!(
        extract_vcard_photo("PHOTO", "data:image/jpeg;base64,QUJD"),
        VcardPhoto::Inline("QUJD".into())
    );
    assert_eq!(
        extract_vcard_photo("PHOTO", " https://example.org/a.png "),
        VcardPhoto::Remote("https://example.org/a.png".into())
    );
    assert_eq!(extract_vcard_photo("PHOTO", "something"), VcardPhoto::Unrecognized);
    assert_eq!(extract_vcard_photo("PHOTO", "  "), VcardPhoto::Absent);
}

#[test]
fn cards_are_read() {
    let card = "BEGIN:VCARD\r\nVERSION:3.0\r\nN:Lovelace;Ada;;;\r\nFN:Ada L.\r\nTEL;TYPE=CELL:+44 20 7946 0958\r\nTEL:\r\nPHOTO;ENCODING=B:QUJD\r\nPHOTO;ENCODING=B:WFla\r\nEND:VCARD\r\n";
    let (name, phones, photo) = parse_vcard(card);
    assert_eq!(name, Some("Ada L.".to_string()));
    assert_eq!(phones, texts(&["+44 20 7946 0958"]));
    assert_eq!(photo, VcardPhoto::Inline("QUJD".into()));
}

#[test]
fn structured_names_fill_in() {
    let (name, phones, photo) = parse_vcard("N:Lovelace;Ada\nTEL:123");
    assert_eq!(name, Some("Ada Lovelace".to_string()));
    assert_eq!(phones, texts(&["123"]));
    assert_eq!(photo, VcardPhoto::Absent);
    let (name, _, _) = parse_vcard("FN:Ada\nN:Lovelace;Ada");
    assert_eq!(name, Some("Ada".to_string()));
    let (name, _, _) = parse_vcard("FN;ENCODING=QUOTED-PRINTABLE:Ren=C3=A9e");
    assert_eq!(name, Some("Ren\u{e9}e".to_string()));
}

fn reading() -> PlayerReading {
    PlayerReading {
        identity: "Music".into(),
        artists: Some(texts(&["A", "B"])),
        title: Some("Song".into()),
        album: None,
        art_url: None,
        length_ms: Some(180_000),
        position_ms: None,
        volume: 80,
        playing: Some(true),
        can_pause: Some(true),
        can_play: None,
        can_go_next: Some(true),
        can_go_previous: None,
        can_seek: None,
        loop_status: Some(MprisLoopStatus::Track),
        shuffle: None,
    }
}

#[test]
fn reports_fill_gaps_in() {
    let p = MprisPlayer::new(reading());
    assert_eq!(p.player, "Music");
    assert_eq!(p.artist.as_deref(), Some("A, B"));
    assert_eq!(p.title.as_deref(), Some("Song"));
    assert_eq!(p.album.as_deref(), Some("Unknown Album"));
    assert_eq!(p.length, Some(180_000));
    assert_eq!(p.pos, Some(0));
    assert_eq!(p.volume, Some(80));
    assert_eq!(p.can_play, Some(false));
    assert_eq!(p.is_playing, Some(true));
    assert_eq!(p.loop_status, Some(MprisLoopStatus::Track));
    assert_eq!(p.shuffle, Some(false));
    assert_eq!(p.album_art_url.as_deref(), Some(""));
    assert_eq!(p.url, None);
}

#[test]
fn texts_are_joined() {
    assert_eq!(join_with(&texts(&[]), ", "), "");
    assert_eq!(join_with(&texts(&["a", "b", "c"]), ", "), "a, b, c");
}

#[test]
fn buttons_show_at_once() {
    let mut p = MprisPlayer::new(reading());
    let q = p.play();
    assert_eq!(q.action, Some(MprisAction::Pause));
    assert_eq!(q.player.as_deref(), Some("Music"));
    assert_eq!(p.is_playing, Some(false));
    assert_eq!(p.playback_status(), "Paused");
    let q = p.play();
    assert_eq!(q.action, Some(MprisAction::Play));
    assert_eq!(p.playback_status(), "Playing");
    assert_eq!(p.play_pause().action, Some(MprisAction::PlayPause));
    assert_eq!(p.is_playing, Some(false));
    assert_eq!(p.pause().action, Some(MprisAction::Pause));
    assert_eq!(p.next().action, Some(MprisAction::Next));
    assert_eq!(p.previous().action, Some(MprisAction::Previous));
    assert_eq!(p.stop().action, Some(MprisAction::Stop));
    assert_eq!(p.position(), 0);
    assert_eq!(p.volume_percent(), 80);
    assert_eq!(MprisPlayer::offered(None), true);
    assert_eq!(MprisPlayer::offered(Some(false)), false);
}

#[test]
fn metadata_is_in_microseconds() {
    let mut p = MprisPlayer::new(reading());
    p.album_art_url = Some("/tmp/a.art".into());
    let m = p.metadata();
    assert_eq!(m.length_us, Some(180_000_000));
    assert_eq!(m.art_url.as_deref(), Some("file:///tmp/a.art"));
    p.album_art_url = Some("file:///tmp/a.art".into());
    assert_eq!(p.metadata().art_url.as_deref(), Some("file:///tmp/a.art"));
}

#[test]
fn requests_for_the_list_get_nothing_else() {
    let q = MprisRequest {
        player: Some("Music".into()),
        request_player_list: Some(true),
        action: Some(MprisAction::Play),
        ..MprisRequest::default()
    };
    let plan = q.received_packet();
    assert_eq!(plan.reply, MprisReply::PlayerList);
    assert!(plan.controls.is_empty());
    assert_eq!(plan.player, None);
}

#[test]
fn requests_are_carried_out_in_order() {
    let q = MprisRequest {
        player: Some("Music".into()),
        request_volume: Some(true),
        seek: Some(-5),
        set_volume: Some(30),
        set_loop_status: Some(MprisLoopStatus::Off),
        set_position: Some(7),
        set_shuffle: Some(true),
        action: Some(MprisAction::Next),
        ..MprisRequest::default()
    };
    let plan = q.received_packet();
    assert_eq!(
        plan.controls,
        vec![
            PlayerControl::Seek(-5),
            PlayerControl::SetVolume(30),
            PlayerControl::SetLoop(MprisLoopStatus::Off),
            PlayerControl::SetPosition(7),
            PlayerControl::SetShuffle(true),
            PlayerControl::Do(MprisAction::Next),
        ]
    );
    assert_eq!(plan.reply, MprisReply::NowPlaying { player: "Music".into() });
}

#[test]
fn only_local_art_is_sent() {
    let mut q = action_request("Music".into(), MprisAction::Play);
    q.album_art_url = Some("file:///covers/a.png".into());
    assert_eq!(
        q.received_packet().reply,
        MprisReply::AlbumArt { player: "Music".into(), path: "/covers/a.png".into() }
    );
    q.album_art_url = Some("https://example.org/a.png".into());
    assert_eq!(q.received_packet().reply, MprisReply::Nothing);
}

#[test]
fn requests_without_a_player_do_nothing() {
    let q = MprisRequest { request_now_playing: Some(true), ..MprisRequest::default() };
    let plan = q.received_packet();
    assert_eq!(plan.reply, MprisReply::Nothing);
    assert!(plan.controls.is_empty());
}

#[test]
fn art_is_named_by_its_url() {
    // 'a' is 97, 'b' is 98: 97 * 31 + 98 = 3105 = 0xc21.
    assert_eq!(art_file_name("phone", "My Player", "ab"), "phone_My_Player_c21.art");
    assert_eq!(sanitize_player("a-b \u{e9}9"), "a_b_\u{e9}9");
}

#[test]
fn art_goes_into_the_cache() {
    let d = download_album_art(&Some("/cache".into()), "phone", "p", "ab").unwrap();
    assert_eq!(d.path(), "/cache/kdeconnect/album_art/phone_p_c21.art");
    let d = download_album_art(&None, "phone", "p", "ab").unwrap();
    assert_eq!(d.path(), "/tmp/kdeconnect/album_art/phone_p_c21.art");
    assert_eq!(
        download_album_art(&None, "../phone", "p", "ab").err(),
        Some(DownloadError::InvalidFilename)
    );
}

#[test]
fn art_is_announced_under_the_reported_url() {
    assert_eq!(
        art_announcement("p".into(), Some("file:///a".into()), "/a".into()),
        Mpris::TransferringArt {
            player: "p".into(),
            album_art_url: "file:///a".into(),
            transferring_album_art: true
        }
    );
    assert!(matches!(
        art_announcement("p".into(), None, "/a".into()),
        Mpris::TransferringArt { album_art_url, .. } if album_art_url == "/a"
    ));
}

fn info(name: &str, playing: bool, art: Option<&str>) -> MprisPlayer {
    MprisPlayer {
        player: name.into(),
        is_playing: Some(playing),
        album_art_url: art.map(str::to_string),
        ..MprisPlayer::default()
    }
}

#[test]
fn players_of_a_phone_come_and_go() {
    let mut players = PhonePlayers::new();
    let tasks = players.list_received(&phone(), &texts(&["A", "B"]));
    assert_eq!(tasks.len(), 2);
    assert!(matches!(&tasks[0], PlayerTask::Ask(d, q) if d.0 == "phone"
        && q.player.as_deref() == Some("A")
        && q.request_now_playing == Some(true)
        && q.request_volume == Some(true)));

    let tasks = players.info_received(&phone(), info("A", true, Some("http://art")));
    assert_eq!(tasks.len(), 2);
    assert!(matches!(&tasks[0], PlayerTask::Ask(_, q)
        if q.album_art_url.as_deref() == Some("http://art")));
    assert!(matches!(&tasks[1], PlayerTask::Register(_, p) if p.player == "A"));
    players.registered(&phone(), info("A", true, None));

    // The same report again asks for nothing.
    assert!(players.info_received(&phone(), info("A", true, Some("http://art"))).is_empty());
    // A change of state is told.
    assert_eq!(
        players.info_received(&phone(), info("A", false, Some("http://art"))),
        vec![PlayerTask::StatusChanged("phone_A".into())]
    );
    assert_eq!(
        players.art_ready(&phone(), "A", "/cache/a.art".into()),
        vec![PlayerTask::MetadataChanged("phone_A".into())]
    );
    assert_eq!(
        players.refresh(),
        vec![PlayerTask::Ask(phone(), now_playing_request("A".into()))]
    );
    // Another phone's list leaves this one's players alone.
    let other = DeviceId("tablet".into());
    assert!(players.list_received(&other, &texts(&[])).is_empty());
    assert_eq!(players.refresh().len(), 1);
    // A list without the player withdraws it.
    let tasks = players.list_received(&phone(), &texts(&["B"]));
    assert!(matches!(&tasks[1], PlayerTask::Withdraw(k) if k == "phone_A"));
    assert!(players.refresh().is_empty());
}

#[test]
fn a_phone_that_goes_takes_its_players_along() {
    let mut players = PhonePlayers::new();
    players.registered(&phone(), info("A", true, None));
    players.registered(&DeviceId("tablet".into()), info("A", true, None));
    assert_eq!(players.disconnected(&phone()), vec![PlayerTask::Withdraw("phone_A".into())]);
    assert_eq!(players.refresh().len(), 1);
    assert!(players.disconnected(&phone()).is_empty());
}

#[test]
fn announced_art_changes_nothing_yet() {
    let mut players = PhonePlayers::new();
    players.registered(&phone(), info("A", true, None));
    let announced = Mpris::TransferringArt {
        player: "A".into(),
        album_art_url: "u".into(),
        transferring_album_art: true,
    };
    assert!(players.received(&phone(), announced).is_empty());
    let ready = Mpris::TransferringArt {
        player: "A".into(),
        album_art_url: "/cache/a.art".into(),
        transferring_album_art: false,
    };
    assert_eq!(
        players.received(&phone(), ready),
        vec![PlayerTask::MetadataChanged("phone_A".into())]
    );
}

#[test]
fn offered_players_are_recognised() {
    let name = service_name("77f4-e7c7", "My Player!");
    assert_eq!(name, "org.mpris.MediaPlayer2.KDEConnect_77f4_e7c7_My_Player_");
    assert!(is_phone_player(&name));
    assert!(!is_phone_player("org.mpris.MediaPlayer2.vlc"));
    assert_eq!(player_identity("VLC"), "KDE Connect - VLC");
}

#[test]
fn calls_pause_what_plays_and_resume_it() {
    let mut pause = CallPause::new();
    let asked = pause.call_started(&vec![(1, true), (2, false), (3, true)]);
    assert_eq!(asked, vec![1, 3]);
    pause.pause_succeeded(1);
    assert_eq!(pause.call_ended(), vec![1]);
    assert!(pause.call_ended().is_empty());
}

#[test]
fn player_lists_are_announced_when_they_change() {
    let mut monitor = PlayerMonitor::new();
    let first = monitor.poll(texts(&["vlc", "mpv"]));
    assert!(matches!(&first.announce, Some(Mpris::List { player_list, .. })
        if player_list.len() == 2));
    assert_eq!(first.watch, texts(&["vlc", "mpv"]));
    let second = monitor.poll(texts(&["vlc", "mpv"]));
    assert!(second.announce.is_none());
    assert!(second.watch.is_empty());
    let third = monitor.poll(texts(&["mpv", "firefox"]));
    assert!(third.announce.is_some());
    assert_eq!(third.watch, texts(&["firefox"]));
    assert!(same_list(&texts(&["a"]), &texts(&["a"])));
    assert!(!same_list(&texts(&["a"]), &texts(&["b"])));
}

#[test]
fn buttons_of_an_offered_player_are_passed_on() {
    let mut players = PhonePlayers::new();
    assert_eq!(players.pressed(&phone(), "VLC", MprisAction::Play), None);
    assert_eq!(players.player(&phone(), "VLC"), None);
    let mut info = MprisPlayer::default();
    info.player = "VLC".into();
    players.registered(&phone(), info);
    let asked = players.pressed(&phone(), "VLC", MprisAction::Play).unwrap();
    assert_eq!(asked, action_request("VLC".into(), MprisAction::Play));
    assert_eq!(players.player(&phone(), "VLC").unwrap().is_playing, Some(true));
    let asked = players.pressed(&phone(), "VLC", MprisAction::Play).unwrap();
    assert_eq!(asked, action_request("VLC".into(), MprisAction::Pause));
    assert_eq!(players.player(&phone(), "VLC").unwrap().is_playing, Some(false));
    players.pressed(&phone(), "VLC", MprisAction::PlayPause);
    assert_eq!(players.player(&phone(), "VLC").unwrap().is_playing, Some(true));
    players.pressed(&phone(), "VLC", MprisAction::Next);
    assert_eq!(players.player(&phone(), "VLC").unwrap().is_playing, Some(true));
    players.pressed(&phone(), "VLC", MprisAction::Pause);
    assert_eq!(players.player(&phone(), "VLC").unwrap().is_playing, Some(false));
}

#[test]
fn property_names_may_be_in_lower_case() {
    let (name, phones, _) = parse_vcard("fn:Ada\ntel;type=cell: 123 \nTel:");
    assert_eq!(name, Some("Ada".to_string()));
    assert_eq!(phones, texts(&["123"]));
}
