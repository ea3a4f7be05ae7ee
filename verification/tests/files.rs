use kdeconnect::device::DeviceId;
use kdeconnect::download::{validate_filename, Attempt, Download, DownloadError, Next};
use kdeconnect::sftp::{sanitize_name, unescape_mount_path};
use kdeconnect::transfer::{IncomingTransfer, RecentTransfers, TransferState};

#[test]
fn rejects_remote_paths() {
    for name in ["", ".", "..", "../x", "/tmp/x", "a/b", "a/", "a\\b", "x\0y"] {
        assert!(validate_filename(name).is_err(), "{name:?}");
    }
    for name in ["image.jpg", ".image", "holiday photo.png", "a..b"] {
        assert!(validate_filename(name).is_ok(), "{name:?}");
    }
}

fn again(d: Download) -> Download {
    match d.finish(Attempt::NameTaken) {
        Next::Again(d) => d,
        _ => panic!("expected another name"),
    }
}

#[test]
fn taken_names_are_numbered() {
    let d = Download::new("/downloads", "image.jpg", true).ok().unwrap();
    assert_eq!(d.path(), "/downloads/image.jpg");
    let d = again(d);
    assert_eq!(d.path(), "/downloads/image (1).jpg");
    let d = again(d);
    assert_eq!(d.path(), "/downloads/image (2).jpg");
    match d.finish(Attempt::Published) {
        Next::Done(p) => assert_eq!(p, "/downloads/image (2).jpg"),
        _ => panic!("expected the path"),
    }
    let d = Download::new("/downloads", ".image", true).ok().unwrap();
    assert_eq!(again(d).path(), "/downloads/.image (1)");
}

#[test]
fn cached_files_are_replaced() {
    let d = Download::new("/cache", "image.jpg", false).ok().unwrap();
    assert!(matches!(d.finish(Attempt::NameTaken), Next::Stop(DownloadError::WriteFailed)));
    let d = Download::new("/cache", "image.jpg", false).ok().unwrap();
    assert!(matches!(d.finish(Attempt::Failed), Next::Stop(DownloadError::WriteFailed)));
    assert_eq!(
        Download::new("/cache", "../image.jpg", false).err(),
        Some(DownloadError::InvalidFilename)
    );
}

#[test]
fn reporter_throttles_progress_but_always_delivers_terminal_states() {
    let mut transfer = IncomingTransfer::new(
        &DeviceId("dev".into()),
        Some("photo.jpg".into()),
        Some(100),
        1_700_000_000_000,
        1,
    );
    let mut events = vec![transfer.started()];
    // The first progress report goes through; the second, at the same moment,
    // is throttled away.
    events.extend(transfer.progress(5_000, 10));
    events.extend(transfer.progress(5_000, 20));
    events.push(transfer.completed("/downloads/photo.jpg".to_string(), 100));

    assert_eq!(events.len(), 3, "{events:?}");

    assert_eq!(events[0].state, TransferState::Receiving);
    assert_eq!(events[0].received_bytes, 0);

    assert_eq!(events[1].state, TransferState::Receiving);
    assert_eq!(events[1].received_bytes, 10);

    assert_eq!(events[2].state, TransferState::Completed);
    assert_eq!(events[2].received_bytes, 100);
    assert_eq!(events[2].saved_path.as_deref(), Some("/downloads/photo.jpg"));

    for event in &events {
        assert_eq!(event.device_id, "dev");
        assert_eq!(event.filename.as_deref(), Some("photo.jpg"));
        assert_eq!(event.transfer_id, events[0].transfer_id);
    }
}

#[test]
fn reporter_failure_carries_stage_and_reason_once() {
    let transfer = IncomingTransfer::new(&DeviceId("dev".into()), None, None, 0, 0);
    let mut events = vec![transfer.started()];
    events.push(transfer.failed("receive", "connection refused".into()));

    assert_eq!(events.len(), 2);
    assert_eq!(
        events[1].state,
        TransferState::Failed {
            stage: "receive".into(),
            reason: "connection refused".into()
        }
    );
    assert_eq!(events[1].filename, None);
}

#[test]
fn progress_is_reported_again_after_the_interval() {
    let mut t = IncomingTransfer::new(&DeviceId("dev".into()), None, None, 255, 10);
    assert_eq!(t.id(), "ff-000a");
    assert!(t.progress(1_000, 1).is_some());
    assert!(t.progress(1_199, 2).is_none());
    assert_eq!(t.progress(1_200, 3).unwrap().received_bytes, 3);
    assert!(t.progress(1_399, 4).is_none());
}

#[test]
fn recent_transfers_stay_bounded_and_name_each_transfer_once() {
    let mut recent = RecentTransfers::new(2);
    let a = IncomingTransfer::new(&DeviceId("one".into()), None, None, 1, 1);
    let b = IncomingTransfer::new(&DeviceId("two".into()), None, None, 1, 2);
    let c = IncomingTransfer::new(&DeviceId("one".into()), None, None, 1, 3);
    recent.record(a.started());
    recent.record(b.started());
    recent.record(a.completed("/x".into(), 5));
    assert_eq!(recent.of_device("one").len(), 1);
    assert_eq!(recent.of_device("one")[0].state, TransferState::Completed);
    recent.record(c.started());
    // The oldest transfer makes room for the newest.
    assert_eq!(recent.of_device("one").len(), 1);
    assert_eq!(recent.of_device("one")[0].transfer_id, "1-0003");
    assert_eq!(recent.of_device("two").len(), 1);
}

#[test]
fn unescape_space() {
    assert_eq!(
        unescape_mount_path("/home/user/KDE\\040Connect/Pixel\\0407"),
        "/home/user/KDE Connect/Pixel 7"
    );
}

#[test]
fn unescape_plain() {
    assert_eq!(
        unescape_mount_path("/run/user/1000/doc"),
        "/run/user/1000/doc"
    );
}

#[test]
fn unescape_backslash() {
    assert_eq!(unescape_mount_path("a\\134b"), "a\\b");
}

#[test]
fn unescape_multibyte_utf8() {
    let name = "Мой телефон";
    let path = format!("/home/u/KDE\\040Connect/{}", name);
    assert_eq!(
        unescape_mount_path(&path),
        format!("/home/u/KDE Connect/{}", name)
    );
}

#[test]
fn sanitize_keeps_normal_names() {
    assert_eq!(sanitize_name("id", "Pixel 7 Pro"), "Pixel 7 Pro");
}

#[test]
fn sanitize_replaces_path_chars() {
    assert_eq!(sanitize_name("id", "evil/../name"), "evil-..-name");
}

#[test]
fn sanitize_empty_falls_back_to_id() {
    assert_eq!(sanitize_name("abcdef1234", "///"), "---");
    assert_eq!(sanitize_name("abcdef1234", ""), "device-abcdef12");
}
