use kdeconnect::sftp::{
    browse_next, host_command, host_mount_points, legacy_mount_point,
    mounts_base_dir, open_mounted, preflight, unmount_plan, BrowsePreflightError, BrowseStep,
    Mounts, SftpInfo, StepOutcome,
};

fn texts(list: &[&str]) -> Vec<String> {
    list.iter().map(|s| s.to_string()).collect()
}

#[test]
fn mount_tables_are_read() {
    let table = b"sysfs /sys sysfs rw 0 0\nphone@1.2.3.4:/ /home/me/KDE\\040Connect/Pixel fuse.sshfs rw 0 0\nbroken\n"
        .to_vec();
    assert_eq!(host_mount_points(&table), texts(&["/sys", "/home/me/KDE Connect/Pixel"]));
}

#[test]
fn host_programs_are_reached_from_a_sandbox() {
    assert_eq!(host_command(false, "sshfs"), texts(&["sshfs"]));
    assert_eq!(host_command(true, "sshfs"), texts(&["flatpak-spawn", "--host", "sshfs"]));
}

#[test]
fn preflight_says_what_is_missing() {
    assert_eq!(preflight(true, true, false, false), Ok(()));
    assert_eq!(preflight(false, false, false, true), Ok(()));
    assert_eq!(
        preflight(false, true, false, true),
        Err(BrowsePreflightError::FlatpakSpawnUnavailable)
    );
    assert_eq!(preflight(false, true, true, false), Err(BrowsePreflightError::SshfsMissing));
    assert_eq!(preflight(false, false, false, false), Err(BrowsePreflightError::SshfsMissing));
    assert!(BrowsePreflightError::SshfsMissing.message().contains("sshfs is not installed"));
    assert!(BrowsePreflightError::FlatpakSpawnUnavailable.message().contains("org.freedesktop.Flatpak"));
}

#[test]
fn devices_get_their_own_mount_points() {
    let mut mounts = Mounts::new(Some("/home/me".into()));
    let base = mounts_base_dir(Some("/home/me".into()));
    let first = mounts.mount_point_for("aaaaaaaa11", "Pixel");
    assert_eq!(first, format!("{base}/Pixel"));
    mounts.register_mount("aaaaaaaa11", &first);
    // The same device again keeps its place.
    assert_eq!(mounts.mount_point_for("aaaaaaaa11", "Renamed"), first);
    // Another device of that name gets another place.
    let second = mounts.mount_point_for("bbbbbbbb22", "Pixel");
    assert_ne!(second, first);
    mounts.unregister_mount("aaaaaaaa11");
    assert_eq!(mounts.mount_point_for("bbbbbbbb22", "Pixel"), first);
}

#[test]
fn mounted_devices_are_listed() {
    let mut mounts = Mounts::new(Some("/home/me".into()));
    let point = mounts.mount_point_for("aaaaaaaa11", "Pixel");
    mounts.register_mount("aaaaaaaa11", &point);
    let devices = vec![
        ("aaaaaaaa11".to_string(), "Pixel".to_string()),
        ("bbbbbbbb22".to_string(), "Tablet".to_string()),
    ];
    assert_eq!(mounts.mounted_devices(&devices, &vec![point.clone()]), texts(&["aaaaaaaa11"]));
    assert!(mounts.mounted_devices(&devices, &vec![]).is_empty());
    let left = mounts.shutdown(&vec![point.clone()]);
    assert_eq!(left, vec![("aaaaaaaa11".to_string(), point, true)]);
    assert!(mounts.shutdown(&vec![]).is_empty());
}

#[test]
fn unmounting_takes_both_places_down() {
    let legacy = legacy_mount_point(Some("/run/user/1000".into()), "phone");
    let mounts = vec![legacy.clone(), "/p".to_string()];
    let plan = unmount_plan(&mounts, &legacy, "/p");
    assert!(plan.contains(&legacy));
    assert!(plan.contains(&"/p".to_string()));
    assert!(unmount_plan(&vec![], &legacy, "/p").is_empty());
    assert!(open_mounted(&mounts, "/p", true));
    assert!(!open_mounted(&mounts, "/p", false));
    assert!(!open_mounted(&vec![], "/p", true));
}

#[test]
fn browsing_goes_step_by_step() {
    let none = vec![];
    let mut step = login("kdeconnect").browse(Ok(()), &none, "/l", "/p").unwrap();
    assert_eq!(step, BrowseStep::MakeDirectory);
    step = browse_next(step, StepOutcome::Done, false);
    assert_eq!(step, BrowseStep::Mount);
    step = browse_next(step, StepOutcome::Done, false);
    assert_eq!(step, BrowseStep::Finish);

    let live = texts(&["/l", "/p"]);
    let mut step = login("kdeconnect").browse(Ok(()), &live, "/l", "/p").unwrap();
    assert_eq!(step, BrowseStep::UnmountLegacy);
    step = browse_next(step, StepOutcome::Failed("busy".into()), true);
    assert_eq!(step, BrowseStep::Probe);
    assert_eq!(browse_next(BrowseStep::Probe, StepOutcome::Done, true), BrowseStep::Finish);
    step = browse_next(step, StepOutcome::TimedOut, true);
    assert_eq!(step, BrowseStep::ForceUnmount);
    step = browse_next(step, StepOutcome::Failed("busy".into()), true);
    assert_eq!(step, BrowseStep::MakeDirectory);
}

#[test]
fn failed_mounts_are_explained() {
    assert_eq!(
        browse_next(BrowseStep::Mount, StepOutcome::Failed(" read: reset \n".into()), false),
        BrowseStep::GiveUp { remove_directory: true, message: "sshfs failed: read: reset".into() }
    );
    assert_eq!(
        browse_next(BrowseStep::Mount, StepOutcome::TimedOut, false),
        BrowseStep::GiveUp {
            remove_directory: true,
            message: "sshfs did not finish mounting within 30s".into()
        }
    );
    assert_eq!(
        browse_next(BrowseStep::MakeDirectory, StepOutcome::NotStarted("no mkdir".into()), false),
        BrowseStep::GiveUp { remove_directory: false, message: "no mkdir".into() }
    );
    assert_eq!(
        browse_next(BrowseStep::Mount, StepOutcome::PasswordLost("pipe".into()), false),
        BrowseStep::GiveUp { remove_directory: true, message: "pipe".into() }
    );
}

fn login(user: &str) -> SftpInfo {
    SftpInfo {
        ip: "10.0.0.2".into(),
        port: 1740,
        user: user.into(),
        password: "secret".into(),
        path: Some("/storage".into()),
        multi_paths: None,
    }
}

#[test]
fn mount_commands_name_the_phone() {
    let info = login("kdeconnect");
    let args = info.mount_arguments("phone", "/p");
    assert_eq!(args[0], "kdeconnect@10.0.0.2:/storage");
    assert_eq!(args[1], "/p");
    assert!(args.iter().all(|a| !a.contains("secret")));
    assert_eq!(info.password_line(), "secret\n");
}

#[test]
fn browsing_is_refused_before_any_step() {
    assert_eq!(
        login("-oProxyCommand=x").browse(Ok(()), &vec![], "/l", "/p"),
        Err("rejecting sftp user starting with '-': -oProxyCommand=x".to_string())
    );
    let missing = BrowsePreflightError::SshfsMissing;
    assert_eq!(
        login("-x").browse(Err(missing), &vec![], "/l", "/p"),
        Err(missing.message())
    );
}
