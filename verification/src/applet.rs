//! The state behind the panel applet.

use vstd::prelude::*;

use crate::backend::{AppletDevice, AppletDeviceModel, MprisControlAction, NowPlaying, NowPlayingModel};
use crate::client::ServiceEvent;
use crate::json;
use crate::order;
use crate::table::{Duplicate, TextMap};
use crate::text::{join3, same};
use crate::transfer;
use crate::transfer::{RecentTransfers, TransferStatus, MAX_RECENT_TRANSFERS};

verus! {

/// Seconds between two looks at the devices while the popup is open.
pub const POLL_SECONDS: u64 = 10;

/// How large the log of the service may be before it is put aside.
pub const MAX_LOG_BYTES: u64 = 1048576;

/// Something that the applet is told.
#[derive(Debug)]
pub enum Message {
    TogglePopup,
    Noop,
    PopupClosed(u64),
    RefreshDevices,
    DevicesUpdated(Vec<AppletDevice>),
    ToggleDeviceMenu(String),
    PingDevice(String),
    PairDevice(String),
    UnpairDevice(String),
    RingDevice(String),
    BrowseDevice(String),
    UnmountDevice(String),
    BrowseDeviceFailed(String),
    DismissError,
    SendFiles(String),
    SendSMS(String),
    ShareClipboard(String),
    ShareText(String),
    ShareUrl(String),
    UpdateTransferProgress(u8),
    TransferStatusReceived(TransferStatus),
    ClipboardSendFinished { device_id: String, result: Result<(), String> },
    /// A device, the level of its battery and whether it is charging.
    BatteryUpdated(String, i32, bool),
    ConnectivityUpdated(String, i32),
    RemoteInput(String),
    LockDevice(String),
    PresenterMode(String),
    UseAsMonitor(String),
    OpenSettings,
    AcceptPairing(String),
    RejectPairing(String),
    /// A device and its name.
    PairingRequestReceived(String, String),
    DelayedRefresh,
    /// A device and what it plays, as JSON.
    MprisReceived(String, String),
    /// What plays, by bus name.
    MprisSnapshot(TextMap<NowPlaying>),
    MprisPlayPause(String),
    MprisNext(String),
    MprisPrevious(String),
    RequestRunCommands(String),
    /// A device and its commands, as JSON.
    RunCommandsReceived(String, String),
    /// A device and the key of a command.
    ExecuteRunCommand(String, String),
    /// Which devices have unread messages.
    UnreadSmsUpdated(TextMap<bool>),
}

/// Something that the applet asks for.
#[derive(Debug, PartialEq, Eq)]
pub enum AppletTask {
    OpenPopup(u64),
    DestroyPopup(u64),
    /// Fetch the devices; `DevicesUpdated` follows.
    FetchDevices,
    /// Look for unread messages of all the devices; `UnreadSmsUpdated` follows.
    CheckUnread,
    /// Ask the service for something.
    Call(BackendCall),
    /// Keep a device for the next time that devices are fetched.
    Remember(String, AppletDevice),
    LaunchSms { device_id: String, device_name: String },
    LaunchSettings,
    /// Show that a device wants to pair.
    NotifyPairing(String),
}

/// Something that the service is asked for.
#[derive(Debug, PartialEq, Eq)]
pub enum BackendCall {
    Ping(String),
    Ring(String),
    Browse(String),
    Unmount(String),
    Pair(String),
    Unpair(String),
    /// Let the user pick files and send them.
    SendFiles(String),
    ShareClipboard(String),
    AcceptPairing(String),
    RejectPairing(String),
    Mpris(String, MprisControlAction),
    RequestRunCommands(String),
    ExecuteRunCommand(String, String),
}

/// Something that the applet asks for, as a value.
pub enum AppletTaskModel {
    OpenPopup(u64),
    DestroyPopup(u64),
    FetchDevices,
    CheckUnread,
    Call(BackendCallModel),
    Remember(Seq<char>, AppletDeviceModel),
    LaunchSms { device_id: Seq<char>, device_name: Seq<char> },
    LaunchSettings,
    NotifyPairing(Seq<char>),
}

/// Something that the service is asked for, as a value.
pub enum BackendCallModel {
    Ping(Seq<char>),
    Ring(Seq<char>),
    Browse(Seq<char>),
    Unmount(Seq<char>),
    Pair(Seq<char>),
    Unpair(Seq<char>),
    SendFiles(Seq<char>),
    ShareClipboard(Seq<char>),
    AcceptPairing(Seq<char>),
    RejectPairing(Seq<char>),
    Mpris(Seq<char>, MprisControlAction),
    RequestRunCommands(Seq<char>),
    ExecuteRunCommand(Seq<char>, Seq<char>),
}

impl View for BackendCall {
    type V = BackendCallModel;

    open spec fn view(&self) -> BackendCallModel {
        match *self {
            BackendCall::Ping(d) => BackendCallModel::Ping(d@),
            BackendCall::Ring(d) => BackendCallModel::Ring(d@),
            BackendCall::Browse(d) => BackendCallModel::Browse(d@),
            BackendCall::Unmount(d) => BackendCallModel::Unmount(d@),
            BackendCall::Pair(d) => BackendCallModel::Pair(d@),
            BackendCall::Unpair(d) => BackendCallModel::Unpair(d@),
            BackendCall::SendFiles(d) => BackendCallModel::SendFiles(d@),
            BackendCall::ShareClipboard(d) => BackendCallModel::ShareClipboard(d@),
            BackendCall::AcceptPairing(d) => BackendCallModel::AcceptPairing(d@),
            BackendCall::RejectPairing(d) => BackendCallModel::RejectPairing(d@),
            BackendCall::Mpris(b, a) => BackendCallModel::Mpris(b@, a),
            BackendCall::RequestRunCommands(d) => BackendCallModel::RequestRunCommands(d@),
            BackendCall::ExecuteRunCommand(d, k) => BackendCallModel::ExecuteRunCommand(d@, k@),
        }
    }
}

impl View for AppletTask {
    type V = AppletTaskModel;

    open spec fn view(&self) -> AppletTaskModel {
        match *self {
            AppletTask::OpenPopup(id) => AppletTaskModel::OpenPopup(id),
            AppletTask::DestroyPopup(id) => AppletTaskModel::DestroyPopup(id),
            AppletTask::FetchDevices => AppletTaskModel::FetchDevices,
            AppletTask::CheckUnread => AppletTaskModel::CheckUnread,
            AppletTask::Call(c) => AppletTaskModel::Call(c@),
            AppletTask::Remember(id, d) => AppletTaskModel::Remember(id@, d@),
            AppletTask::LaunchSms { device_id, device_name } => AppletTaskModel::LaunchSms {
                device_id: device_id@,
                device_name: device_name@,
            },
            AppletTask::LaunchSettings => AppletTaskModel::LaunchSettings,
            AppletTask::NotifyPairing(body) => AppletTaskModel::NotifyPairing(body@),
        }
    }
}

/// The panel applet.
#[derive(Debug)]
pub struct KdeConnectApplet {
    pub popup: Option<u64>,
    pub devices: TextMap<AppletDevice>,
    pub expanded_device: Option<String>,
    /// Names of the devices that want to pair.
    pub pairing_requests: TextMap<String>,
    pub unread_sms: TextMap<bool>,
    /// What went wrong, until the user has seen it.
    pub error_banner: Option<String>,
    /// What plays, by bus name.
    pub now_playing: TextMap<NowPlaying>,
    pub recent_transfers: RecentTransfers,
}

/// The panel applet, as a value.
#[verifier::ext_equal]
pub struct AppletState {
    pub popup: Option<u64>,
    pub devices: Map<Seq<char>, AppletDeviceModel>,
    pub expanded_device: Option<Seq<char>>,
    pub pairing_requests: Map<Seq<char>, Seq<char>>,
    pub unread_sms: Map<Seq<char>, bool>,
    pub error_banner: Option<Seq<char>>,
    pub now_playing: Map<Seq<char>, NowPlayingModel>,
    pub recent_transfers: Seq<TransferStatus>,
}

impl View for KdeConnectApplet {
    type V = AppletState;

    open spec fn view(&self) -> AppletState {
        AppletState {
            popup: self.popup,
            devices: self.devices@,
            expanded_device: self.expanded_device.deep_view(),
            pairing_requests: self.pairing_requests@,
            unread_sms: self.unread_sms@,
            error_banner: self.error_banner.deep_view(),
            now_playing: self.now_playing@,
            recent_transfers: self.recent_transfers.list(),
        }
    }
}

/// The devices of a list by their identifiers. Of two with one identifier the
/// later counts.
pub open spec fn by_id(list: Seq<AppletDeviceModel>) -> Map<Seq<char>, AppletDeviceModel>
    decreases list.len(),
{
    if list.len() == 0 {
        Map::empty()
    } else {
        by_id(list.drop_last()).insert(list.last().id, list.last())
    }
}

/// The commands that a device offers. What has no key or no name is left out.
pub open spec fn offered(items: Seq<(Option<Seq<char>>, Option<Seq<char>>)>) -> Seq<
    (Seq<char>, Seq<char>),
>
    decreases items.len(),
{
    if items.len() == 0 {
        Seq::empty()
    } else {
        let before = offered(items.drop_last());
        match items.last() {
            (Some(key), Some(name)) => before.push((key, name)),
            _ => before,
        }
    }
}

/// The commands in a JSON text. What cannot be read holds none.
pub open spec fn offered_in(json: Seq<char>) -> Seq<(Seq<char>, Seq<char>)> {
    match json::json_list_members(json, "key"@, "name"@) {
        Some(items) => offered(items),
        None => Seq::empty(),
    }
}

/// What a user reads of a device that wants to pair.
pub open spec fn pairing_text(name: Seq<char>) -> Seq<char> {
    "'"@ + name
        + "' wants to pair with this device. Click the KDE Connect applet to accept or decline."@
}

/// How a device looks after its battery was read.
pub open spec fn with_battery(d: AppletDeviceModel, level: i32, charging: bool) -> AppletDeviceModel {
    AppletDeviceModel { battery_level: Some(level), is_charging: Some(charging), ..d }
}

/// How a device looks after its signal was read.
pub open spec fn with_signal(d: AppletDeviceModel, strength: i32) -> AppletDeviceModel {
    AppletDeviceModel { signal_strength: Some(strength), ..d }
}

/// How a device looks after it told its commands.
pub open spec fn with_commands(d: AppletDeviceModel, json: Seq<char>) -> AppletDeviceModel {
    AppletDeviceModel { run_commands: offered_in(json), ..d }
}

/// How a device looks while something is sent to it.
pub open spec fn with_progress(d: AppletDeviceModel, percent: u8) -> AppletDeviceModel {
    AppletDeviceModel {
        share_progress: if percent < 100 {
            Some(percent)
        } else {
            None
        },
        ..d
    }
}

/// The devices after one of them changed. An unknown device stays unknown.
pub open spec fn changed(
    devices: Map<Seq<char>, AppletDeviceModel>,
    id: Seq<char>,
    change: spec_fn(AppletDeviceModel) -> AppletDeviceModel,
) -> Map<Seq<char>, AppletDeviceModel> {
    if devices.contains_key(id) {
        devices.insert(id, change(devices[id]))
    } else {
        devices
    }
}

/// The device is to be remembered as it looks after the change.
pub open spec fn remembered(
    devices: Map<Seq<char>, AppletDeviceModel>,
    id: Seq<char>,
    change: spec_fn(AppletDeviceModel) -> AppletDeviceModel,
) -> Seq<AppletTaskModel> {
    if devices.contains_key(id) {
        seq![AppletTaskModel::Remember(id, change(devices[id]))]
    } else {
        Seq::empty()
    }
}

/// The applet after a message. A popup that opens gets the fresh identifier.
pub open spec fn after(s: AppletState, message: Message, fresh: u64) -> AppletState {
    match message {
        Message::TogglePopup => AppletState {
            popup: if s.popup is Some {
                None
            } else {
                Some(fresh)
            },
            ..s
        },
        Message::PopupClosed(id) => if s.popup == Some(id) {
            AppletState { popup: None, ..s }
        } else {
            s
        },
        Message::UnreadSmsUpdated(unread) => AppletState { unread_sms: unread@, ..s },
        Message::DevicesUpdated(list) => AppletState { devices: by_id(order::views(list@)), ..s },
        Message::ToggleDeviceMenu(id) => AppletState {
            expanded_device: if s.expanded_device == Some(id@) {
                None
            } else {
                Some(id@)
            },
            ..s
        },
        Message::BrowseDeviceFailed(text) => AppletState { error_banner: Some(text@), ..s },
        Message::DismissError => AppletState { error_banner: None, ..s },
        Message::UpdateTransferProgress(percent) => match s.expanded_device {
            Some(id) => AppletState {
                devices: changed(
                    s.devices,
                    id,
                    |d: AppletDeviceModel| with_progress(d, percent),
                ),
                ..s
            },
            None => s,
        },
        Message::TransferStatusReceived(status) => AppletState {
            recent_transfers: transfer::with_report(
                s.recent_transfers,
                MAX_RECENT_TRANSFERS as int,
                status,
            ),
            ..s
        },
        Message::BatteryUpdated(id, level, charging) => AppletState {
            devices: changed(
                s.devices,
                id@,
                |d: AppletDeviceModel| with_battery(d, level, charging),
            ),
            ..s
        },
        Message::ConnectivityUpdated(id, strength) => AppletState {
            devices: changed(s.devices, id@, |d: AppletDeviceModel| with_signal(d, strength)),
            ..s
        },
        Message::AcceptPairing(id) => AppletState {
            pairing_requests: s.pairing_requests.remove(id@),
            ..s
        },
        Message::RejectPairing(id) => AppletState {
            pairing_requests: s.pairing_requests.remove(id@),
            ..s
        },
        Message::PairingRequestReceived(id, name) => AppletState {
            pairing_requests: s.pairing_requests.insert(id@, name@),
            ..s
        },
        Message::MprisSnapshot(snapshot) => AppletState { now_playing: snapshot@, ..s },
        Message::RunCommandsReceived(id, json) => AppletState {
            devices: changed(s.devices, id@, |d: AppletDeviceModel| with_commands(d, json@)),
            ..s
        },
        _ => s,
    }
}

/// The call as the one thing that is asked for.
pub open spec fn call(c: BackendCallModel) -> Seq<AppletTaskModel> {
    seq![AppletTaskModel::Call(c)]
}

/// What the applet asks for after a message.
pub open spec fn asks(s: AppletState, message: Message, fresh: u64) -> Seq<AppletTaskModel> {
    match message {
        Message::TogglePopup => match s.popup {
            Some(id) => seq![AppletTaskModel::DestroyPopup(id)],
            None => seq![AppletTaskModel::OpenPopup(fresh), AppletTaskModel::FetchDevices],
        },
        Message::RefreshDevices => seq![AppletTaskModel::FetchDevices],
        Message::DelayedRefresh => seq![AppletTaskModel::FetchDevices],
        Message::DevicesUpdated(list) => if s.popup is Some && list@.len() > 0 {
            seq![AppletTaskModel::CheckUnread]
        } else {
            Seq::empty()
        },
        Message::ToggleDeviceMenu(id) => if s.expanded_device == Some(id@) {
            Seq::empty()
        } else {
            call(BackendCallModel::RequestRunCommands(id@))
        },
        Message::SendSMS(id) => seq![
            AppletTaskModel::LaunchSms {
                device_id: id@,
                device_name: if s.devices.contains_key(id@) {
                    s.devices[id@].name
                } else {
                    "Unknown Device"@
                },
            },
        ],
        Message::PingDevice(id) => call(BackendCallModel::Ping(id@)),
        Message::RingDevice(id) => call(BackendCallModel::Ring(id@)),
        Message::BrowseDevice(id) => call(BackendCallModel::Browse(id@)),
        Message::UnmountDevice(id) => call(BackendCallModel::Unmount(id@)),
        Message::PairDevice(id) => call(BackendCallModel::Pair(id@)),
        Message::UnpairDevice(id) => call(BackendCallModel::Unpair(id@)),
        Message::SendFiles(id) => call(BackendCallModel::SendFiles(id@)),
        Message::ShareClipboard(id) => call(BackendCallModel::ShareClipboard(id@)),
        Message::BatteryUpdated(id, level, charging) => remembered(
            s.devices,
            id@,
            |d: AppletDeviceModel| with_battery(d, level, charging),
        ),
        Message::ConnectivityUpdated(id, strength) => remembered(
            s.devices,
            id@,
            |d: AppletDeviceModel| with_signal(d, strength),
        ),
        Message::AcceptPairing(id) => call(BackendCallModel::AcceptPairing(id@)),
        Message::RejectPairing(id) => call(BackendCallModel::RejectPairing(id@)),
        Message::PairingRequestReceived(_, name) => seq![
            AppletTaskModel::NotifyPairing(pairing_text(name@)),
        ],
        Message::MprisPlayPause(bus) => call(
            BackendCallModel::Mpris(bus@, MprisControlAction::PlayPause),
        ),
        Message::MprisNext(bus) => call(BackendCallModel::Mpris(bus@, MprisControlAction::Next)),
        Message::MprisPrevious(bus) => call(
            BackendCallModel::Mpris(bus@, MprisControlAction::Previous),
        ),
        Message::OpenSettings => seq![AppletTaskModel::LaunchSettings],
        Message::RequestRunCommands(id) => call(BackendCallModel::RequestRunCommands(id@)),
        Message::RunCommandsReceived(id, json) => remembered(
            s.devices,
            id@,
            |d: AppletDeviceModel| with_commands(d, json@),
        ),
        Message::ExecuteRunCommand(id, key) => call(
            BackendCallModel::ExecuteRunCommand(id@, key@),
        ),
        _ => Seq::empty(),
    }
}

/// The tables in a message are in order.
pub open spec fn sound(message: Message) -> bool {
    match message {
        Message::MprisSnapshot(m) => m.wf(),
        Message::UnreadSmsUpdated(m) => m.wf(),
        _ => true,
    }
}

fn collect_devices(list: Vec<AppletDevice>) -> (r: TextMap<AppletDevice>)
    ensures
        r.wf(),
        r@ == by_id(order::views(list@)),
{
    let ghost all = order::views(list@);
    let mut r: TextMap<AppletDevice> = TextMap::new();
    let mut i: usize = 0;
    proof {
        assert(all.take(0) =~= Seq::empty());
    }
    while i < list.len()
        invariant
            i <= list@.len(),
            all == order::views(list@),
            r.wf(),
            r@ == by_id(all.take(i as int)),
        decreases list@.len() - i,
    {
        proof {
            assert(all.take(i + 1).drop_last() =~= all.take(i as int));
            assert(all.take(i + 1).last() == list@[i as int]@);
        }
        r.insert(list[i].id.clone(), list[i].duplicate());
        i = i + 1;
    }
    proof {
        assert(all.take(i as int) =~= all);
    }
    r
}

/// The commands in a JSON text. What cannot be read, and what has no key or no
/// name, is left out.
pub fn read_commands(json: &str) -> (r: Vec<(String, String)>)
    ensures
        r.deep_view() == offered_in(json@),
{
    let mut r: Vec<(String, String)> = Vec::new();
    proof {
        assert(r.deep_view() =~= Seq::<(Seq<char>, Seq<char>)>::empty());
    }
    match json::list_members(json, "key", "name") {
        Some(list) => {
            let ghost all = list.deep_view();
            let mut i: usize = 0;
            proof {
                assert(all.take(0) =~= Seq::empty());
            }
            while i < list.len()
                invariant
                    i <= list@.len(),
                    all == list.deep_view(),
                    r.deep_view() == offered(all.take(i as int)),
                decreases list@.len() - i,
            {
                let ghost before = r.deep_view();
                proof {
                    assert(all.take(i + 1).drop_last() =~= all.take(i as int));
                    assert(all.take(i + 1).last() == list@[i as int].deep_view());
                }
                if let (Some(key), Some(name)) = (&list[i].0, &list[i].1) {
                    r.push((key.clone(), name.clone()));
                    proof {
                        assert(r.deep_view() =~= before.push((key@, name@)));
                    }
                }
                i = i + 1;
            }
            proof {
                assert(all.take(i as int) =~= all);
            }
            r
        },
        None => r,
    }
}

fn set_battery(device: AppletDevice, level: i32, charging: bool) -> (r: AppletDevice)
    ensures
        r@ == with_battery(device@, level, charging),
{
    AppletDevice { battery_level: Some(level), is_charging: Some(charging), ..device }
}

fn set_signal(device: AppletDevice, strength: i32) -> (r: AppletDevice)
    ensures
        r@ == with_signal(device@, strength),
{
    AppletDevice { signal_strength: Some(strength), ..device }
}

fn set_commands(device: AppletDevice, json: &str) -> (r: AppletDevice)
    ensures
        r@ == with_commands(device@, json@),
{
    AppletDevice { run_commands: read_commands(json), ..device }
}

fn one(task: AppletTask) -> (r: Vec<AppletTask>)
    ensures
        order::views(r@) == seq![task@],
{
    let mut r: Vec<AppletTask> = Vec::new();
    r.push(task);
    proof {
        assert(order::views(r@) =~= seq![task@]);
    }
    r
}

fn two(first: AppletTask, second: AppletTask) -> (r: Vec<AppletTask>)
    ensures
        order::views(r@) == seq![first@, second@],
{
    let mut r: Vec<AppletTask> = Vec::new();
    r.push(first);
    r.push(second);
    proof {
        assert(order::views(r@) =~= seq![first@, second@]);
    }
    r
}

fn nothing() -> (r: Vec<AppletTask>)
    ensures
        order::views(r@) == Seq::<AppletTaskModel>::empty(),
{
    let r: Vec<AppletTask> = Vec::new();
    proof {
        assert(order::views(r@) =~= Seq::<AppletTaskModel>::empty());
    }
    r
}

proof fn lemma_some_device(list: Seq<AppletDeviceModel>)
    ensures
        by_id(list).dom().finite(),
        list.len() == 0 <==> by_id(list).dom().len() == 0,
    decreases list.len(),
{
    if list.len() > 0 {
        lemma_some_device(list.drop_last());
        assert(by_id(list).contains_key(list.last().id));
    }
}

impl KdeConnectApplet {
    /// The tables are in order, and no more transfers are kept than are shown.
    pub open spec fn wf(&self) -> bool {
        &&& self.devices.wf()
        &&& self.pairing_requests.wf()
        &&& self.unread_sms.wf()
        &&& self.now_playing.wf()
        &&& self.recent_transfers.wf()
        &&& self.recent_transfers.limit() == MAX_RECENT_TRANSFERS
    }

    /// An applet that knows nothing and shows nothing.
    pub fn init() -> (r: KdeConnectApplet)
        ensures
            r.wf(),
            r@ == (AppletState {
                popup: None,
                devices: Map::empty(),
                expanded_device: None,
                pairing_requests: Map::empty(),
                unread_sms: Map::empty(),
                error_banner: None,
                now_playing: Map::empty(),
                recent_transfers: Seq::empty(),
            }),
            r.recent_transfers.limit() == 20,
    {
        let r = KdeConnectApplet {
            popup: None,
            devices: TextMap::new(),
            expanded_device: None,
            pairing_requests: TextMap::new(),
            unread_sms: TextMap::new(),
            error_banner: None,
            now_playing: TextMap::new(),
            recent_transfers: RecentTransfers::new(MAX_RECENT_TRANSFERS),
        };
        proof {
            assert(r.recent_transfers.list() =~= Seq::empty());
        }
        r
    }

    /// What a window that wants to close means.
    pub fn on_close_requested(id: u64) -> (r: Message)
        ensures
            r == Message::PopupClosed(id),
    {
        Message::PopupClosed(id)
    }

    fn remember(&mut self, id: String, device: AppletDevice) -> (r: Vec<AppletTask>)
        requires
            old(self).wf(),
        ensures
            final(self).wf(),
            final(self)@ == (AppletState {
                devices: old(self)@.devices.insert(id@, device@),
                ..old(self)@
            }),
            order::views(r@) == seq![AppletTaskModel::Remember(id@, device@)],
    {
        let copy = device.duplicate();
        self.devices.insert(id.clone(), device);
        one(AppletTask::Remember(id, copy))
    }

    fn list_devices(&mut self, list: Vec<AppletDevice>) -> (r: Vec<AppletTask>)
        requires
            old(self).wf(),
        ensures
            final(self).wf(),
            final(self)@ == after(old(self)@, Message::DevicesUpdated(list), 0),
            order::views(r@) == asks(old(self)@, Message::DevicesUpdated(list), 0),
    {
        proof {
            lemma_some_device(order::views(list@));
        }
        self.devices = collect_devices(list);
        proof {
            self.devices.lemma_len();
        }
        if self.popup.is_some() && self.devices.len() > 0 {
            one(AppletTask::CheckUnread)
        } else {
            nothing()
        }
    }

    fn show_progress(&mut self, percent: u8)
        requires
            old(self).wf(),
        ensures
            final(self).wf(),
            final(self)@ == after(old(self)@, Message::UpdateTransferProgress(percent), 0),
    {
        if let Some(id) = &self.expanded_device {
            let known = match self.devices.get(id) {
                Some(d) => Some(d.duplicate()),
                None => None,
            };
            if let Some(mut d) = known {
                d.share_progress = if percent < 100 {
                    Some(percent)
                } else {
                    None
                };
                self.devices.insert(id.clone(), d);
            }
        }
    }

    fn read_battery(&mut self, id: String, level: i32, charging: bool) -> (r: Vec<AppletTask>)
        requires
            old(self).wf(),
        ensures
            final(self).wf(),
            old(self)@.devices.contains_key(id@) ==> ({
                let now = with_battery(old(self)@.devices[id@], level, charging);
                &&& final(self)@ == (AppletState {
                    devices: old(self)@.devices.insert(id@, now),
                    ..old(self)@
                })
                &&& order::views(r@) == seq![AppletTaskModel::Remember(id@, now)]
            }),
            !old(self)@.devices.contains_key(id@) ==> final(self)@ == old(self)@ && order::views(
                r@,
            ) == Seq::<AppletTaskModel>::empty(),
    {
        let known = match self.devices.get(&id) {
            Some(d) => Some(d.duplicate()),
            None => None,
        };
        match known {
            Some(d) => self.remember(id, set_battery(d, level, charging)),
            None => nothing(),
        }
    }

    fn read_signal(&mut self, id: String, strength: i32) -> (r: Vec<AppletTask>)
        requires
            old(self).wf(),
        ensures
            final(self).wf(),
            old(self)@.devices.contains_key(id@) ==> ({
                let now = with_signal(old(self)@.devices[id@], strength);
                &&& final(self)@ == (AppletState {
                    devices: old(self)@.devices.insert(id@, now),
                    ..old(self)@
                })
                &&& order::views(r@) == seq![AppletTaskModel::Remember(id@, now)]
            }),
            !old(self)@.devices.contains_key(id@) ==> final(self)@ == old(self)@ && order::views(
                r@,
            ) == Seq::<AppletTaskModel>::empty(),
    {
        let known = match self.devices.get(&id) {
            Some(d) => Some(d.duplicate()),
            None => None,
        };
        match known {
            Some(d) => self.remember(id, set_signal(d, strength)),
            None => nothing(),
        }
    }

    fn read_offer(&mut self, id: String, json: String) -> (r: Vec<AppletTask>)
        requires
            old(self).wf(),
        ensures
            final(self).wf(),
            old(self)@.devices.contains_key(id@) ==> ({
                let now = with_commands(old(self)@.devices[id@], json@);
                &&& final(self)@ == (AppletState {
                    devices: old(self)@.devices.insert(id@, now),
                    ..old(self)@
                })
                &&& order::views(r@) == seq![AppletTaskModel::Remember(id@, now)]
            }),
            !old(self)@.devices.contains_key(id@) ==> final(self)@ == old(self)@ && order::views(
                r@,
            ) == Seq::<AppletTaskModel>::empty(),
    {
        let known = match self.devices.get(&id) {
            Some(d) => Some(d.duplicate()),
            None => None,
        };
        match known {
            Some(d) => self.remember(id, set_commands(d, &json)),
            None => nothing(),
        }
    }

    /// Takes a message in and gives back what is to be done. A popup that opens
    /// gets the fresh identifier.
    #[verifier::rlimit(40)]
    pub fn update(&mut self, message: Message, fresh: u64) -> (r: Vec<AppletTask>)
        requires
            old(self).wf(),
            sound(message),
        ensures
            final(self).wf(),
            final(self)@ == after(old(self)@, message, fresh),
            order::views(r@) == asks(old(self)@, message, fresh),
    {
        match message {
            Message::Noop => nothing(),
            Message::TogglePopup => match self.popup {
                Some(id) => {
                    self.popup = None;
                    one(AppletTask::DestroyPopup(id))
                },
                None => {
                    self.popup = Some(fresh);
                    two(AppletTask::OpenPopup(fresh), AppletTask::FetchDevices)
                },
            },
            Message::PopupClosed(id) => {
                if let Some(p) = self.popup {
                    if p == id {
                        self.popup = None;
                    }
                }
                nothing()
            },
            Message::RefreshDevices => one(AppletTask::FetchDevices),
            Message::DelayedRefresh => one(AppletTask::FetchDevices),
            Message::UnreadSmsUpdated(unread) => {
                self.unread_sms = unread;
                nothing()
            },
            Message::DevicesUpdated(list) => self.list_devices(list),
            Message::ToggleDeviceMenu(id) => {
                let open = match &self.expanded_device {
                    Some(d) => same(d, &id),
                    None => false,
                };
                if open {
                    self.expanded_device = None;
                    nothing()
                } else {
                    self.expanded_device = Some(id.clone());
                    one(AppletTask::Call(BackendCall::RequestRunCommands(id)))
                }
            },
            Message::SendSMS(id) => {
                let device_name = match self.devices.get(&id) {
                    Some(d) => d.name.clone(),
                    None => "Unknown Device".to_owned(),
                };
                one(AppletTask::LaunchSms { device_id: id, device_name })
            },
            Message::PingDevice(id) => one(AppletTask::Call(BackendCall::Ping(id))),
            Message::RingDevice(id) => one(AppletTask::Call(BackendCall::Ring(id))),
            Message::BrowseDevice(id) => one(AppletTask::Call(BackendCall::Browse(id))),
            Message::UnmountDevice(id) => one(AppletTask::Call(BackendCall::Unmount(id))),
            Message::BrowseDeviceFailed(text) => {
                self.error_banner = Some(text);
                nothing()
            },
            Message::DismissError => {
                self.error_banner = None;
                nothing()
            },
            Message::PairDevice(id) => one(AppletTask::Call(BackendCall::Pair(id))),
            Message::UnpairDevice(id) => one(AppletTask::Call(BackendCall::Unpair(id))),
            Message::SendFiles(id) => one(AppletTask::Call(BackendCall::SendFiles(id))),
            Message::UpdateTransferProgress(percent) => {
                self.show_progress(percent);
                nothing()
            },
            Message::TransferStatusReceived(status) => {
                self.recent_transfers.record(status);
                nothing()
            },
            Message::ShareClipboard(id) => one(AppletTask::Call(BackendCall::ShareClipboard(id))),
            Message::ClipboardSendFinished { device_id: _, result: _ } => nothing(),
            Message::BatteryUpdated(id, level, charging) => self.read_battery(id, level, charging),
            Message::ConnectivityUpdated(id, strength) => self.read_signal(id, strength),
            Message::AcceptPairing(id) => {
                self.pairing_requests.remove(&id);
                one(AppletTask::Call(BackendCall::AcceptPairing(id)))
            },
            Message::RejectPairing(id) => {
                self.pairing_requests.remove(&id);
                one(AppletTask::Call(BackendCall::RejectPairing(id)))
            },
            Message::PairingRequestReceived(id, name) => {
                self.pairing_requests.insert(id, name.clone());
                one(
                    AppletTask::NotifyPairing(
                        join3(
                            "'",
                            &name,
                            "' wants to pair with this device. Click the KDE Connect applet to accept or decline.",
                        ),
                    ),
                )
            },
            Message::MprisReceived(_, _) => nothing(),
            Message::MprisSnapshot(snapshot) => {
                self.now_playing = snapshot;
                nothing()
            },
            Message::MprisPlayPause(bus) => one(
                AppletTask::Call(BackendCall::Mpris(bus, MprisControlAction::PlayPause)),
            ),
            Message::MprisNext(bus) => one(
                AppletTask::Call(BackendCall::Mpris(bus, MprisControlAction::Next)),
            ),
            Message::MprisPrevious(bus) => one(
                AppletTask::Call(BackendCall::Mpris(bus, MprisControlAction::Previous)),
            ),
            Message::OpenSettings => one(AppletTask::LaunchSettings),
            Message::RemoteInput(_) => nothing(),
            Message::LockDevice(_) => nothing(),
            Message::PresenterMode(_) => nothing(),
            Message::UseAsMonitor(_) => nothing(),
            Message::ShareText(_) => nothing(),
            Message::ShareUrl(_) => nothing(),
            Message::RequestRunCommands(id) => one(
                AppletTask::Call(BackendCall::RequestRunCommands(id)),
            ),
            Message::RunCommandsReceived(id, json) => self.read_offer(id, json),
            Message::ExecuteRunCommand(id, key) => one(
                AppletTask::Call(BackendCall::ExecuteRunCommand(id, key)),
            ),
        }
    }

    /// The identifiers of the devices whose messages are looked through.
    pub fn device_ids(&self) -> (r: Vec<String>)
        requires
            self.wf(),
        ensures
            r.deep_view().to_set() == self@.devices.dom(),
            r.deep_view().no_duplicates(),
    {
        let mut r: Vec<String> = Vec::new();
        let mut i: usize = 0;
        proof {
            self.devices.lemma_list();
        }
        while i < self.devices.len()
            invariant
                i <= self.devices.list().len(),
                r@.len() == i,
                forall|k: int| 0 <= k < i ==> (#[trigger] r@[k])@ == self.devices.list()[k].0@,
            decreases self.devices.list().len() - i,
        {
            r.push(self.devices.key_at(i).clone());
            i = i + 1;
        }
        proof {
            let ids = r.deep_view();
            let list = self.devices.list();
            assert forall|k: int| 0 <= k < ids.len() implies #[trigger] ids[k] == list[k].0@ by {
                assert(ids[k] == r@[k]@);
            }
            assert forall|a: int, b: int| 0 <= a < ids.len() && 0 <= b < ids.len() && a
                != b implies ids[a] != ids[b] by {
                if a < b {
                    assert(list[a].0@ != list[b].0@);
                } else {
                    assert(list[b].0@ != list[a].0@);
                }
            }
            assert forall|k: Seq<char>| ids.to_set().contains(k) <==> #[trigger] self@.devices.dom().contains(
                k,
            ) by {
                if self@.devices.contains_key(k) {
                    let i = choose|i: int| 0 <= i < list.len() && #[trigger] list[i].0@ == k;
                    assert(ids[i] == k);
                }
                if ids.to_set().contains(k) {
                    let i = choose|i: int| 0 <= i < ids.len() && ids[i] == k;
                    assert(list[i].0@ == k);
                }
            }
            assert(ids.to_set() =~= self@.devices.dom());
        }
        r
    }

    /// Whether the devices and the players are looked at time and again: only
    /// while they are on screen.
    pub fn polls(&self) -> (r: bool)
        ensures
            r == (self@.popup is Some),
    {
        self.popup.is_some()
    }

    /// Whether the window with the identifier shows the popup.
    pub fn view_window(&self, id: u64) -> (r: bool)
        ensures
            r == (self@.popup == Some(id)),
    {
        match self.popup {
            Some(p) => p == id,
            None => false,
        }
    }
}

/// What the applet is told after a call.
pub open spec fn follow_up(c: BackendCall, result: Result<(), String>) -> Message {
    match c {
        BackendCall::Browse(_) => match result {
            Ok(_) => Message::RefreshDevices,
            Err(e) => Message::BrowseDeviceFailed(e),
        },
        BackendCall::Unmount(_) => match result {
            Ok(_) => Message::RefreshDevices,
            Err(e) => Message::BrowseDeviceFailed(e),
        },
        BackendCall::ShareClipboard(id) => Message::ClipboardSendFinished { device_id: id, result },
        _ => Message::RefreshDevices,
    }
}

/// What the applet is told after a call. Only a failed look at a device's files
/// is shown; after most calls the devices are fetched again.
pub fn finished(c: BackendCall, result: Result<(), String>) -> (r: Message)
    ensures
        r == follow_up(c, result),
        r == (match c {
        BackendCall::Browse(_) => match result {
            Ok(_) => Message::RefreshDevices,
            Err(e) => Message::BrowseDeviceFailed(e),
        },
        BackendCall::Unmount(_) => match result {
            Ok(_) => Message::RefreshDevices,
            Err(e) => Message::BrowseDeviceFailed(e),
        },
        BackendCall::ShareClipboard(id) => Message::ClipboardSendFinished { device_id: id, result },
        _ => Message::RefreshDevices,
    }),
        sound(r),
{
    match c {
        BackendCall::Browse(_) => match result {
            Ok(_) => Message::RefreshDevices,
            Err(e) => Message::BrowseDeviceFailed(e),
        },
        BackendCall::Unmount(_) => match result {
            Ok(_) => Message::RefreshDevices,
            Err(e) => Message::BrowseDeviceFailed(e),
        },
        BackendCall::ShareClipboard(id) => Message::ClipboardSendFinished { device_id: id, result },
        _ => Message::RefreshDevices,
    }
}

/// What an event of the service tells the applet.
pub open spec fn told(event: ServiceEvent) -> Option<Message> {
    match event {
        ServiceEvent::PairingRequested(id, name) => Some(
            Message::PairingRequestReceived(id, name),
        ),
        ServiceEvent::BatteryReceived(id, level, charging) => Some(
            Message::BatteryUpdated(id, level, charging),
        ),
        ServiceEvent::ConnectivityReceived(id, strength) => Some(
            Message::ConnectivityUpdated(id, strength),
        ),
        ServiceEvent::RunCommandListReceived(id, json) => Some(
            Message::RunCommandsReceived(id, json),
        ),
        ServiceEvent::BrowseFailed(_, text) => Some(Message::BrowseDeviceFailed(text)),
        ServiceEvent::MountStateChanged(_, _) => Some(Message::RefreshDevices),
        ServiceEvent::DeviceConnected(_, _) => Some(Message::RefreshDevices),
        ServiceEvent::DevicePaired(_, _) => Some(Message::RefreshDevices),
        ServiceEvent::DeviceDisconnected(_) => Some(Message::RefreshDevices),
        ServiceEvent::TransferStatusReceived(status) => Some(
            Message::TransferStatusReceived(status),
        ),
        _ => None,
    }
}

/// What an event of the service tells the applet, where it tells it anything.
pub fn subscription(event: ServiceEvent) -> (r: Option<Message>)
    ensures
        r == told(event),
        r == (match event {
        ServiceEvent::PairingRequested(id, name) => Some(
            Message::PairingRequestReceived(id, name),
        ),
        ServiceEvent::BatteryReceived(id, level, charging) => Some(
            Message::BatteryUpdated(id, level, charging),
        ),
        ServiceEvent::ConnectivityReceived(id, strength) => Some(
            Message::ConnectivityUpdated(id, strength),
        ),
        ServiceEvent::RunCommandListReceived(id, json) => Some(
            Message::RunCommandsReceived(id, json),
        ),
        ServiceEvent::BrowseFailed(_, text) => Some(Message::BrowseDeviceFailed(text)),
        ServiceEvent::MountStateChanged(_, _) => Some(Message::RefreshDevices),
        ServiceEvent::DeviceConnected(_, _) => Some(Message::RefreshDevices),
        ServiceEvent::DevicePaired(_, _) => Some(Message::RefreshDevices),
        ServiceEvent::DeviceDisconnected(_) => Some(Message::RefreshDevices),
        ServiceEvent::TransferStatusReceived(status) => Some(
            Message::TransferStatusReceived(status),
        ),
        _ => None,
    }),
        r is Some ==> sound(r->0),
{
    match event {
        ServiceEvent::PairingRequested(id, name) => Some(
            Message::PairingRequestReceived(id, name),
        ),
        ServiceEvent::BatteryReceived(id, level, charging) => Some(
            Message::BatteryUpdated(id, level, charging),
        ),
        ServiceEvent::ConnectivityReceived(id, strength) => Some(
            Message::ConnectivityUpdated(id, strength),
        ),
        ServiceEvent::RunCommandListReceived(id, json) => Some(
            Message::RunCommandsReceived(id, json),
        ),
        ServiceEvent::BrowseFailed(_, text) => Some(Message::BrowseDeviceFailed(text)),
        ServiceEvent::MountStateChanged(_, _) => Some(Message::RefreshDevices),
        ServiceEvent::DeviceConnected(_, _) => Some(Message::RefreshDevices),
        ServiceEvent::DevicePaired(_, _) => Some(Message::RefreshDevices),
        ServiceEvent::DeviceDisconnected(_) => Some(Message::RefreshDevices),
        ServiceEvent::TransferStatusReceived(status) => Some(
            Message::TransferStatusReceived(status),
        ),
        _ => None,
    }
}

/// Whether the log of the service is put aside before it is written on.
pub fn rotates_log(size: Option<u64>) -> (r: bool)
    ensures
        r == (size is Some && size->0 > MAX_LOG_BYTES),
        r <==> size is Some && size->0 > 1048576,
{
    match size {
        Some(n) => n > MAX_LOG_BYTES,
        None => false,
    }
}

/// Toggling the popup twice leaves it as it was closed, and the one that closes
/// is the one that was opened.
pub proof fn lemma_toggling_twice_closes(s: AppletState, first: u64, second: u64)
    requires
        s.popup is None,
    ensures
        ({
            let opened = after(s, Message::TogglePopup, first);
            &&& opened.popup == Some(first)
            &&& after(opened, Message::TogglePopup, second) == s
            &&& asks(opened, Message::TogglePopup, second) == seq![
                AppletTaskModel::DestroyPopup(first),
            ]
        }),
{
}

/// Opening the menu of a device a second time closes it.
pub proof fn lemma_menu_toggles(s: AppletState, id: String, a: u64, b: u64)
    ensures
        ({
            let once = after(s, Message::ToggleDeviceMenu(id), a);
            let twice = after(once, Message::ToggleDeviceMenu(id), b);
            &&& s.expanded_device != Some(id@) ==> once.expanded_device == Some(id@)
                && twice.expanded_device is None
            &&& s.expanded_device == Some(id@) ==> once.expanded_device is None
        }),
{
}

/// A request to pair stands until it is answered, and an answer leaves no
/// request of that device and all those of the others.
pub proof fn lemma_answered_requests_go(
    s: AppletState,
    id: String,
    name: String,
    other: Seq<char>,
    fresh: u64,
)
    ensures
        ({
            let asked = after(s, Message::PairingRequestReceived(id, name), fresh);
            let accepted = after(asked, Message::AcceptPairing(id), fresh);
            let rejected = after(asked, Message::RejectPairing(id), fresh);
            &&& asked.pairing_requests.contains_key(id@)
            &&& asked.pairing_requests[id@] == name@
            &&& !accepted.pairing_requests.contains_key(id@)
            &&& accepted.pairing_requests == rejected.pairing_requests
            &&& other != id@ ==> (accepted.pairing_requests.contains_key(other)
                <==> s.pairing_requests.contains_key(other))
        }),
{
}

/// A report of a device's battery changes no other device, and nothing else of
/// its own.
pub proof fn lemma_reports_stay_with_their_device(
    s: AppletState,
    id: String,
    level: i32,
    charging: bool,
    other: Seq<char>,
    fresh: u64,
)
    ensures
        ({
            let now = after(s, Message::BatteryUpdated(id, level, charging), fresh);
            &&& now.devices.dom() == s.devices.dom()
            &&& other != id@ && s.devices.contains_key(other) ==> now.devices[other]
                == s.devices[other]
            &&& s.devices.contains_key(id@) ==> now.devices[id@].run_commands
                == s.devices[id@].run_commands && now.devices[id@].battery_level == Some(level)
        }),
{
    let now = after(s, Message::BatteryUpdated(id, level, charging), fresh);
    assert(now.devices.dom() =~= s.devices.dom());
}

/// No message makes the applet keep more transfers than it shows, nor one twice.
pub proof fn lemma_transfers_stay_bounded(s: AppletState, message: Message, fresh: u64)
    requires
        s.recent_transfers.len() <= MAX_RECENT_TRANSFERS,
        transfer::distinct_transfers(s.recent_transfers),
    ensures
        after(s, message, fresh).recent_transfers.len() <= MAX_RECENT_TRANSFERS,
        transfer::distinct_transfers(after(s, message, fresh).recent_transfers),
{
    if let Message::TransferStatusReceived(status) = message {
        transfer::lemma_reports_stay_bounded(
            s.recent_transfers,
            MAX_RECENT_TRANSFERS as int,
            status,
        );
    }
}

/// While the popup is closed no message makes the applet look for unread
/// messages.
pub proof fn lemma_closed_popups_check_nothing(s: AppletState, message: Message, fresh: u64)
    requires
        s.popup is None,
    ensures
        !asks(s, message, fresh).contains(AppletTaskModel::CheckUnread),
{
    let tasks = asks(s, message, fresh);
    assert forall|i: int| 0 <= i < tasks.len() implies #[trigger] tasks[i]
        != AppletTaskModel::CheckUnread by {
    }
}

/// A banner stays until it is dismissed or another takes its place.
pub proof fn lemma_banners_stay(s: AppletState, message: Message, fresh: u64)
    requires
        !(message is DismissError),
        !(message is BrowseDeviceFailed),
    ensures
        after(s, message, fresh).error_banner == s.error_banner,
{
}

/// What the popup and the menus do.
pub proof fn lemma_popup_and_menus(s: AppletState, id: String, window: u64, fresh: u64)
    ensures
        s.popup is None ==> after(s, Message::TogglePopup, fresh) == (AppletState {
            popup: Some(fresh),
            ..s
        }) && asks(s, Message::TogglePopup, fresh) == seq![
            AppletTaskModel::OpenPopup(fresh),
            AppletTaskModel::FetchDevices,
        ],
        s.popup matches Some(p) ==> after(s, Message::TogglePopup, fresh) == (AppletState {
            popup: None,
            ..s
        }) && asks(s, Message::TogglePopup, fresh) == seq![AppletTaskModel::DestroyPopup(p)],
        s.popup == Some(window) ==> after(s, Message::PopupClosed(window), fresh) == (AppletState {
            popup: None,
            ..s
        }),
        s.popup != Some(window) ==> after(s, Message::PopupClosed(window), fresh) == s,
        s.expanded_device == Some(id@) ==> after(s, Message::ToggleDeviceMenu(id), fresh) == (
        AppletState { expanded_device: None, ..s }) && asks(
            s,
            Message::ToggleDeviceMenu(id),
            fresh,
        ).len() == 0,
        s.expanded_device != Some(id@) ==> after(s, Message::ToggleDeviceMenu(id), fresh) == (
        AppletState { expanded_device: Some(id@), ..s }) && asks(
            s,
            Message::ToggleDeviceMenu(id),
            fresh,
        ) == seq![AppletTaskModel::Call(BackendCallModel::RequestRunCommands(id@))],
{
}

/// What is told about one device changes that device as it says, and no other;
/// an unknown device stays unknown. The device is remembered as it then is.
pub proof fn lemma_reports_change_their_device(
    s: AppletState,
    id: String,
    level: i32,
    charging: bool,
    json: String,
    fresh: u64,
)
    ensures
        s.devices.contains_key(id@) ==> ({
            let d = AppletDeviceModel {
                battery_level: Some(level),
                is_charging: Some(charging),
                ..s.devices[id@]
            };
            &&& after(s, Message::BatteryUpdated(id, level, charging), fresh) == (AppletState {
                devices: s.devices.insert(id@, d),
                ..s
            })
            &&& asks(s, Message::BatteryUpdated(id, level, charging), fresh) == seq![
                AppletTaskModel::Remember(id@, d),
            ]
        }),
        s.devices.contains_key(id@) ==> ({
            let d = AppletDeviceModel { signal_strength: Some(level), ..s.devices[id@] };
            &&& after(s, Message::ConnectivityUpdated(id, level), fresh) == (AppletState {
                devices: s.devices.insert(id@, d),
                ..s
            })
            &&& asks(s, Message::ConnectivityUpdated(id, level), fresh) == seq![
                AppletTaskModel::Remember(id@, d),
            ]
        }),
        s.devices.contains_key(id@) ==> ({
            let d = AppletDeviceModel { run_commands: offered_in(json@), ..s.devices[id@] };
            &&& after(s, Message::RunCommandsReceived(id, json), fresh) == (AppletState {
                devices: s.devices.insert(id@, d),
                ..s
            })
            &&& asks(s, Message::RunCommandsReceived(id, json), fresh) == seq![
                AppletTaskModel::Remember(id@, d),
            ]
        }),
        !s.devices.contains_key(id@) ==> after(s, Message::BatteryUpdated(id, level, charging), fresh)
            == s && after(s, Message::ConnectivityUpdated(id, level), fresh) == s && after(
            s,
            Message::RunCommandsReceived(id, json),
            fresh,
        ) == s,
{
}

/// How far a transfer is, is shown at the device whose menu is open, until it is
/// done.
pub proof fn lemma_progress_is_shown(s: AppletState, percent: u8, fresh: u64)
    ensures
        s.expanded_device is None ==> after(s, Message::UpdateTransferProgress(percent), fresh) == s,
        s.expanded_device matches Some(id) ==> (s.devices.contains_key(id) ==> after(
            s,
            Message::UpdateTransferProgress(percent),
            fresh,
        ) == (AppletState {
            devices: s.devices.insert(
                id,
                (AppletDeviceModel {
                    share_progress: if percent < 100 {
                        Some(percent)
                    } else {
                        None
                    },
                    ..s.devices[id]
                }),
            ),
            ..s
        })),
{
}

/// What is told about the applet as a whole is taken over as it is.
pub proof fn lemma_news_are_taken_over(
    s: AppletState,
    list: Vec<AppletDevice>,
    unread: TextMap<bool>,
    players: TextMap<NowPlaying>,
    text: String,
    status: TransferStatus,
    fresh: u64,
)
    ensures
        after(s, Message::DevicesUpdated(list), fresh) == (AppletState {
            devices: by_id(order::views(list@)),
            ..s
        }),
        s.popup is Some && list@.len() > 0 ==> asks(s, Message::DevicesUpdated(list), fresh) == seq![
            AppletTaskModel::CheckUnread,
        ],
        s.popup is None || list@.len() == 0 ==> asks(
            s,
            Message::DevicesUpdated(list),
            fresh,
        ).len() == 0,
        after(s, Message::UnreadSmsUpdated(unread), fresh) == (AppletState {
            unread_sms: unread@,
            ..s
        }),
        after(s, Message::MprisSnapshot(players), fresh) == (AppletState {
            now_playing: players@,
            ..s
        }),
        after(s, Message::BrowseDeviceFailed(text), fresh) == (AppletState {
            error_banner: Some(text@),
            ..s
        }),
        after(s, Message::DismissError, fresh) == (AppletState { error_banner: None, ..s }),
        after(s, Message::TransferStatusReceived(status), fresh) == (AppletState {
            recent_transfers: transfer::with_report(s.recent_transfers, 20, status),
            ..s
        }),
{
}

/// Requests to pair are kept under their device until they are answered, and the
/// user is told of them. An answer goes to the device it is for.
pub proof fn lemma_pairing_requests(s: AppletState, id: String, name: String, fresh: u64)
    ensures
        after(s, Message::PairingRequestReceived(id, name), fresh) == (AppletState {
            pairing_requests: s.pairing_requests.insert(id@, name@),
            ..s
        }),
        asks(s, Message::PairingRequestReceived(id, name), fresh) == seq![
            AppletTaskModel::NotifyPairing(
                "'"@ + name@
                    + "' wants to pair with this device. Click the KDE Connect applet to accept or decline."@,
            ),
        ],
        after(s, Message::AcceptPairing(id), fresh) == (AppletState {
            pairing_requests: s.pairing_requests.remove(id@),
            ..s
        }),
        asks(s, Message::AcceptPairing(id), fresh) == seq![
            AppletTaskModel::Call(BackendCallModel::AcceptPairing(id@)),
        ],
        after(s, Message::RejectPairing(id), fresh) == (AppletState {
            pairing_requests: s.pairing_requests.remove(id@),
            ..s
        }),
        asks(s, Message::RejectPairing(id), fresh) == seq![
            AppletTaskModel::Call(BackendCallModel::RejectPairing(id@)),
        ],
{
}

/// What the buttons of a device ask the service for: each for what it says, of
/// its device, and nothing changes until the answer comes.
pub proof fn lemma_device_buttons(s: AppletState, id: String, key: String, fresh: u64)
    ensures
        asks(s, Message::PingDevice(id), fresh) == seq![
            AppletTaskModel::Call(BackendCallModel::Ping(id@)),
        ],
        asks(s, Message::RingDevice(id), fresh) == seq![
            AppletTaskModel::Call(BackendCallModel::Ring(id@)),
        ],
        asks(s, Message::BrowseDevice(id), fresh) == seq![
            AppletTaskModel::Call(BackendCallModel::Browse(id@)),
        ],
        asks(s, Message::UnmountDevice(id), fresh) == seq![
            AppletTaskModel::Call(BackendCallModel::Unmount(id@)),
        ],
        asks(s, Message::PairDevice(id), fresh) == seq![
            AppletTaskModel::Call(BackendCallModel::Pair(id@)),
        ],
        asks(s, Message::UnpairDevice(id), fresh) == seq![
            AppletTaskModel::Call(BackendCallModel::Unpair(id@)),
        ],
        asks(s, Message::SendFiles(id), fresh) == seq![
            AppletTaskModel::Call(BackendCallModel::SendFiles(id@)),
        ],
        asks(s, Message::ShareClipboard(id), fresh) == seq![
            AppletTaskModel::Call(BackendCallModel::ShareClipboard(id@)),
        ],
        asks(s, Message::RequestRunCommands(id), fresh) == seq![
            AppletTaskModel::Call(BackendCallModel::RequestRunCommands(id@)),
        ],
        asks(s, Message::ExecuteRunCommand(id, key), fresh) == seq![
            AppletTaskModel::Call(BackendCallModel::ExecuteRunCommand(id@, key@)),
        ],
        s.devices.contains_key(id@) ==> asks(s, Message::SendSMS(id), fresh) == seq![
            AppletTaskModel::LaunchSms { device_id: id@, device_name: s.devices[id@].name },
        ],
        !s.devices.contains_key(id@) ==> asks(s, Message::SendSMS(id), fresh) == seq![
            AppletTaskModel::LaunchSms { device_id: id@, device_name: "Unknown Device"@ },
        ],
        asks(s, Message::MprisPlayPause(id), fresh) == seq![
            AppletTaskModel::Call(BackendCallModel::Mpris(id@, MprisControlAction::PlayPause)),
        ],
        asks(s, Message::MprisNext(id), fresh) == seq![
            AppletTaskModel::Call(BackendCallModel::Mpris(id@, MprisControlAction::Next)),
        ],
        asks(s, Message::MprisPrevious(id), fresh) == seq![
            AppletTaskModel::Call(BackendCallModel::Mpris(id@, MprisControlAction::Previous)),
        ],
        asks(s, Message::RefreshDevices, fresh) == seq![AppletTaskModel::FetchDevices],
        asks(s, Message::DelayedRefresh, fresh) == seq![AppletTaskModel::FetchDevices],
        asks(s, Message::OpenSettings, fresh) == seq![AppletTaskModel::LaunchSettings],
        after(s, Message::PingDevice(id), fresh) == s,
        after(s, Message::PairDevice(id), fresh) == s,
        after(s, Message::UnpairDevice(id), fresh) == s,
        after(s, Message::SendFiles(id), fresh) == s,
        after(s, Message::SendSMS(id), fresh) == s,
        after(s, Message::BrowseDevice(id), fresh) == s,
        after(s, Message::UnmountDevice(id), fresh) == s,
        after(s, Message::RefreshDevices, fresh) == s,
        after(s, Message::Noop, fresh) == s,
{
}

/// The devices of a list are found under their identifiers, the last of those
/// with one identifier counting, and no others are.
pub proof fn lemma_devices_are_found(list: Seq<AppletDeviceModel>, k: int)
    requires
        0 <= k < list.len(),
        forall|j: int| k < j < list.len() ==> (#[trigger] list[j]).id != list[k].id,
    ensures
        by_id(list).contains_key(list[k].id),
        by_id(list)[list[k].id] == list[k],
    decreases list.len(),
{
    if k < list.len() - 1 {
        let less = list.drop_last();
        assert(list[list.len() - 1] == list.last());
        assert(less[k] == list[k]);
        assert forall|j: int| k < j < less.len() implies (#[trigger] less[j]).id != less[k].id by {
            assert(list[j].id != list[k].id);
        }
        lemma_devices_are_found(less, k);
    }
}

/// Only devices of the list are found.
pub proof fn lemma_no_other_devices_are_found(list: Seq<AppletDeviceModel>, id: Seq<char>)
    requires
        by_id(list).contains_key(id),
    ensures
        exists|k: int| 0 <= k < list.len() && (#[trigger] list[k]).id == id,
    decreases list.len(),
{
    if list.len() > 0 {
        if list.last().id == id {
            assert(list[list.len() - 1].id == id);
        } else {
            let less = list.drop_last();
            lemma_no_other_devices_are_found(less, id);
            let k = choose|k: int| 0 <= k < less.len() && (#[trigger] less[k]).id == id;
            assert(list[k].id == id);
        }
    }
}

/// A command with a key and a name is offered, in its place; one without either
/// is left out.
pub proof fn lemma_commands_are_offered(
    items: Seq<(Option<Seq<char>>, Option<Seq<char>>)>,
    key: Seq<char>,
    name: Seq<char>,
    json: Seq<char>,
)
    ensures
        offered(items.push((Some(key), Some(name)))) == offered(items).push((key, name)),
        offered(items.push((None, Some(name)))) == offered(items),
        offered(items.push((Some(key), None))) == offered(items),
        offered(Seq::empty()).len() == 0,
        json::json_list_members(json, "key"@, "name"@) matches Some(all) ==> offered_in(json)
            == offered(all),
        json::json_list_members(json, "key"@, "name"@) is None ==> offered_in(json).len() == 0,
{
    assert(items.push((Some(key), Some(name))).drop_last() =~= items);
    assert(items.push((None, Some(name))).drop_last() =~= items);
    assert(items.push((Some(key), None)).drop_last() =~= items);
}

} // verus!
