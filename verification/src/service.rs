//! The service behind the session bus: what it knows, and what it tells when
//! something happens.

use vstd::prelude::*;

use crate::device::{Device, DeviceId, DeviceModel, DeviceState, PairState};
use crate::event::{ConnectionEvent, RemoteCommand};
use crate::json;
use crate::order;
use crate::packet;
use crate::packet::{PacketModel, PacketType, ProtocolPacket};
use crate::paths;
use crate::paths::{file_name_of, split_extension};
use crate::table::{Duplicate, TextMap};
use crate::text::same;
use crate::transfer;
use crate::transfer::{RecentTransfers, TransferStatus, SERVICE_TRANSFERS};

verus! {

/// A device as the session bus shows it.
#[derive(Debug, PartialEq, Eq)]
pub struct DbusDevice {
    pub id: String,
    pub name: String,
    pub device_type: String,
    pub is_paired: bool,
    pub is_reachable: bool,
}

/// A device as the session bus shows it, as a value.
pub struct DbusDeviceModel {
    pub id: Seq<char>,
    pub name: Seq<char>,
    pub device_type: Seq<char>,
    pub is_paired: bool,
    pub is_reachable: bool,
}

impl View for DbusDevice {
    type V = DbusDeviceModel;

    open spec fn view(&self) -> DbusDeviceModel {
        DbusDeviceModel {
            id: self.id@,
            name: self.name@,
            device_type: self.device_type@,
            is_paired: self.is_paired,
            is_reachable: self.is_reachable,
        }
    }
}

impl Duplicate for DbusDevice {
    fn duplicate(&self) -> (r: Self) {
        DbusDevice {
            id: self.id.clone(),
            name: self.name.clone(),
            device_type: self.device_type.clone(),
            is_paired: self.is_paired,
            is_reachable: self.is_reachable,
        }
    }
}

/// A phone as the session bus shows it.
pub open spec fn phone(id: Seq<char>, name: Seq<char>, is_paired: bool, is_reachable: bool) -> DbusDeviceModel {
    DbusDeviceModel { id, name, device_type: "phone"@, is_paired, is_reachable }
}

fn make_phone(id: &str, name: &str, is_paired: bool, is_reachable: bool) -> (r: DbusDevice)
    ensures
        r@ == phone(id@, name@, is_paired, is_reachable),
{
    DbusDevice {
        id: id.to_owned(),
        name: name.to_owned(),
        device_type: "phone".to_owned(),
        is_paired,
        is_reachable,
    }
}

/// A signal on the session bus.
#[derive(Debug, PartialEq, Eq)]
pub enum Signal {
    DeviceConnected(String, DbusDevice),
    DevicePaired(String, DbusDevice),
    DeviceDisconnected(String),
    PairingRequested(String, String),
    UpdateTransferProgress(u8),
    ClipboardReceived(String),
    BatteryReceived(String, i32, bool),
    ConnectivityReceived(String, i32),
    BrowseFailed(String, String),
    MountStateChanged(String, bool),
    RunCommandListReceived(String, String),
    SmsMessagesReceived(String, String),
    SmsAttachmentReceived(String, String, String),
    ContactsReceived(String),
    ContactPhotosReceived(String),
    TransferStatus(TransferStatus),
}

/// A signal as a value.
pub enum SignalModel {
    DeviceConnected(Seq<char>, DbusDeviceModel),
    DevicePaired(Seq<char>, DbusDeviceModel),
    DeviceDisconnected(Seq<char>),
    PairingRequested(Seq<char>, Seq<char>),
    UpdateTransferProgress(u8),
    ClipboardReceived(Seq<char>),
    BatteryReceived(Seq<char>, i32, bool),
    ConnectivityReceived(Seq<char>, i32),
    BrowseFailed(Seq<char>, Seq<char>),
    MountStateChanged(Seq<char>, bool),
    RunCommandListReceived(Seq<char>, Seq<char>),
    SmsMessagesReceived(Seq<char>, Seq<char>),
    SmsAttachmentReceived(Seq<char>, Seq<char>, Seq<char>),
    ContactsReceived(Seq<char>),
    ContactPhotosReceived(Seq<char>),
    TransferStatus(TransferStatus),
}

impl View for Signal {
    type V = SignalModel;

    open spec fn view(&self) -> SignalModel {
        match self {
            Signal::DeviceConnected(id, d) => SignalModel::DeviceConnected(id@, d@),
            Signal::DevicePaired(id, d) => SignalModel::DevicePaired(id@, d@),
            Signal::DeviceDisconnected(id) => SignalModel::DeviceDisconnected(id@),
            Signal::PairingRequested(id, name) => SignalModel::PairingRequested(id@, name@),
            Signal::UpdateTransferProgress(p) => SignalModel::UpdateTransferProgress(*p),
            Signal::ClipboardReceived(c) => SignalModel::ClipboardReceived(c@),
            Signal::BatteryReceived(id, level, charging) => SignalModel::BatteryReceived(
                id@,
                *level,
                *charging,
            ),
            Signal::ConnectivityReceived(id, strength) => SignalModel::ConnectivityReceived(
                id@,
                *strength,
            ),
            Signal::BrowseFailed(id, m) => SignalModel::BrowseFailed(id@, m@),
            Signal::MountStateChanged(id, mounted) => SignalModel::MountStateChanged(id@, *mounted),
            Signal::RunCommandListReceived(id, j) => SignalModel::RunCommandListReceived(id@, j@),
            Signal::SmsMessagesReceived(id, j) => SignalModel::SmsMessagesReceived(id@, j@),
            Signal::SmsAttachmentReceived(id, f, p) => SignalModel::SmsAttachmentReceived(
                id@,
                f@,
                p@,
            ),
            Signal::ContactsReceived(j) => SignalModel::ContactsReceived(j@),
            Signal::ContactPhotosReceived(j) => SignalModel::ContactPhotosReceived(j@),
            Signal::TransferStatus(s) => SignalModel::TransferStatus(*s),
        }
    }
}

/// An event for the subscribers of the service's socket.
#[derive(Debug, PartialEq, Eq)]
pub struct VarlinkEvent {
    pub event_type: String,
    pub device_id: String,
    pub device: Option<DbusDevice>,
    pub message: Option<String>,
    pub clipboard_content: Option<String>,
    pub battery: Option<(i64, bool)>,
    pub connectivity_strength: Option<i64>,
    pub commands_json: Option<String>,
    pub transfer: Option<TransferStatus>,
}

/// An event for subscribers, as a value.
pub struct VarlinkModel {
    pub event_type: Seq<char>,
    pub device_id: Seq<char>,
    pub device: Option<DbusDeviceModel>,
    pub message: Option<Seq<char>>,
    pub clipboard_content: Option<Seq<char>>,
    pub battery: Option<(i64, bool)>,
    pub connectivity_strength: Option<i64>,
    pub commands_json: Option<Seq<char>>,
    pub transfer: Option<TransferStatus>,
}

impl View for VarlinkEvent {
    type V = VarlinkModel;

    open spec fn view(&self) -> VarlinkModel {
        VarlinkModel {
            event_type: self.event_type@,
            device_id: self.device_id@,
            device: match self.device {
                Some(d) => Some(d@),
                None => None,
            },
            message: self.message.deep_view(),
            clipboard_content: self.clipboard_content.deep_view(),
            battery: self.battery,
            connectivity_strength: self.connectivity_strength,
            commands_json: self.commands_json.deep_view(),
            transfer: self.transfer,
        }
    }
}

/// An event that names only its kind and its device.
pub open spec fn notice(event_type: Seq<char>, device_id: Seq<char>) -> VarlinkModel {
    VarlinkModel {
        event_type,
        device_id,
        device: None,
        message: None,
        clipboard_content: None,
        battery: None,
        connectivity_strength: None,
        commands_json: None,
        transfer: None,
    }
}

fn make_notice(event_type: &str, device_id: &str) -> (r: VarlinkEvent)
    ensures
        r@ == notice(event_type@, device_id@),
{
    VarlinkEvent {
        event_type: event_type.to_owned(),
        device_id: device_id.to_owned(),
        device: None,
        message: None,
        clipboard_content: None,
        battery: None,
        connectivity_strength: None,
        commands_json: None,
        transfer: None,
    }
}

/// What the service does when something happens.
#[derive(Debug, PartialEq, Eq)]
pub enum ServiceAction {
    Emit(Signal),
    Broadcast(VarlinkEvent),
    /// Tell the device what the clipboard of this desktop holds.
    OfferClipboard(String),
    /// Put the text into the clipboard of this desktop.
    SetClipboard(String),
    SaveContacts { device_id: String, json: String },
    SaveContactPhotos { device_id: String, json: String },
    SaveSms { device_id: String, json: String },
    /// Unmount the share of a device that is gone.
    Unmount { device_id: String, device_name: String },
    /// Send a packet after a while.
    SendLater { delay_ms: u64, device_id: String, packet: ProtocolPacket },
}

/// What the service does, as a value.
pub enum ActionModel {
    Emit(SignalModel),
    Broadcast(VarlinkModel),
    OfferClipboard(Seq<char>),
    SetClipboard(Seq<char>),
    SaveContacts { device_id: Seq<char>, json: Seq<char> },
    SaveContactPhotos { device_id: Seq<char>, json: Seq<char> },
    SaveSms { device_id: Seq<char>, json: Seq<char> },
    Unmount { device_id: Seq<char>, device_name: Seq<char> },
    SendLater { delay_ms: u64, device_id: Seq<char>, packet: PacketModel },
}

impl View for ServiceAction {
    type V = ActionModel;

    open spec fn view(&self) -> ActionModel {
        match self {
            ServiceAction::Emit(s) => ActionModel::Emit(s@),
            ServiceAction::Broadcast(e) => ActionModel::Broadcast(e@),
            ServiceAction::OfferClipboard(id) => ActionModel::OfferClipboard(id@),
            ServiceAction::SetClipboard(c) => ActionModel::SetClipboard(c@),
            ServiceAction::SaveContacts { device_id, json } => ActionModel::SaveContacts {
                device_id: device_id@,
                json: json@,
            },
            ServiceAction::SaveContactPhotos {
                device_id,
                json,
            } => ActionModel::SaveContactPhotos { device_id: device_id@, json: json@ },
            ServiceAction::SaveSms { device_id, json } => ActionModel::SaveSms {
                device_id: device_id@,
                json: json@,
            },
            ServiceAction::Unmount { device_id, device_name } => ActionModel::Unmount {
                device_id: device_id@,
                device_name: device_name@,
            },
            ServiceAction::SendLater { delay_ms, device_id, packet } => ActionModel::SendLater {
                delay_ms: *delay_ms,
                device_id: device_id@,
                packet: packet@,
            },
        }
    }
}

/// What is around the service when something happens.
#[derive(Debug, PartialEq, Eq)]
pub struct Surroundings {
    /// The contacts that are stored for the device, where there are any.
    pub contacts_file: Option<String>,
    /// The messages that are stored for the device, where there are any.
    pub sms_file: Option<String>,
    /// The messages of the event as JSON.
    pub messages_json: String,
    /// When the clipboard of this desktop last changed; 0 where it is empty or
    /// out of reach.
    pub clipboard_timestamp: u64,
    /// Whether the clipboard of this desktop is within reach.
    pub clipboard_available: bool,
}

/// What the service knows.
#[derive(Debug)]
pub struct KdeConnectService {
    pub devices: TextMap<DbusDevice>,
    pub current_device_id: Option<String>,
    /// Messages as JSON, by device.
    pub sms_cache: TextMap<String>,
    pub transfers: RecentTransfers,
}

/// What the service knows, as a value.
#[verifier::ext_equal]
pub struct ServiceModel {
    pub devices: Map<Seq<char>, DbusDeviceModel>,
    pub current: Option<Seq<char>>,
    pub sms: Map<Seq<char>, Seq<char>>,
    pub transfers: Seq<TransferStatus>,
}

impl View for KdeConnectService {
    type V = ServiceModel;

    open spec fn view(&self) -> ServiceModel {
        ServiceModel {
            devices: self.devices@,
            current: self.current_device_id.deep_view(),
            sms: self.sms_cache@,
            transfers: self.transfers.list(),
        }
    }
}

/// Whether the clipboard of a device that connects is newer than that of this
/// desktop. Without a time of its own it is not.
pub open spec fn newer_clipboard(remote: Option<u64>, local: u64) -> bool {
    match remote {
        Some(t) => t > 0 && t >= local,
        None => false,
    }
}

/// Whether to take over the clipboard of a device that connects.
pub fn should_accept_connect(remote: Option<u64>, local: u64) -> (r: bool)
    ensures
        r == newer_clipboard(remote, local),
        r <==> remote is Some && remote->0 > 0 && remote->0 >= local,
{
    match remote {
        Some(t) => t > 0 && t >= local,
        None => false,
    }
}

/// The service after something happened.
pub open spec fn after_event(s: ServiceModel, event: ConnectionEvent, around: Surroundings) -> ServiceModel {
    match event {
        ConnectionEvent::Connected(id, device) => {
            let paired = device@.pair_state == PairState::Paired;
            ServiceModel {
                devices: s.devices.insert(id@, phone(id@, device@.name, paired, true)),
                current: Some(id@),
                sms: if paired && !s.sms.contains_key(id@) && stored_sms(around) is Some {
                    s.sms.insert(id@, stored_sms(around)->0)
                } else {
                    s.sms
                },
                ..s
            }
        },
        ConnectionEvent::DevicePaired(id, device) => ServiceModel {
            devices: s.devices.insert(id@, phone(id@, device@.name, true, true)),
            current: Some(id@),
            ..s
        },
        ConnectionEvent::Disconnected(id) => ServiceModel {
            devices: if s.devices.contains_key(id@) {
                s.devices.insert(
                    id@,
                    DbusDeviceModel { is_reachable: false, ..s.devices[id@] },
                )
            } else {
                s.devices
            },
            current: if s.current == Some(id@) {
                None
            } else {
                s.current
            },
            ..s
        },
        ConnectionEvent::PairStateChanged(id, state) => ServiceModel {
            devices: with_pairing(s.devices, id@, state),
            ..s
        },
        ConnectionEvent::SmsMessages(id, _) => ServiceModel {
            sms: s.sms.insert(id@, around.messages_json@),
            ..s
        },
        ConnectionEvent::TransferStatus(status) => ServiceModel {
            transfers: transfer::with_report(s.transfers, SERVICE_TRANSFERS as int, status),
            ..s
        },
        _ => s,
    }
}

/// The devices after the pairing of one changed.
pub open spec fn with_pairing(
    devices: Map<Seq<char>, DbusDeviceModel>,
    id: Seq<char>,
    state: PairState,
) -> Map<Seq<char>, DbusDeviceModel> {
    if devices.contains_key(id) {
        devices.insert(
            id,
            DbusDeviceModel { is_paired: state == PairState::Paired, ..devices[id] },
        )
    } else {
        devices
    }
}

/// The messages that are stored for a device. An empty file holds none.
pub open spec fn stored_sms(around: Surroundings) -> Option<Seq<char>> {
    if around.sms_file is Some && around.sms_file->0@.len() > 0 {
        Some(around.sms_file->0@)
    } else {
        None
    }
}

/// The contacts that are stored for a device, where they can be read.
pub open spec fn stored_contacts(around: Surroundings) -> Option<Map<Seq<char>, Seq<char>>> {
    match around.contacts_file {
        Some(file) => json::json_text_map(file@),
        None => None,
    }
}

/// The current device, or nothing.
pub open spec fn current_or_empty(s: ServiceModel) -> Seq<char> {
    match s.current {
        Some(id) => id,
        None => Seq::empty(),
    }
}

/// What is told about text from the clipboard of a device.
pub open spec fn clipboard_actions(s: ServiceModel, content: Seq<char>, available: bool) -> Seq<ActionModel> {
    let told = seq![
        ActionModel::Emit(SignalModel::ClipboardReceived(content)),
        ActionModel::Broadcast(
            VarlinkModel {
                clipboard_content: Some(content),
                ..notice("clipboard_received"@, current_or_empty(s))
            },
        ),
    ];
    if available {
        seq![ActionModel::SetClipboard(content)] + told
    } else {
        told
    }
}

/// A remote command as texts.
pub open spec fn command_view(c: RemoteCommand) -> (Seq<char>, Seq<char>, Seq<char>) {
    (c.key@, c.name@, c.command@)
}

/// The keys and names of remote commands.
pub open spec fn keys_and_names(commands: Seq<RemoteCommand>) -> Seq<
    (Option<Seq<char>>, Option<Seq<char>>),
> {
    commands.map_values(|c: RemoteCommand| (Some(c.key@), Some(c.name@)))
}

/// Remote commands as JSON.
pub open spec fn commands_json(commands: Seq<RemoteCommand>) -> Seq<char> {
    json::list_json(
        commands.map_values(|c: RemoteCommand| command_view(c)),
        "key"@,
        "name"@,
        "command"@,
    )
}

/// What the service does when something happens.
pub open spec fn actions_for(s: ServiceModel, event: ConnectionEvent, around: Surroundings) -> Seq<ActionModel> {
    match event {
        ConnectionEvent::Connected(id, device) => {
            let paired = device@.pair_state == PairState::Paired;
            let d = phone(id@, device@.name, paired, true);
            let told = seq![
                ActionModel::Emit(SignalModel::DeviceConnected(id@, d)),
                ActionModel::Broadcast(
                    VarlinkModel { device: Some(d), ..notice("device_connected"@, id@) },
                ),
            ];
            if !paired {
                told
            } else {
                let offered = told.push(ActionModel::OfferClipboard(id@));
                match stored_contacts(around) {
                    Some(m) => offered.push(
                        ActionModel::Emit(SignalModel::ContactsReceived(json::text_map_json(m))),
                    ),
                    None => offered,
                }
            }
        },
        ConnectionEvent::DevicePaired(id, device) => {
            let d = phone(id@, device@.name, true, true);
            seq![
                ActionModel::Emit(SignalModel::DevicePaired(id@, d)),
                ActionModel::OfferClipboard(id@),
                ActionModel::Broadcast(
                    VarlinkModel { device: Some(d), ..notice("device_paired"@, id@) },
                ),
                ActionModel::SendLater {
                    delay_ms: 2000,
                    device_id: id@,
                    packet: packet::object(PacketType::SmsRequestConversations, Seq::empty()),
                },
                ActionModel::SendLater {
                    delay_ms: 2500,
                    device_id: id@,
                    packet: packet::object(
                        PacketType::ContactsRequestAllUidsTimestamps,
                        Seq::empty(),
                    ),
                },
            ]
        },
        ConnectionEvent::Disconnected(id) => {
            let told = seq![
                ActionModel::Emit(SignalModel::DeviceDisconnected(id@)),
                ActionModel::Broadcast(notice("device_disconnected"@, id@)),
            ];
            if s.devices.contains_key(id@) {
                seq![
                    ActionModel::Unmount { device_id: id@, device_name: s.devices[id@].name },
                ] + told
            } else {
                told
            }
        },
        ConnectionEvent::PairStateChanged(id, state) => if s.devices.contains_key(id@) {
            let d = with_pairing(s.devices, id@, state)[id@];
            seq![
                ActionModel::Emit(SignalModel::DeviceConnected(id@, d)),
                ActionModel::Broadcast(
                    VarlinkModel { device: Some(d), ..notice("device_connected"@, id@) },
                ),
            ]
        } else {
            Seq::empty()
        },
        ConnectionEvent::SmsMessages(id, _) => seq![
            ActionModel::SaveSms { device_id: id@, json: around.messages_json@ },
            ActionModel::Emit(SignalModel::SmsMessagesReceived(id@, around.messages_json@)),
        ],
        ConnectionEvent::ContactsReceived(contacts) => {
            let json = json::text_map_json(contacts@);
            let told = seq![ActionModel::Emit(SignalModel::ContactsReceived(json))];
            match s.current {
                Some(id) => seq![ActionModel::SaveContacts { device_id: id, json }] + told,
                None => told,
            }
        },
        ConnectionEvent::ContactPhotosReceived(photos) => {
            let json = json::text_map_json(photos@);
            let told = seq![ActionModel::Emit(SignalModel::ContactPhotosReceived(json))];
            match s.current {
                Some(id) => seq![ActionModel::SaveContactPhotos { device_id: id, json }] + told,
                None => told,
            }
        },
        ConnectionEvent::SmsAttachmentReceived(id, filename, path) => seq![
            ActionModel::Emit(SignalModel::SmsAttachmentReceived(id@, filename@, path@)),
        ],
        ConnectionEvent::UpdateTransferProgress(p) => seq![
            ActionModel::Emit(SignalModel::UpdateTransferProgress(p)),
        ],
        ConnectionEvent::PairingRequested(id, name) => seq![
            ActionModel::Emit(SignalModel::PairingRequested(id@, name@)),
            ActionModel::Broadcast(
                VarlinkModel { message: Some(name@), ..notice("pairing_requested"@, id@) },
            ),
        ],
        ConnectionEvent::ClipboardReceived(content) => clipboard_actions(
            s,
            content@,
            around.clipboard_available,
        ),
        ConnectionEvent::ClipboardConnectReceived { content, timestamp } => if newer_clipboard(
            timestamp,
            around.clipboard_timestamp,
        ) {
            clipboard_actions(s, content@, around.clipboard_available)
        } else {
            Seq::empty()
        },
        ConnectionEvent::StateUpdated(state) => match s.current {
            Some(id) => match state {
                DeviceState::Battery { level, charging } => seq![
                    ActionModel::Emit(SignalModel::BatteryReceived(id, level as i32, charging)),
                    ActionModel::Broadcast(
                        VarlinkModel {
                            battery: Some((level as i64, charging)),
                            ..notice("battery_received"@, id)
                        },
                    ),
                ],
                DeviceState::Connectivity((_, strength)) => seq![
                    ActionModel::Emit(SignalModel::ConnectivityReceived(id, strength)),
                    ActionModel::Broadcast(
                        VarlinkModel {
                            connectivity_strength: Some(strength as i64),
                            ..notice("connectivity_received"@, id)
                        },
                    ),
                ],
            },
            None => Seq::empty(),
        },
        ConnectionEvent::RunCommandListReceived(id, commands) => seq![
            ActionModel::Emit(
                SignalModel::RunCommandListReceived(id@, commands_json(commands@)),
            ),
            ActionModel::Broadcast(
                VarlinkModel {
                    commands_json: Some(commands_json(commands@)),
                    ..notice("run_command_list_received"@, id@)
                },
            ),
        ],
        ConnectionEvent::SftpMountStateChanged(id, mounted) => seq![
            ActionModel::Emit(SignalModel::MountStateChanged(id@, mounted)),
        ],
        ConnectionEvent::SftpBrowseFailed(id, message) => seq![
            ActionModel::Emit(SignalModel::BrowseFailed(id@, message@)),
            ActionModel::Broadcast(
                VarlinkModel { message: Some(message@), ..notice("browse_failed"@, id@) },
            ),
        ],
        ConnectionEvent::TransferStatus(status) => seq![
            ActionModel::Emit(SignalModel::TransferStatus(status)),
            ActionModel::Broadcast(
                VarlinkModel {
                    transfer: Some(status),
                    ..notice("transfer_status"@, status.device_id@)
                },
            ),
        ],
        ConnectionEvent::Mpris(_, _) => Seq::empty(),
    }
}

fn no_action() -> (r: Vec<ServiceAction>)
    ensures
        order::views(r@) == Seq::<ActionModel>::empty(),
{
    let r: Vec<ServiceAction> = Vec::new();
    proof {
        assert(order::views(r@) =~= Seq::<ActionModel>::empty());
    }
    r
}

fn then_do(actions: Vec<ServiceAction>, next: ServiceAction) -> (r: Vec<ServiceAction>)
    ensures
        order::views(r@) == order::views(actions@).push(next@),
{
    let ghost before = actions@;
    let mut r = actions;
    r.push(next);
    proof {
        assert(order::views(r@) =~= order::views(before).push(next@));
    }
    r
}

fn one_action(a: ServiceAction) -> (r: Vec<ServiceAction>)
    ensures
        order::views(r@) == seq![a@],
{
    let r = then_do(no_action(), a);
    proof {
        assert(order::views(r@) =~= seq![a@]);
    }
    r
}

fn two_actions(a: ServiceAction, b: ServiceAction) -> (r: Vec<ServiceAction>)
    ensures
        order::views(r@) == seq![a@, b@],
{
    let r = then_do(one_action(a), b);
    proof {
        assert(order::views(r@) =~= seq![a@, b@]);
    }
    r
}

/// Remote commands as JSON.
fn write_commands(commands: &Vec<RemoteCommand>) -> (r: String)
    ensures
        r@ == commands_json(commands@),
        json::json_list_members(r@, "key"@, "name"@) == Some(keys_and_names(commands@)),
{
    let mut list: Vec<(String, String, String)> = Vec::new();
    let mut i: usize = 0;
    while i < commands.len()
        invariant
            i <= commands@.len(),
            list@.len() == i,
            forall|k: int|
                0 <= k < i ==> (#[trigger] list@[k]).0@ == commands@[k].key@ && list@[k].1@
                    == commands@[k].name@ && list@[k].2@ == commands@[k].command@,
        decreases commands@.len() - i,
    {
        let c = &commands[i];
        list.push((c.key.clone(), c.name.clone(), c.command.clone()));
        i = i + 1;
    }
    proof {
        assert(list.deep_view() =~= commands@.map_values(|c: RemoteCommand| command_view(c)));
        reveal_strlit("key");
        reveal_strlit("name");
        reveal_strlit("command");
        assert("key"@.len() == 3 && "name"@.len() == 4 && "command"@.len() == 7);
    }
    let r = json::list_text(&list, "key", "name", "command");
    proof {
        assert(list.deep_view().map_values(
            |p: (Seq<char>, Seq<char>, Seq<char>)| (Some(p.0), Some(p.1)),
        ) =~= keys_and_names(commands@));
    }
    r
}

/// A record of a device that is to be shown while it is away: its file has the
/// right extension, and it is paired.
pub open spec fn shown_offline(path: Seq<char>, record: Option<DeviceModel>) -> bool {
    &&& match paths::file_name(path) {
        Some(name) => paths::extension(name) == Some("ron"@),
        None => false,
    }
    &&& record is Some
    &&& record->0.pair_state == PairState::Paired
}

/// The record behind a file, as a value.
pub open spec fn record_view(e: (String, Option<Device>)) -> (Seq<char>, Option<DeviceModel>) {
    (
        e.0@,
        match e.1 {
            Some(d) => Some(d@),
            None => None,
        },
    )
}

/// The devices that are shown from their records, before any has connected.
pub open spec fn restored_devices(files: Seq<(Seq<char>, Option<DeviceModel>)>) -> Map<
    Seq<char>,
    DbusDeviceModel,
>
    decreases files.len(),
{
    if files.len() == 0 {
        Map::empty()
    } else {
        let before = restored_devices(files.drop_last());
        let (path, record) = files.last();
        if shown_offline(path, record) {
            let d = record->0;
            before.insert(d.device_id, phone(d.device_id, d.name, true, false))
        } else {
            before
        }
    }
}

fn is_record(path: &str) -> (r: bool)
    ensures
        r == (match paths::file_name(path@) {
            Some(name) => paths::extension(name) == Some("ron"@),
            None => false,
        }),
{
    match file_name_of(path) {
        Some(name) => match split_extension(&name).1 {
            Some(e) => same(&e, "ron"),
            None => false,
        },
        None => false,
    }
}

impl KdeConnectService {
    /// The maps hold no key twice, and the transfers keep their limit.
    pub open spec fn wf(&self) -> bool {
        &&& self.devices.wf()
        &&& self.sms_cache.wf()
        &&& self.transfers.wf()
        &&& self.transfers.limit() == SERVICE_TRANSFERS
    }

    /// The service as it starts. `files` are the files of the configuration
    /// directory, each with the record in it where one could be read; paired
    /// devices are shown although they have not connected yet.
    pub fn new(files: &Vec<(String, Option<Device>)>) -> (r: KdeConnectService)
        ensures
            r.wf(),
            r@ == (ServiceModel {
                devices: restored_devices(
                    files@.map_values(|e: (String, Option<Device>)| record_view(e)),
                ),
                current: None,
                sms: Map::empty(),
                transfers: Seq::empty(),
            }),
            r.transfers.limit() == 50,
    {
        let ghost all = files@.map_values(|e: (String, Option<Device>)| record_view(e));
        let mut devices: TextMap<DbusDevice> = TextMap::new();
        let mut i: usize = 0;
        proof {
            assert(all.take(0) =~= Seq::empty());
        }
        while i < files.len()
            invariant
                i <= files@.len(),
                all == files@.map_values(|e: (String, Option<Device>)| record_view(e)),
                devices.wf(),
                devices@ == restored_devices(all.take(i as int)),
            decreases files@.len() - i,
        {
            proof {
                assert(all.take(i + 1).drop_last() =~= all.take(i as int));
                assert(all.take(i + 1).last() == record_view(files@[i as int]));
            }
            if is_record(&files[i].0) {
                if let Some(d) = &files[i].1 {
                    if d.pair_state == PairState::Paired {
                        devices.insert(
                            d.device_id.0.clone(),
                            make_phone(&d.device_id.0, &d.name, true, false),
                        );
                    }
                }
            }
            i = i + 1;
        }
        proof {
            assert(all.take(i as int) =~= all);
        }
        let r = KdeConnectService {
            devices,
            current_device_id: None,
            sms_cache: TextMap::new(),
            transfers: RecentTransfers::new(SERVICE_TRANSFERS),
        };
        proof {
            assert(r@.transfers =~= Seq::empty());
        }
        r
    }

    fn is_current(&self, id: &str) -> (r: bool)
        ensures
            r == (self@.current == Some(id@)),
    {
        match &self.current_device_id {
            Some(c) => same(c, id),
            None => false,
        }
    }

    fn on_connected(&mut self, id: DeviceId, device: &Device, around: &Surroundings) -> (r: Vec<
        ServiceAction,
    >)
        requires
            old(self).wf(),
        ensures
            final(self).wf(),
            final(self)@ == after_event(
                old(self)@,
                ConnectionEvent::Connected(id, *device),
                *around,
            ),
            order::views(r@) == actions_for(
                old(self)@,
                ConnectionEvent::Connected(id, *device),
                *around,
            ),
    {
        let ghost s = self@;
        let paired = device.pair_state == PairState::Paired;
        let shown = make_phone(&id.0, &device.name, paired, true);
        self.current_device_id = Some(id.0.clone());
        self.devices.insert(id.0.clone(), shown.duplicate());
        let mut event = make_notice("device_connected", &id.0);
        event.device = Some(shown.duplicate());
        let mut r = two_actions(
            ServiceAction::Emit(Signal::DeviceConnected(id.0.clone(), shown)),
            ServiceAction::Broadcast(event),
        );
        if paired {
            r = then_do(r, ServiceAction::OfferClipboard(id.0.clone()));
            if let Some(file) = &around.contacts_file {
                if let Some(map) = json::read_text_map(file) {
                    r = then_do(
                        r,
                        ServiceAction::Emit(Signal::ContactsReceived(json::text_map_text(&map))),
                    );
                }
            }
            if !self.sms_cache.contains_key(&id.0) {
                if let Some(file) = &around.sms_file {
                    if !file.as_str().is_empty() {
                        self.sms_cache.insert(id.0.clone(), file.clone());
                    }
                }
            }
        }
        proof {
            let e = ConnectionEvent::Connected(id, *device);
            assert(self@ =~= after_event(s, e, *around));
            assert(order::views(r@) =~= actions_for(s, e, *around));
        }
        r
    }

    fn on_paired(&mut self, id: DeviceId, device: &Device, around: &Surroundings) -> (r: Vec<
        ServiceAction,
    >)
        requires
            old(self).wf(),
        ensures
            final(self).wf(),
            final(self)@ == after_event(
                old(self)@,
                ConnectionEvent::DevicePaired(id, *device),
                *around,
            ),
            order::views(r@) == actions_for(
                old(self)@,
                ConnectionEvent::DevicePaired(id, *device),
                *around,
            ),
    {
        let ghost s = self@;
        let shown = make_phone(&id.0, &device.name, true, true);
        self.current_device_id = Some(id.0.clone());
        self.devices.insert(id.0.clone(), shown.duplicate());
        let mut event = make_notice("device_paired", &id.0);
        event.device = Some(shown.duplicate());
        let mut r = two_actions(
            ServiceAction::Emit(Signal::DevicePaired(id.0.clone(), shown)),
            ServiceAction::OfferClipboard(id.0.clone()),
        );
        r = then_do(r, ServiceAction::Broadcast(event));
        r = then_do(
            r,
            ServiceAction::SendLater {
                delay_ms: 2000,
                device_id: id.0.clone(),
                packet: ProtocolPacket::bare(PacketType::SmsRequestConversations),
            },
        );
        r = then_do(
            r,
            ServiceAction::SendLater {
                delay_ms: 2500,
                device_id: id.0.clone(),
                packet: ProtocolPacket::bare(PacketType::ContactsRequestAllUidsTimestamps),
            },
        );
        proof {
            let e = ConnectionEvent::DevicePaired(id, *device);
            assert(self@ =~= after_event(s, e, *around));
            assert(order::views(r@) =~= actions_for(s, e, *around));
        }
        r
    }

    fn on_disconnected(&mut self, id: DeviceId, around: &Surroundings) -> (r: Vec<ServiceAction>)
        requires
            old(self).wf(),
        ensures
            final(self).wf(),
            final(self)@ == after_event(old(self)@, ConnectionEvent::Disconnected(id), *around),
            order::views(r@) == actions_for(
                old(self)@,
                ConnectionEvent::Disconnected(id),
                *around,
            ),
    {
        let ghost s = self@;
        let mut r = no_action();
        let known = match self.devices.get(&id.0) {
            Some(d) => Some(d.duplicate()),
            None => None,
        };
        if let Some(d) = known {
            r = then_do(
                r,
                ServiceAction::Unmount { device_id: id.0.clone(), device_name: d.name.clone() },
            );
            let mut gone = d;
            gone.is_reachable = false;
            self.devices.insert(id.0.clone(), gone);
        }
        if self.is_current(&id.0) {
            self.current_device_id = None;
        }
        r = then_do(r, ServiceAction::Emit(Signal::DeviceDisconnected(id.0.clone())));
        r = then_do(r, ServiceAction::Broadcast(make_notice("device_disconnected", &id.0)));
        proof {
            let e = ConnectionEvent::Disconnected(id);
            assert(self@ =~= after_event(s, e, *around));
            assert(order::views(r@) =~= actions_for(s, e, *around));
        }
        r
    }

    fn on_pair_state(&mut self, id: DeviceId, state: PairState, around: &Surroundings) -> (r: Vec<
        ServiceAction,
    >)
        requires
            old(self).wf(),
        ensures
            final(self).wf(),
            final(self)@ == after_event(
                old(self)@,
                ConnectionEvent::PairStateChanged(id, state),
                *around,
            ),
            order::views(r@) == actions_for(
                old(self)@,
                ConnectionEvent::PairStateChanged(id, state),
                *around,
            ),
    {
        let ghost s = self@;
        let known = match self.devices.get(&id.0) {
            Some(d) => Some(d.duplicate()),
            None => None,
        };
        let r = match known {
            Some(d) => {
                let mut now = d;
                now.is_paired = state == PairState::Paired;
                self.devices.insert(id.0.clone(), now.duplicate());
                let mut event = make_notice("device_connected", &id.0);
                event.device = Some(now.duplicate());
                two_actions(
                    ServiceAction::Emit(Signal::DeviceConnected(id.0.clone(), now)),
                    ServiceAction::Broadcast(event),
                )
            },
            None => no_action(),
        };
        proof {
            let e = ConnectionEvent::PairStateChanged(id, state);
            assert(self@ =~= after_event(s, e, *around));
            assert(order::views(r@) =~= actions_for(s, e, *around));
        }
        r
    }

    fn tell_clipboard(&self, content: String, available: bool) -> (r: Vec<ServiceAction>)
        ensures
            order::views(r@) == clipboard_actions(self@, content@, available),
    {
        let mut r = no_action();
        if available {
            r = then_do(r, ServiceAction::SetClipboard(content.clone()));
        }
        let id = match &self.current_device_id {
            Some(c) => c.clone(),
            None => String::new(),
        };
        let mut event = make_notice("clipboard_received", &id);
        event.clipboard_content = Some(content.clone());
        r = then_do(r, ServiceAction::Emit(Signal::ClipboardReceived(content)));
        r = then_do(r, ServiceAction::Broadcast(event));
        proof {
            assert(order::views(r@) =~= clipboard_actions(self@, content@, available));
        }
        r
    }

    fn tell_state(&self, state: &DeviceState, around: &Surroundings) -> (r: Vec<ServiceAction>)
        ensures
            order::views(r@) == actions_for(
                self@,
                ConnectionEvent::StateUpdated(*state),
                *around,
            ),
    {
        let id = match &self.current_device_id {
            Some(c) => c.clone(),
            None => {
                return no_action();
            },
        };
        match state {
            DeviceState::Battery { level, charging } => {
                let mut event = make_notice("battery_received", &id);
                event.battery = Some((*level as i64, *charging));
                two_actions(
                    ServiceAction::Emit(Signal::BatteryReceived(id, *level as i32, *charging)),
                    ServiceAction::Broadcast(event),
                )
            },
            DeviceState::Connectivity((_, strength)) => {
                let mut event = make_notice("connectivity_received", &id);
                event.connectivity_strength = Some(*strength as i64);
                two_actions(
                    ServiceAction::Emit(Signal::ConnectivityReceived(id, *strength)),
                    ServiceAction::Broadcast(event),
                )
            },
        }
    }

    fn tell_contacts(&self, contacts: &TextMap<String>, photos: bool) -> (r: Vec<ServiceAction>)
        requires
            contacts.wf(),
        ensures
            ({
                let json = json::text_map_json(contacts@);
                let told = seq![
                    ActionModel::Emit(
                        if photos {
                            SignalModel::ContactPhotosReceived(json)
                        } else {
                            SignalModel::ContactsReceived(json)
                        },
                    ),
                ];
                &&& order::views(r@) == (match self@.current {
                    Some(id) => seq![
                        if photos {
                            ActionModel::SaveContactPhotos { device_id: id, json }
                        } else {
                            ActionModel::SaveContacts { device_id: id, json }
                        },
                    ] + told,
                    None => told,
                })
                &&& json::json_text_map(json) == Some(contacts@)
            }),
    {
        let json = json::text_map_text(contacts);
        let mut r = no_action();
        if let Some(id) = &self.current_device_id {
            r = then_do(
                r,
                if photos {
                    ServiceAction::SaveContactPhotos { device_id: id.clone(), json: json.clone() }
                } else {
                    ServiceAction::SaveContacts { device_id: id.clone(), json: json.clone() }
                },
            );
        }
        r = then_do(
            r,
            ServiceAction::Emit(
                if photos {
                    Signal::ContactPhotosReceived(json)
                } else {
                    Signal::ContactsReceived(json)
                },
            ),
        );
        r
    }

    /// Takes note of what happened, and says what to do about it.
    pub fn handle_event(&mut self, event: ConnectionEvent, around: &Surroundings) -> (r: Vec<
        ServiceAction,
    >)
        requires
            old(self).wf(),
            event matches ConnectionEvent::ContactsReceived(m) ==> m.wf(),
            event matches ConnectionEvent::ContactPhotosReceived(m) ==> m.wf(),
        ensures
            final(self).wf(),
            final(self)@ == after_event(old(self)@, event, *around),
            order::views(r@) == actions_for(old(self)@, event, *around),
            event matches ConnectionEvent::ContactsReceived(m) ==> json::json_text_map(
                json::text_map_json(m@),
            ) == Some(m@),
            event matches ConnectionEvent::ContactPhotosReceived(m) ==> json::json_text_map(
                json::text_map_json(m@),
            ) == Some(m@),
            event matches ConnectionEvent::RunCommandListReceived(_, commands)
                ==> json::json_list_members(commands_json(commands@), "key"@, "name"@) == Some(
                keys_and_names(commands@),
            ),
    {
        match event {
            ConnectionEvent::Connected(id, device) => self.on_connected(id, &device, around),
            ConnectionEvent::DevicePaired(id, device) => self.on_paired(id, &device, around),
            ConnectionEvent::Disconnected(id) => self.on_disconnected(id, around),
            ConnectionEvent::PairStateChanged(id, state) => self.on_pair_state(id, state, around),
            ConnectionEvent::SmsMessages(id, _) => {
                self.sms_cache.insert(id.0.clone(), around.messages_json.clone());
                two_actions(
                    ServiceAction::SaveSms {
                        device_id: id.0.clone(),
                        json: around.messages_json.clone(),
                    },
                    ServiceAction::Emit(
                        Signal::SmsMessagesReceived(id.0, around.messages_json.clone()),
                    ),
                )
            },
            ConnectionEvent::ContactsReceived(contacts) => self.tell_contacts(&contacts, false),
            ConnectionEvent::ContactPhotosReceived(photos) => self.tell_contacts(&photos, true),
            ConnectionEvent::SmsAttachmentReceived(id, filename, path) => one_action(
                ServiceAction::Emit(Signal::SmsAttachmentReceived(id.0, filename, path)),
            ),
            ConnectionEvent::UpdateTransferProgress(p) => one_action(
                ServiceAction::Emit(Signal::UpdateTransferProgress(p)),
            ),
            ConnectionEvent::PairingRequested(id, name) => {
                let mut notice = make_notice("pairing_requested", &id.0);
                notice.message = Some(name.clone());
                two_actions(
                    ServiceAction::Emit(Signal::PairingRequested(id.0, name)),
                    ServiceAction::Broadcast(notice),
                )
            },
            ConnectionEvent::ClipboardReceived(content) => self.tell_clipboard(
                content,
                around.clipboard_available,
            ),
            ConnectionEvent::ClipboardConnectReceived { content, timestamp } => {
                if should_accept_connect(timestamp, around.clipboard_timestamp) {
                    self.tell_clipboard(content, around.clipboard_available)
                } else {
                    no_action()
                }
            },
            ConnectionEvent::StateUpdated(state) => self.tell_state(&state, around),
            ConnectionEvent::RunCommandListReceived(id, commands) => {
                let json = write_commands(&commands);
                let mut notice = make_notice("run_command_list_received", &id.0);
                notice.commands_json = Some(json.clone());
                two_actions(
                    ServiceAction::Emit(Signal::RunCommandListReceived(id.0, json)),
                    ServiceAction::Broadcast(notice),
                )
            },
            ConnectionEvent::SftpMountStateChanged(id, mounted) => one_action(
                ServiceAction::Emit(Signal::MountStateChanged(id.0, mounted)),
            ),
            ConnectionEvent::SftpBrowseFailed(id, message) => {
                let mut notice = make_notice("browse_failed", &id.0);
                notice.message = Some(message.clone());
                two_actions(
                    ServiceAction::Emit(Signal::BrowseFailed(id.0, message)),
                    ServiceAction::Broadcast(notice),
                )
            },
            ConnectionEvent::TransferStatus(status) => {
                let mut notice = make_notice("transfer_status", &status.device_id);
                notice.transfer = Some(status.copy());
                self.transfers.record(status.copy());
                two_actions(
                    ServiceAction::Emit(Signal::TransferStatus(status)),
                    ServiceAction::Broadcast(notice),
                )
            },
            ConnectionEvent::Mpris(_, _) => no_action(),
        }
    }
}

/// The messages of one phone never end up with another: only the phone that
/// sent them, and the one that connects, get new messages.
pub proof fn lemma_messages_stay_with_their_device(
    s: ServiceModel,
    event: ConnectionEvent,
    around: Surroundings,
    other: Seq<char>,
)
    requires
        event matches ConnectionEvent::SmsMessages(id, _) ==> id@ != other,
        event matches ConnectionEvent::Connected(id, _) ==> id@ != other,
    ensures
        after_event(s, event, around).sms.contains_key(other) == s.sms.contains_key(other),
        s.sms.contains_key(other) ==> after_event(s, event, around).sms[other] == s.sms[other],
{
}

/// Two phones keep their messages apart, in whatever order they come.
pub proof fn lemma_two_phones_keep_their_messages(
    s: ServiceModel,
    first: ConnectionEvent,
    second: ConnectionEvent,
    a: Surroundings,
    b: Surroundings,
)
    requires
        first is SmsMessages,
        second is SmsMessages,
        first->SmsMessages_0@ != second->SmsMessages_0@,
    ensures
        ({
            let now = after_event(after_event(s, first, a), second, b);
            &&& now.sms.contains_key(first->SmsMessages_0@)
            &&& now.sms[first->SmsMessages_0@] == a.messages_json@
            &&& now.sms.contains_key(second->SmsMessages_0@)
            &&& now.sms[second->SmsMessages_0@] == b.messages_json@
        }),
{
}

/// A device stays in the list whatever happens, so that it can be paired again
/// after it is gone.
pub proof fn lemma_devices_stay_listed(
    s: ServiceModel,
    event: ConnectionEvent,
    around: Surroundings,
    id: Seq<char>,
)
    requires
        s.devices.contains_key(id),
    ensures
        after_event(s, event, around).devices.contains_key(id),
{
}

/// A device that is gone is not reachable, and reachable again once it
/// connects.
pub proof fn lemma_reachability_follows_the_connection(
    s: ServiceModel,
    id: DeviceId,
    device: Device,
    around: Surroundings,
)
    requires
        s.devices.contains_key(id@),
    ensures
        !after_event(
            s,
            ConnectionEvent::Disconnected(id),
            around,
        ).devices[id@].is_reachable,
        after_event(s, ConnectionEvent::Disconnected(id), around).current != Some(id@),
        after_event(
            s,
            ConnectionEvent::Connected(id, device),
            around,
        ).devices[id@].is_reachable,
{
}

/// A notice names its kind and its device, and carries nothing else.
pub proof fn lemma_notices_carry_nothing(event_type: Seq<char>, device_id: Seq<char>)
    ensures
        ({
            let n = notice(event_type, device_id);
            &&& n.event_type == event_type
            &&& n.device_id == device_id
            &&& n.device is None && n.message is None && n.clipboard_content is None && n.battery
                is None && n.connectivity_strength is None && n.commands_json is None && n.transfer
                is None
        }),
{
}

/// A device that connects is listed under its name, paired if it is and within
/// reach, and becomes the current one; all others stay as they are. It is told,
/// and a paired one is offered the clipboard and gets its stored contacts told.
pub proof fn lemma_connections_are_told(
    s: ServiceModel,
    id: DeviceId,
    device: Device,
    around: Surroundings,
)
    ensures
        ({
            let e = ConnectionEvent::Connected(id, device);
            let r = after_event(s, e, around);
            let a = actions_for(s, e, around);
            let paired = device@.pair_state == PairState::Paired;
            let d = DbusDeviceModel {
                id: id@,
                name: device@.name,
                device_type: "phone"@,
                is_paired: paired,
                is_reachable: true,
            };
            &&& r.devices == s.devices.insert(id@, d)
            &&& r.current == Some(id@)
            &&& r.transfers == s.transfers
            &&& a[0] == ActionModel::Emit(SignalModel::DeviceConnected(id@, d))
            &&& a[1] is Broadcast && a[1]->Broadcast_0.event_type == "device_connected"@
                && a[1]->Broadcast_0.device_id == id@ && a[1]->Broadcast_0.device == Some(d)
            &&& !paired ==> a.len() == 2 && r.sms == s.sms
            &&& paired ==> a.len() >= 3 && a[2] == ActionModel::OfferClipboard(id@)
            &&& paired && around.contacts_file is None ==> a.len() == 3
            &&& paired && around.contacts_file is Some ==> (json::json_text_map(
                around.contacts_file->0@,
            ) matches Some(m) ==> a.len() == 4 && a[3] == ActionModel::Emit(
                SignalModel::ContactsReceived(json::text_map_json(m)),
            ))
            &&& s.sms.contains_key(id@) ==> r.sms == s.sms
            &&& paired && !s.sms.contains_key(id@) && around.sms_file is Some
                && around.sms_file->0@.len() > 0 ==> r.sms == s.sms.insert(
                id@,
                around.sms_file->0@,
            )
            &&& around.sms_file is None ==> r.sms == s.sms
        }),
{
}

/// A device that was paired is listed as paired and within reach and becomes the
/// current one. It is told, is offered the clipboard, and is then asked for its
/// conversations and its contacts.
pub proof fn lemma_pairings_are_told(
    s: ServiceModel,
    id: DeviceId,
    device: Device,
    around: Surroundings,
)
    ensures
        ({
            let e = ConnectionEvent::DevicePaired(id, device);
            let r = after_event(s, e, around);
            let a = actions_for(s, e, around);
            let d = DbusDeviceModel {
                id: id@,
                name: device@.name,
                device_type: "phone"@,
                is_paired: true,
                is_reachable: true,
            };
            &&& r.devices == s.devices.insert(id@, d)
            &&& r.current == Some(id@)
            &&& r.sms == s.sms
            &&& r.transfers == s.transfers
            &&& a.len() == 5
            &&& a[0] == ActionModel::Emit(SignalModel::DevicePaired(id@, d))
            &&& a[1] == ActionModel::OfferClipboard(id@)
            &&& a[2] is Broadcast && a[2]->Broadcast_0.event_type == "device_paired"@
                && a[2]->Broadcast_0.device_id == id@ && a[2]->Broadcast_0.device == Some(d)
            &&& a[3] matches ActionModel::SendLater { delay_ms, device_id, packet } && delay_ms
                == 2000 && device_id == id@ && packet.packet_type is SmsRequestConversations
            &&& a[4] matches ActionModel::SendLater { delay_ms, device_id, packet } && delay_ms
                == 2500 && device_id == id@ && packet.packet_type
                is ContactsRequestAllUidsTimestamps
        }),
{
}

/// A device that is gone stays listed as it was but out of reach, and its share
/// is unmounted; all others stay as they are. One that was never listed changes
/// nothing. Either way it is told.
pub proof fn lemma_disconnections_are_told(s: ServiceModel, id: DeviceId, around: Surroundings)
    ensures
        ({
            let e = ConnectionEvent::Disconnected(id);
            let r = after_event(s, e, around);
            let a = actions_for(s, e, around);
            let n = a.len() as int;
            &&& s.devices.contains_key(id@) ==> r.devices == s.devices.insert(
                id@,
                (DbusDeviceModel {
                    id: s.devices[id@].id,
                    name: s.devices[id@].name,
                    device_type: s.devices[id@].device_type,
                    is_paired: s.devices[id@].is_paired,
                    is_reachable: false,
                }),
            )
            &&& !s.devices.contains_key(id@) ==> r.devices == s.devices && n == 2
            &&& s.current != Some(id@) ==> r.current == s.current
            &&& s.current == Some(id@) ==> r.current is None
            &&& r.sms == s.sms
            &&& r.transfers == s.transfers
            &&& s.devices.contains_key(id@) ==> n == 3 && a[0] == (ActionModel::Unmount {
                device_id: id@,
                device_name: s.devices[id@].name,
            })
            &&& a[n - 2] == ActionModel::Emit(SignalModel::DeviceDisconnected(id@))
            &&& a[n - 1] is Broadcast && a[n - 1]->Broadcast_0.event_type
                == "device_disconnected"@ && a[n - 1]->Broadcast_0.device_id == id@
        }),
{
}

/// A change of pairing of a listed device is shown and told, and changes nothing
/// else.
pub proof fn lemma_pair_changes_are_told(
    s: ServiceModel,
    id: DeviceId,
    state: PairState,
    around: Surroundings,
)
    ensures
        ({
            let e = ConnectionEvent::PairStateChanged(id, state);
            let r = after_event(s, e, around);
            let a = actions_for(s, e, around);
            let d = DbusDeviceModel {
                id: s.devices[id@].id,
                name: s.devices[id@].name,
                device_type: s.devices[id@].device_type,
                is_paired: state == PairState::Paired,
                is_reachable: s.devices[id@].is_reachable,
            };
            &&& !s.devices.contains_key(id@) ==> r == s && a.len() == 0
            &&& s.devices.contains_key(id@) ==> r.devices == s.devices.insert(id@, d) && a.len()
                == 2 && a[0] == ActionModel::Emit(SignalModel::DeviceConnected(id@, d)) && a[1]
                is Broadcast && a[1]->Broadcast_0.event_type == "device_connected"@
                && a[1]->Broadcast_0.device == Some(d) && a[1]->Broadcast_0.device_id == id@
            &&& r.current == s.current
            &&& r.sms == s.sms
            &&& r.transfers == s.transfers
        }),
{
}

/// Messages that a phone sends are kept, saved and told, under the phone that
/// sent them. An attachment that was saved is told with its name and its path.
pub proof fn lemma_messages_are_told(
    s: ServiceModel,
    id: DeviceId,
    messages: crate::sms::SmsMessages,
    filename: String,
    path: String,
    around: Surroundings,
)
    ensures
        ({
            let e = ConnectionEvent::SmsMessages(id, messages);
            &&& after_event(s, e, around) == (ServiceModel {
                sms: s.sms.insert(id@, around.messages_json@),
                ..s
            })
            &&& actions_for(s, e, around) == seq![
                ActionModel::SaveSms { device_id: id@, json: around.messages_json@ },
                ActionModel::Emit(SignalModel::SmsMessagesReceived(id@, around.messages_json@)),
            ]
        }),
        ({
            let e = ConnectionEvent::SmsAttachmentReceived(id, filename, path);
            &&& after_event(s, e, around) == s
            &&& actions_for(s, e, around) == seq![
                ActionModel::Emit(SignalModel::SmsAttachmentReceived(id@, filename@, path@)),
            ]
        }),
{
}

/// Contacts and their photos are told, and saved for the current device.
pub proof fn lemma_contacts_are_told(
    s: ServiceModel,
    contacts: TextMap<String>,
    around: Surroundings,
)
    ensures
        ({
            let json = json::text_map_json(contacts@);
            let a = actions_for(s, ConnectionEvent::ContactsReceived(contacts), around);
            let b = actions_for(s, ConnectionEvent::ContactPhotosReceived(contacts), around);
            &&& after_event(s, ConnectionEvent::ContactsReceived(contacts), around) == s
            &&& after_event(s, ConnectionEvent::ContactPhotosReceived(contacts), around) == s
            &&& a.len() > 0 && a.last() == ActionModel::Emit(SignalModel::ContactsReceived(json))
            &&& b.len() > 0 && b.last() == ActionModel::Emit(
                SignalModel::ContactPhotosReceived(json),
            )
            &&& s.current matches Some(id) ==> a.len() == 2 && a[0] == (
            ActionModel::SaveContacts { device_id: id, json }) && b.len() == 2 && b[0] == (
            ActionModel::SaveContactPhotos { device_id: id, json })
            &&& s.current is None ==> a.len() == 1 && b.len() == 1
        }),
{
}

/// Text from the clipboard of a device is put into that of this desktop, where it
/// is within reach, and is told. A device that connects must have the newer
/// clipboard for that.
pub proof fn lemma_clipboards_are_told(
    s: ServiceModel,
    content: String,
    timestamp: Option<u64>,
    around: Surroundings,
)
    ensures
        ({
            let a = actions_for(s, ConnectionEvent::ClipboardReceived(content), around);
            let e = ConnectionEvent::ClipboardConnectReceived { content, timestamp };
            let b = actions_for(s, e, around);
            let n = a.len() as int;
            &&& n >= 2
            &&& a[n - 2] == ActionModel::Emit(SignalModel::ClipboardReceived(content@))
            &&& a[n - 1] is Broadcast && a[n - 1]->Broadcast_0.event_type == "clipboard_received"@
                && a[n - 1]->Broadcast_0.clipboard_content == Some(content@)
            &&& s.current matches Some(id) ==> a[n - 1]->Broadcast_0.device_id == id
            &&& around.clipboard_available ==> n == 3 && a[0] == ActionModel::SetClipboard(content@)
            &&& !around.clipboard_available ==> n == 2
            &&& timestamp is Some && timestamp->0 > 0 && timestamp->0
                >= around.clipboard_timestamp ==> b == a
            &&& timestamp is None || timestamp->0 == 0 || timestamp->0 < around.clipboard_timestamp
                ==> b.len() == 0
            &&& after_event(s, ConnectionEvent::ClipboardReceived(content), around) == s
            &&& after_event(s, e, around) == s
        }),
{
}

/// What a device reports of its battery and its signal is told of the current
/// device; without one it is not told.
pub proof fn lemma_states_are_told(s: ServiceModel, state: DeviceState, around: Surroundings)
    ensures
        ({
            let a = actions_for(s, ConnectionEvent::StateUpdated(state), around);
            &&& s.current is None ==> a.len() == 0
            &&& s.current matches Some(id) ==> a.len() == 2 && a[1] is Broadcast
                && a[1]->Broadcast_0.device_id == id && (match state {
                DeviceState::Battery { level, charging } => a[0] == ActionModel::Emit(
                    SignalModel::BatteryReceived(id, level as i32, charging),
                ) && a[1]->Broadcast_0.event_type == "battery_received"@
                    && a[1]->Broadcast_0.battery == Some((level as i64, charging)),
                DeviceState::Connectivity((_, strength)) => a[0] == ActionModel::Emit(
                    SignalModel::ConnectivityReceived(id, strength),
                ) && a[1]->Broadcast_0.event_type == "connectivity_received"@
                    && a[1]->Broadcast_0.connectivity_strength == Some(strength as i64),
            })
            &&& after_event(s, ConnectionEvent::StateUpdated(state), around) == s
        }),
{
}

/// What concerns one device is told with that device: a request for pairing, its
/// commands, a mount that changed, browsing that failed. How far a transfer is,
/// is told too. None of it changes what is known.
pub proof fn lemma_device_events_are_told(
    s: ServiceModel,
    id: DeviceId,
    text: String,
    flag: bool,
    percent: u8,
    commands: Vec<RemoteCommand>,
    around: Surroundings,
)
    ensures
        ({
            let e = ConnectionEvent::PairingRequested(id, text);
            let a = actions_for(s, e, around);
            &&& a.len() == 2
            &&& a[0] == ActionModel::Emit(SignalModel::PairingRequested(id@, text@))
            &&& a[1] is Broadcast && a[1]->Broadcast_0.event_type == "pairing_requested"@
                && a[1]->Broadcast_0.device_id == id@ && a[1]->Broadcast_0.message == Some(text@)
            &&& after_event(s, e, around) == s
        }),
        ({
            let e = ConnectionEvent::RunCommandListReceived(id, commands);
            let a = actions_for(s, e, around);
            &&& a.len() == 2
            &&& a[0] == ActionModel::Emit(
                SignalModel::RunCommandListReceived(id@, commands_json(commands@)),
            )
            &&& a[1] is Broadcast && a[1]->Broadcast_0.event_type == "run_command_list_received"@
                && a[1]->Broadcast_0.device_id == id@ && a[1]->Broadcast_0.commands_json == Some(
                commands_json(commands@),
            )
            &&& after_event(s, e, around) == s
        }),
        ({
            let e = ConnectionEvent::SftpMountStateChanged(id, flag);
            &&& actions_for(s, e, around) == seq![
                ActionModel::Emit(SignalModel::MountStateChanged(id@, flag)),
            ]
            &&& after_event(s, e, around) == s
        }),
        ({
            let e = ConnectionEvent::SftpBrowseFailed(id, text);
            let a = actions_for(s, e, around);
            &&& a.len() == 2
            &&& a[0] == ActionModel::Emit(SignalModel::BrowseFailed(id@, text@))
            &&& a[1] is Broadcast && a[1]->Broadcast_0.event_type == "browse_failed"@
                && a[1]->Broadcast_0.device_id == id@ && a[1]->Broadcast_0.message == Some(text@)
            &&& after_event(s, e, around) == s
        }),
        ({
            let e = ConnectionEvent::UpdateTransferProgress(percent);
            &&& actions_for(s, e, around) == seq![
                ActionModel::Emit(SignalModel::UpdateTransferProgress(percent)),
            ]
            &&& after_event(s, e, around) == s
        }),
{
}

/// A report on a transfer is kept among the recent ones and told as it is.
pub proof fn lemma_transfer_reports_are_told(
    s: ServiceModel,
    status: TransferStatus,
    around: Surroundings,
)
    ensures
        ({
            let e = ConnectionEvent::TransferStatus(status);
            let a = actions_for(s, e, around);
            &&& after_event(s, e, around) == (ServiceModel {
                transfers: transfer::with_report(s.transfers, 50, status),
                ..s
            })
            &&& a.len() == 2
            &&& a[0] == ActionModel::Emit(SignalModel::TransferStatus(status))
            &&& a[1] is Broadcast && a[1]->Broadcast_0.event_type == "transfer_status"@
                && a[1]->Broadcast_0.device_id == status.device_id@ && a[1]->Broadcast_0.transfer
                == Some(status)
        }),
{
}

/// Of the files of the configuration, each record of a paired device is shown
/// under its name, out of reach; any other file adds nothing.
pub proof fn lemma_paired_records_are_shown(
    files: Seq<(Seq<char>, Option<DeviceModel>)>,
    path: Seq<char>,
    name: Seq<char>,
    record: DeviceModel,
)
    requires
        paths::file_name(path) == Some(name),
    ensures
        paths::extension(name) == Some("ron"@) && record.pair_state == PairState::Paired
            ==> restored_devices(files.push((path, Some(record)))) == restored_devices(
            files,
        ).insert(
            record.device_id,
            (DbusDeviceModel {
                id: record.device_id,
                name: record.name,
                device_type: "phone"@,
                is_paired: true,
                is_reachable: false,
            }),
        ),
        paths::extension(name) != Some("ron"@) || record.pair_state != PairState::Paired
            ==> restored_devices(files.push((path, Some(record)))) == restored_devices(files),
        restored_devices(files.push((path, None))) == restored_devices(files),
{
    assert(files.push((path, Some(record))).drop_last() =~= files);
    assert(files.push((path, None)).drop_last() =~= files);
}

/// Commands are told as a list of their keys, names and command lines, in order.
pub proof fn lemma_commands_are_told_in_order(commands: Seq<RemoteCommand>, k: int)
    requires
        0 <= k < commands.len(),
    ensures
        commands_json(commands) == json::list_json(
            commands.map_values(|c: RemoteCommand| (c.key@, c.name@, c.command@)),
            "key"@,
            "name"@,
            "command"@,
        ),
        keys_and_names(commands).len() == commands.len(),
        keys_and_names(commands)[k] == (Some(commands[k].key@), Some(commands[k].name@)),
{
    assert(commands.map_values(|c: RemoteCommand| command_view(c)) =~= commands.map_values(
        |c: RemoteCommand| (c.key@, c.name@, c.command@),
    ));
}

} // verus!
