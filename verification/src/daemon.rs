//! What callers on the session bus can ask of the service.

use vstd::prelude::*;

use crate::device::DeviceId;
use crate::event::AppEvent;
use crate::json;
use crate::order;
use crate::packet;
use crate::packet::{Field, FieldModel, PacketModel, PacketType, ProtocolPacket};
use crate::paths;
use crate::paths::join_path;
use crate::service::{DbusDevice, DbusDeviceModel, KdeConnectService, ServiceModel, Signal};
use crate::sms;
use crate::sms::{build_send_packet, SmsRequestAttachment};
use crate::table::Duplicate;
use crate::text::join2;

verus! {

/// How often a device that connects waits for the clipboard to be read.
pub const CLIPBOARD_TRIES: u32 = 20;

/// The event asks to send the packet to the device.
pub open spec fn sends(e: AppEvent, device_id: Seq<char>, p: PacketModel) -> bool {
    e matches AppEvent::SendPacket(id, packet) && id@ == device_id && packet@ == p
}

/// The event asks to send the packet to the device and to say whether that
/// worked.
pub open spec fn sends_with_reply(e: AppEvent, device_id: Seq<char>, p: PacketModel) -> bool {
    e matches AppEvent::SendPacketWithReply(id, packet) && id@ == device_id && packet@ == p
}

/// Why text cannot be sent to a device.
#[derive(Debug, Clone, Copy, PartialEq, Eq, Structural)]
pub enum ClipboardRefusal {
    Unknown,
    NotPaired,
    NotReachable,
    PluginDisabled,
}

impl ClipboardRefusal {
    /// How a refusal is worded.
    pub open spec fn wording(self) -> Seq<char> {
        match self {
            ClipboardRefusal::Unknown => "Unknown device: "@,
            ClipboardRefusal::NotPaired => "Device is not paired: "@,
            ClipboardRefusal::NotReachable => "Device is not reachable: "@,
            ClipboardRefusal::PluginDisabled => "Clipboard plugin is disabled for device: "@,
        }
    }

    /// The message for the refusal of a device.
    pub fn message(&self, device_id: &str) -> (r: String)
        ensures
            r@ == self.wording() + device_id@,
            *self is Unknown ==> r@ == "Unknown device: "@ + device_id@,
            *self is NotPaired ==> r@ == "Device is not paired: "@ + device_id@,
            *self is NotReachable ==> r@ == "Device is not reachable: "@ + device_id@,
            *self is PluginDisabled ==> r@ == "Clipboard plugin is disabled for device: "@
                + device_id@,
    {
        match self {
            ClipboardRefusal::Unknown => join2("Unknown device: ", device_id),
            ClipboardRefusal::NotPaired => join2("Device is not paired: ", device_id),
            ClipboardRefusal::NotReachable => join2("Device is not reachable: ", device_id),
            ClipboardRefusal::PluginDisabled => join2(
                "Clipboard plugin is disabled for device: ",
                device_id,
            ),
        }
    }
}

/// Why text cannot be sent to a device, where it cannot.
pub open spec fn clipboard_refusal(
    devices: Map<Seq<char>, DbusDeviceModel>,
    device_id: Seq<char>,
    plugin_disabled: bool,
) -> Option<ClipboardRefusal> {
    if !devices.contains_key(device_id) {
        Some(ClipboardRefusal::Unknown)
    } else if !devices[device_id].is_paired {
        Some(ClipboardRefusal::NotPaired)
    } else if !devices[device_id].is_reachable {
        Some(ClipboardRefusal::NotReachable)
    } else if plugin_disabled {
        Some(ClipboardRefusal::PluginDisabled)
    } else {
        None
    }
}

/// What became of a packet that was to be acknowledged.
#[derive(Debug, PartialEq, Eq)]
pub enum Acknowledgement {
    Answered(Result<(), String>),
    Dropped,
    TimedOut,
}

/// What the caller is told about text that was sent.
pub fn clipboard_reply(ack: Acknowledgement) -> (r: Result<(), String>)
    ensures
        match ack {
            Acknowledgement::Answered(result) => r == result,
            Acknowledgement::Dropped => r is Err && r->Err_0@
                == "Clipboard send acknowledgement was dropped"@,
            Acknowledgement::TimedOut => r is Err && r->Err_0@
                == "Clipboard send acknowledgement timed out"@,
        },
{
    match ack {
        Acknowledgement::Answered(result) => result,
        Acknowledgement::Dropped => Err("Clipboard send acknowledgement was dropped".to_owned()),
        Acknowledgement::TimedOut => Err("Clipboard send acknowledgement timed out".to_owned()),
    }
}

/// What the clipboard of this desktop holds.
#[derive(Debug, PartialEq, Eq)]
pub struct ClipboardContent {
    pub text: String,
    pub timestamp: u64,
    pub sensitive: bool,
}

/// How a device shares the clipboard.
#[derive(Debug, PartialEq, Eq)]
pub struct ClipboardConfig {
    pub plugin_disabled: bool,
    pub auto_share: bool,
    pub send_password: bool,
}

/// Whether content is shared with a device without being asked.
pub open spec fn shares(config: ClipboardConfig, sensitive: bool) -> bool {
    !config.plugin_disabled && config.auto_share && (sensitive ==> config.send_password)
}

/// Whether to wait for the clipboard to be read before it is offered to a
/// device that has connected.
pub fn wait_for_clipboard(tries: u32, has_content: bool) -> (r: bool)
    ensures
        r == (!has_content && tries < CLIPBOARD_TRIES),
        r <==> !has_content && tries < 20,
{
    !has_content && tries < CLIPBOARD_TRIES
}

/// The clipboard of this desktop for a device that has connected. `content` is
/// what it holds, where it is within reach and holds text.
pub fn clipboard_connect(
    device_id: &str,
    content: Option<&ClipboardContent>,
    config: &ClipboardConfig,
) -> (r: Option<AppEvent>)
    ensures
        r is Some <==> content is Some && shares(*config, content->0.sensitive),
        r is Some <==> content is Some && !config.plugin_disabled && config.auto_share && (
        content->0.sensitive ==> config.send_password),
        r is Some ==> r->0 is SendPacket && r->0->SendPacket_0@ == device_id@,
        r is Some ==> sends(
            r->0,
            device_id@,
            packet::object(
                PacketType::ClipboardConnect,
                seq![
                    ("content"@, FieldModel::Text(content->0.text@)),
                    ("timestamp"@, FieldModel::Unsigned(content->0.timestamp)),
                ],
            ),
        ),
{
    if config.plugin_disabled || !config.auto_share {
        return None;
    }
    match content {
        Some(c) => {
            if c.sensitive && !config.send_password {
                return None;
            }
            Some(
                AppEvent::SendPacket(
                    DeviceId(device_id.to_owned()),
                    ProtocolPacket::with_fields(
                        PacketType::ClipboardConnect,
                        "content",
                        Field::Text(c.text.clone()),
                        "timestamp",
                        Field::Unsigned(c.timestamp),
                    ),
                ),
            )
        },
        None => None,
    }
}

/// The packet with text for the clipboard of a device.
pub open spec fn clipboard_packet(content: Seq<char>) -> PacketModel {
    packet::object(PacketType::Clipboard, seq![("content"@, FieldModel::Text(content))])
}

/// The new content of the clipboard for a device that shares it.
pub fn automatic_clipboard(device_id: &str, content: &ClipboardContent, config: &ClipboardConfig) -> (r:
    Option<AppEvent>)
    ensures
        r is Some <==> shares(*config, content.sensitive),
        r is Some ==> sends(r->0, device_id@, clipboard_packet(content.text@)),
        r is Some <==> !config.plugin_disabled && config.auto_share && (content.sensitive
            ==> config.send_password),
        r is Some ==> r->0 is SendPacket && r->0->SendPacket_0@ == device_id@
            && r->0->SendPacket_1@ == packet::object(
            PacketType::Clipboard,
            seq![("content"@, FieldModel::Text(content.text@))],
        ),
{
    if config.plugin_disabled || !config.auto_share || (content.sensitive && !config.send_password) {
        return None;
    }
    Some(
        AppEvent::SendPacket(
            DeviceId(device_id.to_owned()),
            ProtocolPacket::with_field(
                PacketType::Clipboard,
                "content",
                Field::Text(content.text.clone()),
            ),
        ),
    )
}

/// Nothing sensitive is shared without being asked, unless the device may have
/// passwords.
pub proof fn lemma_passwords_are_kept(config: ClipboardConfig)
    requires
        !config.send_password,
    ensures
        !shares(config, true),
{
}

/// Requests to the daemon.
#[derive(Debug, PartialEq, Eq)]
pub struct DaemonInterface;

impl DaemonInterface {
    /// Pair with a device.
    pub fn pair_device(device_id: String) -> (r: AppEvent)
        ensures
            r == AppEvent::Pair(DeviceId(device_id)),
    {
        AppEvent::Pair(DeviceId(device_id))
    }

    /// Unpair from a device.
    pub fn unpair_device(device_id: String) -> (r: AppEvent)
        ensures
            r == AppEvent::Unpair(DeviceId(device_id)),
    {
        AppEvent::Unpair(DeviceId(device_id))
    }

    /// Send a ping to a device.
    pub fn send_ping(device_id: String, message: String) -> (r: AppEvent)
        ensures
            sends(
                r,
                device_id@,
                packet::object(
                    PacketType::Ping,
                    seq![("message"@, FieldModel::Text(message@))],
                ),
            ),
    {
        AppEvent::SendPacket(
            DeviceId(device_id),
            ProtocolPacket::with_field(PacketType::Ping, "message", Field::Text(message)),
        )
    }

    /// Send files to a device.
    pub fn send_files(device_id: String, files: Vec<String>) -> (r: AppEvent)
        ensures
            r == AppEvent::SendFiles(DeviceId(device_id), files),
    {
        AppEvent::SendFiles(DeviceId(device_id), files)
    }

    /// Make a device ring.
    pub fn ring_device(device_id: String) -> (r: AppEvent)
        ensures
            sends(r, device_id@, packet::object(PacketType::FindMyPhoneRequest, Seq::empty())),
    {
        AppEvent::SendPacket(
            DeviceId(device_id),
            ProtocolPacket::bare(PacketType::FindMyPhoneRequest),
        )
    }

    /// Browse a device. Where its share is mounted and was opened, nothing has
    /// to be asked of the device.
    pub fn browse_device(device_id: String, opened: bool) -> (r: Option<AppEvent>)
        ensures
            r is None <==> opened,
            r is Some ==> sends(
                r->0,
                device_id@,
                packet::object(
                    PacketType::SftpRequest,
                    seq![("startBrowsing"@, FieldModel::Flag(true))],
                ),
            ),
    {
        if opened {
            return None;
        }
        Some(
            AppEvent::SendPacket(
                DeviceId(device_id),
                ProtocolPacket::with_field(
                    PacketType::SftpRequest,
                    "startBrowsing",
                    Field::Flag(true),
                ),
            ),
        )
    }

    /// The signal after the share of a device was unmounted. Nothing is told
    /// where nothing was mounted.
    pub fn unmount_device(device_id: String, unmounted: bool) -> (r: Option<Signal>)
        ensures
            r == (if unmounted {
                Some(Signal::MountStateChanged(device_id, false))
            } else {
                None
            }),
    {
        if unmounted {
            Some(Signal::MountStateChanged(device_id, false))
        } else {
            None
        }
    }

    /// Switch a plugin on or off for a device.
    pub fn set_plugin_enabled(device_id: String, plugin_id: String, enabled: bool) -> (r: AppEvent)
        ensures
            r == (AppEvent::SetPluginEnabled {
                device_id: DeviceId(device_id),
                plugin_id,
                enabled,
            }),
    {
        AppEvent::SetPluginEnabled { device_id: DeviceId(device_id), plugin_id, enabled }
    }

    /// Announce this desktop.
    pub fn broadcast_identity() -> (r: AppEvent)
        ensures
            r is Broadcasting,
    {
        AppEvent::Broadcasting
    }

    /// Accept the request of a device to pair.
    pub fn accept_pairing(device_id: String) -> (r: AppEvent)
        ensures
            r == AppEvent::AcceptPairing(DeviceId(device_id)),
    {
        AppEvent::AcceptPairing(DeviceId(device_id))
    }

    /// Reject the request of a device to pair.
    pub fn reject_pairing(device_id: String) -> (r: AppEvent)
        ensures
            r == AppEvent::RejectPairing(DeviceId(device_id)),
    {
        AppEvent::RejectPairing(DeviceId(device_id))
    }

    /// Run a command of a device.
    pub fn run_command(device_id: String, key: String) -> (r: AppEvent)
        ensures
            sends(
                r,
                device_id@,
                packet::object(
                    PacketType::RunCommandRequest,
                    seq![("key"@, FieldModel::Text(key@))],
                ),
            ),
    {
        AppEvent::SendPacket(
            DeviceId(device_id),
            ProtocolPacket::with_field(PacketType::RunCommandRequest, "key", Field::Text(key)),
        )
    }

    /// Ask a device for its commands.
    pub fn request_run_commands(device_id: String) -> (r: AppEvent)
        ensures
            sends(
                r,
                device_id@,
                packet::object(
                    PacketType::RunCommandRequest,
                    seq![("requestCommandList"@, FieldModel::Flag(true))],
                ),
            ),
    {
        AppEvent::SendPacket(
            DeviceId(device_id),
            ProtocolPacket::with_field(
                PacketType::RunCommandRequest,
                "requestCommandList",
                Field::Flag(true),
            ),
        )
    }

    /// Tell a device the commands of this desktop.
    pub fn push_local_commands(device_id: String) -> (r: AppEvent)
        ensures
            r == AppEvent::PushLocalCommands(DeviceId(device_id)),
    {
        AppEvent::PushLocalCommands(DeviceId(device_id))
    }
}

/// Why the clipboard of this desktop cannot be shared.
#[derive(Debug, Clone, Copy, PartialEq, Eq, Structural)]
pub enum ShareRefusal {
    /// The clipboard is out of reach.
    Unavailable,
    /// The clipboard holds no text.
    NoText,
    Refused(ClipboardRefusal),
}

impl KdeConnectService {
    /// All devices that are known.
    pub fn list_devices(&self) -> (r: Vec<DbusDevice>)
        requires
            self.wf(),
        ensures
            r@.len() == self.devices.list().len(),
            forall|i: int|
                0 <= i < r@.len() ==> (#[trigger] r@[i])@ == self.devices.list()[i].1@,
    {
        let mut r: Vec<DbusDevice> = Vec::new();
        let mut i: usize = 0;
        while i < self.devices.len()
            invariant
                i <= self.devices.list().len(),
                r@.len() == i,
                forall|k: int|
                    0 <= k < i ==> (#[trigger] r@[k])@ == self.devices.list()[k].1@,
            decreases self.devices.list().len() - i,
        {
            r.push(self.devices.value_at(i).duplicate());
            i = i + 1;
        }
        r
    }

    /// The devices with their names.
    pub fn device_names(&self) -> (r: Vec<(String, String)>)
        requires
            self.wf(),
        ensures
            r@.len() == self.devices.list().len(),
            forall|i: int|
                0 <= i < r@.len() ==> (#[trigger] r@[i]).0@ == self.devices.list()[i].0@
                    && r@[i].1@ == self.devices.list()[i].1@.name,
    {
        let mut r: Vec<(String, String)> = Vec::new();
        let mut i: usize = 0;
        while i < self.devices.len()
            invariant
                i <= self.devices.list().len(),
                r@.len() == i,
                forall|k: int|
                    0 <= k < i ==> (#[trigger] r@[k]).0@ == self.devices.list()[k].0@ && r@[k].1@
                        == self.devices.list()[k].1@.name,
            decreases self.devices.list().len() - i,
        {
            r.push((self.devices.key_at(i).clone(), self.devices.value_at(i).name.clone()));
            i = i + 1;
        }
        r
    }

    /// The name of a device, where it is known.
    pub fn device_name(&self, device_id: &str) -> (r: Option<String>)
        requires
            self.wf(),
        ensures
            r.deep_view() == (if self@.devices.contains_key(device_id@) {
                Some(self@.devices[device_id@].name)
            } else {
                None
            }),
    {
        match self.devices.get(device_id) {
            Some(d) => Some(d.name.clone()),
            None => None,
        }
    }

    /// Sends text to the clipboard of a device, which has to be known, paired,
    /// reachable and willing.
    pub fn send_clipboard_packet(&self, device_id: &str, content: &str, plugin_disabled: bool) -> (r:
        Result<AppEvent, ClipboardRefusal>)
        requires
            self.wf(),
        ensures
            match clipboard_refusal(self@.devices, device_id@, plugin_disabled) {
                Some(e) => r is Err && r->Err_0 == e,
                None => r is Ok && sends_with_reply(
                    r->Ok_0,
                    device_id@,
                    clipboard_packet(content@),
                ),
            },
            r is Ok <==> self@.devices.contains_key(device_id@)
                && self@.devices[device_id@].is_paired && self@.devices[device_id@].is_reachable
                && !plugin_disabled,
            r is Ok ==> r->Ok_0 is SendPacketWithReply && r->Ok_0->SendPacketWithReply_0@
                == device_id@ && r->Ok_0->SendPacketWithReply_1@ == packet::object(
                PacketType::Clipboard,
                seq![("content"@, FieldModel::Text(content@))],
            ),
            !self@.devices.contains_key(device_id@) ==> r is Err && r->Err_0
                == ClipboardRefusal::Unknown,
            self@.devices.contains_key(device_id@) && !self@.devices[device_id@].is_paired ==> r
                is Err && r->Err_0 == ClipboardRefusal::NotPaired,
            self@.devices.contains_key(device_id@) && self@.devices[device_id@].is_paired
                && !self@.devices[device_id@].is_reachable ==> r is Err && r->Err_0
                == ClipboardRefusal::NotReachable,
            self@.devices.contains_key(device_id@) && self@.devices[device_id@].is_paired
                && self@.devices[device_id@].is_reachable && plugin_disabled ==> r is Err
                && r->Err_0 == ClipboardRefusal::PluginDisabled,
    {
        match self.devices.get(device_id) {
            Some(d) => {
                if !d.is_paired {
                    return Err(ClipboardRefusal::NotPaired);
                }
                if !d.is_reachable {
                    return Err(ClipboardRefusal::NotReachable);
                }
            },
            None => {
                return Err(ClipboardRefusal::Unknown);
            },
        }
        if plugin_disabled {
            return Err(ClipboardRefusal::PluginDisabled);
        }
        Ok(
            AppEvent::SendPacketWithReply(
                DeviceId(device_id.to_owned()),
                ProtocolPacket::with_field(
                    PacketType::Clipboard,
                    "content",
                    Field::Text(content.to_owned()),
                ),
            ),
        )
    }

    /// Sends the clipboard of this desktop to a device.
    pub fn share_clipboard(
        &self,
        device_id: &str,
        available: bool,
        content: Option<&ClipboardContent>,
        plugin_disabled: bool,
    ) -> (r: Result<AppEvent, ShareRefusal>)
        requires
            self.wf(),
        ensures
            if !available {
                r is Err && r->Err_0 == ShareRefusal::Unavailable
            } else if content is None {
                r is Err && r->Err_0 == ShareRefusal::NoText
            } else {
                match clipboard_refusal(self@.devices, device_id@, plugin_disabled) {
                    Some(e) => r is Err && r->Err_0 == ShareRefusal::Refused(e),
                    None => r is Ok && sends_with_reply(
                        r->Ok_0,
                        device_id@,
                        clipboard_packet(content->0.text@),
                    ),
                }
            },
            r is Ok <==> available && content is Some && self@.devices.contains_key(device_id@)
                && self@.devices[device_id@].is_paired && self@.devices[device_id@].is_reachable
                && !plugin_disabled,
            r is Ok ==> r->Ok_0 is SendPacketWithReply && r->Ok_0->SendPacketWithReply_0@
                == device_id@ && r->Ok_0->SendPacketWithReply_1@ == packet::object(
                PacketType::Clipboard,
                seq![("content"@, FieldModel::Text(content->0.text@))],
            ),
            !available ==> r is Err && r->Err_0 is Unavailable,
            available && content is None ==> r is Err && r->Err_0 is NoText,
            available && content is Some && r is Err ==> r->Err_0 is Refused && (if !self@.devices.contains_key(
                device_id@,
            ) {
                r->Err_0->Refused_0 is Unknown
            } else if !self@.devices[device_id@].is_paired {
                r->Err_0->Refused_0 is NotPaired
            } else if !self@.devices[device_id@].is_reachable {
                r->Err_0->Refused_0 is NotReachable
            } else {
                r->Err_0->Refused_0 is PluginDisabled
            }),
    {
        if !available {
            return Err(ShareRefusal::Unavailable);
        }
        match content {
            Some(c) => match self.send_clipboard_packet(device_id, &c.text, plugin_disabled) {
                Ok(e) => Ok(e),
                Err(e) => Err(ShareRefusal::Refused(e)),
            },
            None => Err(ShareRefusal::NoText),
        }
    }

    /// The devices that hear of a change of the clipboard: those that are
    /// paired and reachable.
    pub fn clipboard_candidates(&self) -> (r: Vec<String>)
        requires
            self.wf(),
        ensures
            r.deep_view() == candidates(order::views(self.devices.list())),
    {
        let ghost all = order::views(self.devices.list());
        let mut r: Vec<String> = Vec::new();
        let mut i: usize = 0;
        proof {
            assert(all.take(0) =~= Seq::empty());
            assert(r.deep_view() =~= Seq::<Seq<char>>::empty());
        }
        while i < self.devices.len()
            invariant
                i <= self.devices.list().len(),
                all == order::views(self.devices.list()),
                r.deep_view() == candidates(all.take(i as int)),
            decreases self.devices.list().len() - i,
        {
            let ghost before = r.deep_view();
            let d = self.devices.value_at(i);
            proof {
                assert(all.take(i + 1).drop_last() =~= all.take(i as int));
                assert(all.take(i + 1).last() == self.devices.list()[i as int]@);
            }
            if d.is_paired && d.is_reachable {
                r.push(d.id.clone());
                proof {
                    assert(r.deep_view() =~= before.push(d@.id));
                }
            }
            i = i + 1;
        }
        proof {
            assert(all.take(i as int) =~= all);
        }
        r
    }

    /// The messages of a device: those in memory, or those on disk, or nothing.
    pub fn get_cached_sms(&self, device_id: &str, on_disk: Option<String>) -> (r: String)
        requires
            self.wf(),
        ensures
            r@ == cached_sms(self@, device_id@, on_disk.deep_view()),
            self@.sms.contains_key(device_id@) ==> r@ == self@.sms[device_id@],
            !self@.sms.contains_key(device_id@) && on_disk is Some ==> r@ == on_disk->0@,
            !self@.sms.contains_key(device_id@) && on_disk is None ==> r@.len() == 0,
    {
        match self.sms_cache.get(device_id) {
            Some(json) => json.clone(),
            None => match on_disk {
                Some(json) => json,
                None => String::new(),
            },
        }
    }
}

/// The devices that hear of a change of the clipboard.
pub open spec fn candidates(devices: Seq<(Seq<char>, DbusDeviceModel)>) -> Seq<Seq<char>>
    decreases devices.len(),
{
    if devices.len() == 0 {
        Seq::empty()
    } else {
        let before = candidates(devices.drop_last());
        let d = devices.last().1;
        if d.is_paired && d.is_reachable {
            before.push(d.id)
        } else {
            before
        }
    }
}

/// The messages of a device.
pub open spec fn cached_sms(s: ServiceModel, device_id: Seq<char>, on_disk: Option<Seq<char>>) -> Seq<
    char,
> {
    if s.sms.contains_key(device_id) {
        s.sms[device_id]
    } else {
        match on_disk {
            Some(json) => json,
            None => Seq::empty(),
        }
    }
}

/// What is asked of one device is answered with that device's messages: those
/// of another make no difference.
pub proof fn lemma_messages_are_read_by_device(
    s: ServiceModel,
    device_id: Seq<char>,
    other: Seq<char>,
    json: Seq<char>,
    on_disk: Option<Seq<char>>,
)
    requires
        other != device_id,
    ensures
        cached_sms(
            ServiceModel { sms: s.sms.insert(other, json), ..s },
            device_id,
            on_disk,
        ) == cached_sms(s, device_id, on_disk),
        cached_sms(ServiceModel { sms: s.sms.insert(device_id, json), ..s }, device_id, on_disk)
            == json,
{
}

/// Requests about text messages.
#[derive(Debug, PartialEq, Eq)]
pub struct SmsInterface;

impl SmsInterface {
    /// Ask a device for all conversations.
    pub fn request_conversations(device_id: String) -> (r: AppEvent)
        ensures
            sends(r, device_id@, packet::object(PacketType::SmsRequestConversations, Seq::empty())),
    {
        AppEvent::SendPacket(
            DeviceId(device_id),
            ProtocolPacket::bare(PacketType::SmsRequestConversations),
        )
    }

    /// Ask a device for the messages of a thread.
    pub fn request_conversation(device_id: String, thread_id: i64) -> (r: AppEvent)
        ensures
            sends(
                r,
                device_id@,
                packet::object(
                    PacketType::SmsRequestConversation,
                    seq![("threadID"@, FieldModel::Number(thread_id))],
                ),
            ),
    {
        AppEvent::SendPacket(
            DeviceId(device_id),
            ProtocolPacket::with_field(
                PacketType::SmsRequestConversation,
                "threadID",
                Field::Number(thread_id),
            ),
        )
    }

    /// Send a message. `contents` holds what was read from the files to attach.
    pub fn send_sms(
        device_id: String,
        phone_number: &str,
        message: &str,
        attachments: &Vec<String>,
        contents: &Vec<Option<Vec<u8>>>,
    ) -> (r: AppEvent)
        requires
            attachments@.len() == contents@.len(),
            forall|i: int|
                0 <= i < contents@.len() && (#[trigger] contents@[i]) is Some
                    ==> contents@[i]->0@.len() <= usize::MAX / 4,
        ensures
            sends(
                r,
                device_id@,
                packet::object(
                    PacketType::SmsRequest,
                    sms::send_members(
                        phone_number@,
                        message@,
                        sms::readable(attachments.deep_view(), contents.deep_view()),
                    ),
                ),
            ),
    {
        AppEvent::SendPacket(
            DeviceId(device_id),
            build_send_packet(phone_number, message, attachments, contents),
        )
    }

    /// Ask a device for the full file of an attachment.
    pub fn request_sms_attachment(device_id: String, part_id: i64, unique_identifier: String) -> (r:
        AppEvent)
        ensures
            sends(
                r,
                device_id@,
                packet::object(
                    PacketType::SmsRequestAttachment,
                    seq![
                        ("part_id"@, FieldModel::Number(part_id)),
                        ("unique_identifier"@, FieldModel::Text(unique_identifier@)),
                    ],
                ),
            ),
    {
        let request = SmsRequestAttachment { part_id, unique_identifier };
        AppEvent::SendPacket(DeviceId(device_id), request.into_packet())
    }
}

/// Requests about contacts.
#[derive(Debug, PartialEq, Eq)]
pub struct ContactsInterface;

impl ContactsInterface {
    /// Ask a device for its contacts.
    pub fn request_contacts(device_id: String) -> (r: AppEvent)
        ensures
            sends(
                r,
                device_id@,
                packet::object(PacketType::ContactsRequestAllUidsTimestamps, Seq::empty()),
            ),
    {
        AppEvent::SendPacket(
            DeviceId(device_id),
            ProtocolPacket::bare(PacketType::ContactsRequestAllUidsTimestamps),
        )
    }

    /// The stored contacts, as JSON. What is not there or cannot be read is an
    /// empty object.
    pub fn get_cached_contacts(on_disk: Option<String>) -> (r: String)
        ensures
            match stored_map(on_disk.deep_view()) {
                Some(m) => r@ == json::text_map_json(m) && json::json_text_map(r@) == Some(m),
                None => r@ == "{}"@,
            },
            on_disk is None ==> r@ == "{}"@,
            on_disk is Some && json::json_text_map(on_disk->0@) is None ==> r@ == "{}"@,
            on_disk is Some && json::json_text_map(on_disk->0@) is Some ==> json::json_text_map(r@)
                == json::json_text_map(on_disk->0@),
    {
        cached_map(on_disk)
    }

    /// The stored photos, as JSON. What is not there or cannot be read is an
    /// empty object.
    pub fn get_cached_contact_photos(on_disk: Option<String>) -> (r: String)
        ensures
            match stored_map(on_disk.deep_view()) {
                Some(m) => r@ == json::text_map_json(m) && json::json_text_map(r@) == Some(m),
                None => r@ == "{}"@,
            },
            on_disk is None ==> r@ == "{}"@,
            on_disk is Some && json::json_text_map(on_disk->0@) is None ==> r@ == "{}"@,
            on_disk is Some && json::json_text_map(on_disk->0@) is Some ==> json::json_text_map(r@)
                == json::json_text_map(on_disk->0@),
    {
        cached_map(on_disk)
    }
}

/// A stored map, where there is one that can be read.
pub open spec fn stored_map(on_disk: Option<Seq<char>>) -> Option<Map<Seq<char>, Seq<char>>> {
    match on_disk {
        Some(text) => json::json_text_map(text),
        None => None,
    }
}

fn cached_map(on_disk: Option<String>) -> (r: String)
    ensures
        match stored_map(on_disk.deep_view()) {
            Some(m) => r@ == json::text_map_json(m) && json::json_text_map(r@) == Some(m),
            None => r@ == "{}"@,
        },
{
    match on_disk {
        Some(text) => match json::read_text_map(&text) {
            Some(m) => json::text_map_text(&m),
            None => "{}".to_owned(),
        },
        None => "{}".to_owned(),
    }
}

/// The directory that holds what is stored for a device.
pub open spec fn cache_dir(
    data_dir: Option<Seq<char>>,
    config_dir: Seq<char>,
    device_id: Seq<char>,
) -> Seq<char> {
    paths::joined(
        paths::joined(
            match data_dir {
                Some(d) => d,
                None => "~/.local/share"@,
            },
            config_dir,
        ),
        device_id,
    )
}

/// A file that is stored for a device.
#[derive(Debug, Clone, Copy, PartialEq, Eq, Structural)]
pub enum CacheFile {
    Contacts,
    ContactPhotos,
    Sms,
}

impl CacheFile {
    /// The name of a file that is stored for a device.
    pub open spec fn file_name(self) -> Seq<char> {
        match self {
            CacheFile::Contacts => "contacts_cache.json"@,
            CacheFile::ContactPhotos => "contact_photos_cache.json"@,
            CacheFile::Sms => "sms_cache.json"@,
        }
    }
}

/// The path of a file that is stored for the device.
pub fn cache_file(
    data_dir: &Option<String>,
    config_dir: &str,
    device_id: &str,
    file: CacheFile,
) -> (r: String)
    ensures
        r@ == paths::joined(
            cache_dir(data_dir.deep_view(), config_dir@, device_id@),
            file.file_name(),
        ),
        file == CacheFile::Contacts ==> r@ == paths::joined(
            cache_dir(data_dir.deep_view(), config_dir@, device_id@),
            "contacts_cache.json"@,
        ),
        file == CacheFile::ContactPhotos ==> r@ == paths::joined(
            cache_dir(data_dir.deep_view(), config_dir@, device_id@),
            "contact_photos_cache.json"@,
        ),
        file == CacheFile::Sms ==> r@ == paths::joined(
            cache_dir(data_dir.deep_view(), config_dir@, device_id@),
            "sms_cache.json"@,
        ),
{
    let base = match data_dir {
        Some(d) => join_path(d, config_dir),
        None => join_path("~/.local/share", config_dir),
    };
    let dir = join_path(&base, device_id);
    match file {
        CacheFile::Contacts => join_path(&dir, "contacts_cache.json"),
        CacheFile::ContactPhotos => join_path(&dir, "contact_photos_cache.json"),
        CacheFile::Sms => join_path(&dir, "sms_cache.json"),
    }
}

/// An event that sends a packet names the device and holds the packet.
pub proof fn lemma_sending_names_its_device(e: AppEvent, device_id: Seq<char>, p: PacketModel)
    ensures
        sends(e, device_id, p) <==> e is SendPacket && e->SendPacket_0@ == device_id
            && e->SendPacket_1@ == p,
        sends_with_reply(e, device_id, p) <==> e is SendPacketWithReply
            && e->SendPacketWithReply_0@ == device_id && e->SendPacketWithReply_1@ == p,
{
}

/// The devices that hear of a change of the clipboard are those that are paired
/// and within reach, each under its identifier.
pub proof fn lemma_paired_devices_hear_of_the_clipboard(
    devices: Seq<(Seq<char>, DbusDeviceModel)>,
    id: Seq<char>,
)
    ensures
        candidates(devices).contains(id) <==> exists|i: int|
            0 <= i < devices.len() && (#[trigger] devices[i]).1.id == id && devices[i].1.is_paired
                && devices[i].1.is_reachable,
    decreases devices.len(),
{
    if devices.len() > 0 {
        let less = devices.drop_last();
        let d = devices.last().1;
        let before = candidates(less);
        lemma_paired_devices_hear_of_the_clipboard(less, id);
        assert(devices[devices.len() - 1] == devices.last());
        if d.is_paired && d.is_reachable {
            crate::table::lemma_push_contains(before, d.id, id);
        }
        if exists|i: int|
            0 <= i < less.len() && (#[trigger] less[i]).1.id == id && less[i].1.is_paired
                && less[i].1.is_reachable {
            let i = choose|i: int|
                0 <= i < less.len() && (#[trigger] less[i]).1.id == id && less[i].1.is_paired
                    && less[i].1.is_reachable;
            assert(devices[i].1.id == id);
        }
        if exists|i: int|
            0 <= i < devices.len() && (#[trigger] devices[i]).1.id == id && devices[i].1.is_paired
                && devices[i].1.is_reachable {
            let i = choose|i: int|
                0 <= i < devices.len() && (#[trigger] devices[i]).1.id == id
                    && devices[i].1.is_paired && devices[i].1.is_reachable;
            if i < less.len() {
                assert(less[i].1.id == id);
            }
        }
    }
}

/// What is stored for a device lies below the data directory, in a directory of
/// its own.
pub proof fn lemma_stores_lie_apart(
    data_dir: Seq<char>,
    config_dir: Seq<char>,
    device_id: Seq<char>,
)
    requires
        data_dir.len() > 0,
        data_dir.last() != '/',
        config_dir.len() > 0,
        config_dir[0] != '/',
        config_dir.last() != '/',
        device_id.len() > 0,
        device_id[0] != '/',
    ensures
        cache_dir(Some(data_dir), config_dir, device_id) == data_dir.push('/') + config_dir.push(
            '/',
        ) + device_id,
{
    paths::lemma_names_go_below(data_dir, config_dir);
    let base = data_dir.push('/') + config_dir;
    assert(base.last() == config_dir.last());
    paths::lemma_names_go_below(base, device_id);
    assert(base.push('/') =~= data_dir.push('/') + config_dir.push('/'));
}

} // verus!
