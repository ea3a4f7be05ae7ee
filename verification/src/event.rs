//! What the parts of the desktop tell each other.

use vstd::prelude::*;

use crate::device::{Device, DeviceId, DeviceState, PairState};
use crate::mpris::{Mpris, MprisAction, MprisRequest};
use crate::packet::ProtocolPacket;
use crate::sms::SmsMessages;
use crate::table::TextMap;
use crate::transfer::TransferStatus;

verus! {

/// A command that a remote device offers.
#[derive(Debug, PartialEq, Eq)]
pub struct RemoteCommand {
    pub key: String,
    pub name: String,
    pub command: String,
}

/// What the user asks of the connections.
#[derive(Debug, PartialEq, Eq)]
pub enum AppEvent {
    Broadcasting,
    Disconnect(DeviceId),
    Pair(DeviceId),
    AcceptPairing(DeviceId),
    RejectPairing(DeviceId),
    Ping(DeviceId, String),
    Unpair(DeviceId),
    SendFiles(DeviceId, Vec<String>),
    MprisAction(DeviceId, String, MprisAction),
    SendMprisRequest(DeviceId, MprisRequest),
    SendPacket(DeviceId, ProtocolPacket),
    /// Queue a packet and report whether a live connection accepted it.
    SendPacketWithReply(DeviceId, ProtocolPacket),
    PushLocalCommands(DeviceId),
    SetPluginEnabled { device_id: DeviceId, plugin_id: String, enabled: bool },
}

/// What the connections tell the service.
#[derive(Debug)]
pub enum ConnectionEvent {
    ClipboardReceived(String),
    ClipboardConnectReceived { content: String, timestamp: Option<u64> },
    Connected(DeviceId, Device),
    DevicePaired(DeviceId, Device),
    Disconnected(DeviceId),
    StateUpdated(DeviceState),
    PairStateChanged(DeviceId, PairState),
    Mpris(DeviceId, Mpris),
    SmsMessages(DeviceId, SmsMessages),
    /// Names by phone number.
    ContactsReceived(TextMap<String>),
    UpdateTransferProgress(u8),
    /// The phone waits for a decision on pairing; its name is given.
    PairingRequested(DeviceId, String),
    /// The phone has sent its commands.
    RunCommandListReceived(DeviceId, Vec<RemoteCommand>),
    /// Browsing the phone failed, with a message for the user.
    SftpBrowseFailed(DeviceId, String),
    /// The phone was mounted, or unmounted.
    SftpMountStateChanged(DeviceId, bool),
    /// An attachment was saved: its name, which is also its identifier, and its
    /// path.
    SmsAttachmentReceived(DeviceId, String, String),
    /// Photos by phone number, in base64.
    ContactPhotosReceived(TextMap<String>),
    TransferStatus(TransferStatus),
}

} // verus!
