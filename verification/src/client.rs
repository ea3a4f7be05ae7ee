//! The client side of the session bus: what its signals mean, and what the
//! window for text messages makes of them.

use vstd::prelude::*;

use crate::contacts;
use crate::contacts::decode_photos;
use crate::conversation;
use crate::conversation::{parse_sms_messages, ProtocolEvent};
use crate::json;
use crate::order;
use crate::service::{DbusDevice, Signal};
use crate::sms;
use crate::sms_window::SmsMessage;
use crate::sms_window;
use crate::table::TextMap;
use crate::text::same;
use crate::transfer::TransferStatus;

verus! {

/// Something that the service has told.
#[derive(Debug)]
pub enum ServiceEvent {
    DeviceConnected(String, DbusDevice),
    DevicePaired(String, DbusDevice),
    DeviceDisconnected(String),
    /// The messages of a device, as JSON.
    SmsMessagesReceived(String, String),
    /// Names by phone number.
    ContactsReceived(TextMap<String>),
    PairingRequested(String, String),
    ClipboardReceived(String),
    BatteryReceived(String, i32, bool),
    ConnectivityReceived(String, i32),
    /// The commands of a device, as JSON.
    RunCommandListReceived(String, String),
    BrowseFailed(String, String),
    MountStateChanged(String, bool),
    /// An attachment of a device: its identifier and its path.
    SmsAttachmentReceived(String, String, String),
    /// Photos by phone number, in base64.
    ContactPhotosReceived(TextMap<String>),
    TransferStatusReceived(TransferStatus),
}

/// The map in a JSON text. What cannot be read holds nothing.
pub open spec fn map_in(json: Seq<char>) -> Map<Seq<char>, Seq<char>> {
    match json::json_text_map(json) {
        Some(m) => m,
        None => Map::empty(),
    }
}

/// The event is what the signal means.
pub open spec fn means(signal: Signal, event: ServiceEvent) -> bool {
    match signal {
        Signal::DeviceConnected(id, d) => event == ServiceEvent::DeviceConnected(id, d),
        Signal::DevicePaired(id, d) => event == ServiceEvent::DevicePaired(id, d),
        Signal::DeviceDisconnected(id) => event == ServiceEvent::DeviceDisconnected(id),
        Signal::SmsMessagesReceived(id, j) => event == ServiceEvent::SmsMessagesReceived(id, j),
        Signal::ContactsReceived(j) => event matches ServiceEvent::ContactsReceived(m) && m.wf()
            && m@ == map_in(j@),
        Signal::PairingRequested(id, n) => event == ServiceEvent::PairingRequested(id, n),
        Signal::ClipboardReceived(c) => event == ServiceEvent::ClipboardReceived(c),
        Signal::BatteryReceived(id, l, c) => event == ServiceEvent::BatteryReceived(id, l, c),
        Signal::ConnectivityReceived(id, s) => event == ServiceEvent::ConnectivityReceived(id, s),
        Signal::RunCommandListReceived(id, j) => event == ServiceEvent::RunCommandListReceived(
            id,
            j,
        ),
        Signal::BrowseFailed(id, m) => event == ServiceEvent::BrowseFailed(id, m),
        Signal::MountStateChanged(id, m) => event == ServiceEvent::MountStateChanged(id, m),
        Signal::SmsAttachmentReceived(id, f, p) => event == ServiceEvent::SmsAttachmentReceived(
            id,
            f,
            p,
        ),
        Signal::ContactPhotosReceived(j) => event matches ServiceEvent::ContactPhotosReceived(m)
            && m.wf() && m@ == map_in(j@),
        Signal::TransferStatus(s) => event == ServiceEvent::TransferStatusReceived(s),
        Signal::UpdateTransferProgress(_) => false,
    }
}

/// The client of the service.
#[derive(Debug, PartialEq, Eq)]
pub struct KdeConnectClient;

impl KdeConnectClient {
    /// What a signal means. The progress of an outgoing transfer goes its own
    /// way.
    pub fn listen_for_events(signal: Signal) -> (r: Option<ServiceEvent>)
        ensures
            r is None <==> signal is UpdateTransferProgress,
            r is Some ==> means(signal, r->0),
            r is Some ==> (match signal {
        Signal::DeviceConnected(id, d) => r->0 == ServiceEvent::DeviceConnected(id, d),
        Signal::DevicePaired(id, d) => r->0 == ServiceEvent::DevicePaired(id, d),
        Signal::DeviceDisconnected(id) => r->0 == ServiceEvent::DeviceDisconnected(id),
        Signal::SmsMessagesReceived(id, j) => r->0 == ServiceEvent::SmsMessagesReceived(id, j),
        Signal::ContactsReceived(j) => r->0 matches ServiceEvent::ContactsReceived(m) && m.wf()
            && m@ == map_in(j@),
        Signal::PairingRequested(id, n) => r->0 == ServiceEvent::PairingRequested(id, n),
        Signal::ClipboardReceived(c) => r->0 == ServiceEvent::ClipboardReceived(c),
        Signal::BatteryReceived(id, l, c) => r->0 == ServiceEvent::BatteryReceived(id, l, c),
        Signal::ConnectivityReceived(id, s) => r->0 == ServiceEvent::ConnectivityReceived(id, s),
        Signal::RunCommandListReceived(id, j) => r->0 == ServiceEvent::RunCommandListReceived(
            id,
            j,
        ),
        Signal::BrowseFailed(id, m) => r->0 == ServiceEvent::BrowseFailed(id, m),
        Signal::MountStateChanged(id, m) => r->0 == ServiceEvent::MountStateChanged(id, m),
        Signal::SmsAttachmentReceived(id, f, p) => r->0 == ServiceEvent::SmsAttachmentReceived(
            id,
            f,
            p,
        ),
        Signal::ContactPhotosReceived(j) => r->0 matches ServiceEvent::ContactPhotosReceived(m)
            && m.wf() && m@ == map_in(j@),
        Signal::TransferStatus(s) => r->0 == ServiceEvent::TransferStatusReceived(s),
        Signal::UpdateTransferProgress(_) => false,
    }),
    {
        match signal {
            Signal::DeviceConnected(id, d) => Some(ServiceEvent::DeviceConnected(id, d)),
            Signal::DevicePaired(id, d) => Some(ServiceEvent::DevicePaired(id, d)),
            Signal::DeviceDisconnected(id) => Some(ServiceEvent::DeviceDisconnected(id)),
            Signal::SmsMessagesReceived(id, j) => Some(ServiceEvent::SmsMessagesReceived(id, j)),
            Signal::ContactsReceived(j) => Some(
                ServiceEvent::ContactsReceived(json::text_map(&j)),
            ),
            Signal::PairingRequested(id, n) => Some(ServiceEvent::PairingRequested(id, n)),
            Signal::ClipboardReceived(c) => Some(ServiceEvent::ClipboardReceived(c)),
            Signal::BatteryReceived(id, l, c) => Some(ServiceEvent::BatteryReceived(id, l, c)),
            Signal::ConnectivityReceived(id, s) => Some(
                ServiceEvent::ConnectivityReceived(id, s),
            ),
            Signal::RunCommandListReceived(id, j) => Some(
                ServiceEvent::RunCommandListReceived(id, j),
            ),
            Signal::BrowseFailed(id, m) => Some(ServiceEvent::BrowseFailed(id, m)),
            Signal::MountStateChanged(id, m) => Some(ServiceEvent::MountStateChanged(id, m)),
            Signal::SmsAttachmentReceived(id, f, p) => Some(
                ServiceEvent::SmsAttachmentReceived(id, f, p),
            ),
            Signal::ContactPhotosReceived(j) => Some(
                ServiceEvent::ContactPhotosReceived(json::text_map(&j)),
            ),
            Signal::TransferStatus(s) => Some(ServiceEvent::TransferStatusReceived(s)),
            Signal::UpdateTransferProgress(_) => None,
        }
    }

    /// The progress that a signal tells, in percent.
    pub fn transfer_progress_stream(signal: &Signal) -> (r: Option<u8>)
        ensures
            match *signal {
                Signal::UpdateTransferProgress(p) => r == Some(p),
                _ => r is None,
            },
    {
        match signal {
            Signal::UpdateTransferProgress(p) => Some(*p),
            _ => None,
        }
    }
}

/// What an event is to the window for text messages of one device.
#[derive(Debug)]
pub enum WindowInput {
    /// Tell the window.
    Tell(SmsMessage),
    /// Read the messages in the JSON text.
    Read(String),
    Nothing,
}

/// What an event is to the window of a device.
pub open spec fn concerns(device_id: Seq<char>, event: ServiceEvent, r: WindowInput) -> bool {
    match event {
        ServiceEvent::SmsMessagesReceived(id, json) => if id@ == device_id {
            r == WindowInput::Read(json)
        } else {
            r is Nothing
        },
        ServiceEvent::ContactsReceived(contacts) => r == WindowInput::Tell(
            SmsMessage::ContactsLoaded(contacts),
        ),
        ServiceEvent::SmsAttachmentReceived(id, filename, path) => if id@ == device_id {
            r == WindowInput::Tell(SmsMessage::AttachmentReceived(filename, path))
        } else {
            r is Nothing
        },
        ServiceEvent::ContactPhotosReceived(photos) => {
            let decoded = contacts::decoded_photos(order::views(photos.list()));
            if decoded.len() > 0 {
                r matches WindowInput::Tell(SmsMessage::ContactPhotosLoaded(list))
                    && sms_window::photos_view(list@) == decoded
            } else {
                r is Nothing
            }
        },
        _ => r is Nothing,
    }
}

/// What the event is to the window of the device. Messages and attachments of
/// other devices are nothing to it.
pub fn window_input(device_id: &str, event: ServiceEvent) -> (r: WindowInput)
    ensures
        concerns(device_id@, event, r),
        (match event {
        ServiceEvent::SmsMessagesReceived(id, json) => if id@ == device_id@ {
            r == WindowInput::Read(json)
        } else {
            r is Nothing
        },
        ServiceEvent::ContactsReceived(contacts) => r == WindowInput::Tell(
            SmsMessage::ContactsLoaded(contacts),
        ),
        ServiceEvent::SmsAttachmentReceived(id, filename, path) => if id@ == device_id@ {
            r == WindowInput::Tell(SmsMessage::AttachmentReceived(filename, path))
        } else {
            r is Nothing
        },
        ServiceEvent::ContactPhotosReceived(photos) => {
            let decoded = contacts::decoded_photos(order::views(photos.list()));
            if decoded.len() > 0 {
                r matches WindowInput::Tell(SmsMessage::ContactPhotosLoaded(list))
                    && sms_window::photos_view(list@) == decoded
            } else {
                r is Nothing
            }
        },
        _ => r is Nothing,
    }),
{
    match event {
        ServiceEvent::SmsMessagesReceived(id, json) => {
            if same(&id, device_id) {
                WindowInput::Read(json)
            } else {
                WindowInput::Nothing
            }
        },
        ServiceEvent::ContactsReceived(contacts) => WindowInput::Tell(
            SmsMessage::ContactsLoaded(contacts),
        ),
        ServiceEvent::SmsAttachmentReceived(id, filename, path) => {
            if same(&id, device_id) {
                WindowInput::Tell(SmsMessage::AttachmentReceived(filename, path))
            } else {
                WindowInput::Nothing
            }
        },
        ServiceEvent::ContactPhotosReceived(photos) => {
            let decoded = decode_photos(&photos);
            if decoded.len() > 0 {
                WindowInput::Tell(SmsMessage::ContactPhotosLoaded(decoded))
            } else {
                WindowInput::Nothing
            }
        },
        _ => WindowInput::Nothing,
    }
}

/// Nothing of another phone's messages or attachments reaches a window.
pub proof fn lemma_windows_ignore_other_phones(
    device_id: Seq<char>,
    event: ServiceEvent,
    r: WindowInput,
)
    requires
        concerns(device_id, event, r),
        event matches ServiceEvent::SmsMessagesReceived(id, _) ==> id@ != device_id,
        event matches ServiceEvent::SmsAttachmentReceived(id, _, _) ==> id@ != device_id,
    ensures
        !(r is Read),
        !(r matches WindowInput::Tell(SmsMessage::AttachmentReceived(_, _))),
{
}

/// What the window is told about messages that were read: the messages first,
/// and then the conversations that they make up.
pub fn messages_read(messages: &Vec<sms::SmsMessage>) -> (r: (SmsMessage, SmsMessage))
    ensures
        r.0 matches SmsMessage::ProtocolEventReceived(ProtocolEvent::MessagesReceived(list))
            && order::views(list@) == messages@.map_values(
            |m: sms::SmsMessage| conversation::shown_message(m),
        ),
        r.1 matches SmsMessage::ProtocolEventReceived(ProtocolEvent::ConversationsReceived(list))
            && list@.len() == conversation::threads(messages@).len() && forall|k: int|
            0 <= k < list@.len() ==> conversation::summarised(
                messages@,
                conversation::threads(messages@)[k],
                (#[trigger] list@[k])@,
            ),
{
    let (shown, conversations) = parse_sms_messages(messages);
    (
        SmsMessage::ProtocolEventReceived(ProtocolEvent::MessagesReceived(shown)),
        SmsMessage::ProtocolEventReceived(ProtocolEvent::ConversationsReceived(conversations)),
    )
}

/// The photos in a reply of the service that decode, by phone number.
pub fn cached_photos(json: &str) -> (r: Vec<(String, Vec<u8>)>)
    ensures
        exists|photos: TextMap<String>|
            photos.wf() && #[trigger] photos@ == map_in(json@) && sms_window::photos_view(r@)
                == contacts::decoded_photos(order::views(photos.list())),
{
    let photos = json::text_map(json);
    let r = decode_photos(&photos);
    proof {
        assert(photos@ == map_in(json@));
    }
    r
}

/// The messages in a reply of the service, where there are any.
pub fn cached_messages(reply: String) -> (r: Option<String>)
    ensures
        r == (if reply@.len() == 0 {
            None
        } else {
            Some(reply)
        }),
{
    if reply.as_str().is_empty() {
        None
    } else {
        Some(reply)
    }
}

/// The map in a JSON text is the one that the text holds, and nothing where the
/// text holds none.
pub proof fn lemma_maps_are_read(json: Seq<char>)
    ensures
        json::json_text_map(json) matches Some(m) ==> map_in(json) == m,
        json::json_text_map(json) is None ==> map_in(json).dom().len() == 0,
{
}

} // verus!
