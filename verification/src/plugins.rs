//! Which plugin handles a packet, and what it does with it.

use vstd::prelude::*;

use crate::device;
use crate::device::{Device, DeviceError, DeviceId, DeviceModel, PairState};
use crate::event::ConnectionEvent;
use crate::json;
use crate::mpris::{Mpris, MprisRequest};
use crate::packet;
use crate::packet::{Body, BodyModel, Field, FieldModel, PacketModel, PacketType, ProtocolPacket};
use crate::run_command::{RunCommand, RunCommandRequest};
use crate::sftp::SftpInfo;
use crate::share::ShareRequest;
use crate::sms::{SmsAttachmentFile, SmsMessages};
use crate::table::{Duplicate, TextMap, TextSet};
use crate::text::join2;
use crate::transfer;
use crate::transfer::{IncomingTransfer, TransferDirection, TransferStatus};
use crate::vcard;
use crate::vcard::{parse_vcard, Photo, VcardPhoto};

verus! {

/// The plugin that a packet belongs to. Packets of the core belong to none and
/// are never held back.
pub open spec fn plugin_of(pt: PacketType) -> Option<Seq<char>> {
    match pt {
        PacketType::Battery | PacketType::BatteryRequest => Some("battery"@),
        PacketType::Clipboard | PacketType::ClipboardConnect => Some("clipboard"@),
        PacketType::ConnectivityReport | PacketType::ConnectivityReportRequest => Some(
            "connectivity_report"@,
        ),
        PacketType::ContactsResponseUidsTimestamps
        | PacketType::ContactsResponseVcards
        | PacketType::ContactsRequestAllUidsTimestamps
        | PacketType::ContactsRequestVcardsByUid => Some("contacts"@),
        PacketType::FindMyPhoneRequest => Some("findmyphone"@),
        PacketType::Mpris | PacketType::MprisRequest => Some("mpris"@),
        PacketType::Notification
        | PacketType::NotificationAction
        | PacketType::NotificationReply
        | PacketType::NotificationRequest => Some("notification"@),
        PacketType::Ping => Some("ping"@),
        PacketType::RunCommand | PacketType::RunCommandRequest => Some("runcommand"@),
        PacketType::ShareRequest | PacketType::ShareRequestUpdate => Some("share"@),
        PacketType::SmsMessages
        | PacketType::SmsRequest
        | PacketType::SmsRequestConversations
        | PacketType::SmsRequestConversation
        | PacketType::SmsAttachmentFile
        | PacketType::SmsRequestAttachment => Some("sms"@),
        PacketType::SystemVolume | PacketType::SystemVolumeRequest => Some("systemvolume"@),
        PacketType::Telephony | PacketType::TelephonyRequestMute => Some("telephony"@),
        PacketType::Identity
        | PacketType::Pair
        | PacketType::Lock
        | PacketType::LockRequest
        | PacketType::MousePadEcho
        | PacketType::MousePadKeyboardState
        | PacketType::MousePadRequest
        | PacketType::Presenter
        | PacketType::Sftp
        | PacketType::SftpRequest
        | PacketType::Unknown(_) => None,
    }
}

/// The plugin that the packet belongs to, by its name in the settings.
pub fn packet_plugin_id(pt: &PacketType) -> (r: Option<&'static str>)
    ensures
        r is Some <==> plugin_of(*pt) is Some,
        r is Some ==> r->0@ == plugin_of(*pt)->0,
        *pt is Battery || *pt is BatteryRequest ==> r is Some && r->0@ == "battery"@,
        *pt is Clipboard || *pt is ClipboardConnect ==> r is Some && r->0@ == "clipboard"@,
        *pt is ConnectivityReport || *pt is ConnectivityReportRequest ==> r is Some && r->0@ == "connectivity_report"@,
        *pt is ContactsResponseUidsTimestamps || *pt is ContactsResponseVcards || *pt is ContactsRequestAllUidsTimestamps || *pt is ContactsRequestVcardsByUid ==> r is Some && r->0@ == "contacts"@,
        *pt is FindMyPhoneRequest ==> r is Some && r->0@ == "findmyphone"@,
        *pt is Mpris || *pt is MprisRequest ==> r is Some && r->0@ == "mpris"@,
        *pt is Notification || *pt is NotificationAction || *pt is NotificationReply || *pt is NotificationRequest ==> r is Some && r->0@ == "notification"@,
        *pt is Ping ==> r is Some && r->0@ == "ping"@,
        *pt is RunCommand || *pt is RunCommandRequest ==> r is Some && r->0@ == "runcommand"@,
        *pt is ShareRequest || *pt is ShareRequestUpdate ==> r is Some && r->0@ == "share"@,
        *pt is SmsMessages || *pt is SmsRequest || *pt is SmsRequestConversations || *pt is SmsRequestConversation || *pt is SmsAttachmentFile || *pt is SmsRequestAttachment ==> r is Some && r->0@ == "sms"@,
        *pt is SystemVolume || *pt is SystemVolumeRequest ==> r is Some && r->0@ == "systemvolume"@,
        *pt is Telephony || *pt is TelephonyRequestMute ==> r is Some && r->0@ == "telephony"@,
        *pt is Identity || *pt is Pair || *pt is Lock || *pt is LockRequest || *pt is MousePadEcho || *pt is MousePadKeyboardState || *pt is MousePadRequest || *pt is Presenter || *pt is Sftp || *pt is SftpRequest || *pt is Unknown ==> r is None,
{
    match pt {
        PacketType::Battery | PacketType::BatteryRequest => Some("battery"),
        PacketType::Clipboard | PacketType::ClipboardConnect => Some("clipboard"),
        PacketType::ConnectivityReport | PacketType::ConnectivityReportRequest => Some(
            "connectivity_report",
        ),
        PacketType::ContactsResponseUidsTimestamps
        | PacketType::ContactsResponseVcards
        | PacketType::ContactsRequestAllUidsTimestamps
        | PacketType::ContactsRequestVcardsByUid => Some("contacts"),
        PacketType::FindMyPhoneRequest => Some("findmyphone"),
        PacketType::Mpris | PacketType::MprisRequest => Some("mpris"),
        PacketType::Notification
        | PacketType::NotificationAction
        | PacketType::NotificationReply
        | PacketType::NotificationRequest => Some("notification"),
        PacketType::Ping => Some("ping"),
        PacketType::RunCommand | PacketType::RunCommandRequest => Some("runcommand"),
        PacketType::ShareRequest | PacketType::ShareRequestUpdate => Some("share"),
        PacketType::SmsMessages
        | PacketType::SmsRequest
        | PacketType::SmsRequestConversations
        | PacketType::SmsRequestConversation
        | PacketType::SmsAttachmentFile
        | PacketType::SmsRequestAttachment => Some("sms"),
        PacketType::SystemVolume | PacketType::SystemVolumeRequest => Some("systemvolume"),
        PacketType::Telephony | PacketType::TelephonyRequestMute => Some("telephony"),
        PacketType::Identity
        | PacketType::Pair
        | PacketType::Lock
        | PacketType::LockRequest
        | PacketType::MousePadEcho
        | PacketType::MousePadKeyboardState
        | PacketType::MousePadRequest
        | PacketType::Presenter
        | PacketType::Sftp
        | PacketType::SftpRequest
        | PacketType::Unknown(_) => None,
    }
}

/// The plugins that are switched off, by device.
#[derive(Debug)]
pub struct PluginRegistry {
    disabled: TextMap<TextSet>,
}

impl View for PluginRegistry {
    type V = Map<Seq<char>, Set<Seq<char>>>;

    closed spec fn view(&self) -> Map<Seq<char>, Set<Seq<char>>> {
        self.disabled@
    }
}

/// A plugin is on for a device unless it was switched off.
pub open spec fn enabled(
    disabled: Map<Seq<char>, Set<Seq<char>>>,
    device_id: Seq<char>,
    plugin_id: Seq<char>,
) -> bool {
    !(disabled.contains_key(device_id) && disabled[device_id].contains(plugin_id))
}

/// Whether packets of the kind reach the plugins for a device.
pub open spec fn passes(
    disabled: Map<Seq<char>, Set<Seq<char>>>,
    device_id: Seq<char>,
    pt: PacketType,
) -> bool {
    plugin_of(pt) is Some ==> enabled(disabled, device_id, plugin_of(pt)->0)
}

/// The body of a packet that came in. What a plugin cannot read is unreadable.
#[derive(Debug, PartialEq, Eq)]
pub enum IncomingBody {
    /// The body as JSON.
    Json(String),
    /// A body that its plugin has read.
    Readable,
    Unreadable,
    AttachmentFile(SmsAttachmentFile),
    Messages(SmsMessages),
    Mpris(Mpris),
    MprisRequest(MprisRequest),
    RunCommand(RunCommand),
    RunCommandRequest(RunCommandRequest),
    Share(ShareRequest),
    Sftp(SftpInfo),
}

/// A packet that came in.
#[derive(Debug, PartialEq, Eq)]
pub struct IncomingPacket {
    pub packet_type: PacketType,
    pub body: IncomingBody,
    pub payload_size: Option<u64>,
    pub payload_port: Option<u16>,
}

/// A plugin that handles its packets by itself.
#[derive(Debug, Clone, Copy, PartialEq, Eq, Structural)]
pub enum Handler {
    Battery,
    Clipboard,
    ClipboardConnect,
    Connectivity,
    Notification,
    Ping,
    SystemVolume,
    Telephony,
}

/// What a packet leads to.
#[derive(Debug)]
pub enum Effect {
    /// Tell the service.
    Event(ConnectionEvent),
    /// Tell the media players.
    MediaEvent(ConnectionEvent),
    /// Send a packet back to the device.
    Send(ProtocolPacket),
    /// Hand the packet to its plugin.
    Handle(Handler),
    /// Receive the file of an attachment.
    ReceiveAttachment {
        file: SmsAttachmentFile,
        port: u16,
        expected_size: Option<u64>,
        transfer: IncomingTransfer,
    },
    /// Receive the album art of a player.
    ReceiveArt {
        player: String,
        album_art_url: String,
        port: u16,
        expected_size: Option<u64>,
        transfer: IncomingTransfer,
    },
    /// Take in what the phone shares; a file is reported on.
    ReceiveShare {
        request: ShareRequest,
        payload_port: Option<u16>,
        expected_size: Option<u64>,
        reporter: Option<IncomingTransfer>,
    },
    /// Do what the phone asks of the players.
    ControlPlayers(MprisRequest),
    /// Take in the command list of the phone.
    TakeCommands(RunCommand),
    /// Answer a request about commands.
    AnswerCommand(RunCommandRequest),
    /// Mount the phone.
    Browse(SftpInfo),
}

/// The moment and the number that name the next transfer.
#[derive(Debug, PartialEq, Eq)]
pub struct Stamp {
    pub millis: u128,
    pub counter: u32,
}

/// The transfer reports on a file of the device.
pub open spec fn reports_on(
    t: IncomingTransfer,
    device_id: Seq<char>,
    filename: Seq<char>,
    size: Option<u64>,
    stamp: Stamp,
) -> bool {
    let base = t.base();
    &&& t.last() is None
    &&& base.transfer_id@ == transfer::transfer_id(stamp.millis as nat, stamp.counter as nat)
    &&& base.device_id@ == device_id
    &&& base.direction == TransferDirection::Incoming
    &&& base.filename is Some && base.filename->0@ == filename
    &&& base.expected_size == size
    &&& base.received_bytes == 0
    &&& base.state is Receiving
    &&& base.saved_path is None
}

/// A map with a value for each of the phone numbers.
pub open spec fn with_phones(
    map: Map<Seq<char>, Seq<char>>,
    phones: Seq<Seq<char>>,
    value: Seq<char>,
) -> Map<Seq<char>, Seq<char>>
    decreases phones.len(),
{
    if phones.len() == 0 {
        map
    } else {
        with_phones(map, phones.drop_last(), value).insert(phones.last(), value)
    }
}

/// The names by phone number in the cards under the given identifiers.
pub open spec fn contact_names(body: Seq<char>, uids: Seq<Seq<char>>) -> Map<Seq<char>, Seq<char>>
    decreases uids.len(),
{
    if uids.len() == 0 {
        Map::empty()
    } else {
        let before = contact_names(body, uids.drop_last());
        match json::json_text_member(body, uids.last()) {
            Some(card) => match vcard::card_of(card).name {
                Some(name) => with_phones(before, vcard::card_of(card).phones, name),
                None => before,
            },
            None => before,
        }
    }
}

/// The photos by phone number in the cards under the given identifiers. Photos
/// that are only linked to are not fetched.
pub open spec fn contact_photos(body: Seq<char>, uids: Seq<Seq<char>>) -> Map<Seq<char>, Seq<char>>
    decreases uids.len(),
{
    if uids.len() == 0 {
        Map::empty()
    } else {
        let before = contact_photos(body, uids.drop_last());
        match json::json_text_member(body, uids.last()) {
            Some(card) => match vcard::card_of(card).photo {
                Photo::Inline(data) => with_phones(before, vcard::card_of(card).phones, data),
                _ => before,
            },
            None => before,
        }
    }
}

/// The identifiers that a body of the contacts plugin lists.
pub open spec fn listed_uids(body: Seq<char>) -> Option<Seq<Seq<char>>> {
    match json::json_array_texts(body, "uids"@) {
        Some(items) => Some(json::present(items)),
        None => None,
    }
}

/// The request for the cards of contacts.
pub open spec fn vcards_request(uids: Seq<Seq<char>>) -> PacketModel {
    packet::object(
        PacketType::ContactsRequestVcardsByUid,
        seq![("uids"@, FieldModel::Texts(uids))],
    )
}

fn insert_phones(map: &mut TextMap<String>, phones: &Vec<String>, value: &str)
    requires
        old(map).wf(),
    ensures
        final(map).wf(),
        final(map)@ == with_phones(old(map)@, phones.deep_view(), value@),
{
    let ghost all = phones.deep_view();
    let ghost before = map@;
    let mut i: usize = 0;
    proof {
        assert(all.take(0) =~= Seq::empty());
    }
    while i < phones.len()
        invariant
            i <= phones@.len(),
            all == phones.deep_view(),
            map.wf(),
            map@ == with_phones(before, all.take(i as int), value@),
        decreases phones@.len() - i,
    {
        proof {
            assert(all.take(i + 1).drop_last() == all.take(i as int));
            assert(all.take(i + 1).last() == phones@[i as int]@);
        }
        map.insert(phones[i].clone(), value.to_owned());
        i = i + 1;
    }
    proof {
        assert(all.take(i as int) == all);
    }
}

/// The names and photos by phone number in a body of cards.
fn contacts_of(body: &str) -> (r: (TextMap<String>, TextMap<String>))
    ensures
        r.0.wf(),
        r.1.wf(),
        ({
            let uids = match listed_uids(body@) {
                Some(u) => u,
                None => Seq::empty(),
            };
            r.0@ == contact_names(body@, uids) && r.1@ == contact_photos(body@, uids)
        }),
{
    let mut names: TextMap<String> = TextMap::new();
    let mut photos: TextMap<String> = TextMap::new();
    if let Some(uids) = json::texts_under(body, "uids") {
        let ghost all = uids.deep_view();
        let mut i: usize = 0;
        proof {
            assert(all.take(0) =~= Seq::empty());
        }
        while i < uids.len()
            invariant
                i <= uids@.len(),
                all == uids.deep_view(),
                names.wf(),
                photos.wf(),
                names@ == contact_names(body@, all.take(i as int)),
                photos@ == contact_photos(body@, all.take(i as int)),
            decreases uids@.len() - i,
        {
            proof {
                assert(all.take(i + 1).drop_last() == all.take(i as int));
                assert(all.take(i + 1).last() == uids@[i as int]@);
            }
            if let Some(card) = json::text_under(body, &uids[i]) {
                let (name, phones, photo) = parse_vcard(&card);
                if let Some(n) = &name {
                    insert_phones(&mut names, &phones, n);
                }
                if let VcardPhoto::Inline(data) = &photo {
                    insert_phones(&mut photos, &phones, data);
                }
            }
            i = i + 1;
        }
        proof {
            assert(all.take(i as int) == all);
        }
    }
    (names, photos)
}

/// The effects of a body of cards: the names, where there are any, and then
/// the photos, where there are any.
pub open spec fn contact_effects(body: Seq<char>, effects: Seq<Effect>) -> bool {
    let uids = match listed_uids(body) {
        Some(u) => u,
        None => Seq::empty(),
    };
    let names = contact_names(body, uids);
    let photos = contact_photos(body, uids);
    let n: int = if names.dom().len() > 0 {
        1
    } else {
        0
    };
    let p: int = if photos.dom().len() > 0 {
        1
    } else {
        0
    };
    &&& effects.len() == n + p
    &&& n == 1 ==> (effects[0] matches Effect::Event(ConnectionEvent::ContactsReceived(m)) && m.wf()
        && m@ == names)
    &&& p == 1 ==> (effects[n] matches Effect::Event(ConnectionEvent::ContactPhotosReceived(m))
        && m.wf() && m@ == photos)
}

/// What a packet that reached the plugins leads to.
pub open spec fn leads_to(
    device_id: Seq<char>,
    packet: IncomingPacket,
    stamp: Stamp,
    effects: Seq<Effect>,
) -> bool {
    match packet.packet_type {
        PacketType::Battery => own_handler(packet.body, Handler::Battery, effects),
        PacketType::Clipboard => own_handler(packet.body, Handler::Clipboard, effects),
        PacketType::ClipboardConnect => own_handler(packet.body, Handler::ClipboardConnect, effects),
        PacketType::ConnectivityReport => own_handler(packet.body, Handler::Connectivity, effects),
        PacketType::Notification => own_handler(packet.body, Handler::Notification, effects),
        PacketType::Ping => own_handler(packet.body, Handler::Ping, effects),
        PacketType::SystemVolumeRequest => own_handler(packet.body, Handler::SystemVolume, effects),
        PacketType::Telephony => own_handler(packet.body, Handler::Telephony, effects),
        PacketType::SmsAttachmentFile => match (packet.body, packet.payload_port) {
            (IncomingBody::AttachmentFile(f), Some(p)) => {
                &&& effects.len() == 2
                &&& effects[1] matches Effect::ReceiveAttachment {
                    file,
                    port,
                    expected_size,
                    transfer,
                } && file == f && port == p && expected_size == packet.payload_size && reports_on(
                    transfer,
                    device_id,
                    f.filename@,
                    packet.payload_size,
                    stamp,
                ) && effects[0] == Effect::Event(ConnectionEvent::TransferStatus(transfer.base()))
            },
            _ => effects.len() == 0,
        },
        PacketType::SmsMessages => match packet.body {
            IncomingBody::Messages(m) => {
                &&& effects.len() == 1
                &&& effects[0] matches Effect::Event(ConnectionEvent::SmsMessages(id, messages))
                    && id@ == device_id && messages == m
            },
            _ => effects.len() == 0,
        },
        PacketType::ContactsResponseUidsTimestamps => match packet.body {
            IncomingBody::Json(json) => match listed_uids(json@) {
                Some(uids) => if uids.len() > 0 {
                    &&& effects.len() == 1
                    &&& effects[0] matches Effect::Send(p) && p@ == vcards_request(uids)
                } else {
                    effects.len() == 0
                },
                None => effects.len() == 0,
            },
            _ => effects.len() == 0,
        },
        PacketType::ContactsResponseVcards => match packet.body {
            IncomingBody::Json(json) => contact_effects(json@, effects),
            _ => effects.len() == 0,
        },
        PacketType::Mpris => match packet.body {
            IncomingBody::Mpris(m) => {
                let art = m matches Mpris::TransferringArt { transferring_album_art, .. }
                    && transferring_album_art && packet.payload_port is Some;
                let first: int = if art {
                    2
                } else {
                    0
                };
                &&& effects.len() == first + 2
                &&& effects[first] matches Effect::Event(ConnectionEvent::Mpris(id, e)) && id@
                    == device_id && e@ == m@
                &&& effects[first + 1] matches Effect::MediaEvent(ConnectionEvent::Mpris(id, e))
                    && id@ == device_id && e@ == m@
                &&& art ==> art_effects(device_id, packet, stamp, effects)
            },
            _ => effects.len() == 0,
        },
        PacketType::MprisRequest => match packet.body {
            IncomingBody::MprisRequest(q) => effects == seq![Effect::ControlPlayers(q)],
            _ => effects.len() == 0,
        },
        PacketType::RunCommand => match packet.body {
            IncomingBody::RunCommand(c) => effects == seq![Effect::TakeCommands(c)],
            _ => effects.len() == 0,
        },
        PacketType::RunCommandRequest => match packet.body {
            IncomingBody::RunCommandRequest(c) => effects == seq![Effect::AnswerCommand(c)],
            _ => effects.len() == 0,
        },
        PacketType::ShareRequest => match packet.body {
            IncomingBody::Share(s) => share_effects(device_id, s, packet, stamp, effects),
            _ => effects.len() == 0,
        },
        PacketType::Sftp => match packet.body {
            IncomingBody::Sftp(info) => effects == seq![Effect::Browse(info)],
            _ => effects.len() == 0,
        },
        _ => effects.len() == 0,
    }
}

/// A packet that its plugin handles by itself, where it could be read.
pub open spec fn own_handler(body: IncomingBody, handler: Handler, effects: Seq<Effect>) -> bool {
    if body is Readable {
        effects == seq![Effect::Handle(handler)]
    } else {
        effects.len() == 0
    }
}

/// The effects of announced album art: the first report on it, and receiving
/// it.
pub open spec fn art_effects(
    device_id: Seq<char>,
    packet: IncomingPacket,
    stamp: Stamp,
    effects: Seq<Effect>,
) -> bool {
    &&& packet.body matches IncomingBody::Mpris(
        Mpris::TransferringArt { player: p, album_art_url: u, .. },
    ) && effects[1] matches Effect::ReceiveArt {
        player,
        album_art_url,
        port,
        expected_size,
        transfer,
    } && player == p && album_art_url == u && packet.payload_port == Some(port) && expected_size
        == packet.payload_size && reports_on(
        transfer,
        device_id,
        p@ + " album art"@,
        packet.payload_size,
        stamp,
    ) && effects[0] == Effect::MediaEvent(ConnectionEvent::TransferStatus(transfer.base()))
}

/// The effects of a share: a file is reported on, anything else is not.
pub open spec fn share_effects(
    device_id: Seq<char>,
    s: ShareRequest,
    packet: IncomingPacket,
    stamp: Stamp,
    effects: Seq<Effect>,
) -> bool {
    match s {
        ShareRequest::File(f) => {
            &&& effects.len() == 2
            &&& effects[1] matches Effect::ReceiveShare {
                request,
                payload_port,
                expected_size,
                reporter: Some(t),
            } && request == s && payload_port == packet.payload_port && expected_size
                == packet.payload_size && reports_on(
                t,
                device_id,
                f.filename@,
                packet.payload_size,
                stamp,
            ) && effects[0] == Effect::Event(ConnectionEvent::TransferStatus(t.base()))
        },
        _ => effects == seq![
            Effect::ReceiveShare {
                request: s,
                payload_port: packet.payload_port,
                expected_size: packet.payload_size,
                reporter: None,
            },
        ],
    }
}

fn no_effect() -> (r: Vec<Effect>)
    ensures
        r@.len() == 0,
{
    Vec::new()
}

fn one_effect(e: Effect) -> (r: Vec<Effect>)
    ensures
        r@ == seq![e],
{
    let mut r: Vec<Effect> = Vec::new();
    r.push(e);
    proof {
        assert(r@ =~= seq![e]);
    }
    r
}

fn handled(body: IncomingBody, handler: Handler) -> (r: Vec<Effect>)
    ensures
        own_handler(body, handler, r@),
{
    match body {
        IncomingBody::Readable => one_effect(Effect::Handle(handler)),
        _ => no_effect(),
    }
}

fn report(device: &Device, filename: String, size: Option<u64>, stamp: &Stamp) -> (t: IncomingTransfer)
    ensures
        reports_on(t, device@.device_id, filename@, size, *stamp),
{
    IncomingTransfer::new(&device.device_id, Some(filename), size, stamp.millis, stamp.counter)
}

impl PluginRegistry {
    /// The device identifiers are distinct.
    pub closed spec fn wf(&self) -> bool {
        self.disabled.wf()
    }

    /// Every plugin is on.
    pub fn new() -> (r: PluginRegistry)
        ensures
            r.wf(),
            r@ == Map::<Seq<char>, Set<Seq<char>>>::empty(),
    {
        PluginRegistry { disabled: TextMap::new() }
    }

    /// Switches exactly these plugins off for the device.
    pub fn set_device_disabled(&mut self, device_id: &str, disabled: TextSet)
        requires
            old(self).wf(),
        ensures
            final(self).wf(),
            final(self)@ == old(self)@.insert(device_id@, disabled@),
    {
        self.disabled.insert(device_id.to_owned(), disabled);
    }

    /// Whether the plugin is on for the device.
    pub fn is_plugin_enabled(&self, device_id: &str, plugin_id: &str) -> (r: bool)
        requires
            self.wf(),
        ensures
            r == enabled(self@, device_id@, plugin_id@),
            r <==> !(self@.contains_key(device_id@) && self@[device_id@].contains(plugin_id@)),
    {
        match self.disabled.get(device_id) {
            Some(set) => !set.contains(plugin_id),
            None => true,
        }
    }

    /// What a packet of the device leads to. A packet of a plugin that is
    /// switched off leads to nothing.
    pub fn dispatch(&self, device: &Device, packet: IncomingPacket, stamp: &Stamp) -> (r: Vec<Effect>)
        requires
            self.wf(),
        ensures
            !passes(self@, device@.device_id, packet.packet_type) ==> r@.len() == 0,
            passes(self@, device@.device_id, packet.packet_type) ==> leads_to(
                device@.device_id,
                packet,
                *stamp,
                r@,
            ),
            passes(self@, device@.device_id, packet.packet_type) && packet.packet_type is Battery && packet.body is Readable
                ==> r@ == seq![Effect::Handle(Handler::Battery)],
            passes(self@, device@.device_id, packet.packet_type) && packet.packet_type is Clipboard && packet.body is Readable
                ==> r@ == seq![Effect::Handle(Handler::Clipboard)],
            passes(self@, device@.device_id, packet.packet_type) && packet.packet_type is ClipboardConnect && packet.body is Readable
                ==> r@ == seq![Effect::Handle(Handler::ClipboardConnect)],
            passes(self@, device@.device_id, packet.packet_type) && packet.packet_type is ConnectivityReport && packet.body is Readable
                ==> r@ == seq![Effect::Handle(Handler::Connectivity)],
            passes(self@, device@.device_id, packet.packet_type) && packet.packet_type is Notification && packet.body is Readable
                ==> r@ == seq![Effect::Handle(Handler::Notification)],
            passes(self@, device@.device_id, packet.packet_type) && packet.packet_type is Ping && packet.body is Readable
                ==> r@ == seq![Effect::Handle(Handler::Ping)],
            passes(self@, device@.device_id, packet.packet_type) && packet.packet_type is SystemVolumeRequest && packet.body is Readable
                ==> r@ == seq![Effect::Handle(Handler::SystemVolume)],
            passes(self@, device@.device_id, packet.packet_type) && packet.packet_type is Telephony && packet.body is Readable
                ==> r@ == seq![Effect::Handle(Handler::Telephony)],
            packet.body is Unreadable ==> r@.len() == 0,
            passes(self@, device@.device_id, packet.packet_type) && packet.packet_type is SmsMessages ==> (
            packet.body matches IncomingBody::Messages(m) ==> r@.len() == 1 && (
            r@[0] matches Effect::Event(ConnectionEvent::SmsMessages(id, messages)) && id@
                == device@.device_id && messages == m)),
            passes(self@, device@.device_id, packet.packet_type) && packet.packet_type is MprisRequest ==> (
            packet.body matches IncomingBody::MprisRequest(q) ==> r@ == seq![
                Effect::ControlPlayers(q),
            ]),
            passes(self@, device@.device_id, packet.packet_type) && packet.packet_type is RunCommand ==> (
            packet.body matches IncomingBody::RunCommand(c) ==> r@ == seq![Effect::TakeCommands(c)]),
            passes(self@, device@.device_id, packet.packet_type) && packet.packet_type is RunCommandRequest ==> (
            packet.body matches IncomingBody::RunCommandRequest(c) ==> r@ == seq![
                Effect::AnswerCommand(c),
            ]),
            packet.packet_type is Sftp ==> (packet.body matches IncomingBody::Sftp(info) ==> r@
                == seq![Effect::Browse(info)]),
            passes(self@, device@.device_id, packet.packet_type) && packet.packet_type is ShareRequest ==> (
            packet.body matches IncomingBody::Share(s) ==> r@.len() >= 1 && (
            r@.last() matches Effect::ReceiveShare { request, payload_port, expected_size, reporter }
                && request == s && payload_port == packet.payload_port && expected_size
                == packet.payload_size && (reporter is Some <==> s is File))),
            passes(self@, device@.device_id, packet.packet_type) && packet.packet_type is SmsAttachmentFile ==> (
            packet.body matches IncomingBody::AttachmentFile(f) ==> (packet.payload_port matches Some(
                p,
            ) ==> r@.len() == 2 && (r@[1] matches Effect::ReceiveAttachment {
                file,
                port,
                expected_size,
                transfer,
            } && file == f && port == p && expected_size == packet.payload_size))),
            passes(self@, device@.device_id, packet.packet_type) && packet.packet_type is Mpris ==> (
            packet.body matches IncomingBody::Mpris(m) ==> r@.len() >= 2 && (
            r@[r@.len() - 2] matches Effect::Event(ConnectionEvent::Mpris(id, e)) && id@
                == device@.device_id && e@ == m@) && (
            r@[r@.len() - 1] matches Effect::MediaEvent(ConnectionEvent::Mpris(id, e)) && id@
                == device@.device_id && e@ == m@)),
            passes(self@, device@.device_id, packet.packet_type) && packet.packet_type is Mpris ==> (
            packet.body matches IncomingBody::Mpris(
                Mpris::TransferringArt { player: p, album_art_url: u, transferring_album_art: true },
            ) ==> (packet.payload_port matches Some(n) ==> r@.len() == 4 && (
            r@[1] matches Effect::ReceiveArt {
                player,
                album_art_url,
                port,
                expected_size,
                transfer,
            } && player == p && album_art_url == u && port == n && expected_size
                == packet.payload_size))),
            passes(self@, device@.device_id, packet.packet_type) && packet.packet_type is ContactsResponseUidsTimestamps ==> (
            packet.body matches IncomingBody::Json(json) ==> (listed_uids(json@) matches Some(uids)
                ==> (uids.len() > 0 ==> r@.len() == 1 && (r@[0] matches Effect::Send(p)
                && p@.packet_type is ContactsRequestVcardsByUid && p@ == packet::object(
                PacketType::ContactsRequestVcardsByUid,
                seq![("uids"@, FieldModel::Texts(uids))],
            ))))),
            passes(self@, device@.device_id, packet.packet_type) && packet.packet_type is ContactsResponseVcards ==> (
            packet.body matches IncomingBody::Json(json) ==> (listed_uids(json@) matches Some(uids)
                ==> {
                &&& contact_names(json@, uids).dom().len() > 0 ==> r@.len() > 0 && (
                r@[0] matches Effect::Event(ConnectionEvent::ContactsReceived(m)) && m@
                    == contact_names(json@, uids))
                &&& contact_photos(json@, uids).dom().len() > 0 ==> r@.len() > 0 && (
                r@.last() matches Effect::Event(ConnectionEvent::ContactPhotosReceived(m)) && m@
                    == contact_photos(json@, uids))
            })),
    {
        if let Some(plugin_id) = packet_plugin_id(&packet.packet_type) {
            if !self.is_plugin_enabled(&device.device_id.0, plugin_id) {
                return no_effect();
            }
        }
        let size = packet.payload_size;
        let port = packet.payload_port;
        match packet.packet_type {
            PacketType::Battery => handled(packet.body, Handler::Battery),
            PacketType::Clipboard => handled(packet.body, Handler::Clipboard),
            PacketType::ClipboardConnect => handled(packet.body, Handler::ClipboardConnect),
            PacketType::ConnectivityReport => handled(packet.body, Handler::Connectivity),
            PacketType::Notification => handled(packet.body, Handler::Notification),
            PacketType::Ping => handled(packet.body, Handler::Ping),
            PacketType::SystemVolumeRequest => handled(packet.body, Handler::SystemVolume),
            PacketType::Telephony => handled(packet.body, Handler::Telephony),
            PacketType::SmsAttachmentFile => match (packet.body, port) {
                (IncomingBody::AttachmentFile(file), Some(p)) => {
                    let transfer = report(device, file.filename.clone(), size, stamp);
                    let mut r = one_effect(
                        Effect::Event(ConnectionEvent::TransferStatus(transfer.started())),
                    );
                    r.push(
                        Effect::ReceiveAttachment {
                            file,
                            port: p,
                            expected_size: size,
                            transfer,
                        },
                    );
                    r
                },
                _ => no_effect(),
            },
            PacketType::SmsMessages => match packet.body {
                IncomingBody::Messages(m) => one_effect(
                    Effect::Event(ConnectionEvent::SmsMessages(device.device_id.duplicate(), m)),
                ),
                _ => no_effect(),
            },
            PacketType::ContactsResponseUidsTimestamps => match packet.body {
                IncomingBody::Json(json) => match json::texts_under(&json, "uids") {
                    Some(uids) => {
                        if uids.len() > 0 {
                            one_effect(
                                Effect::Send(
                                    ProtocolPacket::with_field(
                                        PacketType::ContactsRequestVcardsByUid,
                                        "uids",
                                        Field::Texts(uids),
                                    ),
                                ),
                            )
                        } else {
                            no_effect()
                        }
                    },
                    None => no_effect(),
                },
                _ => no_effect(),
            },
            PacketType::ContactsResponseVcards => match packet.body {
                IncomingBody::Json(json) => {
                    let (names, photos) = contacts_of(&json);
                    let mut r = no_effect();
                    proof {
                        names.lemma_list();
                        photos.lemma_list();
                        names.lemma_len();
                        photos.lemma_len();
                    }
                    if names.len() > 0 {
                        r.push(Effect::Event(ConnectionEvent::ContactsReceived(names)));
                    }
                    if photos.len() > 0 {
                        r.push(Effect::Event(ConnectionEvent::ContactPhotosReceived(photos)));
                    }
                    r
                },
                _ => no_effect(),
            },
            PacketType::Mpris => match packet.body {
                IncomingBody::Mpris(m) => {
                    let mut r = no_effect();
                    if let Mpris::TransferringArt {
                        player,
                        album_art_url,
                        transferring_album_art,
                    } = &m {
                        if *transferring_album_art {
                            if let Some(p) = port {
                                let transfer = report(
                                    device,
                                    join2(player, " album art"),
                                    size,
                                    stamp,
                                );
                                r.push(
                                    Effect::MediaEvent(
                                        ConnectionEvent::TransferStatus(transfer.started()),
                                    ),
                                );
                                r.push(
                                    Effect::ReceiveArt {
                                        player: player.clone(),
                                        album_art_url: album_art_url.clone(),
                                        port: p,
                                        expected_size: size,
                                        transfer,
                                    },
                                );
                            }
                        }
                    }
                    let again = m.duplicate();
                    r.push(Effect::Event(ConnectionEvent::Mpris(device.device_id.duplicate(), again)));
                    r.push(
                        Effect::MediaEvent(ConnectionEvent::Mpris(device.device_id.duplicate(), m)),
                    );
                    r
                },
                _ => no_effect(),
            },
            PacketType::MprisRequest => match packet.body {
                IncomingBody::MprisRequest(q) => one_effect(Effect::ControlPlayers(q)),
                _ => no_effect(),
            },
            PacketType::RunCommand => match packet.body {
                IncomingBody::RunCommand(c) => one_effect(Effect::TakeCommands(c)),
                _ => no_effect(),
            },
            PacketType::RunCommandRequest => match packet.body {
                IncomingBody::RunCommandRequest(c) => one_effect(Effect::AnswerCommand(c)),
                _ => no_effect(),
            },
            PacketType::ShareRequest => match packet.body {
                IncomingBody::Share(ShareRequest::File(f)) => {
                    let t = report(device, f.filename.clone(), size, stamp);
                    let mut r = one_effect(
                        Effect::Event(ConnectionEvent::TransferStatus(t.started())),
                    );
                    r.push(
                        Effect::ReceiveShare {
                            request: ShareRequest::File(f),
                            payload_port: port,
                            expected_size: size,
                            reporter: Some(t),
                        },
                    );
                    r
                },
                IncomingBody::Share(request) => one_effect(
                    Effect::ReceiveShare {
                        request,
                        payload_port: port,
                        expected_size: size,
                        reporter: None,
                    },
                ),
                _ => no_effect(),
            },
            PacketType::Sftp => match packet.body {
                IncomingBody::Sftp(info) => one_effect(Effect::Browse(info)),
                _ => no_effect(),
            },
            _ => no_effect(),
        }
    }
}

/// What follows a mount of the phone: it is mounted, or the user is told why
/// not.
pub fn browse_event(device_id: DeviceId, result: Result<(), String>) -> (r: ConnectionEvent)
    ensures
        r == (match result {
            Ok(_) => ConnectionEvent::SftpMountStateChanged(device_id, true),
            Err(message) => ConnectionEvent::SftpBrowseFailed(device_id, message),
        }),
{
    match result {
        Ok(_) => ConnectionEvent::SftpMountStateChanged(device_id, true),
        Err(message) => ConnectionEvent::SftpBrowseFailed(device_id, message),
    }
}

/// What the players are told once album art was saved: its path takes the
/// place of the announced URL.
pub fn art_event(device_id: DeviceId, player: String, path: String) -> (r: ConnectionEvent)
    ensures
        r == ConnectionEvent::Mpris(
            device_id,
            Mpris::TransferringArt { player, album_art_url: path, transferring_album_art: false },
        ),
{
    ConnectionEvent::Mpris(
        device_id,
        Mpris::TransferringArt { player, album_art_url: path, transferring_album_art: false },
    )
}

impl Mpris {
    /// The packet that announces album art and where it waits.
    pub fn send_art(self, payload_size: u64, payload_port: Option<u16>) -> (r: ProtocolPacket)
        ensures
            r@ == (PacketModel {
                packet_type: PacketType::Mpris,
                body: BodyModel::Mpris(self@),
                payload_size: Some(payload_size),
                payload_port,
            }),
    {
        ProtocolPacket::new_with_payload(
            PacketType::Mpris,
            Body::Mpris(self),
            payload_size,
            payload_port,
        )
    }
}

impl MprisRequest {
    /// The packet that makes the request.
    pub fn send_packet(self) -> (r: ProtocolPacket)
        ensures
            r@ == packet::plain(PacketType::MprisRequest, BodyModel::MprisRequest(self)),
    {
        ProtocolPacket::new(PacketType::MprisRequest, Body::MprisRequest(self))
    }
}

/// What offering a payload to a device comes to.
#[derive(Debug, PartialEq, Eq)]
pub enum PayloadOffer {
    /// The device is not trusted.
    Refused(DeviceError),
    /// No port is free.
    NoPort,
    /// Packets of this kind carry no payload.
    Unsupported,
    /// Send the packet, where there is one, and wait for the device at the port.
    Offer(Option<ProtocolPacket>),
}

/// Offers a payload to a device. `port` is a free port, where there is one; the
/// body is the one to announce, where it could be read.
pub fn send_payload(
    device: &Device,
    packet_type: &PacketType,
    body: Option<Body>,
    payload_size: u64,
    port: Option<u16>,
) -> (r: PayloadOffer)
    ensures
        ({
            let supported = *packet_type is Mpris || *packet_type is ShareRequest;
            if !device::trusted(device@) {
                r matches PayloadOffer::Refused(e) && e == (if device@.pair_state
                    != PairState::Paired {
                    DeviceError::NotPaired
                } else {
                    DeviceError::NoPinnedCertificate
                })
            } else if port is None {
                r is NoPort
            } else if !supported {
                r is Unsupported
            } else {
                r matches PayloadOffer::Offer(p) && (match (*packet_type, body) {
                    (PacketType::Mpris, Some(Body::Mpris(m))) => p is Some && p->0@ == (
                    PacketModel {
                        packet_type: PacketType::Mpris,
                        body: BodyModel::Mpris(m@),
                        payload_size: Some(payload_size),
                        payload_port: port,
                    }),
                    (PacketType::ShareRequest, Some(Body::Share(s))) => p is Some && p->0@ == (
                    PacketModel {
                        packet_type: PacketType::ShareRequest,
                        body: BodyModel::Share(s),
                        payload_size: Some(payload_size),
                        payload_port: port,
                    }),
                    _ => p is None,
                })
            }
        }),
{
    match device.payload_certificate() {
        Ok(_) => {},
        Err(e) => {
            return PayloadOffer::Refused(e);
        },
    }
    if port.is_none() {
        return PayloadOffer::NoPort;
    }
    match packet_type {
        PacketType::Mpris => match body {
            Some(Body::Mpris(m)) => PayloadOffer::Offer(Some(m.send_art(payload_size, port))),
            _ => PayloadOffer::Offer(None),
        },
        PacketType::ShareRequest => match body {
            Some(Body::Share(s)) => PayloadOffer::Offer(Some(s.send_file(payload_size, port))),
            _ => PayloadOffer::Offer(None),
        },
        _ => PayloadOffer::Unsupported,
    }
}

/// What sending a packet through its plugin comes to.
#[derive(Debug, PartialEq, Eq)]
pub enum Sending {
    /// The ping plugin sends it.
    Ping,
    Packet(ProtocolPacket),
    Nothing,
}

/// Sends a packet through its plugin. Only pings and media requests go this
/// way.
pub fn send(packet: IncomingPacket) -> (r: Sending)
    ensures
        match (packet.packet_type, packet.body) {
            (PacketType::Ping, IncomingBody::Readable) => r is Ping,
            (PacketType::MprisRequest, IncomingBody::MprisRequest(q)) => r matches Sending::Packet(p)
                && p@ == packet::plain(PacketType::MprisRequest, BodyModel::MprisRequest(q)),
            _ => r is Nothing,
        },
{
    match packet.packet_type {
        PacketType::Ping => match packet.body {
            IncomingBody::Readable => Sending::Ping,
            _ => Sending::Nothing,
        },
        PacketType::MprisRequest => match packet.body {
            IncomingBody::MprisRequest(q) => Sending::Packet(q.send_packet()),
            _ => Sending::Nothing,
        },
        _ => Sending::Nothing,
    }
}

/// Where a packet that came in goes.
#[derive(Debug, Clone, Copy, PartialEq, Eq, Structural)]
pub enum Admission {
    /// To pairing.
    Pairing,
    /// To the plugins.
    Plugins,
    /// Nowhere.
    Dropped,
}

/// Where a packet goes by its kind, its connection and the device it came from.
pub open spec fn admission(
    device: Option<DeviceModel>,
    live: Option<u64>,
    conn_id: u64,
    pt: PacketType,
) -> Admission {
    if live != Some(conn_id) || device is None {
        Admission::Dropped
    } else if pt is Pair {
        Admission::Pairing
    } else if device->0.pair_state == PairState::Paired {
        Admission::Plugins
    } else {
        Admission::Dropped
    }
}

/// Where a packet goes. `live` is the current connection of the device, and
/// `conn_id` the one that the packet came through: a packet of a replaced
/// connection is dropped, and one of a device that is not paired reaches
/// nothing but pairing.
pub fn route_packet(device: Option<&Device>, live: Option<u64>, conn_id: u64, pt: &PacketType) -> (r:
    Admission)
    ensures
        r == admission(
            if device is Some {
                Some(device->0@)
            } else {
                None
            },
            live,
            conn_id,
            *pt,
        ),
        r == Admission::Plugins <==> live == Some(conn_id) && device is Some && !(*pt is Pair)
            && device->0@.pair_state == PairState::Paired,
        r == Admission::Pairing <==> live == Some(conn_id) && device is Some && *pt is Pair,
        r == Admission::Dropped <==> live != Some(conn_id) || device is None || (!(*pt is Pair)
            && device->0@.pair_state != PairState::Paired),
{
    let current = match live {
        Some(id) => id == conn_id,
        None => false,
    };
    if !current {
        return Admission::Dropped;
    }
    match device {
        Some(d) => match pt {
            PacketType::Pair => Admission::Pairing,
            _ => {
                if d.pair_state == PairState::Paired {
                    Admission::Plugins
                } else {
                    Admission::Dropped
                }
            },
        },
        None => Admission::Dropped,
    }
}

/// The plugin that a handler belongs to.
pub open spec fn handler_plugin(h: Handler) -> Seq<char> {
    match h {
        Handler::Battery => "battery"@,
        Handler::Clipboard => "clipboard"@,
        Handler::ClipboardConnect => "clipboard"@,
        Handler::Connectivity => "connectivity_report"@,
        Handler::Notification => "notification"@,
        Handler::Ping => "ping"@,
        Handler::SystemVolume => "systemvolume"@,
        Handler::Telephony => "telephony"@,
    }
}

/// Whether a packet of the kind can be handled with such a body, where a port is
/// needed if there is a file to fetch.
pub open spec fn understood(packet: IncomingPacket) -> bool {
    match packet.packet_type {
        PacketType::Battery
        | PacketType::Clipboard
        | PacketType::ClipboardConnect
        | PacketType::ConnectivityReport
        | PacketType::Notification
        | PacketType::Ping
        | PacketType::SystemVolumeRequest
        | PacketType::Telephony => packet.body is Readable,
        PacketType::SmsAttachmentFile => packet.body is AttachmentFile && packet.payload_port is Some,
        PacketType::SmsMessages => packet.body is Messages,
        PacketType::Mpris => packet.body is Mpris,
        PacketType::MprisRequest => packet.body is MprisRequest,
        PacketType::RunCommand => packet.body is RunCommand,
        PacketType::RunCommandRequest => packet.body is RunCommandRequest,
        PacketType::ShareRequest => packet.body is Share,
        PacketType::Sftp => packet.body is Sftp,
        _ => false,
    }
}

/// No packet that can be handled is lost: it leads to something. One that goes to
/// a plugin that handles its packets by itself goes to that plugin alone, and the
/// plugin is the one that the packet belongs to.
pub proof fn lemma_received_packets_are_handled(
    device_id: Seq<char>,
    packet: IncomingPacket,
    stamp: Stamp,
    effects: Seq<Effect>,
)
    requires
        leads_to(device_id, packet, stamp, effects),
    ensures
        understood(packet) ==> effects.len() > 0,
        packet.body is Readable && effects.len() > 0 ==> effects.len() == 1 && effects[0] is Handle,
        forall|i: int|
            0 <= i < effects.len() ==> (#[trigger] effects[i] matches Effect::Handle(h)
                ==> packet.body is Readable && effects.len() == 1 && plugin_of(packet.packet_type)
                == Some(handler_plugin(h))),
{
}

/// A readable packet of a plugin that handles its packets by itself leads to
/// exactly one thing: its plugin gets it.
pub proof fn lemma_plugins_get_their_packets(
    device_id: Seq<char>,
    packet: IncomingPacket,
    stamp: Stamp,
    effects: Seq<Effect>,
)
    requires
        leads_to(device_id, packet, stamp, effects),
        packet.body is Readable,
        packet.packet_type is Battery || packet.packet_type is Clipboard || packet.packet_type
            is ClipboardConnect || packet.packet_type is ConnectivityReport || packet.packet_type
            is Notification || packet.packet_type is Ping || packet.packet_type
            is SystemVolumeRequest || packet.packet_type is Telephony,
    ensures
        effects.len() == 1,
        effects[0] matches Effect::Handle(h) && plugin_of(packet.packet_type) == Some(
            handler_plugin(h),
        ) && (h == Handler::ClipboardConnect <==> packet.packet_type is ClipboardConnect),
{
}

/// A packet reaches the plugins unless its own plugin is switched off for the
/// device: what is switched off for another device, or another plugin, does not
/// matter, and packets of the core always pass.
pub proof fn lemma_only_the_own_switch_counts(
    disabled: Map<Seq<char>, Set<Seq<char>>>,
    device_id: Seq<char>,
    pt: PacketType,
)
    ensures
        plugin_of(pt) is None ==> passes(disabled, device_id, pt),
        !disabled.contains_key(device_id) ==> passes(disabled, device_id, pt),
        plugin_of(pt) matches Some(p) ==> (disabled.contains_key(device_id) ==> (passes(
            disabled,
            device_id,
            pt,
        ) <==> !disabled[device_id].contains(p))),
{
}

/// Every number of a card gets the value, and no other number changes.
pub proof fn lemma_every_number_gets_the_value(
    map: Map<Seq<char>, Seq<char>>,
    phones: Seq<Seq<char>>,
    value: Seq<char>,
    number: Seq<char>,
)
    ensures
        phones.contains(number) ==> with_phones(map, phones, value).contains_key(number)
            && with_phones(map, phones, value)[number] == value,
        !phones.contains(number) ==> (with_phones(map, phones, value).contains_key(number)
            <==> map.contains_key(number)) && (map.contains_key(number) ==> with_phones(
            map,
            phones,
            value,
        )[number] == map[number]),
    decreases phones.len(),
{
    if phones.len() > 0 {
        lemma_every_number_gets_the_value(map, phones.drop_last(), value, number);
        if phones.contains(number) {
            let i = choose|i: int| 0 <= i < phones.len() && phones[i] == number;
            if i < phones.len() - 1 {
                assert(phones.drop_last()[i] == number);
            }
        }
        if phones.drop_last().contains(number) {
            let i = choose|i: int| 0 <= i < phones.drop_last().len() && phones.drop_last()[i] == number;
            assert(phones[i] == number);
        }
        assert(phones[phones.len() - 1] == phones.last());
    }
}

/// A card names its numbers: after it is taken in, each of its numbers has its
/// name, each number has its photo where one came with the card, and every other
/// number is as it was.
pub proof fn lemma_cards_name_their_numbers(
    body: Seq<char>,
    uids: Seq<Seq<char>>,
    uid: Seq<char>,
    number: Seq<char>,
)
    ensures
        json::json_text_member(body, uid) matches Some(card) ==> {
            let c = vcard::card_lines(vcard::unfolded(card));
            &&& c.name is Some && c.phones.contains(number) ==> contact_names(
                body,
                uids.push(uid),
            ).contains_key(number) && contact_names(body, uids.push(uid))[number] == c.name->0
            &&& c.name is None || !c.phones.contains(number) ==> (contact_names(
                body,
                uids.push(uid),
            ).contains_key(number) <==> contact_names(body, uids).contains_key(number)) && (
            contact_names(body, uids).contains_key(number) ==> contact_names(
                body,
                uids.push(uid),
            )[number] == contact_names(body, uids)[number])
            &&& c.photo matches Photo::Inline(data) ==> (c.phones.contains(number)
                ==> contact_photos(body, uids.push(uid)).contains_key(number) && contact_photos(
                body,
                uids.push(uid),
            )[number] == data)
            &&& !(c.photo is Inline) || !c.phones.contains(number) ==> (contact_photos(
                body,
                uids.push(uid),
            ).contains_key(number) <==> contact_photos(body, uids).contains_key(number)) && (
            contact_photos(body, uids).contains_key(number) ==> contact_photos(
                body,
                uids.push(uid),
            )[number] == contact_photos(body, uids)[number])
        },
        json::json_text_member(body, uid) is None ==> contact_names(body, uids.push(uid))
            == contact_names(body, uids) && contact_photos(body, uids.push(uid)) == contact_photos(
            body,
            uids,
        ),
{
    assert(uids.push(uid).drop_last() =~= uids);
    match json::json_text_member(body, uid) {
        Some(card) => {
            let c = vcard::card_of(card);
            match c.name {
                Some(n) => {
                    lemma_every_number_gets_the_value(contact_names(body, uids), c.phones, n, number);
                },
                None => {},
            }
            match c.photo {
                Photo::Inline(data) => {
                    lemma_every_number_gets_the_value(
                        contact_photos(body, uids),
                        c.phones,
                        data,
                        number,
                    );
                },
                _ => {},
            }
        },
        None => {},
    }
}

/// Nothing that an unpaired device sends reaches a plugin.
pub proof fn lemma_unpaired_reach_no_plugin(
    device: DeviceModel,
    live: Option<u64>,
    conn_id: u64,
    pt: PacketType,
)
    requires
        device.pair_state != PairState::Paired,
    ensures
        admission(Some(device), live, conn_id, pt) != Admission::Plugins,
{
}

/// Once a connection is replaced, what is still queued from the old one reaches
/// nothing.
pub proof fn lemma_stale_packets_are_dropped(
    device: Option<DeviceModel>,
    live: u64,
    conn_id: u64,
    pt: PacketType,
)
    requires
        live != conn_id,
    ensures
        admission(device, Some(live), conn_id, pt) == Admission::Dropped,
{
}

/// Switching plugins off for one device leaves every other device as it was.
pub proof fn lemma_other_devices_keep_plugins(
    disabled: Map<Seq<char>, Set<Seq<char>>>,
    device_id: Seq<char>,
    off: Set<Seq<char>>,
    other: Seq<char>,
    plugin_id: Seq<char>,
)
    requires
        other != device_id,
    ensures
        enabled(disabled.insert(device_id, off), other, plugin_id) == enabled(
            disabled,
            other,
            plugin_id,
        ),
        enabled(disabled.insert(device_id, off), device_id, plugin_id) == !off.contains(plugin_id),
{
}

} // verus!
