//! Packets: their kinds, their bodies and what they carry along.

use vstd::prelude::*;

use crate::mpris::{Mpris, MprisModel, MprisRequest};
use crate::share::ShareRequest;
use crate::text::same;

verus! {

/// What a packet is about.
#[derive(Debug, PartialEq, Eq)]
pub enum PacketType {
    Identity,
    Pair,
    Battery,
    BatteryRequest,
    Clipboard,
    ClipboardConnect,
    ConnectivityReport,
    ConnectivityReportRequest,
    ContactsRequestAllUidsTimestamps,
    ContactsRequestVcardsByUid,
    ContactsResponseUidsTimestamps,
    ContactsResponseVcards,
    FindMyPhoneRequest,
    Lock,
    LockRequest,
    MousePadEcho,
    MousePadKeyboardState,
    MousePadRequest,
    Mpris,
    MprisRequest,
    Notification,
    NotificationAction,
    NotificationReply,
    NotificationRequest,
    Ping,
    Presenter,
    RunCommand,
    RunCommandRequest,
    Sftp,
    SftpRequest,
    ShareRequest,
    ShareRequestUpdate,
    SmsAttachmentFile,
    SmsMessages,
    SmsRequest,
    SmsRequestAttachment,
    SmsRequestConversation,
    SmsRequestConversations,
    SystemVolume,
    SystemVolumeRequest,
    Telephony,
    TelephonyRequestMute,
    Unknown(String),
}

/// The name of a packet type on the wire.
pub open spec fn wire_name(pt: PacketType) -> Seq<char> {
    match pt {
        PacketType::Identity => "kdeconnect.identity"@,
        PacketType::Pair => "kdeconnect.pair"@,
        PacketType::Battery => "kdeconnect.battery"@,
        PacketType::BatteryRequest => "kdeconnect.battery.request"@,
        PacketType::Clipboard => "kdeconnect.clipboard"@,
        PacketType::ClipboardConnect => "kdeconnect.clipboard.connect"@,
        PacketType::ConnectivityReport => "kdeconnect.connectivity_report"@,
        PacketType::ConnectivityReportRequest => "kdeconnect.connectivity_report.request"@,
        PacketType::ContactsRequestAllUidsTimestamps => "kdeconnect.contacts.request_all_uids_timestamps"@,
        PacketType::ContactsRequestVcardsByUid => "kdeconnect.contacts.request_vcards_by_uid"@,
        PacketType::ContactsResponseUidsTimestamps => "kdeconnect.contacts.response_uids_timestamps"@,
        PacketType::ContactsResponseVcards => "kdeconnect.contacts.response_vcards"@,
        PacketType::FindMyPhoneRequest => "kdeconnect.findmyphone.request"@,
        PacketType::Lock => "kdeconnect.lock"@,
        PacketType::LockRequest => "kdeconnect.lock.request"@,
        PacketType::MousePadEcho => "kdeconnect.mousepad.echo"@,
        PacketType::MousePadKeyboardState => "kdeconnect.mousepad.keyboardstate"@,
        PacketType::MousePadRequest => "kdeconnect.mousepad.request"@,
        PacketType::Mpris => "kdeconnect.mpris"@,
        PacketType::MprisRequest => "kdeconnect.mpris.request"@,
        PacketType::Notification => "kdeconnect.notification"@,
        PacketType::NotificationAction => "kdeconnect.notification.action"@,
        PacketType::NotificationReply => "kdeconnect.notification.reply"@,
        PacketType::NotificationRequest => "kdeconnect.notification.request"@,
        PacketType::Ping => "kdeconnect.ping"@,
        PacketType::Presenter => "kdeconnect.presenter"@,
        PacketType::RunCommand => "kdeconnect.runcommand"@,
        PacketType::RunCommandRequest => "kdeconnect.runcommand.request"@,
        PacketType::Sftp => "kdeconnect.sftp"@,
        PacketType::SftpRequest => "kdeconnect.sftp.request"@,
        PacketType::ShareRequest => "kdeconnect.share.request"@,
        PacketType::ShareRequestUpdate => "kdeconnect.share.request.update"@,
        PacketType::SmsAttachmentFile => "kdeconnect.sms.attachment_file"@,
        PacketType::SmsMessages => "kdeconnect.sms.messages"@,
        PacketType::SmsRequest => "kdeconnect.sms.request"@,
        PacketType::SmsRequestAttachment => "kdeconnect.sms.request_attachment"@,
        PacketType::SmsRequestConversation => "kdeconnect.sms.request_conversation"@,
        PacketType::SmsRequestConversations => "kdeconnect.sms.request_conversations"@,
        PacketType::SystemVolume => "kdeconnect.systemvolume"@,
        PacketType::SystemVolumeRequest => "kdeconnect.systemvolume.request"@,
        PacketType::Telephony => "kdeconnect.telephony"@,
        PacketType::TelephonyRequestMute => "kdeconnect.telephony.request_mute"@,
        PacketType::Unknown(name) => name@,
    }
}

/// The packet type of a name, where the name is known.
pub open spec fn known_type(name: Seq<char>) -> Option<PacketType> {
    if name == "kdeconnect.identity"@ {
        Some(PacketType::Identity)
    } else if name == "kdeconnect.pair"@ {
        Some(PacketType::Pair)
    } else if name == "kdeconnect.battery"@ {
        Some(PacketType::Battery)
    } else if name == "kdeconnect.battery.request"@ {
        Some(PacketType::BatteryRequest)
    } else if name == "kdeconnect.clipboard"@ {
        Some(PacketType::Clipboard)
    } else if name == "kdeconnect.clipboard.connect"@ {
        Some(PacketType::ClipboardConnect)
    } else if name == "kdeconnect.connectivity_report"@ {
        Some(PacketType::ConnectivityReport)
    } else if name == "kdeconnect.connectivity_report.request"@ {
        Some(PacketType::ConnectivityReportRequest)
    } else if name == "kdeconnect.contacts.request_all_uids_timestamps"@ {
        Some(PacketType::ContactsRequestAllUidsTimestamps)
    } else if name == "kdeconnect.contacts.request_vcards_by_uid"@ {
        Some(PacketType::ContactsRequestVcardsByUid)
    } else if name == "kdeconnect.contacts.response_uids_timestamps"@ {
        Some(PacketType::ContactsResponseUidsTimestamps)
    } else if name == "kdeconnect.contacts.response_vcards"@ {
        Some(PacketType::ContactsResponseVcards)
    } else if name == "kdeconnect.findmyphone.request"@ {
        Some(PacketType::FindMyPhoneRequest)
    } else if name == "kdeconnect.lock"@ {
        Some(PacketType::Lock)
    } else if name == "kdeconnect.lock.request"@ {
        Some(PacketType::LockRequest)
    } else if name == "kdeconnect.mousepad.echo"@ {
        Some(PacketType::MousePadEcho)
    } else if name == "kdeconnect.mousepad.keyboardstate"@ {
        Some(PacketType::MousePadKeyboardState)
    } else if name == "kdeconnect.mousepad.request"@ {
        Some(PacketType::MousePadRequest)
    } else if name == "kdeconnect.mpris"@ {
        Some(PacketType::Mpris)
    } else if name == "kdeconnect.mpris.request"@ {
        Some(PacketType::MprisRequest)
    } else if name == "kdeconnect.notification"@ {
        Some(PacketType::Notification)
    } else if name == "kdeconnect.notification.action"@ {
        Some(PacketType::NotificationAction)
    } else if name == "kdeconnect.notification.reply"@ {
        Some(PacketType::NotificationReply)
    } else if name == "kdeconnect.notification.request"@ {
        Some(PacketType::NotificationRequest)
    } else if name == "kdeconnect.ping"@ {
        Some(PacketType::Ping)
    } else if name == "kdeconnect.presenter"@ {
        Some(PacketType::Presenter)
    } else if name == "kdeconnect.runcommand"@ {
        Some(PacketType::RunCommand)
    } else if name == "kdeconnect.runcommand.request"@ {
        Some(PacketType::RunCommandRequest)
    } else if name == "kdeconnect.sftp"@ {
        Some(PacketType::Sftp)
    } else if name == "kdeconnect.sftp.request"@ {
        Some(PacketType::SftpRequest)
    } else if name == "kdeconnect.share.request"@ {
        Some(PacketType::ShareRequest)
    } else if name == "kdeconnect.share.request.update"@ {
        Some(PacketType::ShareRequestUpdate)
    } else if name == "kdeconnect.sms.attachment_file"@ {
        Some(PacketType::SmsAttachmentFile)
    } else if name == "kdeconnect.sms.messages"@ {
        Some(PacketType::SmsMessages)
    } else if name == "kdeconnect.sms.request"@ {
        Some(PacketType::SmsRequest)
    } else if name == "kdeconnect.sms.request_attachment"@ {
        Some(PacketType::SmsRequestAttachment)
    } else if name == "kdeconnect.sms.request_conversation"@ {
        Some(PacketType::SmsRequestConversation)
    } else if name == "kdeconnect.sms.request_conversations"@ {
        Some(PacketType::SmsRequestConversations)
    } else if name == "kdeconnect.systemvolume"@ {
        Some(PacketType::SystemVolume)
    } else if name == "kdeconnect.systemvolume.request"@ {
        Some(PacketType::SystemVolumeRequest)
    } else if name == "kdeconnect.telephony"@ {
        Some(PacketType::Telephony)
    } else if name == "kdeconnect.telephony.request_mute"@ {
        Some(PacketType::TelephonyRequestMute)
    } else {
        None
    }
}

impl PacketType {
    /// The name of the packet type on the wire.
    pub fn name(&self) -> (r: String)
        ensures
            r@ == wire_name(*self),
            *self is Identity ==> r@ == "kdeconnect.identity"@,
            *self is Pair ==> r@ == "kdeconnect.pair"@,
            *self is Battery ==> r@ == "kdeconnect.battery"@,
            *self is BatteryRequest ==> r@ == "kdeconnect.battery.request"@,
            *self is Clipboard ==> r@ == "kdeconnect.clipboard"@,
            *self is ClipboardConnect ==> r@ == "kdeconnect.clipboard.connect"@,
            *self is ConnectivityReport ==> r@ == "kdeconnect.connectivity_report"@,
            *self is ConnectivityReportRequest ==> r@ == "kdeconnect.connectivity_report.request"@,
            *self is ContactsRequestAllUidsTimestamps ==> r@ == "kdeconnect.contacts.request_all_uids_timestamps"@,
            *self is ContactsRequestVcardsByUid ==> r@ == "kdeconnect.contacts.request_vcards_by_uid"@,
            *self is ContactsResponseUidsTimestamps ==> r@ == "kdeconnect.contacts.response_uids_timestamps"@,
            *self is ContactsResponseVcards ==> r@ == "kdeconnect.contacts.response_vcards"@,
            *self is FindMyPhoneRequest ==> r@ == "kdeconnect.findmyphone.request"@,
            *self is Lock ==> r@ == "kdeconnect.lock"@,
            *self is LockRequest ==> r@ == "kdeconnect.lock.request"@,
            *self is MousePadEcho ==> r@ == "kdeconnect.mousepad.echo"@,
            *self is MousePadKeyboardState ==> r@ == "kdeconnect.mousepad.keyboardstate"@,
            *self is MousePadRequest ==> r@ == "kdeconnect.mousepad.request"@,
            *self is Mpris ==> r@ == "kdeconnect.mpris"@,
            *self is MprisRequest ==> r@ == "kdeconnect.mpris.request"@,
            *self is Notification ==> r@ == "kdeconnect.notification"@,
            *self is NotificationAction ==> r@ == "kdeconnect.notification.action"@,
            *self is NotificationReply ==> r@ == "kdeconnect.notification.reply"@,
            *self is NotificationRequest ==> r@ == "kdeconnect.notification.request"@,
            *self is Ping ==> r@ == "kdeconnect.ping"@,
            *self is Presenter ==> r@ == "kdeconnect.presenter"@,
            *self is RunCommand ==> r@ == "kdeconnect.runcommand"@,
            *self is RunCommandRequest ==> r@ == "kdeconnect.runcommand.request"@,
            *self is Sftp ==> r@ == "kdeconnect.sftp"@,
            *self is SftpRequest ==> r@ == "kdeconnect.sftp.request"@,
            *self is ShareRequest ==> r@ == "kdeconnect.share.request"@,
            *self is ShareRequestUpdate ==> r@ == "kdeconnect.share.request.update"@,
            *self is SmsAttachmentFile ==> r@ == "kdeconnect.sms.attachment_file"@,
            *self is SmsMessages ==> r@ == "kdeconnect.sms.messages"@,
            *self is SmsRequest ==> r@ == "kdeconnect.sms.request"@,
            *self is SmsRequestAttachment ==> r@ == "kdeconnect.sms.request_attachment"@,
            *self is SmsRequestConversation ==> r@ == "kdeconnect.sms.request_conversation"@,
            *self is SmsRequestConversations ==> r@ == "kdeconnect.sms.request_conversations"@,
            *self is SystemVolume ==> r@ == "kdeconnect.systemvolume"@,
            *self is SystemVolumeRequest ==> r@ == "kdeconnect.systemvolume.request"@,
            *self is Telephony ==> r@ == "kdeconnect.telephony"@,
            *self is TelephonyRequestMute ==> r@ == "kdeconnect.telephony.request_mute"@,
            *self matches PacketType::Unknown(name) ==> r@ == name@,
    {
        match self {
            PacketType::Identity => "kdeconnect.identity".to_owned(),
            PacketType::Pair => "kdeconnect.pair".to_owned(),
            PacketType::Battery => "kdeconnect.battery".to_owned(),
            PacketType::BatteryRequest => "kdeconnect.battery.request".to_owned(),
            PacketType::Clipboard => "kdeconnect.clipboard".to_owned(),
            PacketType::ClipboardConnect => "kdeconnect.clipboard.connect".to_owned(),
            PacketType::ConnectivityReport => "kdeconnect.connectivity_report".to_owned(),
            PacketType::ConnectivityReportRequest => "kdeconnect.connectivity_report.request".to_owned(),
            PacketType::ContactsRequestAllUidsTimestamps => "kdeconnect.contacts.request_all_uids_timestamps".to_owned(),
            PacketType::ContactsRequestVcardsByUid => "kdeconnect.contacts.request_vcards_by_uid".to_owned(),
            PacketType::ContactsResponseUidsTimestamps => "kdeconnect.contacts.response_uids_timestamps".to_owned(),
            PacketType::ContactsResponseVcards => "kdeconnect.contacts.response_vcards".to_owned(),
            PacketType::FindMyPhoneRequest => "kdeconnect.findmyphone.request".to_owned(),
            PacketType::Lock => "kdeconnect.lock".to_owned(),
            PacketType::LockRequest => "kdeconnect.lock.request".to_owned(),
            PacketType::MousePadEcho => "kdeconnect.mousepad.echo".to_owned(),
            PacketType::MousePadKeyboardState => "kdeconnect.mousepad.keyboardstate".to_owned(),
            PacketType::MousePadRequest => "kdeconnect.mousepad.request".to_owned(),
            PacketType::Mpris => "kdeconnect.mpris".to_owned(),
            PacketType::MprisRequest => "kdeconnect.mpris.request".to_owned(),
            PacketType::Notification => "kdeconnect.notification".to_owned(),
            PacketType::NotificationAction => "kdeconnect.notification.action".to_owned(),
            PacketType::NotificationReply => "kdeconnect.notification.reply".to_owned(),
            PacketType::NotificationRequest => "kdeconnect.notification.request".to_owned(),
            PacketType::Ping => "kdeconnect.ping".to_owned(),
            PacketType::Presenter => "kdeconnect.presenter".to_owned(),
            PacketType::RunCommand => "kdeconnect.runcommand".to_owned(),
            PacketType::RunCommandRequest => "kdeconnect.runcommand.request".to_owned(),
            PacketType::Sftp => "kdeconnect.sftp".to_owned(),
            PacketType::SftpRequest => "kdeconnect.sftp.request".to_owned(),
            PacketType::ShareRequest => "kdeconnect.share.request".to_owned(),
            PacketType::ShareRequestUpdate => "kdeconnect.share.request.update".to_owned(),
            PacketType::SmsAttachmentFile => "kdeconnect.sms.attachment_file".to_owned(),
            PacketType::SmsMessages => "kdeconnect.sms.messages".to_owned(),
            PacketType::SmsRequest => "kdeconnect.sms.request".to_owned(),
            PacketType::SmsRequestAttachment => "kdeconnect.sms.request_attachment".to_owned(),
            PacketType::SmsRequestConversation => "kdeconnect.sms.request_conversation".to_owned(),
            PacketType::SmsRequestConversations => "kdeconnect.sms.request_conversations".to_owned(),
            PacketType::SystemVolume => "kdeconnect.systemvolume".to_owned(),
            PacketType::SystemVolumeRequest => "kdeconnect.systemvolume.request".to_owned(),
            PacketType::Telephony => "kdeconnect.telephony".to_owned(),
            PacketType::TelephonyRequestMute => "kdeconnect.telephony.request_mute".to_owned(),
            PacketType::Unknown(name) => name.clone(),
        }
    }

    /// The packet type of a name on the wire.
    pub fn from_name(name: &str) -> (r: PacketType)
        ensures
            match known_type(name@) {
                Some(pt) => r == pt,
                None => r matches PacketType::Unknown(s) && s@ == name@,
            },
            wire_name(r) == name@,
            forall|pt: PacketType| !(pt is Unknown) && #[trigger] wire_name(pt) == name@ ==> r == pt,
    {
        proof {
            lemma_types_have_their_name(name@);
            assert forall|pt: PacketType| !(pt is Unknown) && #[trigger] wire_name(pt)
                == name@ implies known_type(name@) == Some(pt) by {
                lemma_names_read_back(pt);
            }
        }
        if same(name, "kdeconnect.identity") {
            PacketType::Identity
        } else if same(name, "kdeconnect.pair") {
            PacketType::Pair
        } else if same(name, "kdeconnect.battery") {
            PacketType::Battery
        } else if same(name, "kdeconnect.battery.request") {
            PacketType::BatteryRequest
        } else if same(name, "kdeconnect.clipboard") {
            PacketType::Clipboard
        } else if same(name, "kdeconnect.clipboard.connect") {
            PacketType::ClipboardConnect
        } else if same(name, "kdeconnect.connectivity_report") {
            PacketType::ConnectivityReport
        } else if same(name, "kdeconnect.connectivity_report.request") {
            PacketType::ConnectivityReportRequest
        } else if same(name, "kdeconnect.contacts.request_all_uids_timestamps") {
            PacketType::ContactsRequestAllUidsTimestamps
        } else if same(name, "kdeconnect.contacts.request_vcards_by_uid") {
            PacketType::ContactsRequestVcardsByUid
        } else if same(name, "kdeconnect.contacts.response_uids_timestamps") {
            PacketType::ContactsResponseUidsTimestamps
        } else if same(name, "kdeconnect.contacts.response_vcards") {
            PacketType::ContactsResponseVcards
        } else if same(name, "kdeconnect.findmyphone.request") {
            PacketType::FindMyPhoneRequest
        } else if same(name, "kdeconnect.lock") {
            PacketType::Lock
        } else if same(name, "kdeconnect.lock.request") {
            PacketType::LockRequest
        } else if same(name, "kdeconnect.mousepad.echo") {
            PacketType::MousePadEcho
        } else if same(name, "kdeconnect.mousepad.keyboardstate") {
            PacketType::MousePadKeyboardState
        } else if same(name, "kdeconnect.mousepad.request") {
            PacketType::MousePadRequest
        } else if same(name, "kdeconnect.mpris") {
            PacketType::Mpris
        } else if same(name, "kdeconnect.mpris.request") {
            PacketType::MprisRequest
        } else if same(name, "kdeconnect.notification") {
            PacketType::Notification
        } else if same(name, "kdeconnect.notification.action") {
            PacketType::NotificationAction
        } else if same(name, "kdeconnect.notification.reply") {
            PacketType::NotificationReply
        } else if same(name, "kdeconnect.notification.request") {
            PacketType::NotificationRequest
        } else if same(name, "kdeconnect.ping") {
            PacketType::Ping
        } else if same(name, "kdeconnect.presenter") {
            PacketType::Presenter
        } else if same(name, "kdeconnect.runcommand") {
            PacketType::RunCommand
        } else if same(name, "kdeconnect.runcommand.request") {
            PacketType::RunCommandRequest
        } else if same(name, "kdeconnect.sftp") {
            PacketType::Sftp
        } else if same(name, "kdeconnect.sftp.request") {
            PacketType::SftpRequest
        } else if same(name, "kdeconnect.share.request") {
            PacketType::ShareRequest
        } else if same(name, "kdeconnect.share.request.update") {
            PacketType::ShareRequestUpdate
        } else if same(name, "kdeconnect.sms.attachment_file") {
            PacketType::SmsAttachmentFile
        } else if same(name, "kdeconnect.sms.messages") {
            PacketType::SmsMessages
        } else if same(name, "kdeconnect.sms.request") {
            PacketType::SmsRequest
        } else if same(name, "kdeconnect.sms.request_attachment") {
            PacketType::SmsRequestAttachment
        } else if same(name, "kdeconnect.sms.request_conversation") {
            PacketType::SmsRequestConversation
        } else if same(name, "kdeconnect.sms.request_conversations") {
            PacketType::SmsRequestConversations
        } else if same(name, "kdeconnect.systemvolume") {
            PacketType::SystemVolume
        } else if same(name, "kdeconnect.systemvolume.request") {
            PacketType::SystemVolumeRequest
        } else if same(name, "kdeconnect.telephony") {
            PacketType::Telephony
        } else if same(name, "kdeconnect.telephony.request_mute") {
            PacketType::TelephonyRequestMute
        } else {
            PacketType::Unknown(name.to_owned())
        }
    }
}

/// What a name stands for has that name.
pub proof fn lemma_types_have_their_name(name: Seq<char>)
    ensures
        known_type(name) matches Some(pt) ==> wire_name(pt) == name,
{
}

/// The name of a known packet type reads back as the type, so no two of them
/// share a name.
#[verifier::spinoff_prover]
#[verifier::rlimit(50)]
pub proof fn lemma_names_read_back(pt: PacketType)
    requires
        !(pt is Unknown),
    ensures
        known_type(wire_name(pt)) == Some(pt),
{
    reveal_strlit("kdeconnect.identity");
    reveal_strlit("kdeconnect.pair");
    reveal_strlit("kdeconnect.battery");
    reveal_strlit("kdeconnect.battery.request");
    reveal_strlit("kdeconnect.clipboard");
    reveal_strlit("kdeconnect.clipboard.connect");
    reveal_strlit("kdeconnect.connectivity_report");
    reveal_strlit("kdeconnect.connectivity_report.request");
    reveal_strlit("kdeconnect.contacts.request_all_uids_timestamps");
    reveal_strlit("kdeconnect.contacts.request_vcards_by_uid");
    reveal_strlit("kdeconnect.contacts.response_uids_timestamps");
    reveal_strlit("kdeconnect.contacts.response_vcards");
    reveal_strlit("kdeconnect.findmyphone.request");
    reveal_strlit("kdeconnect.lock");
    reveal_strlit("kdeconnect.lock.request");
    reveal_strlit("kdeconnect.mousepad.echo");
    reveal_strlit("kdeconnect.mousepad.keyboardstate");
    reveal_strlit("kdeconnect.mousepad.request");
    reveal_strlit("kdeconnect.mpris");
    reveal_strlit("kdeconnect.mpris.request");
    reveal_strlit("kdeconnect.notification");
    reveal_strlit("kdeconnect.notification.action");
    reveal_strlit("kdeconnect.notification.reply");
    reveal_strlit("kdeconnect.notification.request");
    reveal_strlit("kdeconnect.ping");
    reveal_strlit("kdeconnect.presenter");
    reveal_strlit("kdeconnect.runcommand");
    reveal_strlit("kdeconnect.runcommand.request");
    reveal_strlit("kdeconnect.sftp");
    reveal_strlit("kdeconnect.sftp.request");
    reveal_strlit("kdeconnect.share.request");
    reveal_strlit("kdeconnect.share.request.update");
    reveal_strlit("kdeconnect.sms.attachment_file");
    reveal_strlit("kdeconnect.sms.messages");
    reveal_strlit("kdeconnect.sms.request");
    reveal_strlit("kdeconnect.sms.request_attachment");
    reveal_strlit("kdeconnect.sms.request_conversation");
    reveal_strlit("kdeconnect.sms.request_conversations");
    reveal_strlit("kdeconnect.systemvolume");
    reveal_strlit("kdeconnect.systemvolume.request");
    reveal_strlit("kdeconnect.telephony");
    reveal_strlit("kdeconnect.telephony.request_mute");
    assert("kdeconnect.identity"@.len() == 19);
    assert("kdeconnect.pair"@.len() == 15);
    assert("kdeconnect.battery"@.len() == 18);
    assert("kdeconnect.battery.request"@.len() == 26);
    assert("kdeconnect.clipboard"@.len() == 20);
    assert("kdeconnect.clipboard.connect"@.len() == 28);
    assert("kdeconnect.connectivity_report"@.len() == 30);
    assert("kdeconnect.connectivity_report.request"@.len() == 38);
    assert("kdeconnect.contacts.request_all_uids_timestamps"@.len() == 47);
    assert("kdeconnect.contacts.request_vcards_by_uid"@.len() == 41);
    assert("kdeconnect.contacts.response_uids_timestamps"@.len() == 44);
    assert("kdeconnect.contacts.response_vcards"@.len() == 35);
    assert("kdeconnect.findmyphone.request"@.len() == 30);
    assert("kdeconnect.lock"@.len() == 15);
    assert("kdeconnect.lock.request"@.len() == 23);
    assert("kdeconnect.mousepad.echo"@.len() == 24);
    assert("kdeconnect.mousepad.keyboardstate"@.len() == 33);
    assert("kdeconnect.mousepad.request"@.len() == 27);
    assert("kdeconnect.mpris"@.len() == 16);
    assert("kdeconnect.mpris.request"@.len() == 24);
    assert("kdeconnect.notification"@.len() == 23);
    assert("kdeconnect.notification.action"@.len() == 30);
    assert("kdeconnect.notification.reply"@.len() == 29);
    assert("kdeconnect.notification.request"@.len() == 31);
    assert("kdeconnect.ping"@.len() == 15);
    assert("kdeconnect.presenter"@.len() == 20);
    assert("kdeconnect.runcommand"@.len() == 21);
    assert("kdeconnect.runcommand.request"@.len() == 29);
    assert("kdeconnect.sftp"@.len() == 15);
    assert("kdeconnect.sftp.request"@.len() == 23);
    assert("kdeconnect.share.request"@.len() == 24);
    assert("kdeconnect.share.request.update"@.len() == 31);
    assert("kdeconnect.sms.attachment_file"@.len() == 30);
    assert("kdeconnect.sms.messages"@.len() == 23);
    assert("kdeconnect.sms.request"@.len() == 22);
    assert("kdeconnect.sms.request_attachment"@.len() == 33);
    assert("kdeconnect.sms.request_conversation"@.len() == 35);
    assert("kdeconnect.sms.request_conversations"@.len() == 36);
    assert("kdeconnect.systemvolume"@.len() == 23);
    assert("kdeconnect.systemvolume.request"@.len() == 31);
    assert("kdeconnect.telephony"@.len() == 20);
    assert("kdeconnect.telephony.request_mute"@.len() == 33);
    assert("kdeconnect.pair"@[11] != "kdeconnect.lock"@[11]);
    assert("kdeconnect.pair"@[12] != "kdeconnect.ping"@[12]);
    assert("kdeconnect.pair"@[11] != "kdeconnect.sftp"@[11]);
    assert("kdeconnect.clipboard"@[11] != "kdeconnect.presenter"@[11]);
    assert("kdeconnect.clipboard"@[11] != "kdeconnect.telephony"@[11]);
    assert("kdeconnect.connectivity_report"@[11] != "kdeconnect.findmyphone.request"@[11]);
    assert("kdeconnect.connectivity_report"@[11] != "kdeconnect.notification.action"@[11]);
    assert("kdeconnect.connectivity_report"@[11] != "kdeconnect.sms.attachment_file"@[11]);
    assert("kdeconnect.contacts.response_vcards"@[11] != "kdeconnect.sms.request_conversation"@[11]);
    assert("kdeconnect.findmyphone.request"@[11] != "kdeconnect.notification.action"@[11]);
    assert("kdeconnect.findmyphone.request"@[11] != "kdeconnect.sms.attachment_file"@[11]);
    assert("kdeconnect.lock"@[11] != "kdeconnect.ping"@[11]);
    assert("kdeconnect.lock"@[11] != "kdeconnect.sftp"@[11]);
    assert("kdeconnect.lock.request"@[11] != "kdeconnect.notification"@[11]);
    assert("kdeconnect.lock.request"@[11] != "kdeconnect.sftp.request"@[11]);
    assert("kdeconnect.lock.request"@[11] != "kdeconnect.sms.messages"@[11]);
    assert("kdeconnect.lock.request"@[11] != "kdeconnect.systemvolume"@[11]);
    assert("kdeconnect.mousepad.echo"@[12] != "kdeconnect.mpris.request"@[12]);
    assert("kdeconnect.mousepad.echo"@[11] != "kdeconnect.share.request"@[11]);
    assert("kdeconnect.mousepad.keyboardstate"@[11] != "kdeconnect.sms.request_attachment"@[11]);
    assert("kdeconnect.mousepad.keyboardstate"@[11] != "kdeconnect.telephony.request_mute"@[11]);
    assert("kdeconnect.mpris.request"@[11] != "kdeconnect.share.request"@[11]);
    assert("kdeconnect.notification"@[11] != "kdeconnect.sftp.request"@[11]);
    assert("kdeconnect.notification"@[11] != "kdeconnect.sms.messages"@[11]);
    assert("kdeconnect.notification"@[11] != "kdeconnect.systemvolume"@[11]);
    assert("kdeconnect.notification.action"@[11] != "kdeconnect.sms.attachment_file"@[11]);
    assert("kdeconnect.notification.reply"@[11] != "kdeconnect.runcommand.request"@[11]);
    assert("kdeconnect.notification.request"@[11] != "kdeconnect.share.request.update"@[11]);
    assert("kdeconnect.notification.request"@[11] != "kdeconnect.systemvolume.request"@[11]);
    assert("kdeconnect.ping"@[11] != "kdeconnect.sftp"@[11]);
    assert("kdeconnect.presenter"@[11] != "kdeconnect.telephony"@[11]);
    assert("kdeconnect.sftp.request"@[12] != "kdeconnect.sms.messages"@[12]);
    assert("kdeconnect.sftp.request"@[12] != "kdeconnect.systemvolume"@[12]);
    assert("kdeconnect.share.request.update"@[12] != "kdeconnect.systemvolume.request"@[12]);
    assert("kdeconnect.sms.messages"@[12] != "kdeconnect.systemvolume"@[12]);
    assert("kdeconnect.sms.request_attachment"@[11] != "kdeconnect.telephony.request_mute"@[11]);
}

/// The value of a member of a body.
#[derive(Debug, PartialEq, Eq)]
pub enum Field {
    Flag(bool),
    Number(i64),
    Unsigned(u64),
    Text(String),
    Texts(Vec<String>),
    /// A list of objects with texts as members.
    Records(Vec<Vec<(String, String)>>),
}

/// The value of a member, as a value.
pub enum FieldModel {
    Flag(bool),
    Number(i64),
    Unsigned(u64),
    Text(Seq<char>),
    Texts(Seq<Seq<char>>),
    Records(Seq<Seq<(Seq<char>, Seq<char>)>>),
}

impl View for Field {
    type V = FieldModel;

    open spec fn view(&self) -> FieldModel {
        match self {
            Field::Flag(b) => FieldModel::Flag(*b),
            Field::Number(n) => FieldModel::Number(*n),
            Field::Unsigned(n) => FieldModel::Unsigned(*n),
            Field::Text(s) => FieldModel::Text(s@),
            Field::Texts(v) => FieldModel::Texts(v.deep_view()),
            Field::Records(v) => FieldModel::Records(v.deep_view()),
        }
    }
}

/// The members of an object, as values.
pub open spec fn members(fields: Seq<(String, Field)>) -> Seq<(Seq<char>, FieldModel)> {
    fields.map_values(|f: (String, Field)| (f.0@, f.1@))
}

/// The body of a packet that goes out.
#[derive(Debug, PartialEq, Eq)]
pub enum Body {
    /// A JSON object with these members.
    Object(Vec<(String, Field)>),
    Mpris(Mpris),
    MprisRequest(MprisRequest),
    Share(ShareRequest),
}

/// A body as a value.
pub enum BodyModel {
    Object(Seq<(Seq<char>, FieldModel)>),
    Mpris(MprisModel),
    MprisRequest(MprisRequest),
    Share(ShareRequest),
}

impl View for Body {
    type V = BodyModel;

    open spec fn view(&self) -> BodyModel {
        match self {
            Body::Object(fields) => BodyModel::Object(members(fields@)),
            Body::Mpris(m) => BodyModel::Mpris(m@),
            Body::MprisRequest(q) => BodyModel::MprisRequest(*q),
            Body::Share(s) => BodyModel::Share(*s),
        }
    }
}

/// A packet that goes out.
#[derive(Debug, PartialEq, Eq)]
pub struct ProtocolPacket {
    pub packet_type: PacketType,
    pub body: Body,
    pub payload_size: Option<u64>,
    pub payload_port: Option<u16>,
}

/// A packet as a value.
pub struct PacketModel {
    pub packet_type: PacketType,
    pub body: BodyModel,
    pub payload_size: Option<u64>,
    pub payload_port: Option<u16>,
}

impl View for ProtocolPacket {
    type V = PacketModel;

    open spec fn view(&self) -> PacketModel {
        PacketModel {
            packet_type: self.packet_type,
            body: self.body@,
            payload_size: self.payload_size,
            payload_port: self.payload_port,
        }
    }
}

/// A packet without a payload.
pub open spec fn plain(packet_type: PacketType, body: BodyModel) -> PacketModel {
    PacketModel { packet_type, body, payload_size: None, payload_port: None }
}

/// A packet without a payload, whose body is an object.
pub open spec fn object(packet_type: PacketType, fields: Seq<(Seq<char>, FieldModel)>) -> PacketModel {
    plain(packet_type, BodyModel::Object(fields))
}

impl ProtocolPacket {
    /// A packet without a payload.
    pub fn new(packet_type: PacketType, body: Body) -> (r: ProtocolPacket)
        ensures
            r@ == plain(packet_type, body@),
            r@.packet_type == packet_type,
            r@.body == body@,
            r@.payload_size is None,
            r@.payload_port is None,
    {
        ProtocolPacket { packet_type, body, payload_size: None, payload_port: None }
    }

    /// A packet whose payload waits at the port.
    pub fn new_with_payload(
        packet_type: PacketType,
        body: Body,
        payload_size: u64,
        payload_port: Option<u16>,
    ) -> (r: ProtocolPacket)
        ensures
            r@ == (PacketModel {
                packet_type,
                body: body@,
                payload_size: Some(payload_size),
                payload_port,
            }),
    {
        ProtocolPacket { packet_type, body, payload_size: Some(payload_size), payload_port }
    }

    /// A packet whose body is an empty object.
    pub fn bare(packet_type: PacketType) -> (r: ProtocolPacket)
        ensures
            r@ == object(packet_type, Seq::empty()),
    {
        let fields: Vec<(String, Field)> = Vec::new();
        proof {
            assert(members(fields@) =~= Seq::empty());
        }
        ProtocolPacket::new(packet_type, Body::Object(fields))
    }

    /// A packet whose body is an object with one member.
    pub fn with_field(packet_type: PacketType, key: &str, value: Field) -> (r: ProtocolPacket)
        ensures
            r@ == object(packet_type, seq![(key@, value@)]),
    {
        let mut fields: Vec<(String, Field)> = Vec::new();
        fields.push((key.to_owned(), value));
        proof {
            assert(members(fields@) =~= seq![(key@, value@)]);
        }
        ProtocolPacket::new(packet_type, Body::Object(fields))
    }

    /// A packet whose body is an object with two members.
    pub fn with_fields(
        packet_type: PacketType,
        first: &str,
        first_value: Field,
        second: &str,
        second_value: Field,
    ) -> (r: ProtocolPacket)
        ensures
            r@ == object(
                packet_type,
                seq![(first@, first_value@), (second@, second_value@)],
            ),
    {
        let mut fields: Vec<(String, Field)> = Vec::new();
        fields.push((first.to_owned(), first_value));
        fields.push((second.to_owned(), second_value));
        proof {
            assert(members(fields@) =~= seq![
                (first@, first_value@),
                (second@, second_value@),
            ]);
        }
        ProtocolPacket::new(packet_type, Body::Object(fields))
    }
}

/// A packet whose body is an object has the type and the members that it was
/// given, and no payload.
pub proof fn lemma_objects_hold_their_members(
    packet_type: PacketType,
    fields: Seq<(Seq<char>, FieldModel)>,
)
    ensures
        object(packet_type, fields).packet_type == packet_type,
        object(packet_type, fields).body == BodyModel::Object(fields),
        object(packet_type, fields).payload_size is None,
        object(packet_type, fields).payload_port is None,
{
}

} // verus!
