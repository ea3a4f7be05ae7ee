//! Text messages between the phone and the desktop.

use vstd::prelude::*;

use crate::device;
use crate::device::Device;
use crate::download;
use crate::download::Download;
use crate::encode;
use crate::encode::{decode_base64, encode_base64};
use crate::packet;
use crate::packet::{Body, Field, FieldModel, PacketType, ProtocolPacket};
use crate::paths;
use crate::paths::{file_name_of, join_path, split_extension};
use crate::share::{ReceiveStage, Received};
use crate::table::TextMap;
use crate::text;
use crate::text::{decimal_text, same, to_lowercase};

verus! {

/// The messages that the phone has sent.
#[derive(Debug, PartialEq, Eq)]
pub struct SmsMessages {
    pub messages: Vec<SmsMessage>,
    pub version: Option<i32>,
}

/// One message.
#[derive(Debug, PartialEq, Eq)]
pub struct SmsMessage {
    pub id: i64,
    pub addresses: Vec<SmsAddress>,
    pub attachments: Vec<SmsAttachment>,
    pub body: String,
    pub date: i64,
    pub message_type: i32,
    pub read: i32,
    pub thread_id: i64,
    pub sub_id: Option<i32>,
    pub event: Option<i32>,
}

/// The address of one participant.
#[derive(Debug, PartialEq, Eq)]
pub struct SmsAddress {
    pub address: String,
}

/// An attachment of a message, with a preview where the phone sent one.
#[derive(Debug, PartialEq, Eq)]
pub struct SmsAttachment {
    pub part_id: i64,
    pub mime_type: String,
    pub encoded_thumbnail: Option<String>,
    pub unique_identifier: Option<String>,
}

/// The bytes of a preview.
pub open spec fn thumbnail(encoded: Option<Seq<char>>) -> Option<Seq<u8>> {
    match encoded {
        Some(s) => encode::base64_bytes(s),
        None => None,
    }
}

impl SmsAttachment {
    /// The bytes of the preview, where there is one that can be decoded.
    pub fn decode_thumbnail(&self) -> (r: Option<Vec<u8>>)
        ensures
            r is Some <==> thumbnail(self.encoded_thumbnail.deep_view()) is Some,
            r is Some ==> thumbnail(self.encoded_thumbnail.deep_view()) == Some(r->0@),
    {
        match &self.encoded_thumbnail {
            Some(s) => decode_base64(s),
            None => None,
        }
    }
}

/// A request for the full file behind the preview of an attachment. The
/// identifier doubles as the name of the file in the answer.
#[derive(Debug, PartialEq, Eq)]
pub struct SmsRequestAttachment {
    pub part_id: i64,
    pub unique_identifier: String,
}

impl SmsRequestAttachment {
    /// The packet that makes the request.
    pub fn into_packet(self) -> (r: ProtocolPacket)
        ensures
            r@ == packet::object(
                PacketType::SmsRequestAttachment,
                seq![
                    ("part_id"@, FieldModel::Number(self.part_id)),
                    ("unique_identifier"@, FieldModel::Text(self.unique_identifier@)),
                ],
            ),
    {
        ProtocolPacket::with_fields(
            PacketType::SmsRequestAttachment,
            "part_id",
            Field::Number(self.part_id),
            "unique_identifier",
            Field::Text(self.unique_identifier),
        )
    }
}

/// The notice that the full file of an attachment is ready.
#[derive(Debug, PartialEq, Eq)]
pub struct SmsAttachmentFile {
    pub filename: String,
}

/// What is wrong with an attachment before any of it is received.
#[derive(Debug, Clone, Copy, PartialEq, Eq, Structural)]
pub enum AttachmentError {
    InvalidDevice,
    UnsafeFilename,
}

impl AttachmentError {
    /// The wording of the error.
    pub open spec fn wording(self) -> Seq<char> {
        match self {
            AttachmentError::InvalidDevice => "invalid device ID: invalid device ID"@,
            AttachmentError::UnsafeFilename => "unsafe attachment filename: invalid received filename"@,
        }
    }

    /// How a transfer ends that the error keeps from beginning.
    pub fn outcome(&self) -> (r: Received)
        ensures
            r matches Received::Failed { stage, reason } && stage == ReceiveStage::Metadata
                && reason@ == self.wording(),
    {
        let reason = match self {
            AttachmentError::InvalidDevice => "invalid device ID: invalid device ID".to_owned(),
            AttachmentError::UnsafeFilename => "unsafe attachment filename: invalid received filename".to_owned(),
        };
        Received::Failed { stage: ReceiveStage::Metadata, reason }
    }
}

/// The directory for the attachments of a device, below the data directory or
/// `/tmp`.
pub open spec fn attachments_path(
    data_dir: Option<Seq<char>>,
    config_dir: Seq<char>,
    device_id: Seq<char>,
) -> Seq<char> {
    let base = if data_dir is Some {
        data_dir->0
    } else {
        "/tmp"@
    };
    paths::joined(paths::joined(paths::joined(base, config_dir), device_id), "attachments"@)
}

/// The directory for the attachments of the device.
pub fn attachments_dir(data_dir: &Option<String>, config_dir: &str, device_id: &str) -> (r: String)
    ensures
        r@ == attachments_path(data_dir.deep_view(), config_dir@, device_id@),
        data_dir is Some ==> r@ == paths::joined(
            paths::joined(paths::joined(data_dir->0@, config_dir@), device_id@),
            "attachments"@,
        ),
        data_dir is None ==> r@ == paths::joined(
            paths::joined(paths::joined("/tmp"@, config_dir@), device_id@),
            "attachments"@,
        ),
{
    let base = match data_dir {
        Some(d) => join_path(d, config_dir),
        None => join_path("/tmp", config_dir),
    };
    join_path(&join_path(&base, device_id), "attachments")
}

impl SmsAttachmentFile {
    /// Where the file goes: into the attachments of the device, in place of an
    /// earlier one. Neither the device nor the name may select another path;
    /// what fails here fails at the metadata stage.
    pub fn receive(&self, device: &Device, data_dir: &Option<String>, config_dir: &str) -> (r: Result<
        Download,
        AttachmentError,
    >)
        ensures
            r is Ok <==> device::valid_id(device@.device_id) && download::valid_name(
                self.filename@,
            ),
            r is Err ==> r->Err_0 == (if !device::valid_id(device@.device_id) {
                AttachmentError::InvalidDevice
            } else {
                AttachmentError::UnsafeFilename
            }),
            r is Ok ==> {
                let d = r->Ok_0;
                &&& d.wf()
                &&& d.dir() == attachments_path(
                    data_dir.deep_view(),
                    config_dir@,
                    device@.device_id,
                )
                &&& data_dir is Some ==> d.dir() == paths::joined(
                    paths::joined(paths::joined(data_dir->0@, config_dir@), device@.device_id),
                    "attachments"@,
                )
                &&& d.name() == self.filename@
                &&& !d.is_unique()
                &&& d.tried() == 0
            },
    {
        if device.device_id.validate().is_err() {
            return Err(AttachmentError::InvalidDevice);
        }
        let dir = attachments_dir(data_dir, config_dir, &device.device_id.0);
        match Download::new(&dir, &self.filename, false) {
            Ok(d) => Ok(d),
            Err(_) => Err(AttachmentError::UnsafeFilename),
        }
    }
}

/// An attachment of a message that goes out.
#[derive(Debug, PartialEq, Eq)]
pub struct SmsOutgoingAttachment {
    pub file_name: String,
    pub base64_encoded_file: String,
    pub mime_type: String,
}

/// The MIME type that a lowercase extension stands for.
pub open spec fn mime_type_of(ext: Seq<char>) -> Seq<char> {
    if ext == "jpg"@ || ext == "jpeg"@ {
        "image/jpeg"@
    } else if ext == "png"@ {
        "image/png"@
    } else if ext == "gif"@ {
        "image/gif"@
    } else if ext == "webp"@ {
        "image/webp"@
    } else if ext == "mp4"@ {
        "video/mp4"@
    } else if ext == "3gp"@ {
        "video/3gpp"@
    } else if ext == "mkv"@ {
        "video/x-matroska"@
    } else if ext == "mov"@ {
        "video/quicktime"@
    } else if ext == "mp3"@ {
        "audio/mpeg"@
    } else if ext == "ogg"@ {
        "audio/ogg"@
    } else if ext == "amr"@ {
        "audio/amr"@
    } else if ext == "wav"@ {
        "audio/wav"@
    } else {
        "application/octet-stream"@
    }
}

/// The extension of a path's file name in lower case, or nothing.
pub open spec fn lower_extension(path: Seq<char>) -> Seq<char> {
    match paths::file_name(path) {
        Some(name) => match paths::extension(name) {
            Some(e) => text::lowercased(e),
            None => Seq::empty(),
        },
        None => Seq::empty(),
    }
}

fn extension_of(path: &str) -> (r: String)
    ensures
        r@ == lower_extension(path@),
{
    match file_name_of(path) {
        Some(name) => match split_extension(&name).1 {
            Some(e) => to_lowercase(&e),
            None => String::new(),
        },
        None => String::new(),
    }
}

/// The MIME type that the extension of the path stands for.
pub fn guess_mime_type(path: &str) -> (r: String)
    ensures
        r@ == mime_type_of(lower_extension(path@)),
{
    let ext = extension_of(path);
    let mime = if same(&ext, "jpg") || same(&ext, "jpeg") {
        "image/jpeg"
    } else if same(&ext, "png") {
        "image/png"
    } else if same(&ext, "gif") {
        "image/gif"
    } else if same(&ext, "webp") {
        "image/webp"
    } else if same(&ext, "mp4") {
        "video/mp4"
    } else if same(&ext, "3gp") {
        "video/3gpp"
    } else if same(&ext, "mkv") {
        "video/x-matroska"
    } else if same(&ext, "mov") {
        "video/quicktime"
    } else if same(&ext, "mp3") {
        "audio/mpeg"
    } else if same(&ext, "ogg") {
        "audio/ogg"
    } else if same(&ext, "amr") {
        "audio/amr"
    } else if same(&ext, "wav") {
        "audio/wav"
    } else {
        "application/octet-stream"
    };
    mime.to_owned()
}

/// An attachment that goes out, as texts: its name, its encoded content and its
/// type.
pub open spec fn attachment_fields(path: Seq<char>, content: Seq<u8>) -> (
    Seq<char>,
    Seq<char>,
    Seq<char>,
) {
    (
        match paths::file_name(path) {
            Some(name) => name,
            None => "attachment"@,
        },
        encode::base64_text(content),
        mime_type_of(lower_extension(path)),
    )
}

impl View for SmsOutgoingAttachment {
    type V = (Seq<char>, Seq<char>, Seq<char>);

    open spec fn view(&self) -> (Seq<char>, Seq<char>, Seq<char>) {
        (self.file_name@, self.base64_encoded_file@, self.mime_type@)
    }
}

impl SmsOutgoingAttachment {
    /// The attachment for a file with the given content.
    pub fn from_path(path: &str, content: &Vec<u8>) -> (r: SmsOutgoingAttachment)
        requires
            content@.len() <= usize::MAX / 4,
        ensures
            r@ == attachment_fields(path@, content@),
            r.base64_encoded_file@ == encode::base64_text(content@),
            paths::file_name(path@) is Some ==> r.file_name@ == paths::file_name(path@)->0,
            paths::file_name(path@) is None ==> r.file_name@ == "attachment"@,
            r.mime_type@ == mime_type_of(lower_extension(path@)),
            encode::base64_bytes(r.base64_encoded_file@) == Some(content@),
    {
        let file_name = match file_name_of(path) {
            Some(name) => name,
            None => "attachment".to_owned(),
        };
        SmsOutgoingAttachment {
            file_name,
            base64_encoded_file: encode_base64(content),
            mime_type: guess_mime_type(path),
        }
    }

    fn record(&self) -> (r: Vec<(String, String)>)
        ensures
            r.deep_view() == attachment_record(self@),
    {
        let mut r: Vec<(String, String)> = Vec::new();
        r.push(("fileName".to_owned(), self.file_name.clone()));
        r.push(("base64EncodedFile".to_owned(), self.base64_encoded_file.clone()));
        r.push(("mimeType".to_owned(), self.mime_type.clone()));
        proof {
            assert(r.deep_view() =~= attachment_record(self@));
        }
        r
    }
}

/// An attachment as the members of an object.
pub open spec fn attachment_record(a: (Seq<char>, Seq<char>, Seq<char>)) -> Seq<
    (Seq<char>, Seq<char>),
> {
    seq![("fileName"@, a.0), ("base64EncodedFile"@, a.1), ("mimeType"@, a.2)]
}

/// The attachments of the files that could be read, in order.
pub open spec fn readable(paths: Seq<Seq<char>>, contents: Seq<Option<Seq<u8>>>) -> Seq<
    (Seq<char>, Seq<char>, Seq<char>),
>
    decreases paths.len(),
{
    if paths.len() == 0 {
        Seq::empty()
    } else {
        let before = readable(paths.drop_last(), contents.drop_last());
        match contents.last() {
            Some(c) => before.push(attachment_fields(paths.last(), c)),
            None => before,
        }
    }
}

/// The members of the body that sends a message.
pub open spec fn send_members(
    phone: Seq<char>,
    message: Seq<char>,
    attachments: Seq<(Seq<char>, Seq<char>, Seq<char>)>,
) -> Seq<(Seq<char>, FieldModel)> {
    let plain = seq![
        ("sendSms"@, FieldModel::Flag(true)),
        ("addresses"@, FieldModel::Records(seq![seq![("address"@, phone)]])),
        ("messageBody"@, FieldModel::Text(message)),
        ("version"@, FieldModel::Number(2)),
    ];
    if attachments.len() == 0 {
        plain
    } else {
        plain.push(
            (
                "attachments"@,
                FieldModel::Records(
                    attachments.map_values(
                        |a: (Seq<char>, Seq<char>, Seq<char>)| attachment_record(a),
                    ),
                ),
            ),
        )
    }
}

proof fn lemma_any_readable(paths: Seq<Seq<char>>, contents: Seq<Option<Seq<u8>>>)
    requires
        paths.len() == contents.len(),
    ensures
        readable(paths, contents).len() == 0 <==> forall|i: int|
            0 <= i < contents.len() ==> (#[trigger] contents[i]) is None,
    decreases paths.len(),
{
    if paths.len() > 0 {
        let less = contents.drop_last();
        lemma_any_readable(paths.drop_last(), less);
        assert(contents.last() == contents[contents.len() - 1]);
        if forall|i: int| 0 <= i < less.len() ==> (#[trigger] less[i]) is None {
            assert forall|i: int| 0 <= i < less.len() implies (#[trigger] contents[i]) is None by {
                assert(less[i] is None);
            }
        }
        if forall|i: int| 0 <= i < contents.len() ==> (#[trigger] contents[i]) is None {
            assert forall|i: int| 0 <= i < less.len() implies (#[trigger] less[i]) is None by {
                assert(contents[i] is None);
            }
        }
    }
}

/// Every file that could be read is attached, under its name, with its content
/// and its type, in order; one that could not be read is left out.
pub proof fn lemma_readable_files_are_attached(
    paths: Seq<Seq<char>>,
    contents: Seq<Option<Seq<u8>>>,
    path: Seq<char>,
    content: Seq<u8>,
    name: Seq<char>,
)
    requires
        paths.len() == contents.len(),
        paths::file_name(path) == Some(name),
    ensures
        readable(paths.push(path), contents.push(Some(content))) == readable(paths, contents).push(
            (name, encode::base64_text(content), mime_type_of(lower_extension(path))),
        ),
        readable(paths.push(path), contents.push(None)) == readable(paths, contents),
{
    assert(paths.push(path).drop_last() =~= paths);
    assert(contents.push(Some(content)).drop_last() =~= contents);
    assert(contents.push(None).drop_last() =~= contents);
}

/// An attachment travels as its name, its content and its type.
pub proof fn lemma_attachments_travel_whole(
    phone: Seq<char>,
    message: Seq<char>,
    attachments: Seq<(Seq<char>, Seq<char>, Seq<char>)>,
    k: int,
)
    requires
        0 <= k < attachments.len(),
    ensures
        send_members(phone, message, attachments).len() == 5,
        send_members(phone, message, attachments)[4].0 == "attachments"@,
        send_members(phone, message, attachments)[4].1 matches FieldModel::Records(rs) && rs.len()
            == attachments.len() && rs[k] == seq![
            ("fileName"@, attachments[k].0),
            ("base64EncodedFile"@, attachments[k].1),
            ("mimeType"@, attachments[k].2),
        ],
{
}

/// What the extensions stand for.
pub proof fn lemma_types_of_extensions(ext: Seq<char>)
    ensures
        ext == "jpg"@ || ext == "jpeg"@ ==> mime_type_of(ext) == "image/jpeg"@,
        ext == "png"@ ==> mime_type_of(ext) == "image/png"@,
        ext == "gif"@ ==> mime_type_of(ext) == "image/gif"@,
        ext == "webp"@ ==> mime_type_of(ext) == "image/webp"@,
        ext == "mp4"@ ==> mime_type_of(ext) == "video/mp4"@,
        ext == "3gp"@ ==> mime_type_of(ext) == "video/3gpp"@,
        ext == "mkv"@ ==> mime_type_of(ext) == "video/x-matroska"@,
        ext == "mov"@ ==> mime_type_of(ext) == "video/quicktime"@,
        ext == "mp3"@ ==> mime_type_of(ext) == "audio/mpeg"@,
        ext == "ogg"@ ==> mime_type_of(ext) == "audio/ogg"@,
        ext == "amr"@ ==> mime_type_of(ext) == "audio/amr"@,
        ext == "wav"@ ==> mime_type_of(ext) == "audio/wav"@,
        ext.len() == 0 || ext.len() > 4 ==> mime_type_of(ext) == "application/octet-stream"@,
{
    reveal_strlit("jpg");
    reveal_strlit("jpeg");
    reveal_strlit("png");
    reveal_strlit("gif");
    reveal_strlit("webp");
    reveal_strlit("mp4");
    reveal_strlit("3gp");
    reveal_strlit("mkv");
    reveal_strlit("mov");
    reveal_strlit("mp3");
    reveal_strlit("ogg");
    reveal_strlit("amr");
    reveal_strlit("wav");
    assert("jpg"@.len() == 3 && "jpeg"@.len() == 4 && "png"@.len() == 3 && "gif"@.len() == 3);
    assert("webp"@.len() == 4 && "mp4"@.len() == 3 && "3gp"@.len() == 3 && "mkv"@.len() == 3);
    assert("mov"@.len() == 3 && "mp3"@.len() == 3 && "ogg"@.len() == 3 && "amr"@.len() == 3);
    assert("wav"@.len() == 3);
    assert("jpg"@[0] == 'j' && "jpeg"@[0] == 'j' && "png"@[0] == 'p' && "gif"@[0] == 'g');
    assert("webp"@[0] == 'w' && "mp4"@[0] == 'm' && "3gp"@[0] == '3' && "mkv"@[0] == 'm');
    assert("mov"@[0] == 'm' && "mp3"@[0] == 'm' && "ogg"@[0] == 'o' && "amr"@[0] == 'a');
    assert("wav"@[0] == 'w');
    assert("mp4"@[2] == '4' && "mp3"@[2] == '3' && "mkv"@[2] == 'v' && "mov"@[2] == 'v');
    assert("mkv"@[1] == 'k' && "mov"@[1] == 'o');
}

/// The packet that sends a message. `contents` holds what was read from the
/// files to attach; a file that could not be read is left out.
pub fn build_send_packet(
    phone_number: &str,
    message: &str,
    attachment_paths: &Vec<String>,
    contents: &Vec<Option<Vec<u8>>>,
) -> (r: ProtocolPacket)
    requires
        attachment_paths@.len() == contents@.len(),
        forall|i: int|
            0 <= i < contents@.len() && (#[trigger] contents@[i]) is Some ==> contents@[i]->0@.len()
                <= usize::MAX / 4,
    ensures
        r@ == packet::object(
            PacketType::SmsRequest,
            send_members(
                phone_number@,
                message@,
                readable(attachment_paths.deep_view(), contents.deep_view()),
            ),
        ),
        r@.packet_type is SmsRequest,
        r@.payload_size is None,
        r@.body matches packet::BodyModel::Object(ms) && ms.len() >= 4 && ms[0] == (
            "sendSms"@,
            FieldModel::Flag(true),
        ) && ms[1] == (
            "addresses"@,
            FieldModel::Records(seq![seq![("address"@, phone_number@)]]),
        ) && ms[2] == ("messageBody"@, FieldModel::Text(message@)) && ms[3] == (
            "version"@,
            FieldModel::Number(2),
        ) && (ms.len() == 4 <==> forall|i: int|
            0 <= i < contents@.len() ==> (#[trigger] contents@[i]) is None) && (ms.len() > 4
            ==> ms.len() == 5 && ms[4].0 == "attachments"@),
{
    let ghost all = attachment_paths.deep_view();
    let ghost data = contents.deep_view();
    let ghost name = |a: (Seq<char>, Seq<char>, Seq<char>)| attachment_record(a);
    let mut records: Vec<Vec<(String, String)>> = Vec::new();
    let mut i: usize = 0;
    proof {
        assert(records.deep_view() =~= readable(all.take(0), data.take(0)).map_values(name));
    }
    while i < attachment_paths.len()
        invariant
            i <= attachment_paths@.len(),
            attachment_paths@.len() == contents@.len(),
            all == attachment_paths.deep_view(),
            data == contents.deep_view(),
            name == (|a: (Seq<char>, Seq<char>, Seq<char>)| attachment_record(a)),
            forall|k: int|
                0 <= k < contents@.len() && (#[trigger] contents@[k]) is Some
                    ==> contents@[k]->0@.len() <= usize::MAX / 4,
            records.deep_view() == readable(all.take(i as int), data.take(i as int)).map_values(
                name,
            ),
        decreases attachment_paths@.len() - i,
    {
        let ghost before = records.deep_view();
        proof {
            assert(all.take(i + 1).drop_last() == all.take(i as int));
            assert(data.take(i + 1).drop_last() == data.take(i as int));
            assert(all.take(i + 1).last() == attachment_paths@[i as int]@);
            assert(data.take(i + 1).last() == contents@[i as int].deep_view());
        }
        if let Some(content) = &contents[i] {
            proof {
                assert(content.deep_view() =~= content@);
            }
            let a = SmsOutgoingAttachment::from_path(&attachment_paths[i], content);
            records.push(a.record());
            proof {
                assert(records.deep_view() =~= before.push(attachment_record(a@)));
                assert(readable(all.take(i + 1), data.take(i + 1)).map_values(name)
                    =~= before.push(attachment_record(a@)));
            }
        }
        i = i + 1;
    }
    proof {
        assert(all.take(i as int) == all);
        assert(data.take(i as int) == data);
    }
    let ghost sent = readable(all, data);
    let mut address: Vec<(String, String)> = Vec::new();
    address.push(("address".to_owned(), phone_number.to_owned()));
    let mut addresses: Vec<Vec<(String, String)>> = Vec::new();
    addresses.push(address);
    let mut fields: Vec<(String, Field)> = Vec::new();
    fields.push(("sendSms".to_owned(), Field::Flag(true)));
    fields.push(("addresses".to_owned(), Field::Records(addresses)));
    fields.push(("messageBody".to_owned(), Field::Text(message.to_owned())));
    fields.push(("version".to_owned(), Field::Number(2)));
    proof {
        assert(address.deep_view() =~= seq![("address"@, phone_number@)]);
        assert(addresses.deep_view() =~= seq![seq![("address"@, phone_number@)]]);
        assert(records.deep_view().len() == sent.len());
    }
    if records.len() > 0 {
        fields.push(("attachments".to_owned(), Field::Records(records)));
    }
    proof {
        assert(packet::members(fields@) =~= send_members(phone_number@, message@, sent));
        lemma_any_readable(all, data);
        assert forall|i: int| 0 <= i < contents@.len() implies (contents@[i] is None
            <==> #[trigger] data[i] is None) by {}
        if forall|i: int| 0 <= i < contents@.len() ==> (#[trigger] contents@[i]) is None {
            assert forall|i: int| 0 <= i < data.len() implies (#[trigger] data[i]) is None by {
                assert(contents@[i] is None);
            }
        }
        if forall|i: int| 0 <= i < data.len() ==> (#[trigger] data[i]) is None {
            assert forall|i: int| 0 <= i < contents@.len() implies (#[trigger] contents@[i]) is None by {
                assert(data[i] is None);
            }
        }
    }
    ProtocolPacket::new(PacketType::SmsRequest, Body::Object(fields))
}

/// Whether a message has not been seen: it is newer than what was last seen of
/// its thread or, in a thread that was never opened, the phone itself says that
/// it is unread.
pub open spec fn is_unseen(m: SmsMessage, last_seen: Map<Seq<char>, i64>) -> bool {
    let thread = text::decimal(m.thread_id as int);
    if last_seen.contains_key(thread) {
        m.date > last_seen[thread]
    } else {
        m.read == 0
    }
}

/// Whether any message has not been seen.
pub open spec fn unread(messages: Seq<SmsMessage>, last_seen: Map<Seq<char>, i64>) -> bool {
    exists|i: int| 0 <= i < messages.len() && is_unseen(#[trigger] messages[i], last_seen)
}

/// Whether any message has not been seen. `data` holds the messages, where they
/// could be read.
pub fn has_unread(data: &Option<SmsMessages>, last_seen: &TextMap<i64>) -> (r: bool)
    requires
        last_seen.wf(),
    ensures
        r == (data is Some && unread(data->0.messages@, last_seen@)),
        r <==> data is Some && exists|i: int|
            0 <= i < data->0.messages@.len() && {
                let m = #[trigger] data->0.messages@[i];
                if last_seen@.contains_key(text::decimal(m.thread_id as int)) {
                    m.date > last_seen@[text::decimal(m.thread_id as int)]
                } else {
                    m.read == 0
                }
            },
{
    let messages = match data {
        Some(d) => &d.messages,
        None => {
            return false;
        },
    };
    let mut i: usize = 0;
    while i < messages.len()
        invariant
            i <= messages@.len(),
            data is Some,
            messages@ == data->0.messages@,
            last_seen.wf(),
            forall|k: int| 0 <= k < i ==> !is_unseen(#[trigger] data->0.messages@[k], last_seen@),
        decreases messages@.len() - i,
    {
        let m = &messages[i];
        let unseen = match last_seen.get(&decimal_text(m.thread_id)) {
            Some(seen_at) => m.date > *seen_at,
            None => m.read == 0,
        };
        proof {
            assert(unseen == is_unseen(messages@[i as int], last_seen@));
            assert(data->0.messages@[i as int] == messages@[i as int]);
        }
        if unseen {
            return true;
        }
        i = i + 1;
    }
    false
}

/// A thread that was never opened is unread as soon as the phone reports any of
/// its messages unread, whatever came after it.
pub proof fn lemma_any_unread_message_counts(
    messages: Seq<SmsMessage>,
    last_seen: Map<Seq<char>, i64>,
    i: int,
)
    requires
        0 <= i < messages.len(),
        !last_seen.contains_key(text::decimal(messages[i].thread_id as int)),
        messages[i].read == 0,
    ensures
        unread(messages, last_seen),
{
    assert(is_unseen(messages[i], last_seen));
}

/// Once the newest date of every thread has been seen, nothing is unread.
pub proof fn lemma_seen_threads_are_read(
    messages: Seq<SmsMessage>,
    last_seen: Map<Seq<char>, i64>,
)
    requires
        forall|i: int|
            0 <= i < messages.len() ==> {
                let thread = text::decimal((#[trigger] messages[i]).thread_id as int);
                last_seen.contains_key(thread) && messages[i].date <= last_seen[thread]
            },
    ensures
        !unread(messages, last_seen),
{
}

} // verus!
