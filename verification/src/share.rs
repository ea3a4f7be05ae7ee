//! Sharing files, texts and links.

use vstd::prelude::*;

use crate::download;
use crate::download::Download;
use crate::packet::{Body, PacketModel, BodyModel, PacketType, ProtocolPacket};
use crate::paths;
use crate::text::{join2, join3};
use crate::transfer::{IncomingTransfer, TransferState, TransferStatus};

verus! {

/// The announcement of a shared file.
#[derive(Debug, PartialEq, Eq)]
pub struct ShareRequestFile {
    pub filename: String,
    pub open: Option<bool>,
}

/// Something that one side shares with the other.
#[derive(Debug, PartialEq, Eq)]
pub enum ShareRequest {
    File(ShareRequestFile),
    Text { text: String },
    Url { url: String },
}

impl Default for ShareRequest {
    fn default() -> (r: Self)
        ensures
            r matches ShareRequest::Text { text } && text@ == "Hello From COSMIC Desktop"@,
    {
        ShareRequest::Text { text: "Hello From COSMIC Desktop".to_owned() }
    }
}

/// What to do with something that the phone shared.
#[derive(Debug, PartialEq, Eq)]
pub enum ShareStep {
    /// Receive the payload at the port into the downloads, and report on it.
    ReceiveFile { port: u16, transfer: Option<IncomingTransfer> },
    /// Show a notification.
    Notify { summary: String, body: String },
    /// Open the link; where that does not start, show a notification instead.
    Open { url: String },
}

/// The notification about a link, its summary and its body: there is one only
/// where the link could not be opened.
pub fn link_notification(url: &str, started: bool) -> (r: Option<(String, String)>)
    ensures
        r is Some <==> !started,
        r matches Some((summary, body)) ==> summary@ == "URL received from phone"@ && body@ == url@,
{
    if started {
        None
    } else {
        Some(("URL received from phone".to_owned(), url.to_owned()))
    }
}

/// What can be wrong with a share.
#[derive(Debug, PartialEq, Eq)]
pub enum ShareError {
    /// The file came without a payload.
    MissingTransferInfo { filename: String },
    /// There is no directory for downloads.
    NoDownloads,
    /// The name of the file would select another path.
    RefusedName,
}

impl ShareError {
    /// The wording of the error.
    pub open spec fn wording(self) -> Seq<char> {
        match self {
            ShareError::MissingTransferInfo { filename } => "[share] file share '"@ + filename@
                + "' missing payload transfer info"@,
            ShareError::NoDownloads => "Downloads directory is unavailable"@,
            ShareError::RefusedName => "preparing destination file: invalid received filename"@,
        }
    }

    /// The stage at which the error ends a transfer.
    pub open spec fn stage(self) -> ReceiveStage {
        match self {
            ShareError::MissingTransferInfo { filename } => ReceiveStage::Metadata,
            _ => ReceiveStage::Destination,
        }
    }

    /// The message shown for the error.
    pub fn message(&self) -> (r: String)
        ensures
            r@ == self.wording(),
            *self matches ShareError::MissingTransferInfo { filename } ==> r@
                == "[share] file share '"@ + filename@ + "' missing payload transfer info"@,
            *self is NoDownloads ==> r@ == "Downloads directory is unavailable"@,
            *self is RefusedName ==> r@
                == "preparing destination file: invalid received filename"@,
    {
        match self {
            ShareError::MissingTransferInfo { filename } => join3(
                "[share] file share '",
                filename,
                "' missing payload transfer info",
            ),
            ShareError::NoDownloads => "Downloads directory is unavailable".to_owned(),
            ShareError::RefusedName => "preparing destination file: invalid received filename".to_owned(),
        }
    }

    /// How a transfer ends that the error keeps from beginning.
    pub fn outcome(&self) -> (r: Received)
        ensures
            r matches Received::Failed { stage, reason } && stage == self.stage() && reason@
                == self.wording(),
            r is Failed && (r->stage == ReceiveStage::Metadata <==> *self is MissingTransferInfo)
                && (r->stage == ReceiveStage::Destination <==> !(*self is MissingTransferInfo)),
    {
        let stage = match self {
            ShareError::MissingTransferInfo { filename } => ReceiveStage::Metadata,
            _ => ReceiveStage::Destination,
        };
        Received::Failed { stage, reason: self.message() }
    }
}

/// A share that could not be received: why, and the one report that ends the
/// transfer which was begun for it.
#[derive(Debug, PartialEq, Eq)]
pub struct ShareFailure {
    pub error: ShareError,
    pub report: Option<TransferStatus>,
}

/// Whether a report ends a transfer as failed by an error.
pub open spec fn ends_with(base: TransferStatus, error: ShareError, r: TransferStatus) -> bool {
    &&& r.state matches TransferState::Failed { stage, reason } && stage@ == error.stage().label()
        && reason@ == error.wording()
    &&& r == (TransferStatus { state: r.state, ..base })
}

impl ShareRequestFile {
    /// Where the file goes: into the downloads, under a free name. Without such
    /// a directory, or with a name that would select another path, it goes
    /// nowhere.
    pub fn destination(&self, downloads: &Option<String>) -> (r: Result<Download, ShareError>)
        ensures
            r is Ok <==> downloads is Some && download::valid_name(self.filename@),
            r is Err ==> r->Err_0 == (if downloads is None {
                ShareError::NoDownloads
            } else {
                ShareError::RefusedName
            }),
            r is Ok ==> {
                let d = r->Ok_0;
                d.wf() && d.dir() == downloads->0@ && d.name() == self.filename@ && d.is_unique()
                    && d.tried() == 0
            },
    {
        match downloads {
            Some(directory) => match Download::new(directory, &self.filename, true) {
                Ok(d) => Ok(d),
                Err(_) => Err(ShareError::RefusedName),
            },
            None => Err(ShareError::NoDownloads),
        }
    }
}

/// The requests that share files, in the order of the files that exist.
pub open spec fn shared(paths: Seq<Seq<char>>, exists: Seq<bool>) -> Seq<(Seq<char>, Seq<char>)>
    recommends
        paths.len() == exists.len(),
    decreases paths.len(),
{
    if paths.len() == 0 {
        Seq::empty()
    } else {
        let before = shared(paths.drop_last(), exists.drop_last());
        match paths::file_name(paths.last()) {
            Some(name) if exists.last() => before.push((name, paths.last())),
            _ => before,
        }
    }
}

/// Every file that is shared is shared under its own name.
pub proof fn lemma_shared_files_are_named(paths: Seq<Seq<char>>, exists: Seq<bool>, j: int)
    requires
        paths.len() == exists.len(),
        0 <= j < shared(paths, exists).len(),
    ensures
        paths::file_name(shared(paths, exists)[j].1) == Some(shared(paths, exists)[j].0),
        paths.contains(shared(paths, exists)[j].1),
    decreases paths.len(),
{
    if paths.len() > 0 {
        let before = shared(paths.drop_last(), exists.drop_last());
        if j < before.len() {
            lemma_shared_files_are_named(paths.drop_last(), exists.drop_last(), j);
            let k = choose|k: int|
                0 <= k < paths.drop_last().len() && paths.drop_last()[k] == before[j].1;
            assert(paths[k] == before[j].1);
        } else {
            assert(paths[paths.len() - 1] == paths.last());
        }
    }
}

/// Every file that exists and has a name is shared.
pub proof fn lemma_existing_files_are_shared(paths: Seq<Seq<char>>, exists: Seq<bool>, k: int)
    requires
        paths.len() == exists.len(),
        0 <= k < paths.len(),
        exists[k],
        paths::file_name(paths[k]) is Some,
    ensures
        exists|j: int|
            0 <= j < shared(paths, exists).len() && (#[trigger] shared(paths, exists)[j]).1
                == paths[k],
    decreases paths.len(),
{
    let less = paths.drop_last();
    let before = shared(less, exists.drop_last());
    let now = shared(paths, exists);
    if k < less.len() {
        assert(less[k] == paths[k]);
        lemma_existing_files_are_shared(less, exists.drop_last(), k);
        let j = choose|j: int| 0 <= j < before.len() && (#[trigger] before[j]).1 == less[k];
        assert(now[j].1 == paths[k]);
    } else {
        assert(now[before.len() as int].1 == paths[k]);
    }
}

/// A request to share a file with the given name, and where the file is.
pub open spec fn request_view(r: (ShareRequest, String)) -> (Seq<char>, Seq<char>) {
    (r.0->File_0.filename@, r.1@)
}

impl ShareRequest {
    /// The requests that share the files. `exists` says which of the paths
    /// exist; the others are passed over. The root directory has no name and
    /// cannot be shared.
    pub fn share_files(content: &Vec<String>, exists: &Vec<bool>) -> (r: Vec<(ShareRequest, String)>)
        requires
            content@.len() == exists@.len(),
            forall|i: int|
                0 <= i < content@.len() && exists@[i] ==> paths::file_name(
                    (#[trigger] content@[i])@,
                ) is Some,
        ensures
            r@.map_values(|x: (ShareRequest, String)| request_view(x)) == shared(
                content.deep_view(),
                exists@,
            ),
            forall|i: int|
                0 <= i < r@.len() ==> ((#[trigger] r@[i]).0 matches ShareRequest::File(f) && f.open
                    == Some(false)),
            forall|i: int|
                0 <= i < r@.len() ==> paths::file_name((#[trigger] r@[i]).1@) == Some(
                    r@[i].0->File_0.filename@,
                ) && content.deep_view().contains(r@[i].1@),
            forall|k: int|
                #![trigger content@[k]]
                0 <= k < content@.len() && exists@[k] ==> exists|i: int|
                    #![trigger r@[i]]
                    0 <= i < r@.len() && r@[i].1@ == content@[k]@,
    {
        let mut r: Vec<(ShareRequest, String)> = Vec::new();
        let ghost all = content.deep_view();
        let ghost look = |x: (ShareRequest, String)| request_view(x);
        let mut i: usize = 0;
        proof {
            assert(r@.map_values(look) =~= shared(all.take(0), exists@.take(0)));
        }
        while i < content.len()
            invariant
                i <= content@.len(),
                content@.len() == exists@.len(),
                all == content.deep_view(),
                look == (|x: (ShareRequest, String)| request_view(x)),
                forall|k: int|
                    0 <= k < content@.len() && exists@[k] ==> paths::file_name(
                        (#[trigger] content@[k])@,
                    ) is Some,
                r@.map_values(look) == shared(all.take(i as int), exists@.take(i as int)),
                forall|k: int|
                    0 <= k < r@.len() ==> ((#[trigger] r@[k]).0 matches ShareRequest::File(f)
                        && f.open == Some(false)),
            decreases content@.len() - i,
        {
            let ghost before = r@;
            proof {
                assert(all.take(i + 1).drop_last() == all.take(i as int));
                assert(exists@.take(i + 1).drop_last() == exists@.take(i as int));
                assert(all.take(i + 1).last() == content@[i as int]@);
            }
            if exists[i] {
                match paths::file_name_of(&content[i]) {
                    Some(filename) => {
                        let request = ShareRequest::File(
                            ShareRequestFile { filename, open: Some(false) },
                        );
                        r.push((request, content[i].clone()));
                        proof {
                            assert(r@.map_values(look) =~= before.map_values(look).push(
                                request_view(r@.last()),
                            ));
                        }
                    },
                    None => {},
                }
            }
            i = i + 1;
        }
        proof {
            assert(all.take(i as int) == all);
            assert(exists@.take(i as int) == exists@);
            let out = r@.map_values(look);
            assert forall|j: int| 0 <= j < r@.len() implies paths::file_name(
                (#[trigger] r@[j]).1@,
            ) == Some(r@[j].0->File_0.filename@) && content.deep_view().contains(r@[j].1@) by {
                lemma_shared_files_are_named(all, exists@, j);
                assert(out[j] == request_view(r@[j]));
            }
            assert forall|k: int|
                #![trigger content@[k]]
                0 <= k < content@.len() && exists@[k] implies exists|j: int|
                #![trigger r@[j]]
                0 <= j < r@.len() && r@[j].1@ == content@[k]@ by {
                assert(all[k] == content@[k]@);
                lemma_existing_files_are_shared(all, exists@, k);
                let j = choose|j: int| 0 <= j < out.len() && (#[trigger] out[j]).1 == all[k];
                assert(out[j] == request_view(r@[j]));
                assert(r@[j].1@ == content@[k]@);
            }
        }
        r
    }

    /// What to do with what the phone shared. `port` is where its payload
    /// waits; only a file needs one. A transfer that was begun for a file
    /// without one gets the report that it failed, and no other can follow.
    pub fn receive_share(&self, port: Option<u16>, transfer: Option<IncomingTransfer>) -> (r: Result<
        ShareStep,
        ShareFailure,
    >)
        ensures
            r is Err <==> self is File && port is None,
            r is Err ==> {
                let failure = r->Err_0;
                &&& failure.error == (ShareError::MissingTransferInfo {
                    filename: self->File_0.filename,
                })
                &&& failure.report is Some <==> transfer is Some
                &&& transfer is Some ==> ends_with(
                    transfer->0.base(),
                    failure.error,
                    failure.report->0,
                )
                &&& transfer is Some ==> failure.report->0.state is Failed
                    && failure.report->0.state->stage@ == "metadata"@
                    && failure.report->0.state->reason@ == "[share] file share '"@
                    + self->File_0.filename@ + "' missing payload transfer info"@
                    && failure.report->0.transfer_id == transfer->0.base().transfer_id
                    && failure.report->0.device_id == transfer->0.base().device_id
                    && failure.report->0.filename == transfer->0.base().filename
                    && failure.report->0.saved_path == transfer->0.base().saved_path
            },
            match *self {
                ShareRequest::File(_) => port is Some ==> r is Ok && r->Ok_0
                    == (ShareStep::ReceiveFile { port: port->0, transfer }),
                ShareRequest::Text { text } => r matches Ok(ShareStep::Notify { summary, body })
                    && summary@ == "Text received from phone"@ && body == text,
                ShareRequest::Url { url: link } => r == Ok::<ShareStep, ShareFailure>(
                    ShareStep::Open { url: link },
                ),
            },
    {
        match self {
            ShareRequest::File(f) => match port {
                Some(p) => Ok(ShareStep::ReceiveFile { port: p, transfer }),
                None => {
                    let error = ShareError::MissingTransferInfo { filename: f.filename.clone() };
                    let report = match transfer {
                        Some(t) => Some(settle(t, error.outcome())),
                        None => None,
                    };
                    Err(ShareFailure { error, report })
                },
            },
            ShareRequest::Text { text } => Ok(
                ShareStep::Notify {
                    summary: "Text received from phone".to_owned(),
                    body: text.clone(),
                },
            ),
            ShareRequest::Url { url } => Ok(ShareStep::Open { url: url.clone() }),
        }
    }

    /// The packet that announces what is shared and where its payload waits.
    pub fn send_file(self, payload_size: u64, payload_port: Option<u16>) -> (r: ProtocolPacket)
        ensures
            r@ == (PacketModel {
                packet_type: PacketType::ShareRequest,
                body: BodyModel::Share(self),
                payload_size: Some(payload_size),
                payload_port,
            }),
    {
        ProtocolPacket::new_with_payload(
            PacketType::ShareRequest,
            Body::Share(self),
            payload_size,
            payload_port,
        )
    }
}

/// Where receiving a file can fail.
#[derive(Debug, Clone, Copy, PartialEq, Eq, Structural)]
pub enum ReceiveStage {
    Metadata,
    Destination,
    Connect,
    TlsHandshake,
    VerifyPeer,
    Receive,
    SizeValidation,
    Finalize,
    Publish,
}

impl ReceiveStage {
    /// The name under which a stage is reported.
    pub open spec fn label(self) -> Seq<char> {
        match self {
            ReceiveStage::Metadata => "metadata"@,
            ReceiveStage::Destination => "destination"@,
            ReceiveStage::Connect => "connect"@,
            ReceiveStage::TlsHandshake => "tls-handshake"@,
            ReceiveStage::VerifyPeer => "verify-peer"@,
            ReceiveStage::Receive => "receive"@,
            ReceiveStage::SizeValidation => "size-validation"@,
            ReceiveStage::Finalize => "finalize"@,
            ReceiveStage::Publish => "publish"@,
        }
    }

    /// The name under which the stage is reported.
    pub fn name(&self) -> (r: &'static str)
        ensures
            r@ == self.label(),
            *self is Metadata ==> r@ == "metadata"@,
            *self is Destination ==> r@ == "destination"@,
            *self is Connect ==> r@ == "connect"@,
            *self is TlsHandshake ==> r@ == "tls-handshake"@,
            *self is VerifyPeer ==> r@ == "verify-peer"@,
            *self is Receive ==> r@ == "receive"@,
            *self is SizeValidation ==> r@ == "size-validation"@,
            *self is Finalize ==> r@ == "finalize"@,
            *self is Publish ==> r@ == "publish"@,
    {
        match self {
            ReceiveStage::Metadata => "metadata",
            ReceiveStage::Destination => "destination",
            ReceiveStage::Connect => "connect",
            ReceiveStage::TlsHandshake => "tls-handshake",
            ReceiveStage::VerifyPeer => "verify-peer",
            ReceiveStage::Receive => "receive",
            ReceiveStage::SizeValidation => "size-validation",
            ReceiveStage::Finalize => "finalize",
            ReceiveStage::Publish => "publish",
        }
    }
}

/// How receiving a file ended.
#[derive(Debug, PartialEq, Eq)]
pub enum Received {
    /// The file was published at the path.
    Saved { path: String, bytes: u64 },
    /// The stage failed.
    Failed { stage: ReceiveStage, reason: String },
}

/// The last report of a transfer, by how it ended.
pub open spec fn ends(base: TransferStatus, received: Received, r: TransferStatus) -> bool {
    match received {
        Received::Saved { path, bytes } => r == (TransferStatus {
            state: TransferState::Completed,
            saved_path: Some(path),
            received_bytes: bytes,
            ..base
        }),
        Received::Failed { stage, reason } => {
            &&& r.state matches TransferState::Failed { stage: s, reason: why } && s@
                == stage.label() && why == reason
            &&& r == (TransferStatus { state: r.state, ..base })
        },
    }
}

/// The one report on how a transfer ended.
pub fn settle(transfer: IncomingTransfer, received: Received) -> (r: TransferStatus)
    ensures
        ends(transfer.base(), received, r),
        (match received {
        Received::Saved { path, bytes } => r == (TransferStatus {
            state: TransferState::Completed,
            saved_path: Some(path),
            received_bytes: bytes,
            ..transfer.base()
        }),
        Received::Failed { stage, reason } => {
            &&& r.state matches TransferState::Failed { stage: s, reason: why } && s@
                == stage.label() && why == reason
            &&& r == (TransferStatus { state: r.state, ..transfer.base() })
        },
    }),
{
    match received {
        Received::Saved { path, bytes } => transfer.completed(path, bytes),
        Received::Failed { stage, reason } => transfer.failed(stage.name(), reason),
    }
}

/// The notification about a file that was saved: its summary and its body. Its
/// failure does not make the transfer a failure.
pub fn saved_notification(request: &ShareRequestFile, path: &str) -> (r: (String, String))
    ensures
        r.0@ == "File received: "@ + request.filename@,
        r.1@ == path@,
{
    (join2("File received: ", &request.filename), path.to_owned())
}

} // verus!
