//! Connections: who may connect, what is told to whom, and how payloads are
//! received.

use vstd::prelude::*;

use crate::bytes::same_bytes;
use crate::device;
use crate::device::{Address, AddressModel, Device, DeviceError, DeviceId, DeviceModel, PairState};
use crate::packet;
use crate::packet::PacketType;
use crate::plugins;
use crate::plugins::packet_plugin_id;
use crate::share::ReceiveStage;
use crate::table::{TextMap, TextSet};
use crate::text;
use crate::text::{same, trim};

verus! {

/// How often this desktop announces itself, in seconds.
pub const DEFAULT_DISCOVERY_INTERVAL: u64 = 60;

/// The longest line that can hold an identity.
pub const MAX_IDENTITY: usize = 65536;

/// How many handshakes run at the same time.
pub const HANDSHAKE_SLOTS: usize = 32;

/// How long a handshake may take, in seconds.
pub const HANDSHAKE_TIMEOUT: u64 = 15;

/// How often binding the discovery port is tried.
pub const BIND_ATTEMPTS: u32 = 10;

/// The first port for payloads.
pub const FIRST_PAYLOAD_PORT: u16 = 1739;

/// How many ports there are for payloads.
pub const PAYLOAD_PORTS: u16 = 30;

/// How long connecting for a payload may take, in seconds.
pub const PAYLOAD_CONNECT_TIMEOUT: u64 = 10;

/// How long the handshake for a payload may take, in seconds.
pub const PAYLOAD_TLS_TIMEOUT: u64 = 15;

/// How long a payload may bring nothing, in seconds.
pub const PAYLOAD_READ_TIMEOUT: u64 = 30;

/// The first line of what a peer has sent so far.
#[derive(Debug, Clone, Copy, PartialEq, Eq, Structural)]
pub enum IdentityLine {
    /// The line ends before this place; what follows the line break belongs to
    /// the handshake.
    Line(usize),
    /// More bytes than a line may have, without an end.
    TooLong,
    /// The line has not ended yet.
    Unfinished,
}

/// Where the first line break stands, or the length.
pub open spec fn line_end(b: Seq<u8>) -> int
    decreases b.len(),
{
    if b.len() == 0 || b[0] == 10 {
        0
    } else {
        1 + line_end(b.skip(1))
    }
}

/// What the first bytes of a connection hold.
pub open spec fn identity_line(b: Seq<u8>) -> IdentityLine {
    let end = line_end(b);
    if end < MAX_IDENTITY && end < b.len() {
        IdentityLine::Line(end as usize)
    } else if b.len() > MAX_IDENTITY {
        IdentityLine::TooLong
    } else {
        IdentityLine::Unfinished
    }
}

/// Reads a line byte by byte, so that nothing behind it is taken from the
/// connection.
#[derive(Debug, PartialEq, Eq)]
pub struct IdentityReader {
    raw: Vec<u8>,
}

/// What follows a byte.
#[derive(Debug, Clone, Copy, PartialEq, Eq, Structural)]
pub enum Reading {
    /// Read another byte.
    More,
    /// The line is complete.
    Complete,
    /// The line is too long.
    TooLong,
}

impl View for IdentityReader {
    type V = Seq<u8>;

    closed spec fn view(&self) -> Seq<u8> {
        self.raw@
    }
}

impl IdentityReader {
    /// Nothing read yet.
    pub fn new() -> (r: IdentityReader)
        ensures
            r@ == Seq::<u8>::empty(),
    {
        IdentityReader { raw: Vec::new() }
    }

    /// Takes in one byte. The line break ends the line and is not part of it.
    pub fn push(&mut self, byte: u8) -> (r: Reading)
        ensures
            r == (if old(self)@.len() >= MAX_IDENTITY {
                Reading::TooLong
            } else if byte == 10 {
                Reading::Complete
            } else {
                Reading::More
            }),
            final(self)@ == (if r == Reading::More {
                old(self)@.push(byte)
            } else {
                old(self)@
            }),
    {
        if self.raw.len() >= MAX_IDENTITY {
            return Reading::TooLong;
        }
        if byte == 10 {
            return Reading::Complete;
        }
        self.raw.push(byte);
        Reading::More
    }

    /// The line.
    pub fn line(&self) -> (r: &Vec<u8>)
        ensures
            r@ == self@,
    {
        &self.raw
    }
}

proof fn lemma_line_end(b: Seq<u8>, i: int)
    requires
        0 <= i <= b.len(),
        i < b.len() ==> b[i] == 10,
        forall|j: int| 0 <= j < i ==> #[trigger] b[j] != 10,
    ensures
        line_end(b) == i,
    decreases b.len(),
{
    if b.len() > 0 && i > 0 {
        assert(b[0] != 10);
        assert forall|j: int| 0 <= j < i - 1 implies #[trigger] b.skip(1)[j] != 10 by {
            assert(b[j + 1] != 10);
        }
        lemma_line_end(b.skip(1), i - 1);
    }
}

/// What the first bytes of a connection hold. Everything behind the line break
/// is left for the handshake.
pub fn read_identity(input: &Vec<u8>) -> (r: IdentityLine)
    ensures
        r == identity_line(input@),
        r matches IdentityLine::Line(n) ==> n < 65536 && n < input@.len() && input@[n as int] == 10
            && forall|j: int| 0 <= j < n ==> #[trigger] input@[j] != 10,
        r is TooLong ==> input@.len() > 65536 && forall|j: int|
            0 <= j < 65536 ==> #[trigger] input@[j] != 10,
        r is Unfinished ==> input@.len() <= 65536 && forall|j: int|
            0 <= j < input@.len() ==> #[trigger] input@[j] != 10,
{
    let mut reader = IdentityReader::new();
    let mut i: usize = 0;
    while i < input.len()
        invariant
            i <= input@.len(),
            i <= MAX_IDENTITY,
            reader@ == input@.take(i as int),
            forall|j: int| 0 <= j < i ==> #[trigger] input@[j] != 10,
        decreases input@.len() - i,
    {
        match reader.push(input[i]) {
            Reading::More => {
                proof {
                    assert(input@.take(i + 1) =~= input@.take(i as int).push(input@[i as int]));
                }
            },
            Reading::Complete => {
                proof {
                    lemma_line_end(input@, i as int);
                }
                return IdentityLine::Line(i);
            },
            Reading::TooLong => {
                proof {
                    lemma_line_end_far(input@, i as int);
                }
                return IdentityLine::TooLong;
            },
        }
        i = i + 1;
    }
    proof {
        lemma_line_end(input@, i as int);
    }
    IdentityLine::Unfinished
}

proof fn lemma_line_end_far(b: Seq<u8>, i: int)
    requires
        0 <= i <= b.len(),
        forall|j: int| 0 <= j < i ==> #[trigger] b[j] != 10,
    ensures
        line_end(b) >= i,
    decreases b.len(),
{
    if b.len() > 0 && i > 0 {
        assert(b[0] != 10);
        assert forall|j: int| 0 <= j < i - 1 implies #[trigger] b.skip(1)[j] != 10 by {
            assert(b[j + 1] != 10);
        }
        lemma_line_end_far(b.skip(1), i - 1);
    } else if b.len() > 0 {
        lemma_line_end_far(b.skip(1), 0);
    }
}

/// What comes behind the line does not change what the line is, so the bytes of
/// the handshake are never read as part of the identity.
pub proof fn lemma_handshake_bytes_are_left(line: Seq<u8>, rest: Seq<u8>)
    requires
        line.len() < MAX_IDENTITY,
        !line.contains(10),
    ensures
        identity_line(line.push(10) + rest) == IdentityLine::Line(line.len() as usize),
        (line.push(10) + rest).take(line.len() as int) == line,
        (line.push(10) + rest).skip(line.len() as int + 1) == rest,
{
    let all = line.push(10) + rest;
    assert(all[line.len() as int] == 10);
    assert forall|j: int| 0 <= j < line.len() implies #[trigger] all[j] != 10 by {
        assert(line.contains(line[j]));
    }
    lemma_line_end(all, line.len() as int);
    assert(all.take(line.len() as int) =~= line);
    assert(all.skip(line.len() as int + 1) =~= rest);
}

/// What a device says of itself.
#[derive(Debug, PartialEq, Eq)]
pub struct Identity {
    pub device_id: String,
    pub device_name: String,
    pub device_type: String,
    pub protocol_version: u32,
    pub tcp_port: Option<u16>,
    pub incoming_capabilities: Vec<String>,
    pub outgoing_capabilities: Vec<String>,
}

/// What is wrong with an identity.
#[derive(Debug, Clone, Copy, PartialEq, Eq, Structural)]
pub enum IdentityError {
    /// The packet is of another kind.
    NotIdentity,
    /// The body cannot be read.
    Malformed,
    /// The identifier of the device is not valid.
    InvalidId,
}

/// Accepts the identity in a packet. `identity` is its body, where that could
/// be read.
pub fn accept_identity(packet_type: &PacketType, identity: Option<Identity>) -> (r: Result<
    Identity,
    IdentityError,
>)
    ensures
        r == (if !(*packet_type is Identity) {
            Err(IdentityError::NotIdentity)
        } else if identity is None {
            Err(IdentityError::Malformed)
        } else if !device::valid_id(identity->0.device_id@) {
            Err(IdentityError::InvalidId)
        } else {
            Ok(identity->0)
        }),
{
    match packet_type {
        PacketType::Identity => match identity {
            Some(i) => {
                let id = DeviceId(i.device_id.clone());
                match id.validate() {
                    Ok(_) => Ok(i),
                    Err(_) => Err(IdentityError::InvalidId),
                }
            },
            None => Err(IdentityError::Malformed),
        },
        _ => Err(IdentityError::NotIdentity),
    }
}

/// Whether to go on with a peer that has connected: this desktop does not
/// connect to itself.
pub fn is_other_device(own: &Identity, peer: &Identity) -> (r: bool)
    ensures
        r == (own.device_id@ != peer.device_id@),
{
    !same(&own.device_id, &peer.device_id)
}

/// Where to connect to a peer that has announced itself. Nobody answers this
/// desktop's own announcement or one without a valid identifier.
pub fn announced_peer(own: &Identity, peer: Option<&Identity>, from: &Address) -> (r: Option<Address>)
    ensures
        r is Some <==> peer is Some && own.device_id@ != peer->0.device_id@ && device::valid_id(
            peer->0.device_id@,
        ),
        r is Some ==> r->0@ == (AddressModel {
            port: if peer->0.tcp_port is Some {
                peer->0.tcp_port->0
            } else {
                from@.port
            },
            ..from@
        }),
{
    match peer {
        Some(p) => {
            if !is_other_device(own, p) {
                return None;
            }
            let id = DeviceId(p.device_id.clone());
            if id.validate().is_err() {
                return None;
            }
            match p.tcp_port {
                Some(port) => Some(from.with_port(port)),
                None => Some(from.with_port(from.port)),
            }
        },
        None => None,
    }
}

/// The device behind a connection, once its certificate has been accepted.
/// Nothing is read from a connection before that.
pub fn accept_connection(
    id: String,
    name: String,
    address: Address,
    stored: Option<Device>,
    certificate: Vec<u8>,
) -> (r: Result<Device, DeviceError>)
    ensures
        ({
            let record = if stored is Some {
                Some(stored->0@)
            } else {
                None
            };
            let known = device::restored(id@, name@, address@, record);
            let matches = stored is Some ==> stored->0@.device_id == id@;
            let pinned = known.pair_state == PairState::Paired ==> known.pin == Some(certificate@);
            &&& r is Ok <==> device::valid_id(id@) && matches && certificate@.len() > 0 && pinned
            &&& r is Ok ==> r->Ok_0@ == (DeviceModel { connection: Some(certificate@), ..known })
            &&& r is Err ==> r->Err_0 == (if !device::valid_id(id@) {
                DeviceError::InvalidId
            } else if !matches {
                DeviceError::StoredIdMismatch
            } else if certificate@.len() == 0 {
                DeviceError::NoPeerCertificate
            } else {
                DeviceError::CertificateChanged
            })
        }),
{
    match Device::new(id, name, address, stored) {
        Ok(known) => {
            let mut device = known;
            match device.bind_certificate(certificate) {
                Ok(_) => Ok(device),
                Err(e) => Err(e),
            }
        },
        Err(e) => Err(e),
    }
}

/// Whether the peer of a payload connection is the device: it shows the
/// certificate that was pinned when the device was paired.
pub fn verify_payload_peer(device: &Device, certificates: Option<&Vec<Vec<u8>>>) -> (r: Result<
    (),
    DeviceError,
>)
    ensures
        r is Ok <==> device::trusted(device@) && shown(certificates) == device@.pin,
        r is Ok <==> device@.pair_state == PairState::Paired && device@.pin is Some
            && device@.pin->0.len() > 0 && certificates is Some && certificates->0@.len() > 0
            && certificates->0@[0]@ == device@.pin->0,
        r is Err ==> r->Err_0 == (if device@.pair_state != PairState::Paired {
            DeviceError::NotPaired
        } else if !device::trusted(device@) {
            DeviceError::NoPinnedCertificate
        } else if shown(certificates) is None {
            DeviceError::NoPayloadCertificate
        } else {
            DeviceError::PayloadCertificateMismatch
        }),
{
    match device.payload_certificate() {
        Ok(expected) => match certificates {
            Some(list) => {
                if list.len() == 0 {
                    return Err(DeviceError::NoPayloadCertificate);
                }
                if same_bytes(&list[0], &expected) {
                    Ok(())
                } else {
                    Err(DeviceError::PayloadCertificateMismatch)
                }
            },
            None => Err(DeviceError::NoPayloadCertificate),
        },
        Err(e) => Err(e),
    }
}

/// The certificate that a peer has shown: the first of its list.
pub open spec fn shown(certificates: Option<&Vec<Vec<u8>>>) -> Option<Seq<u8>> {
    match certificates {
        Some(list) => if list@.len() > 0 {
            Some(list@[0]@)
        } else {
            None
        },
        None => None,
    }
}

/// The handshakes that are running.
#[derive(Debug, PartialEq, Eq)]
pub struct Handshakes {
    pub running: usize,
}

impl Handshakes {
    /// No more than the allowed number are running.
    pub open spec fn wf(&self) -> bool {
        self.running <= HANDSHAKE_SLOTS
    }

    /// None is running.
    pub fn new() -> (r: Handshakes)
        ensures
            r.wf(),
            r.running == 0,
    {
        Handshakes { running: 0 }
    }

    /// Begins a handshake, unless too many are running.
    pub fn begin(&mut self) -> (r: bool)
        requires
            old(self).wf(),
        ensures
            final(self).wf(),
            r == (old(self).running < HANDSHAKE_SLOTS),
            r <==> old(self).running < 32,
            final(self).running == (if r {
                old(self).running + 1
            } else {
                old(self).running as int
            }),
    {
        if self.running < HANDSHAKE_SLOTS {
            self.running = self.running + 1;
            true
        } else {
            false
        }
    }

    /// Ends a handshake.
    pub fn end(&mut self)
        requires
            old(self).wf(),
            old(self).running > 0,
        ensures
            final(self).wf(),
            final(self).running == old(self).running - 1,
    {
        self.running = self.running - 1;
    }
}

/// Whether to try binding the discovery port again after so many failures.
pub fn retry_bind(failures: u32) -> (r: bool)
    ensures
        r == (failures < BIND_ATTEMPTS),
        r <==> failures < 10,
{
    failures < BIND_ATTEMPTS
}

/// The port to offer a payload at, after so many were taken.
pub fn payload_port(taken: u16) -> (r: Option<u16>)
    ensures
        r == (if taken < PAYLOAD_PORTS {
            Some((FIRST_PAYLOAD_PORT + taken) as u16)
        } else {
            None
        }),
        taken < 30 ==> r is Some && r->0 == 1739 + taken,
        taken >= 30 ==> r is None,
{
    if taken < PAYLOAD_PORTS {
        Some(FIRST_PAYLOAD_PORT + taken)
    } else {
        None
    }
}

/// The packet in a line that has come in. A line of spaces holds none.
pub fn packet_line(line: &str) -> (r: Option<String>)
    ensures
        r is Some <==> text::trimmed(line@).len() > 0,
        r is Some ==> r->0@ == text::trimmed(line@),
{
    let t = trim(line);
    if t.as_str().is_empty() {
        None
    } else {
        Some(t)
    }
}

/// The live connections after one has ended: its device is gone only if the
/// connection was still its own.
pub open spec fn after_end(live: Map<Seq<char>, u64>, id: Seq<char>, conn_id: u64) -> Map<
    Seq<char>,
    u64,
> {
    if live.contains_key(id) && live[id] == conn_id {
        live.remove(id)
    } else {
        live
    }
}

/// The connections that are live, by device.
#[derive(Debug)]
pub struct Connections {
    live: TextMap<u64>,
    next: u64,
}

impl View for Connections {
    type V = Map<Seq<char>, u64>;

    closed spec fn view(&self) -> Map<Seq<char>, u64> {
        self.live@
    }
}

impl Connections {
    /// No device has two connections.
    pub closed spec fn wf(&self) -> bool {
        self.live.wf()
    }

    /// The number of the next connection.
    pub closed spec fn upcoming(&self) -> u64 {
        self.next
    }

    /// Nobody is connected.
    pub fn new() -> (r: Connections)
        ensures
            r.wf(),
            r@ == Map::<Seq<char>, u64>::empty(),
            r.upcoming() == 0,
    {
        Connections { live: TextMap::new(), next: 0 }
    }

    /// A number for a connection that was just made.
    pub fn number(&mut self) -> (r: u64)
        requires
            old(self).wf(),
        ensures
            final(self).wf(),
            final(self)@ == old(self)@,
            r == old(self).upcoming(),
            final(self).upcoming() == (if r == u64::MAX {
                0
            } else {
                r + 1
            }),
    {
        let n = self.next;
        self.next = n.wrapping_add(1);
        n
    }

    /// Makes a connection the one of its device, in place of an earlier one.
    pub fn register(&mut self, id: &str, conn_id: u64)
        requires
            old(self).wf(),
        ensures
            final(self).wf(),
            final(self)@ == old(self)@.insert(id@, conn_id),
            final(self).upcoming() == old(self).upcoming(),
    {
        self.live.insert(id.to_owned(), conn_id);
    }

    /// The connection of the device.
    pub fn current(&self, id: &str) -> (r: Option<u64>)
        requires
            self.wf(),
        ensures
            r == (if self@.contains_key(id@) {
                Some(self@[id@])
            } else {
                None
            }),
    {
        match self.live.get(id) {
            Some(n) => Some(*n),
            None => None,
        }
    }

    /// Takes note that a connection has ended. The device is gone only if the
    /// connection was still its own.
    pub fn disconnected(&mut self, id: &str, conn_id: u64) -> (r: bool)
        requires
            old(self).wf(),
        ensures
            final(self).wf(),
            r == (old(self)@.contains_key(id@) && old(self)@[id@] == conn_id),
            final(self)@ == after_end(old(self)@, id@, conn_id),
            r ==> final(self)@ == old(self)@.remove(id@),
            !r ==> final(self)@ == old(self)@,
            final(self).upcoming() == old(self).upcoming(),
    {
        match self.current(id) {
            Some(n) => {
                if n == conn_id {
                    self.live.remove(id);
                    true
                } else {
                    false
                }
            },
            None => false,
        }
    }
}

/// The plugin that packets of a type are told to come with. The file system of
/// a phone can be switched off like a plugin, though its packets are never held
/// back.
pub open spec fn carrier(pt: PacketType) -> Option<Seq<char>> {
    if pt is Sftp || pt is SftpRequest {
        Some("sftp"@)
    } else {
        plugins::plugin_of(pt)
    }
}

/// The plugin that a capability belongs to, to send or to receive.
pub open spec fn capability_owner(cap: Seq<char>) -> Option<Seq<char>> {
    match packet::known_type(cap) {
        Some(pt) => carrier(pt),
        None => None,
    }
}

fn owner_of(cap: &str) -> (r: Option<&'static str>)
    ensures
        r is Some <==> capability_owner(cap@) is Some,
        r is Some ==> r->0@ == capability_owner(cap@)->0,
{
    match PacketType::from_name(cap) {
        PacketType::Sftp | PacketType::SftpRequest => Some("sftp"),
        pt => packet_plugin_id(&pt),
    }
}

/// Whether a capability stays when plugins are switched off.
pub open spec fn offered(cap: Seq<char>, disabled: Set<Seq<char>>) -> bool {
    capability_owner(cap) matches Some(plugin) ==> !disabled.contains(plugin)
}

/// The capabilities that stay, in order.
pub open spec fn filtered_caps(caps: Seq<Seq<char>>, disabled: Set<Seq<char>>) -> Seq<Seq<char>> {
    caps.filter(|c: Seq<char>| offered(c, disabled))
}

fn keep_caps(caps: &Vec<String>, disabled: &TextSet) -> (r: Vec<String>)
    ensures
        r.deep_view() == filtered_caps(caps.deep_view(), disabled@),
{
    let ghost all = caps.deep_view();
    let ghost keep = |c: Seq<char>| offered(c, disabled@);
    let mut r: Vec<String> = Vec::new();
    let mut i: usize = 0;
    proof {
        assert(all.take(0) =~= Seq::empty());
        assert(r.deep_view() =~= Seq::<Seq<char>>::empty());
    }
    while i < caps.len()
        invariant
            i <= caps@.len(),
            all == caps.deep_view(),
            keep == (|c: Seq<char>| offered(c, disabled@)),
            r.deep_view() == all.take(i as int).filter(keep),
        decreases caps@.len() - i,
    {
        let ghost before = r.deep_view();
        proof {
            assert(all.take(i + 1) =~= all.take(i as int).push(all[i as int]));
            assert(all[i as int] == caps@[i as int]@);
            all.take(i as int).lemma_filter_push(all[i as int], keep);
        }
        let stays = match owner_of(&caps[i]) {
            Some(plugin) => !disabled.contains(plugin),
            None => true,
        };
        if stays {
            r.push(caps[i].clone());
            proof {
                assert(r.deep_view() =~= before.push(all[i as int]));
            }
        }
        i = i + 1;
    }
    proof {
        assert(all.take(i as int) =~= all);
    }
    r
}

/// The identity to tell a device for which plugins are switched off: without
/// the capabilities of those plugins.
pub fn filtered_identity_for_device(base: &Identity, disabled: &TextSet) -> (r: Identity)
    ensures
        r.device_id == base.device_id,
        r.device_name == base.device_name,
        r.device_type == base.device_type,
        r.protocol_version == base.protocol_version,
        r.tcp_port == base.tcp_port,
        r.incoming_capabilities.deep_view() == filtered_caps(
            base.incoming_capabilities.deep_view(),
            disabled@,
        ),
        r.outgoing_capabilities.deep_view() == filtered_caps(
            base.outgoing_capabilities.deep_view(),
            disabled@,
        ),
        forall|pt: PacketType|
            !(pt is Unknown) && carrier(pt) is Some && disabled@.contains(carrier(pt)->0) ==> {
                &&& !r.incoming_capabilities.deep_view().contains(#[trigger] packet::wire_name(pt))
                &&& !r.outgoing_capabilities.deep_view().contains(packet::wire_name(pt))
            },
        forall|pt: PacketType|
            !(pt is Unknown) && (carrier(pt) is None || !disabled@.contains(carrier(pt)->0)) ==> {
                &&& base.incoming_capabilities.deep_view().contains(
                    #[trigger] packet::wire_name(pt),
                ) ==> r.incoming_capabilities.deep_view().contains(packet::wire_name(pt))
                &&& base.outgoing_capabilities.deep_view().contains(packet::wire_name(pt))
                    ==> r.outgoing_capabilities.deep_view().contains(packet::wire_name(pt))
            },
{
    proof {
        assert forall|pt: PacketType|
            !(pt is Unknown) && (carrier(pt) is None || !disabled@.contains(
                carrier(pt)->0,
            )) implies {
            &&& base.incoming_capabilities.deep_view().contains(#[trigger] packet::wire_name(pt))
                ==> filtered_caps(base.incoming_capabilities.deep_view(), disabled@).contains(
                packet::wire_name(pt),
            )
            &&& base.outgoing_capabilities.deep_view().contains(packet::wire_name(pt))
                ==> filtered_caps(base.outgoing_capabilities.deep_view(), disabled@).contains(
                packet::wire_name(pt),
            )
        } by {
            lemma_capabilities_follow_their_plugin(pt);
            let a = base.incoming_capabilities.deep_view();
            let b = base.outgoing_capabilities.deep_view();
            if a.contains(packet::wire_name(pt)) {
                let i = choose|i: int| 0 <= i < a.len() && a[i] == packet::wire_name(pt);
                lemma_other_capabilities_stay(a, disabled@, i);
            }
            if b.contains(packet::wire_name(pt)) {
                let i = choose|i: int| 0 <= i < b.len() && b[i] == packet::wire_name(pt);
                lemma_other_capabilities_stay(b, disabled@, i);
            }
        }
        assert forall|pt: PacketType|
            !(pt is Unknown) && carrier(pt) is Some && disabled@.contains(carrier(pt)->0) implies {
            &&& !filtered_caps(base.incoming_capabilities.deep_view(), disabled@).contains(
                #[trigger] packet::wire_name(pt),
            )
            &&& !filtered_caps(base.outgoing_capabilities.deep_view(), disabled@).contains(
                packet::wire_name(pt),
            )
        } by {
            lemma_disabled_capabilities_are_hidden(
                base.incoming_capabilities.deep_view(),
                disabled@,
                pt,
            );
            lemma_disabled_capabilities_are_hidden(
                base.outgoing_capabilities.deep_view(),
                disabled@,
                pt,
            );
        }
    }
    Identity {
        device_id: base.device_id.clone(),
        device_name: base.device_name.clone(),
        device_type: base.device_type.clone(),
        protocol_version: base.protocol_version,
        tcp_port: base.tcp_port,
        incoming_capabilities: keep_caps(&base.incoming_capabilities, disabled),
        outgoing_capabilities: keep_caps(&base.outgoing_capabilities, disabled),
    }
}

/// A capability belongs to the plugin that holds back its packets, so a plugin
/// that is switched off is neither told nor reached.
pub proof fn lemma_capabilities_follow_their_plugin(pt: PacketType)
    requires
        !(pt is Unknown),
    ensures
        capability_owner(packet::wire_name(pt)) == carrier(pt),
        plugins::plugin_of(pt) is Some ==> capability_owner(packet::wire_name(pt))
            == plugins::plugin_of(pt),
{
    packet::lemma_names_read_back(pt);
}

/// With every plugin on, every capability is told.
pub proof fn lemma_nothing_disabled_nothing_hidden(caps: Seq<Seq<char>>)
    ensures
        filtered_caps(caps, Set::empty()) == caps,
    decreases caps.len(),
{
    let p = |c: Seq<char>| offered(c, Set::empty());
    if caps.len() > 0 {
        let init = caps.drop_last();
        lemma_nothing_disabled_nothing_hidden(init);
        assert(init.push(caps.last()) =~= caps);
        init.lemma_filter_push(caps.last(), p);
    } else {
        reveal_with_fuel(Seq::filter, 1);
        assert(caps.filter(p) =~= caps);
    }
}

/// No capability of a plugin that is switched off is told, neither to send nor
/// to receive.
pub proof fn lemma_disabled_capabilities_are_hidden(
    caps: Seq<Seq<char>>,
    disabled: Set<Seq<char>>,
    pt: PacketType,
)
    requires
        !(pt is Unknown),
        carrier(pt) matches Some(plugin) && disabled.contains(plugin),
    ensures
        !filtered_caps(caps, disabled).contains(packet::wire_name(pt)),
{
    let p = |c: Seq<char>| offered(c, disabled);
    lemma_capabilities_follow_their_plugin(pt);
    if caps.filter(p).contains(packet::wire_name(pt)) {
        let i = choose|i: int|
            0 <= i < caps.filter(p).len() && caps.filter(p)[i] == packet::wire_name(pt);
        caps.lemma_filter_pred(p, i);
    }
}

/// Every other capability is told as before.
pub proof fn lemma_other_capabilities_stay(
    caps: Seq<Seq<char>>,
    disabled: Set<Seq<char>>,
    i: int,
)
    requires
        0 <= i < caps.len(),
        capability_owner(caps[i]) matches Some(plugin) ==> !disabled.contains(plugin),
    ensures
        filtered_caps(caps, disabled).contains(caps[i]),
{
    caps.lemma_filter_contains(|c: Seq<char>| offered(c, disabled), i);
}

/// How far receiving a payload has come.
#[derive(Debug, Clone, Copy, PartialEq, Eq, Structural)]
pub enum PayloadPhase {
    Connecting,
    Securing,
    Receiving,
    Finishing,
    Over,
}

/// What happened while a payload was received.
#[derive(Debug, PartialEq, Eq)]
pub enum PayloadEvent {
    /// The connection stands.
    Connected,
    /// The handshake is done, and the peer has shown these certificates.
    Secured(Option<Vec<Vec<u8>>>),
    /// So many bytes were written to the file.
    Chunk(u64),
    /// The peer has sent everything.
    End,
    /// Everything is written, and the connection is closed.
    Finished,
    /// Something failed.
    Failed(String),
    /// The deadline passed.
    TimedOut,
}

/// What to do next to receive a payload. Waiting has a deadline in seconds.
#[derive(Debug, PartialEq, Eq)]
pub enum PayloadAction {
    Connect { deadline: u64 },
    Secure { deadline: u64 },
    Read { deadline: u64 },
    Finish,
    /// The payload is complete.
    Done { bytes: u64 },
    /// Receiving failed at a stage.
    Fail { stage: ReceiveStage, cause: PayloadFailure },
    /// What happened does not belong here.
    Ignore,
}

/// Why receiving a payload failed.
#[derive(Debug, PartialEq, Eq)]
pub enum PayloadFailure {
    Reason(String),
    TimedOut,
    Peer(DeviceError),
    Truncated { expected: u64, received: u64 },
    Excess { expected: u64, received: u64 },
}

/// A payload that is being received.
#[derive(Debug, PartialEq, Eq)]
pub struct PayloadReceiver {
    pub phase: PayloadPhase,
    pub expected: Option<u64>,
    pub received: u64,
}

/// What is wrong with the size of a payload, where a size was announced.
pub open spec fn size_failure(expected: Option<u64>, received: u64) -> Option<PayloadFailure> {
    match expected {
        Some(n) => if received < n {
            Some(PayloadFailure::Truncated { expected: n, received })
        } else if received > n {
            Some(PayloadFailure::Excess { expected: n, received })
        } else {
            None
        },
        None => None,
    }
}

/// The stage that a phase belongs to.
pub open spec fn stage_of(phase: PayloadPhase) -> ReceiveStage {
    match phase {
        PayloadPhase::Connecting => ReceiveStage::Connect,
        PayloadPhase::Securing => ReceiveStage::TlsHandshake,
        PayloadPhase::Receiving => ReceiveStage::Receive,
        _ => ReceiveStage::Finalize,
    }
}

/// What the peer of a payload connection is refused with.
pub open spec fn peer_failure(d: DeviceModel, certificates: Option<&Vec<Vec<u8>>>) -> Option<
    DeviceError,
> {
    if device::trusted(d) && shown(certificates) == d.pin {
        None
    } else {
        Some(
            if d.pair_state != PairState::Paired {
                DeviceError::NotPaired
            } else if !device::trusted(d) {
                DeviceError::NoPinnedCertificate
            } else if shown(certificates) is None {
                DeviceError::NoPayloadCertificate
            } else {
                DeviceError::PayloadCertificateMismatch
            },
        )
    }
}

/// What follows an event while a payload is received: the next state and the
/// next action.
pub open spec fn payload_step(p: PayloadReceiver, d: DeviceModel, event: PayloadEvent) -> (
    PayloadReceiver,
    PayloadAction,
) {
    let over = PayloadReceiver { phase: PayloadPhase::Over, ..p };
    if p.phase == PayloadPhase::Over {
        (p, PayloadAction::Ignore)
    } else {
        match event {
            PayloadEvent::Failed(reason) => (
                over,
                PayloadAction::Fail {
                    stage: stage_of(p.phase),
                    cause: PayloadFailure::Reason(reason),
                },
            ),
            PayloadEvent::TimedOut => (
                over,
                PayloadAction::Fail { stage: stage_of(p.phase), cause: PayloadFailure::TimedOut },
            ),
            PayloadEvent::Connected => if p.phase == PayloadPhase::Connecting {
                (
                    PayloadReceiver { phase: PayloadPhase::Securing, ..p },
                    PayloadAction::Secure { deadline: PAYLOAD_TLS_TIMEOUT },
                )
            } else {
                (p, PayloadAction::Ignore)
            },
            PayloadEvent::Secured(certificates) => if p.phase == PayloadPhase::Securing {
                match peer_failure(
                    d,
                    if certificates is Some {
                        Some(&certificates->0)
                    } else {
                        None
                    },
                ) {
                    None => (
                        PayloadReceiver { phase: PayloadPhase::Receiving, ..p },
                        PayloadAction::Read { deadline: PAYLOAD_READ_TIMEOUT },
                    ),
                    Some(e) => (
                        over,
                        PayloadAction::Fail {
                            stage: ReceiveStage::VerifyPeer,
                            cause: PayloadFailure::Peer(e),
                        },
                    ),
                }
            } else {
                (p, PayloadAction::Ignore)
            },
            PayloadEvent::Chunk(n) => if p.phase == PayloadPhase::Receiving {
                (
                    PayloadReceiver { received: (p.received + n) as u64, ..p },
                    PayloadAction::Read { deadline: PAYLOAD_READ_TIMEOUT },
                )
            } else {
                (p, PayloadAction::Ignore)
            },
            PayloadEvent::End => if p.phase == PayloadPhase::Receiving {
                match size_failure(p.expected, p.received) {
                    None => (
                        PayloadReceiver { phase: PayloadPhase::Finishing, ..p },
                        PayloadAction::Finish,
                    ),
                    Some(f) => (
                        over,
                        PayloadAction::Fail { stage: ReceiveStage::SizeValidation, cause: f },
                    ),
                }
            } else {
                (p, PayloadAction::Ignore)
            },
            PayloadEvent::Finished => if p.phase == PayloadPhase::Finishing {
                (over, PayloadAction::Done { bytes: p.received })
            } else {
                (p, PayloadAction::Ignore)
            },
        }
    }
}

impl PayloadReceiver {
    /// Begins to receive a payload of the announced size.
    pub fn new(expected: Option<u64>) -> (r: (PayloadReceiver, PayloadAction))
        ensures
            r.0 == (PayloadReceiver { phase: PayloadPhase::Connecting, expected, received: 0 }),
            r.1 == (PayloadAction::Connect { deadline: PAYLOAD_CONNECT_TIMEOUT }),
            r.1 == (PayloadAction::Connect { deadline: 10 }),
    {
        (
            PayloadReceiver { phase: PayloadPhase::Connecting, expected, received: 0 },
            PayloadAction::Connect { deadline: PAYLOAD_CONNECT_TIMEOUT },
        )
    }

    fn stage(&self) -> (r: ReceiveStage)
        ensures
            r == stage_of(self.phase),
    {
        match self.phase {
            PayloadPhase::Connecting => ReceiveStage::Connect,
            PayloadPhase::Securing => ReceiveStage::TlsHandshake,
            PayloadPhase::Receiving => ReceiveStage::Receive,
            _ => ReceiveStage::Finalize,
        }
    }

    /// Goes on after an event. The peer is verified before anything is read,
    /// and the size before anything is published.
    pub fn receive_payload(&mut self, device: &Device, event: PayloadEvent) -> (r: PayloadAction)
        requires
            event matches PayloadEvent::Chunk(n) ==> old(self).received + n <= u64::MAX,
        ensures
            *final(self) == payload_step(*old(self), device@, event).0,
            r == payload_step(*old(self), device@, event).1,
            final(self).expected == old(self).expected,
            old(self).phase == PayloadPhase::Over ==> *final(self) == *old(self) && r is Ignore,
            old(self).phase == PayloadPhase::Connecting && event is Connected ==> final(self).phase
                == PayloadPhase::Securing && r == (PayloadAction::Secure { deadline: 15 }),
            old(self).phase == PayloadPhase::Securing ==> (event matches PayloadEvent::Secured(c)
                ==> (final(self).phase == PayloadPhase::Receiving <==> device@.pair_state
                == PairState::Paired && device@.pin is Some && device@.pin->0.len() > 0 && c is Some
                && c->0@.len() > 0 && c->0@[0]@ == device@.pin->0) && (final(self).phase
                == PayloadPhase::Receiving ==> r == (PayloadAction::Read { deadline: 30 })) && (
            final(self).phase != PayloadPhase::Receiving ==> final(self).phase
                == PayloadPhase::Over && r is Fail && r->stage == ReceiveStage::VerifyPeer)),
            old(self).phase == PayloadPhase::Receiving ==> (event matches PayloadEvent::Chunk(n)
                ==> final(self).phase == PayloadPhase::Receiving && final(self).received == old(
                self,
            ).received + n && r == (PayloadAction::Read { deadline: 30 })),
            !(event is Chunk) ==> final(self).received == old(self).received,
            old(self).phase == PayloadPhase::Receiving && event is End && (old(self).expected is None
                || old(self).expected->0 == old(self).received) ==> final(self).phase
                == PayloadPhase::Finishing && r is Finish,
            old(self).phase == PayloadPhase::Receiving && event is End && old(self).expected is Some
                && old(self).received < old(self).expected->0 ==> final(self).phase
                == PayloadPhase::Over && r == (PayloadAction::Fail {
                stage: ReceiveStage::SizeValidation,
                cause: PayloadFailure::Truncated {
                    expected: old(self).expected->0,
                    received: old(self).received,
                },
            }),
            old(self).phase == PayloadPhase::Receiving && event is End && old(self).expected is Some
                && old(self).received > old(self).expected->0 ==> final(self).phase
                == PayloadPhase::Over && r == (PayloadAction::Fail {
                stage: ReceiveStage::SizeValidation,
                cause: PayloadFailure::Excess {
                    expected: old(self).expected->0,
                    received: old(self).received,
                },
            }),
            old(self).phase == PayloadPhase::Finishing && event is Finished ==> final(self).phase
                == PayloadPhase::Over && r == (PayloadAction::Done { bytes: old(self).received }),
            old(self).phase != PayloadPhase::Over ==> (event matches PayloadEvent::Failed(why)
                ==> final(self).phase == PayloadPhase::Over && r is Fail && r->cause
                == PayloadFailure::Reason(why)),
            old(self).phase != PayloadPhase::Over && event is TimedOut ==> final(self).phase
                == PayloadPhase::Over && r is Fail && r->cause is TimedOut,
            event is Failed || event is TimedOut ==> (old(self).phase == PayloadPhase::Connecting
                ==> r->stage == ReceiveStage::Connect) && (old(self).phase
                == PayloadPhase::Securing ==> r->stage == ReceiveStage::TlsHandshake) && (old(
                self,
            ).phase == PayloadPhase::Receiving ==> r->stage == ReceiveStage::Receive) && (old(
                self,
            ).phase == PayloadPhase::Finishing ==> r->stage == ReceiveStage::Finalize),
            r is Ignore ==> *final(self) == *old(self),
            event is Connected && old(self).phase != PayloadPhase::Connecting ==> r is Ignore,
            event is Secured && old(self).phase != PayloadPhase::Securing ==> r is Ignore,
            (event is Chunk || event is End) && old(self).phase != PayloadPhase::Receiving ==> r
                is Ignore,
            event is Finished && old(self).phase != PayloadPhase::Finishing ==> r is Ignore,
    {
        if self.phase == PayloadPhase::Over {
            return PayloadAction::Ignore;
        }
        match event {
            PayloadEvent::Failed(reason) => {
                let stage = self.stage();
                self.phase = PayloadPhase::Over;
                PayloadAction::Fail { stage, cause: PayloadFailure::Reason(reason) }
            },
            PayloadEvent::TimedOut => {
                let stage = self.stage();
                self.phase = PayloadPhase::Over;
                PayloadAction::Fail { stage, cause: PayloadFailure::TimedOut }
            },
            PayloadEvent::Connected => {
                if self.phase != PayloadPhase::Connecting {
                    return PayloadAction::Ignore;
                }
                self.phase = PayloadPhase::Securing;
                PayloadAction::Secure { deadline: PAYLOAD_TLS_TIMEOUT }
            },
            PayloadEvent::Secured(certificates) => {
                if self.phase != PayloadPhase::Securing {
                    return PayloadAction::Ignore;
                }
                let verdict = match &certificates {
                    Some(list) => verify_payload_peer(device, Some(list)),
                    None => verify_payload_peer(device, None),
                };
                match verdict {
                    Ok(_) => {
                        self.phase = PayloadPhase::Receiving;
                        PayloadAction::Read { deadline: PAYLOAD_READ_TIMEOUT }
                    },
                    Err(e) => {
                        self.phase = PayloadPhase::Over;
                        PayloadAction::Fail {
                            stage: ReceiveStage::VerifyPeer,
                            cause: PayloadFailure::Peer(e),
                        }
                    },
                }
            },
            PayloadEvent::Chunk(n) => {
                if self.phase != PayloadPhase::Receiving {
                    return PayloadAction::Ignore;
                }
                self.received = self.received + n;
                PayloadAction::Read { deadline: PAYLOAD_READ_TIMEOUT }
            },
            PayloadEvent::End => {
                if self.phase != PayloadPhase::Receiving {
                    return PayloadAction::Ignore;
                }
                match check_size(self.expected, self.received) {
                    None => {
                        self.phase = PayloadPhase::Finishing;
                        PayloadAction::Finish
                    },
                    Some(cause) => {
                        self.phase = PayloadPhase::Over;
                        PayloadAction::Fail { stage: ReceiveStage::SizeValidation, cause }
                    },
                }
            },
            PayloadEvent::Finished => {
                if self.phase != PayloadPhase::Finishing {
                    return PayloadAction::Ignore;
                }
                self.phase = PayloadPhase::Over;
                PayloadAction::Done { bytes: self.received }
            },
        }
    }
}

/// What is wrong with the size of a payload.
pub fn check_size(expected: Option<u64>, received: u64) -> (r: Option<PayloadFailure>)
    ensures
        r == size_failure(expected, received),
        r is None <==> expected is None || expected->0 == received,
        expected is Some && received < expected->0 ==> r == Some(
            PayloadFailure::Truncated { expected: expected->0, received },
        ),
        expected is Some && received > expected->0 ==> r == Some(
            PayloadFailure::Excess { expected: expected->0, received },
        ),
{
    match expected {
        Some(n) => {
            if received < n {
                Some(PayloadFailure::Truncated { expected: n, received })
            } else if received > n {
                Some(PayloadFailure::Excess { expected: n, received })
            } else {
                None
            }
        },
        None => None,
    }
}

/// The states that can come up: what is being finished has its announced size.
pub open spec fn sound(p: PayloadReceiver) -> bool {
    p.phase == PayloadPhase::Finishing ==> size_failure(p.expected, p.received) is None
}

/// A payload is complete only with exactly the size that was announced.
pub proof fn lemma_complete_payloads_have_their_size(
    p: PayloadReceiver,
    d: DeviceModel,
    event: PayloadEvent,
)
    requires
        sound(p),
    ensures
        sound(payload_step(p, d, event).0),
        payload_step(p, d, event).0.expected == p.expected,
        payload_step(p, d, event).1 matches PayloadAction::Done { bytes } ==> (p.expected is Some
            ==> bytes == p.expected->0),
{
}

/// Nothing is read from a peer that has not shown the pinned certificate.
pub proof fn lemma_payloads_come_from_the_pinned_peer(
    p: PayloadReceiver,
    d: DeviceModel,
    event: PayloadEvent,
)
    requires
        p.phase != PayloadPhase::Receiving,
        payload_step(p, d, event).0.phase == PayloadPhase::Receiving,
    ensures
        device::trusted(d),
        event matches PayloadEvent::Secured(certificates) && certificates is Some
            && certificates->0@.len() > 0 && d.pin == Some(certificates->0@[0]@),
{
}

/// What has ended stays ended: a payload succeeds or fails once.
pub proof fn lemma_payloads_end_once(p: PayloadReceiver, d: DeviceModel, event: PayloadEvent)
    ensures
        p.phase == PayloadPhase::Over ==> payload_step(p, d, event) == (p, PayloadAction::Ignore),
        payload_step(p, d, event).1 is Done || payload_step(p, d, event).1 is Fail ==> payload_step(
            p,
            d,
            event,
        ).0.phase == PayloadPhase::Over,
{
}

/// The end of a connection that was replaced leaves the newer one in place, and
/// no end touches another device.
pub proof fn lemma_stale_disconnects_change_nothing(
    live: Map<Seq<char>, u64>,
    id: Seq<char>,
    newer: u64,
    older: u64,
    other: Seq<char>,
)
    requires
        newer != older,
        other != id,
    ensures
        after_end(live.insert(id, newer), id, older) == live.insert(id, newer),
        after_end(live, id, older).contains_key(other) == live.contains_key(other),
        live.contains_key(other) ==> after_end(live, id, older)[other] == live[other],
{
}

/// The file system of a phone goes by a plugin of its own; every other packet
/// goes by the plugin it belongs to.
pub proof fn lemma_carriers(pt: PacketType)
    ensures
        pt is Sftp || pt is SftpRequest ==> carrier(pt) == Some("sftp"@),
        !(pt is Sftp) && !(pt is SftpRequest) ==> carrier(pt) == plugins::plugin_of(pt),
{
}

/// A payload that fails or is late names the stage that it was in.
pub proof fn lemma_failures_name_their_stage(
    p: PayloadReceiver,
    d: DeviceModel,
    event: PayloadEvent,
)
    requires
        p.phase != PayloadPhase::Over,
        event is Failed || event is TimedOut,
    ensures
        payload_step(p, d, event).1 is Fail,
        p.phase == PayloadPhase::Connecting ==> payload_step(p, d, event).1->stage
            == ReceiveStage::Connect,
        p.phase == PayloadPhase::Securing ==> payload_step(p, d, event).1->stage
            == ReceiveStage::TlsHandshake,
        p.phase == PayloadPhase::Receiving ==> payload_step(p, d, event).1->stage
            == ReceiveStage::Receive,
        p.phase == PayloadPhase::Finishing ==> payload_step(p, d, event).1->stage
            == ReceiveStage::Finalize,
{
}

/// A peer that does not pass is told why: the device is not paired, it has no
/// certificate on record, the peer showed none, or it showed another.
pub proof fn lemma_peers_are_verified(d: DeviceModel, certificate: Vec<u8>, list: Vec<Vec<u8>>)
    requires
        list@.len() > 0,
        list@[0] == certificate,
    ensures
        d.pair_state != PairState::Paired ==> peer_failure(d, Some(&list)) == Some(
            DeviceError::NotPaired,
        ),
        d.pair_state == PairState::Paired && (d.pin is None || d.pin->0.len() == 0) ==> peer_failure(
            d,
            Some(&list),
        ) == Some(DeviceError::NoPinnedCertificate),
        d.pair_state == PairState::Paired && d.pin is Some && d.pin->0.len() > 0 ==> peer_failure(
            d,
            None,
        ) == Some(DeviceError::NoPayloadCertificate),
        d.pair_state == PairState::Paired && d.pin is Some && d.pin->0.len() > 0 && d.pin->0
            != certificate@ ==> peer_failure(d, Some(&list)) == Some(
            DeviceError::PayloadCertificateMismatch,
        ),
        d.pair_state == PairState::Paired && d.pin == Some(certificate@) && certificate@.len() > 0
            ==> peer_failure(d, Some(&list)) is None,
{
}

} // verus!
