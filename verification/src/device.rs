//! Devices, their pairing state and the certificates that prove who they are.

use vstd::prelude::*;

use crate::bytes::{copy_bytes, copy_optional, same_bytes};
use crate::table::Duplicate;
use crate::text;
use crate::text::{chars_of, same};

verus! {

/// The port on which devices listen.
pub const DEFAULT_LISTEN_PORT: u16 = 1716;

/// The longest device identifier.
pub const MAX_DEVICE_ID: usize = 128;

/// Where a device can be reached.
#[derive(Debug, PartialEq, Eq)]
pub struct Address {
    pub host: String,
    pub port: u16,
}

/// An address as a value.
pub struct AddressModel {
    pub host: Seq<char>,
    pub port: u16,
}

impl View for Address {
    type V = AddressModel;

    open spec fn view(&self) -> AddressModel {
        AddressModel { host: self.host@, port: self.port }
    }
}

impl Address {
    /// The same host at another port.
    pub fn with_port(&self, port: u16) -> (r: Address)
        ensures
            r@ == (AddressModel { port, ..self@ }),
    {
        Address { host: self.host.clone(), port }
    }

    fn copy(&self) -> (r: Address)
        ensures
            r@ == self@,
    {
        Address { host: self.host.clone(), port: self.port }
    }
}

/// What can be wrong with a device or a pairing.
#[derive(Debug, Clone, Copy, PartialEq, Eq, Structural)]
pub enum DeviceError {
    InvalidId,
    StoredIdMismatch,
    NoPeerCertificate,
    CertificateChanged,
    NotPaired,
    NoPinnedCertificate,
    NoPendingRequest,
    NoConnectionCertificate,
    NoLiveConnection,
    NoLiveDevice,
    StoreFailed,
    NoPayloadCertificate,
    PayloadCertificateMismatch,
}

impl DeviceError {
    /// The wording of the error.
    pub open spec fn wording(self) -> Seq<char> {
        match self {
            DeviceError::InvalidId => "invalid device ID"@,
            DeviceError::StoredIdMismatch => "stored device ID mismatch"@,
            DeviceError::NoPeerCertificate => "peer supplied no certificate"@,
            DeviceError::CertificateChanged => "paired peer certificate changed; unpair locally before pairing again"@,
            DeviceError::NotPaired => "device is not paired"@,
            DeviceError::NoPinnedCertificate => "device has no pinned certificate"@,
            DeviceError::NoPendingRequest => "no pending pairing request"@,
            DeviceError::NoConnectionCertificate => "no authenticated connection certificate"@,
            DeviceError::NoLiveConnection => "cannot pair a device without a live connection"@,
            DeviceError::NoLiveDevice => "pair request without a live device"@,
            DeviceError::StoreFailed => "pairing state could not be stored"@,
            DeviceError::NoPayloadCertificate => "payload peer supplied no certificate"@,
            DeviceError::PayloadCertificateMismatch => "payload peer certificate mismatch"@,
        }
    }

    /// The message shown for the error.
    pub fn message(&self) -> (r: String)
        ensures
            r@ == self.wording(),
            *self is InvalidId ==> r@ == "invalid device ID"@,
            *self is StoredIdMismatch ==> r@ == "stored device ID mismatch"@,
            *self is NoPeerCertificate ==> r@ == "peer supplied no certificate"@,
            *self is CertificateChanged ==> r@ == "paired peer certificate changed; unpair locally before pairing again"@,
            *self is NotPaired ==> r@ == "device is not paired"@,
            *self is NoPinnedCertificate ==> r@ == "device has no pinned certificate"@,
            *self is NoPendingRequest ==> r@ == "no pending pairing request"@,
            *self is NoConnectionCertificate ==> r@ == "no authenticated connection certificate"@,
            *self is NoLiveConnection ==> r@ == "cannot pair a device without a live connection"@,
            *self is NoLiveDevice ==> r@ == "pair request without a live device"@,
            *self is StoreFailed ==> r@ == "pairing state could not be stored"@,
            *self is NoPayloadCertificate ==> r@ == "payload peer supplied no certificate"@,
            *self is PayloadCertificateMismatch ==> r@ == "payload peer certificate mismatch"@,
    {
        match self {
            DeviceError::InvalidId => "invalid device ID".to_owned(),
            DeviceError::StoredIdMismatch => "stored device ID mismatch".to_owned(),
            DeviceError::NoPeerCertificate => "peer supplied no certificate".to_owned(),
            DeviceError::CertificateChanged => "paired peer certificate changed; unpair locally before pairing again".to_owned(),
            DeviceError::NotPaired => "device is not paired".to_owned(),
            DeviceError::NoPinnedCertificate => "device has no pinned certificate".to_owned(),
            DeviceError::NoPendingRequest => "no pending pairing request".to_owned(),
            DeviceError::NoConnectionCertificate => "no authenticated connection certificate".to_owned(),
            DeviceError::NoLiveConnection => "cannot pair a device without a live connection".to_owned(),
            DeviceError::NoLiveDevice => "pair request without a live device".to_owned(),
            DeviceError::StoreFailed => "pairing state could not be stored".to_owned(),
            DeviceError::NoPayloadCertificate => "payload peer supplied no certificate".to_owned(),
            DeviceError::PayloadCertificateMismatch => "payload peer certificate mismatch".to_owned(),
        }
    }
}

/// The identifier that a device announces.
#[derive(Debug, PartialEq, Eq)]
pub struct DeviceId(pub String);

impl View for DeviceId {
    type V = Seq<char>;

    open spec fn view(&self) -> Seq<char> {
        self.0@
    }
}

/// The characters that a device identifier may hold.
pub open spec fn id_char(c: char) -> bool {
    text::ascii_alphanumeric(c) || c == '-' || c == '_'
}

/// An identifier that can stand in a file name: not empty, not too long, and
/// made of letters, digits, `-` and `_`.
pub open spec fn valid_id(id: Seq<char>) -> bool {
    &&& 0 < id.len() <= MAX_DEVICE_ID
    &&& forall|i: int| 0 <= i < id.len() ==> id_char(#[trigger] id[i])
}

/// Whether the character may stand in a device identifier.
pub fn is_id_char(c: char) -> (r: bool)
    ensures
        r == id_char(c),
        r <==> ('a' <= c <= 'z') || ('A' <= c <= 'Z') || ('0' <= c <= '9') || c == '-' || c == '_',
{
    ('a' <= c && c <= 'z') || ('A' <= c && c <= 'Z') || ('0' <= c && c <= '9') || c == '-' || c
        == '_'
}

/// A valid identifier never reaches outside a directory: it holds no
/// separator and is no relative path.
pub proof fn lemma_valid_id_is_a_basename(id: Seq<char>)
    requires
        valid_id(id),
    ensures
        !id.contains('/'),
        !id.contains('\\'),
        !id.contains('\0'),
        !id.contains('.'),
        id.len() > 0,
{
}

impl DeviceId {
    /// Accepts exactly the identifiers that can stand in a file name.
    pub fn validate(&self) -> (r: Result<(), DeviceError>)
        ensures
            r is Ok <==> valid_id(self@),
            r is Ok <==> 0 < self@.len() <= 128 && forall|i: int|
                #![trigger self@[i]]
                0 <= i < self@.len() ==> ('a' <= self@[i] <= 'z') || ('A' <= self@[i] <= 'Z') || (
                '0' <= self@[i] <= '9') || self@[i] == '-' || self@[i] == '_',
            r is Err ==> r->Err_0 == DeviceError::InvalidId,
    {
        let v = chars_of(&self.0);
        if v.len() == 0 || v.len() > MAX_DEVICE_ID {
            return Err(DeviceError::InvalidId);
        }
        let mut i: usize = 0;
        while i < v.len()
            invariant
                i <= v@.len(),
                v@ == self@,
                forall|j: int| 0 <= j < i ==> id_char(#[trigger] v@[j]),
            decreases v@.len() - i,
        {
            if !is_id_char(v[i]) {
                proof {
                    assert(!id_char(self@[i as int]));
                }
                return Err(DeviceError::InvalidId);
            }
            i = i + 1;
        }
        Ok(())
    }
}

impl Duplicate for DeviceId {
    fn duplicate(&self) -> (r: Self) {
        DeviceId(self.0.clone())
    }
}

/// A reading that a device reports of itself.
#[derive(Debug, PartialEq, Eq)]
pub enum DeviceState {
    Battery { level: u8, charging: bool },
    Connectivity((String, i32)),
}

/// How far pairing with a device has come.
#[derive(Debug, Clone, Copy, PartialEq, Eq, Structural)]
pub enum PairState {
    NotPaired,
    Requesting,
    Requested,
    Paired,
}

impl Default for PairState {
    fn default() -> (r: Self)
        ensures
            r == PairState::NotPaired,
    {
        PairState::NotPaired
    }
}

/// A device that has connected or is remembered.
#[derive(Debug, PartialEq, Eq)]
pub struct Device {
    pub name: String,
    pub device_id: DeviceId,
    pub address: Address,
    pub pair_state: PairState,
    pub paired_certificate: Option<Vec<u8>>,
    pub connection_certificate: Option<Vec<u8>>,
}

/// A device as a value.
pub struct DeviceModel {
    pub name: Seq<char>,
    pub device_id: Seq<char>,
    pub address: AddressModel,
    pub pair_state: PairState,
    pub pin: Option<Seq<u8>>,
    pub connection: Option<Seq<u8>>,
}

impl View for Device {
    type V = DeviceModel;

    open spec fn view(&self) -> DeviceModel {
        DeviceModel {
            name: self.name@,
            device_id: self.device_id@,
            address: self.address@,
            pair_state: self.pair_state,
            pin: self.paired_certificate.deep_view(),
            connection: self.connection_certificate.deep_view(),
        }
    }
}

impl Duplicate for Device {
    fn duplicate(&self) -> (r: Self) {
        Device {
            name: self.name.clone(),
            device_id: self.device_id.duplicate(),
            address: self.address.copy(),
            pair_state: self.pair_state,
            paired_certificate: copy_optional(&self.paired_certificate),
            connection_certificate: copy_optional(&self.connection_certificate),
        }
    }
}

/// A certificate that can be trusted: present and not empty.
pub open spec fn usable(cert: Option<Seq<u8>>) -> bool {
    cert is Some && cert->0.len() > 0
}

/// A device that is trusted: paired, with a pinned certificate.
pub open spec fn trusted(d: DeviceModel) -> bool {
    d.pair_state == PairState::Paired && usable(d.pin)
}

/// The record that is written for a device in the given pairing state. The
/// certificate of the connection is never written, and the pinned one only for
/// a paired device.
pub open spec fn record_of(d: DeviceModel, state: PairState) -> DeviceModel {
    DeviceModel {
        pair_state: state,
        pin: if state == PairState::Paired {
            d.pin
        } else {
            None
        },
        connection: None,
        ..d
    }
}

/// A device as it comes back from its record, under the name and address of
/// the connection that announced it. A record that is not fully trusted comes
/// back unpaired.
pub open spec fn restored(
    id: Seq<char>,
    name: Seq<char>,
    address: AddressModel,
    stored: Option<DeviceModel>,
) -> DeviceModel {
    let keep = stored is Some && trusted(stored->0);
    DeviceModel {
        name,
        device_id: id,
        address,
        pair_state: if keep {
            PairState::Paired
        } else {
            PairState::NotPaired
        },
        pin: if keep {
            stored->0.pin
        } else {
            None
        },
        connection: None,
    }
}

impl Default for Device {
    fn default() -> (r: Self)
        ensures
            r@ == (DeviceModel {
                name: Seq::empty(),
                device_id: Seq::empty(),
                address: AddressModel { host: "127.0.0.1"@, port: DEFAULT_LISTEN_PORT },
                pair_state: PairState::NotPaired,
                pin: None,
                connection: None,
            }),
            r.address.port == 1716,
    {
        Device {
            name: String::new(),
            device_id: DeviceId(String::new()),
            address: Address { host: "127.0.0.1".to_owned(), port: DEFAULT_LISTEN_PORT },
            pair_state: PairState::NotPaired,
            paired_certificate: None,
            connection_certificate: None,
        }
    }
}

fn is_usable(cert: &Option<Vec<u8>>) -> (r: bool)
    ensures
        r == usable(cert.deep_view()),
{
    match cert {
        Some(c) => c.len() > 0,
        None => false,
    }
}

impl Device {
    /// The device behind a connection. `stored` is its record, where there is
    /// one that can be read. A record of another device is refused, and pairing
    /// survives only with its pinned certificate.
    pub fn new(id: String, name: String, address: Address, stored: Option<Device>) -> (r: Result<
        Device,
        DeviceError,
    >)
        ensures
            r is Ok <==> valid_id(id@) && (stored is Some ==> stored->0@.device_id == id@),
            r is Ok ==> r->Ok_0@ == restored(
                id@,
                name@,
                address@,
                if stored is Some {
                    Some(stored->0@)
                } else {
                    None
                },
            ),
            r is Ok ==> r->Ok_0@.name == name@ && r->Ok_0@.device_id == id@ && r->Ok_0@.address
                == address@ && r->Ok_0@.connection is None,
            r is Ok && stored is Some && stored->0@.pair_state == PairState::Paired
                && stored->0@.pin is Some && stored->0@.pin->0.len() > 0 ==> r->Ok_0@.pair_state
                == PairState::Paired && r->Ok_0@.pin == stored->0@.pin,
            r is Ok && (stored is None || stored->0@.pair_state != PairState::Paired
                || stored->0@.pin is None || stored->0@.pin->0.len() == 0) ==> r->Ok_0@.pair_state
                == PairState::NotPaired && r->Ok_0@.pin is None,
            r is Err ==> r->Err_0 == (if !valid_id(id@) {
                DeviceError::InvalidId
            } else {
                DeviceError::StoredIdMismatch
            }),
    {
        let device_id = DeviceId(id);
        match device_id.validate() {
            Ok(_) => {},
            Err(e) => {
                return Err(e);
            },
        }
        match stored {
            Some(old) => {
                if !same(&old.device_id.0, &device_id.0) {
                    return Err(DeviceError::StoredIdMismatch);
                }
                let keep = old.pair_state == PairState::Paired && is_usable(&old.paired_certificate);
                Ok(
                    Device {
                        name,
                        device_id,
                        address,
                        pair_state: if keep {
                            PairState::Paired
                        } else {
                            PairState::NotPaired
                        },
                        paired_certificate: if keep {
                            old.paired_certificate
                        } else {
                            None
                        },
                        connection_certificate: None,
                    },
                )
            },
            None => Ok(
                Device {
                    name,
                    device_id,
                    address,
                    pair_state: PairState::NotPaired,
                    paired_certificate: None,
                    connection_certificate: None,
                },
            ),
        }
    }

    /// Takes note of the certificate that the peer of a connection has shown. A
    /// paired device accepts its pinned certificate only.
    pub fn bind_certificate(&mut self, certificate: Vec<u8>) -> (r: Result<(), DeviceError>)
        ensures
            r is Ok <==> certificate@.len() > 0 && (old(self)@.pair_state == PairState::Paired
                ==> old(self)@.pin == Some(certificate@)),
            r is Ok ==> final(self)@ == (DeviceModel {
                connection: Some(certificate@),
                ..old(self)@
            }),
            r is Err ==> final(self)@ == old(self)@,
            r is Err ==> r->Err_0 == (if certificate@.len() == 0 {
                DeviceError::NoPeerCertificate
            } else {
                DeviceError::CertificateChanged
            }),
    {
        proof {
            assert(certificate.deep_view() =~= certificate@);
        }
        if certificate.len() == 0 {
            return Err(DeviceError::NoPeerCertificate);
        }
        if self.pair_state == PairState::Paired {
            let same_pin = match &self.paired_certificate {
                Some(pin) => {
                    proof {
                        assert(pin.deep_view() =~= pin@);
                    }
                    same_bytes(pin, &certificate)
                },
                None => false,
            };
            if !same_pin {
                return Err(DeviceError::CertificateChanged);
            }
        }
        self.connection_certificate = Some(certificate);
        Ok(())
    }

    /// The certificate that the peer of a payload connection has to show. Only
    /// a trusted device has one.
    pub fn payload_certificate(&self) -> (r: Result<Vec<u8>, DeviceError>)
        ensures
            r is Ok <==> trusted(self@),
            r is Ok <==> self@.pair_state == PairState::Paired && self@.pin is Some
                && self@.pin->0.len() > 0,
            r is Ok ==> self@.pin == Some(r->Ok_0@),
            r is Err ==> r->Err_0 == (if self@.pair_state != PairState::Paired {
                DeviceError::NotPaired
            } else {
                DeviceError::NoPinnedCertificate
            }),
    {
        if self.pair_state != PairState::Paired {
            return Err(DeviceError::NotPaired);
        }
        match &self.paired_certificate {
            Some(pin) => {
                proof {
                    assert(pin.deep_view() =~= pin@);
                }
                if pin.len() > 0 {
                    Ok(copy_bytes(pin))
                } else {
                    Err(DeviceError::NoPinnedCertificate)
                }
            },
            None => Err(DeviceError::NoPinnedCertificate),
        }
    }

    /// The record to write for the device in the given pairing state.
    pub fn store_device_identity(&self, pair_state: PairState) -> (r: Result<Device, DeviceError>)
        ensures
            r is Ok <==> valid_id(self@.device_id),
            r is Ok ==> r->Ok_0@ == record_of(self@, pair_state),
            r is Ok ==> r->Ok_0@.pair_state == pair_state && r->Ok_0@.name == self@.name
                && r->Ok_0@.device_id == self@.device_id && r->Ok_0@.address == self@.address
                && r->Ok_0@.connection is None,
            r is Ok && pair_state == PairState::Paired ==> r->Ok_0@.pin == self@.pin,
            r is Ok && pair_state != PairState::Paired ==> r->Ok_0@.pin is None,
            r is Err ==> r->Err_0 == DeviceError::InvalidId,
    {
        match self.device_id.validate() {
            Ok(_) => {},
            Err(e) => {
                return Err(e);
            },
        }
        let mut data = self.duplicate();
        data.pair_state = pair_state;
        data.connection_certificate = None;
        if pair_state != PairState::Paired {
            data.paired_certificate = None;
        }
        Ok(data)
    }
}

/// Pairing survives a restart: a trusted device whose record was written as
/// paired comes back paired, with the same pinned certificate.
pub proof fn lemma_pin_survives_restart(d: DeviceModel, name: Seq<char>, address: AddressModel)
    requires
        trusted(d),
    ensures
        ({
            let back = restored(d.device_id, name, address, Some(record_of(d, PairState::Paired)));
            trusted(back) && back.pin == d.pin && back.connection is None && back.name == name
                && back.address == address
        }),
{
}

/// Any other pairing state is forgotten: the record comes back unpaired and
/// without a pinned certificate.
pub proof fn lemma_unpaired_record_is_untrusted(
    d: DeviceModel,
    state: PairState,
    name: Seq<char>,
    address: AddressModel,
)
    requires
        state != PairState::Paired,
    ensures
        ({
            let back = restored(d.device_id, name, address, Some(record_of(d, state)));
            back.pair_state == PairState::NotPaired && back.pin is None && back.connection is None
        }),
{
}

/// A record of a paired device without a pinned certificate comes back
/// unpaired.
pub proof fn lemma_legacy_pairing_is_dropped(
    stored: DeviceModel,
    id: Seq<char>,
    name: Seq<char>,
    address: AddressModel,
)
    requires
        !usable(stored.pin),
    ensures
        restored(id, name, address, Some(stored)).pair_state == PairState::NotPaired,
        restored(id, name, address, Some(stored)).pin is None,
{
}

} // verus!
