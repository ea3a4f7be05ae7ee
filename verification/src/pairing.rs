//! The devices that are connected, and the steps of pairing with them.

use vstd::prelude::*;

use crate::device::{Device, DeviceError, DeviceId, DeviceModel, PairState};
use crate::device;
use crate::table::{Duplicate, TextMap};

verus! {

/// What a change of pairing is told to the rest of the desktop.
#[derive(Debug, PartialEq, Eq)]
pub enum PairEvent {
    Paired(DeviceId, Device),
    Cancelled(DeviceId),
    StateChanged(DeviceId, PairState),
}

/// What has to be on disk before a change of pairing takes effect.
#[derive(Debug, PartialEq, Eq)]
pub enum Storage {
    /// Write this record.
    Write(Device),
    /// Delete the record of this device.
    Delete(DeviceId),
}

/// The connected devices by identifier.
#[derive(Debug)]
pub struct DeviceManager {
    devices: TextMap<Device>,
}

impl View for DeviceManager {
    type V = Map<Seq<char>, DeviceModel>;

    closed spec fn view(&self) -> Map<Seq<char>, DeviceModel> {
        self.devices@
    }
}

/// Whether a device in this state can be paired now: a request is pending and
/// the connection has shown a certificate.
pub open spec fn can_pair(d: DeviceModel) -> bool {
    &&& d.pair_state == PairState::Requested || d.pair_state == PairState::Requesting
    &&& device::usable(d.connection)
}

/// A device after it was paired: its connection's certificate is pinned.
pub open spec fn paired(d: DeviceModel) -> DeviceModel {
    DeviceModel { pair_state: PairState::Paired, pin: d.connection, ..d }
}

/// A device in another pairing state, which keeps a pinned certificate only
/// when it is paired.
pub open spec fn in_state(d: DeviceModel, state: PairState) -> DeviceModel {
    DeviceModel {
        pair_state: state,
        pin: if state == PairState::Paired {
            d.pin
        } else {
            None
        },
        ..d
    }
}

/// What pairing or unpairing a device can fail with before anything is stored.
pub open spec fn pairing_error(
    devices: Map<Seq<char>, DeviceModel>,
    id: Seq<char>,
    flag: bool,
) -> Option<DeviceError> {
    if !device::valid_id(id) {
        Some(DeviceError::InvalidId)
    } else if devices.contains_key(id) {
        let d = devices[id];
        if flag && d.pair_state != PairState::Requested && d.pair_state != PairState::Requesting {
            Some(DeviceError::NoPendingRequest)
        } else if flag && !device::usable(d.connection) {
            Some(DeviceError::NoConnectionCertificate)
        } else if !device::valid_id(d.device_id) {
            Some(DeviceError::InvalidId)
        } else {
            None
        }
    } else if flag {
        Some(DeviceError::NoLiveConnection)
    } else {
        None
    }
}

impl DeviceManager {
    /// The identifiers are distinct.
    pub closed spec fn wf(&self) -> bool {
        self.devices.wf()
    }

    /// The devices in the order in which they came.
    pub closed spec fn list(&self) -> Seq<(String, Device)> {
        self.devices.list()
    }

    /// No device is connected.
    pub fn new() -> (r: Self)
        ensures
            r.wf(),
            r@ == Map::<Seq<char>, DeviceModel>::empty(),
    {
        DeviceManager { devices: TextMap::new() }
    }

    /// Registers a device, in place of an earlier one under the identifier.
    pub fn add_or_update_device(&mut self, device_id: DeviceId, device: Device)
        requires
            old(self).wf(),
        ensures
            final(self).wf(),
            final(self)@ == old(self)@.insert(device_id@, device@),
    {
        self.devices.insert(device_id.0, device);
    }

    /// The device under the identifier.
    pub fn get_device(&self, id: &DeviceId) -> (r: Option<Device>)
        requires
            self.wf(),
        ensures
            r is Some <==> self@.contains_key(id@),
            r is Some ==> r->0@ == self@[id@],
    {
        match self.devices.get(&id.0) {
            Some(d) => Some(d.duplicate()),
            None => None,
        }
    }

    /// All devices.
    pub fn get_devices(&self) -> (r: Vec<Device>)
        requires
            self.wf(),
        ensures
            r@.len() == self.list().len(),
            forall|i: int| 0 <= i < r@.len() ==> (#[trigger] r@[i])@ == self.list()[i].1@,
            forall|id: Seq<char>| #[trigger] self@.contains_key(id) ==> exists|i: int|
                0 <= i < r@.len() && (#[trigger] r@[i])@ == self@[id],
    {
        proof {
            self.devices.lemma_list();
        }
        let mut r: Vec<Device> = Vec::new();
        let mut i: usize = 0;
        while i < self.devices.len()
            invariant
                i <= self.list().len(),
                r@.len() == i,
                forall|j: int| 0 <= j < i ==> (#[trigger] r@[j])@ == self.list()[j].1@,
            decreases self.list().len() - i,
        {
            r.push(self.devices.value_at(i).duplicate());
            i = i + 1;
        }
        proof {
            assert forall|id: Seq<char>| #[trigger] self@.contains_key(id) implies exists|i: int|
                0 <= i < r@.len() && (#[trigger] r@[i])@ == self@[id] by {
                let i = choose|i: int|
                    0 <= i < self.list().len() && (#[trigger] self.list()[i]).0@ == id;
                assert(r@[i]@ == self@[id]);
            }
        }
        r
    }

    /// What has to be stored before the device is paired (`flag`) or unpaired.
    /// Unpairing a device that is not connected deletes its record.
    pub fn pairing_record(&self, id: &DeviceId, flag: bool) -> (r: Result<Storage, DeviceError>)
        requires
            self.wf(),
        ensures
            r is Err <==> pairing_error(self@, id@, flag) is Some,
            r is Err ==> Some(r->Err_0) == pairing_error(self@, id@, flag),
            r is Ok && self@.contains_key(id@) ==> (r->Ok_0 matches Storage::Write(d) && d@ == (
            if flag {
                device::record_of(paired(self@[id@]), PairState::Paired)
            } else {
                device::record_of(self@[id@], PairState::NotPaired)
            })),
            r is Ok && !self@.contains_key(id@) ==> (r->Ok_0 matches Storage::Delete(d) && d@ == id@),
            r is Ok && self@.contains_key(id@) ==> (r->Ok_0 matches Storage::Write(d) && {
                &&& d@.device_id == self@[id@].device_id
                &&& d@.name == self@[id@].name
                &&& d@.address == self@[id@].address
                &&& flag ==> d@.pair_state == PairState::Paired && d@.pin == self@[id@].connection
                &&& !flag ==> d@.pair_state == PairState::NotPaired && d@.pin is None
            }),
    {
        match id.validate() {
            Ok(_) => {},
            Err(e) => {
                return Err(e);
            },
        }
        match self.get_device(id) {
            Some(mut d) => {
                if flag {
                    if d.pair_state != PairState::Requested && d.pair_state != PairState::Requesting {
                        return Err(DeviceError::NoPendingRequest);
                    }
                    let empty = match &d.connection_certificate {
                        Some(c) => c.len() == 0,
                        None => true,
                    };
                    if empty {
                        return Err(DeviceError::NoConnectionCertificate);
                    }
                    d.paired_certificate = crate::bytes::copy_optional(&d.connection_certificate);
                    match d.store_device_identity(PairState::Paired) {
                        Ok(rec) => Ok(Storage::Write(rec)),
                        Err(e) => Err(e),
                    }
                } else {
                    match d.store_device_identity(PairState::NotPaired) {
                        Ok(rec) => Ok(Storage::Write(rec)),
                        Err(e) => Err(e),
                    }
                }
            },
            None => {
                if flag {
                    Err(DeviceError::NoLiveConnection)
                } else {
                    Ok(Storage::Delete(id.duplicate()))
                }
            },
        }
    }

    /// Pairs (`flag`) or unpairs a device. `stored` says whether what
    /// `pairing_record` asked for is on disk; without it nothing changes.
    pub fn set_paired(&mut self, id: &DeviceId, flag: bool, stored: bool) -> (r: Result<
        PairEvent,
        DeviceError,
    >)
        requires
            old(self).wf(),
        ensures
            final(self).wf(),
            r is Ok <==> pairing_error(old(self)@, id@, flag) is None && stored,
            r is Err ==> final(self)@ == old(self)@ && r->Err_0 == (if pairing_error(
                old(self)@,
                id@,
                flag,
            ) is Some {
                pairing_error(old(self)@, id@, flag)->0
            } else {
                DeviceError::StoreFailed
            }),
            r is Ok && !old(self)@.contains_key(id@) ==> final(self)@ == old(self)@,
            r is Ok && old(self)@.contains_key(id@) ==> final(self)@ == old(self)@.insert(
                id@,
                if flag {
                    paired(old(self)@[id@])
                } else {
                    in_state(old(self)@[id@], PairState::NotPaired)
                },
            ),
            r is Ok && flag ==> (r->Ok_0 matches PairEvent::Paired(i, d) && i@ == d@.device_id && d@
                == paired(old(self)@[id@])),
            r is Ok && !flag ==> (r->Ok_0 matches PairEvent::Cancelled(i) && i@ == (
            if old(self)@.contains_key(id@) {
                old(self)@[id@].device_id
            } else {
                id@
            })),
            flag ==> (r is Ok <==> {
                &&& stored
                &&& device::valid_id(id@)
                &&& old(self)@.contains_key(id@)
                &&& device::valid_id(old(self)@[id@].device_id)
                &&& old(self)@[id@].pair_state == PairState::Requested
                    || old(self)@[id@].pair_state == PairState::Requesting
                &&& old(self)@[id@].connection matches Some(c) && c.len() > 0
            }),
            !flag ==> (r is Ok <==> {
                &&& stored
                &&& device::valid_id(id@)
                &&& old(self)@.contains_key(id@) ==> device::valid_id(old(self)@[id@].device_id)
            }),
            r is Ok && old(self)@.contains_key(id@) ==> {
                let before = old(self)@[id@];
                let now = final(self)@[id@];
                &&& now.pair_state == (if flag {
                    PairState::Paired
                } else {
                    PairState::NotPaired
                })
                &&& flag ==> now.pin == before.connection
                &&& !flag ==> now.pin is None
                &&& now.name == before.name
                &&& now.device_id == before.device_id
                &&& now.address == before.address
                &&& now.connection == before.connection
            },
            forall|other: Seq<char>|
                other != id@ ==> final(self)@.contains_key(other) == #[trigger] old(
                    self,
                )@.contains_key(other) && final(self)@[other] == old(self)@[other],
            device::valid_id(id@) && flag && !old(self)@.contains_key(id@) ==> r == Err::<
                PairEvent,
                DeviceError,
            >(DeviceError::NoLiveConnection),
            !device::valid_id(id@) ==> r == Err::<PairEvent, DeviceError>(DeviceError::InvalidId),
            device::valid_id(id@) && flag && old(self)@.contains_key(id@) && (old(
                self,
            )@[id@].pair_state == PairState::NotPaired || old(self)@[id@].pair_state
                == PairState::Paired) ==> r == Err::<PairEvent, DeviceError>(
                DeviceError::NoPendingRequest,
            ),
    {
        match self.pairing_record(id, flag) {
            Ok(_) => {},
            Err(e) => {
                return Err(e);
            },
        }
        if !stored {
            return Err(DeviceError::StoreFailed);
        }
        match self.get_device(id) {
            Some(mut d) => {
                if flag {
                    d.paired_certificate = crate::bytes::copy_optional(&d.connection_certificate);
                    d.pair_state = PairState::Paired;
                } else {
                    d.paired_certificate = None;
                    d.pair_state = PairState::NotPaired;
                }
                let name = d.device_id.duplicate();
                let told = if flag {
                    PairEvent::Paired(name, d.duplicate())
                } else {
                    PairEvent::Cancelled(name)
                };
                self.devices.insert(id.0.clone(), d);
                Ok(told)
            },
            None => Ok(PairEvent::Cancelled(id.duplicate())),
        }
    }

    /// The record to write before the device enters the pairing state.
    pub fn state_record(&self, id: &DeviceId, state: PairState) -> (r: Option<Device>)
        requires
            self.wf(),
        ensures
            r is Some <==> self@.contains_key(id@) && device::valid_id(self@[id@].device_id),
            r is Some ==> r->0@ == device::record_of(self@[id@], state),
    {
        match self.get_device(id) {
            Some(d) => match d.store_device_identity(state) {
                Ok(rec) => Some(rec),
                Err(_) => None,
            },
            None => None,
        }
    }

    /// Moves a device to another pairing state. `stored` says whether what
    /// `state_record` gave is on disk; without it nothing changes. A device that
    /// leaves the paired state loses its pinned certificate.
    pub fn update_pair_state(&mut self, id: &DeviceId, state: PairState, stored: bool) -> (r: Option<
        PairEvent,
    >)
        requires
            old(self).wf(),
        ensures
            final(self).wf(),
            r is Some <==> old(self)@.contains_key(id@) && stored,
            r is None ==> final(self)@ == old(self)@,
            r is Some ==> final(self)@ == old(self)@.insert(id@, in_state(old(self)@[id@], state)),
            r is Some ==> (r->0 matches PairEvent::StateChanged(i, s) && i@ == id@ && s == state),
            r is Some ==> {
                let before = old(self)@[id@];
                let now = final(self)@[id@];
                &&& now.pair_state == state
                &&& state == PairState::Paired ==> now.pin == before.pin
                &&& state != PairState::Paired ==> now.pin is None
                &&& now.name == before.name
                &&& now.device_id == before.device_id
                &&& now.address == before.address
                &&& now.connection == before.connection
            },
    {
        match self.get_device(id) {
            Some(mut d) => {
                if !stored {
                    return None;
                }
                d.pair_state = state;
                if state != PairState::Paired {
                    d.paired_certificate = None;
                }
                self.devices.insert(id.0.clone(), d);
                Some(PairEvent::StateChanged(id.duplicate(), state))
            },
            None => None,
        }
    }
}

/// What an incoming pair packet calls for.
#[derive(Debug, Clone, Copy, PartialEq, Eq, Structural)]
pub enum PairStep {
    /// Nothing to do.
    Nothing,
    /// The device has accepted our request: pair it.
    Accept,
    /// The device asks to pair: mark it as requested and ask the user.
    Ask,
}

/// What a pair packet calls for, where `pair` is what the packet says (`None`
/// for a body that cannot be read) and `known` the connected device.
pub open spec fn pair_step(pair: Option<bool>, known: Option<DeviceModel>) -> Result<
    PairStep,
    DeviceError,
> {
    if pair is None {
        Ok(PairStep::Nothing)
    } else if known is None {
        Err(DeviceError::NoLiveDevice)
    } else if !pair->0 || known->0.pair_state == PairState::Paired {
        Ok(PairStep::Nothing)
    } else if known->0.pair_state == PairState::Requesting {
        Ok(PairStep::Accept)
    } else {
        Ok(PairStep::Ask)
    }
}

/// Pairing over the connected devices.
#[derive(Debug)]
pub struct PairingManager {
    pub device_manager: DeviceManager,
}

impl PairingManager {
    /// Pairing over the given devices.
    pub fn new(device_manager: DeviceManager) -> (r: Self)
        ensures
            r.device_manager == device_manager,
    {
        PairingManager { device_manager }
    }

    /// Decides on a pair packet. The live connection's device counts, never a
    /// record on disk.
    pub fn handle_pair_request(&self, id: &DeviceId, pair: Option<bool>) -> (r: Result<
        PairStep,
        DeviceError,
    >)
        requires
            self.device_manager.wf(),
        ensures
            r == pair_step(
                pair,
                if self.device_manager@.contains_key(id@) {
                    Some(self.device_manager@[id@])
                } else {
                    None
                },
            ),
            pair is None ==> r == Ok::<PairStep, DeviceError>(PairStep::Nothing),
            pair is Some && !self.device_manager@.contains_key(id@) ==> r == Err::<
                PairStep,
                DeviceError,
            >(DeviceError::NoLiveDevice),
            self.device_manager@.contains_key(id@) && pair == Some(false) ==> r == Ok::<
                PairStep,
                DeviceError,
            >(PairStep::Nothing),
            self.device_manager@.contains_key(id@) && pair == Some(true) ==> {
                let state = self.device_manager@[id@].pair_state;
                &&& r is Ok
                &&& r->Ok_0 == PairStep::Accept <==> state == PairState::Requesting
                &&& r->Ok_0 == PairStep::Ask <==> state == PairState::NotPaired || state
                    == PairState::Requested
                &&& r->Ok_0 == PairStep::Nothing <==> state == PairState::Paired
            },
    {
        let flag = match pair {
            Some(f) => f,
            None => {
                return Ok(PairStep::Nothing);
            },
        };
        match self.device_manager.get_device(id) {
            Some(d) => {
                if !flag || d.pair_state == PairState::Paired {
                    Ok(PairStep::Nothing)
                } else if d.pair_state == PairState::Requesting {
                    Ok(PairStep::Accept)
                } else {
                    Ok(PairStep::Ask)
                }
            },
            None => Err(DeviceError::NoLiveDevice),
        }
    }

    /// Gives up pairing with a device, or unpairs it.
    pub fn cancel_pairing(&mut self, id: &DeviceId, stored: bool) -> (r: Result<
        PairEvent,
        DeviceError,
    >)
        requires
            old(self).device_manager.wf(),
        ensures
            final(self).device_manager.wf(),
            r is Ok <==> device::valid_id(id@) && (old(self).device_manager@.contains_key(id@)
                ==> device::valid_id(old(self).device_manager@[id@].device_id)) && stored,
            r is Ok && old(self).device_manager@.contains_key(id@) ==> final(self).device_manager@
                == old(self).device_manager@.insert(
                id@,
                in_state(old(self).device_manager@[id@], PairState::NotPaired),
            ),
            !(r is Ok && old(self).device_manager@.contains_key(id@)) ==> final(self).device_manager@
                == old(self).device_manager@,
            r is Ok ==> r->Ok_0 is Cancelled,
            r is Ok && old(self).device_manager@.contains_key(id@) ==> {
                let now = final(self).device_manager@[id@];
                now.pair_state == PairState::NotPaired && now.pin is None
            },
            r is Err ==> r->Err_0 == (if pairing_error(old(self).device_manager@, id@, false) is Some {
                DeviceError::InvalidId
            } else {
                DeviceError::StoreFailed
            }),
    {
        self.device_manager.set_paired(id, false, stored)
    }
}

/// Every paired device is trusted.
pub open spec fn paired_are_trusted(devices: Map<Seq<char>, DeviceModel>) -> bool {
    forall|id: Seq<char>|
        devices.contains_key(id) && devices[id].pair_state == PairState::Paired
            ==> device::trusted(#[trigger] devices[id])
}

/// No change of pairing state breaks the rule that every paired device has a
/// pinned certificate: pairing pins the certificate of the connection, and a
/// device that is not paired keeps none.
pub proof fn lemma_pairing_keeps_trust(
    devices: Map<Seq<char>, DeviceModel>,
    id: Seq<char>,
    state: PairState,
)
    requires
        paired_are_trusted(devices),
        devices.contains_key(id),
        state != PairState::Paired,
    ensures
        paired_are_trusted(devices.insert(id, in_state(devices[id], state))),
        in_state(devices[id], state).pin is None,
        can_pair(devices[id]) ==> paired_are_trusted(devices.insert(id, paired(devices[id]))),
        pairing_error(devices, id, true) is None ==> can_pair(devices[id]),
{
}

/// What pairing wrote is what a restart brings back: the record of a freshly
/// paired device is restored as trusted, with the certificate of the connection
/// that was approved.
pub proof fn lemma_approved_certificate_is_pinned(
    d: DeviceModel,
    name: Seq<char>,
    address: device::AddressModel,
)
    requires
        can_pair(d),
    ensures
        device::trusted(paired(d)),
        ({
            let record = device::record_of(paired(d), PairState::Paired);
            let back = device::restored(d.device_id, name, address, Some(record));
            device::trusted(back) && back.pin == d.connection
        }),
{
}

/// A request from this desktop that the phone accepts leads to a paired device:
/// what the pair packet calls for, carried out, pins the certificate of the
/// connection on which it came.
pub proof fn lemma_accepted_requests_pair(d: DeviceModel)
    requires
        d.pair_state == PairState::Requesting,
        d.connection matches Some(c) && c.len() > 0,
    ensures
        pair_step(Some(true), Some(d)) == Ok::<PairStep, DeviceError>(PairStep::Accept),
        can_pair(d),
        paired(d).pair_state == PairState::Paired,
        paired(d).pin == d.connection,
{
}

/// A request of the phone never pairs by itself: it is put to the user, and
/// only a device that was marked as requested by it can be paired then.
pub proof fn lemma_requests_are_put_to_the_user(d: DeviceModel)
    requires
        d.pair_state == PairState::NotPaired || d.pair_state == PairState::Requested,
        d.connection matches Some(c) && c.len() > 0,
    ensures
        pair_step(Some(true), Some(d)) == Ok::<PairStep, DeviceError>(PairStep::Ask),
        d.pair_state == PairState::NotPaired ==> !can_pair(d),
        can_pair(in_state(d, PairState::Requested)),
        in_state(d, PairState::Requested).pin is None,
{
}

/// A device that is paired stays as it is whatever pair packet it sends, as
/// does any device that sends one that cannot be read.
pub proof fn lemma_other_pair_packets_change_nothing(d: DeviceModel, pair: Option<bool>)
    requires
        d.pair_state == PairState::Paired || pair is None || pair == Some(false),
    ensures
        pair_step(pair, Some(d)) == Ok::<PairStep, DeviceError>(PairStep::Nothing),
{
}

} // verus!
