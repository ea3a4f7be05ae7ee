//! What the panel applet makes of the answers that it gets.

use vstd::prelude::*;

use crate::order;
use crate::phone::is_phone_player;
use crate::phone;
use crate::service::{DbusDevice, DbusDeviceModel};
use crate::table::{Duplicate, TextMap};
use crate::text;
use crate::text::{same, strip_prefix};
use crate::transfer::copy_text;

verus! {

/// A device as the applet shows it.
#[derive(Debug, PartialEq, Eq)]
pub struct AppletDevice {
    pub id: String,
    pub name: String,
    pub device_type: String,
    pub is_paired: bool,
    pub is_reachable: bool,
    pub battery_level: Option<i32>,
    pub is_charging: Option<bool>,
    pub network_type: Option<String>,
    pub signal_strength: Option<i32>,
    pub pairing_requests: u32,
    pub has_battery: bool,
    pub has_ping: bool,
    pub has_sms: bool,
    pub has_contacts: bool,
    pub has_clipboard: bool,
    pub has_findmyphone: bool,
    pub has_share: bool,
    pub share_progress: Option<u8>,
    pub has_sftp: bool,
    pub is_mounted: bool,
    pub has_mpris: bool,
    pub has_remote_keyboard: bool,
    pub has_presenter: bool,
    pub has_lockdevice: bool,
    pub has_virtualmonitor: bool,
    /// Keys and names of the commands that the device offers.
    pub run_commands: Vec<(String, String)>,
}

/// A device as the applet shows it, as a value.
pub struct AppletDeviceModel {
    pub id: Seq<char>,
    pub name: Seq<char>,
    pub device_type: Seq<char>,
    pub is_paired: bool,
    pub is_reachable: bool,
    pub battery_level: Option<i32>,
    pub is_charging: Option<bool>,
    pub network_type: Option<Seq<char>>,
    pub signal_strength: Option<i32>,
    pub pairing_requests: u32,
    pub has_battery: bool,
    pub has_ping: bool,
    pub has_sms: bool,
    pub has_contacts: bool,
    pub has_clipboard: bool,
    pub has_findmyphone: bool,
    pub has_share: bool,
    pub share_progress: Option<u8>,
    pub has_sftp: bool,
    pub is_mounted: bool,
    pub has_mpris: bool,
    pub has_remote_keyboard: bool,
    pub has_presenter: bool,
    pub has_lockdevice: bool,
    pub has_virtualmonitor: bool,
    pub run_commands: Seq<(Seq<char>, Seq<char>)>,
}

impl View for AppletDevice {
    type V = AppletDeviceModel;

    open spec fn view(&self) -> AppletDeviceModel {
        AppletDeviceModel {
            id: self.id@,
            name: self.name@,
            device_type: self.device_type@,
            is_paired: self.is_paired,
            is_reachable: self.is_reachable,
            battery_level: self.battery_level,
            is_charging: self.is_charging,
            network_type: self.network_type.deep_view(),
            signal_strength: self.signal_strength,
            pairing_requests: self.pairing_requests,
            has_battery: self.has_battery,
            has_ping: self.has_ping,
            has_sms: self.has_sms,
            has_contacts: self.has_contacts,
            has_clipboard: self.has_clipboard,
            has_findmyphone: self.has_findmyphone,
            has_share: self.has_share,
            share_progress: self.share_progress,
            has_sftp: self.has_sftp,
            is_mounted: self.is_mounted,
            has_mpris: self.has_mpris,
            has_remote_keyboard: self.has_remote_keyboard,
            has_presenter: self.has_presenter,
            has_lockdevice: self.has_lockdevice,
            has_virtualmonitor: self.has_virtualmonitor,
            run_commands: self.run_commands.deep_view(),
        }
    }
}

/// A copy of a list of pairs of texts.
pub fn copy_pairs(list: &Vec<(String, String)>) -> (r: Vec<(String, String)>)
    ensures
        r@ == list@,
        r.deep_view() == list.deep_view(),
{
    let mut r: Vec<(String, String)> = Vec::new();
    let mut i: usize = 0;
    while i < list.len()
        invariant
            i <= list@.len(),
            r@ == list@.take(i as int),
        decreases list@.len() - i,
    {
        r.push((list[i].0.clone(), list[i].1.clone()));
        proof {
            assert(list@.take(i + 1) =~= list@.take(i as int).push(list@[i as int]));
        }
        i = i + 1;
    }
    proof {
        assert(list@.take(i as int) =~= list@);
        assert(r.deep_view() =~= list.deep_view());
    }
    r
}

impl Duplicate for AppletDevice {
    fn duplicate(&self) -> (r: Self) {
        AppletDevice {
            id: self.id.clone(),
            name: self.name.clone(),
            device_type: self.device_type.clone(),
            is_paired: self.is_paired,
            is_reachable: self.is_reachable,
            battery_level: self.battery_level,
            is_charging: self.is_charging,
            network_type: copy_text(&self.network_type),
            signal_strength: self.signal_strength,
            pairing_requests: self.pairing_requests,
            has_battery: self.has_battery,
            has_ping: self.has_ping,
            has_sms: self.has_sms,
            has_contacts: self.has_contacts,
            has_clipboard: self.has_clipboard,
            has_findmyphone: self.has_findmyphone,
            has_share: self.has_share,
            share_progress: self.share_progress,
            has_sftp: self.has_sftp,
            is_mounted: self.is_mounted,
            has_mpris: self.has_mpris,
            has_remote_keyboard: self.has_remote_keyboard,
            has_presenter: self.has_presenter,
            has_lockdevice: self.has_lockdevice,
            has_virtualmonitor: self.has_virtualmonitor,
            run_commands: copy_pairs(&self.run_commands),
        }
    }
}

/// A device that was listed: what the list says of it, and beyond that what was
/// known of it before.
pub open spec fn merged(
    listed: DbusDeviceModel,
    mounted: Seq<Seq<char>>,
    known: Option<AppletDeviceModel>,
) -> AppletDeviceModel {
    AppletDeviceModel {
        id: listed.id,
        name: listed.name,
        device_type: listed.device_type,
        is_paired: listed.is_paired,
        is_reachable: listed.is_reachable,
        battery_level: if known is Some {
            known->0.battery_level
        } else {
            None
        },
        is_charging: if known is Some {
            known->0.is_charging
        } else {
            None
        },
        network_type: if known is Some {
            known->0.network_type
        } else {
            None
        },
        signal_strength: if known is Some {
            known->0.signal_strength
        } else {
            None
        },
        pairing_requests: 0,
        has_battery: false,
        has_ping: true,
        has_sms: true,
        has_contacts: false,
        has_clipboard: true,
        has_findmyphone: true,
        has_share: true,
        share_progress: if known is Some {
            known->0.share_progress
        } else {
            None
        },
        has_sftp: true,
        is_mounted: mounted.contains(listed.id),
        has_mpris: false,
        has_remote_keyboard: false,
        has_presenter: false,
        has_lockdevice: false,
        has_virtualmonitor: false,
        run_commands: if known is Some {
            known->0.run_commands
        } else {
            Seq::empty()
        },
    }
}

/// What is known of a device.
pub open spec fn known(cache: Map<Seq<char>, AppletDeviceModel>, id: Seq<char>) -> Option<
    AppletDeviceModel,
> {
    if cache.contains_key(id) {
        Some(cache[id])
    } else {
        None
    }
}

fn lists(list: &Vec<String>, s: &str) -> (r: bool)
    ensures
        r == list.deep_view().contains(s@),
{
    let ghost all = list.deep_view();
    let mut i: usize = 0;
    while i < list.len()
        invariant
            i <= list@.len(),
            all == list.deep_view(),
            forall|k: int| 0 <= k < i ==> #[trigger] all[k] != s@,
        decreases list@.len() - i,
    {
        proof {
            assert(all[i as int] == list@[i as int]@);
        }
        if same(&list[i], s) {
            proof {
                assert(all.contains(s@));
            }
            return true;
        }
        i = i + 1;
    }
    false
}

/// Makes a device of what the list says of it and of what was known, and
/// remembers it.
pub fn merge_device(
    listed: &DbusDevice,
    mounted: &Vec<String>,
    cache: &mut TextMap<AppletDevice>,
) -> (r: AppletDevice)
    requires
        old(cache).wf(),
    ensures
        final(cache).wf(),
        r@ == merged(listed@, mounted.deep_view(), known(old(cache)@, listed@.id)),
        final(cache)@ == old(cache)@.insert(listed@.id, r@),
        r@.id == listed@.id,
        r@.name == listed@.name,
        r@.device_type == listed@.device_type,
        r@.is_paired == listed@.is_paired,
        r@.is_reachable == listed@.is_reachable,
        r@.is_mounted <==> mounted.deep_view().contains(listed@.id),
        r@.has_ping && r@.has_sms && r@.has_clipboard && r@.has_findmyphone && r@.has_share
            && r@.has_sftp,
        !r@.has_battery && !r@.has_contacts && !r@.has_mpris && !r@.has_remote_keyboard
            && !r@.has_presenter && !r@.has_lockdevice && !r@.has_virtualmonitor,
        r@.pairing_requests == 0,
        old(cache)@.contains_key(listed@.id) ==> r@.battery_level == old(
            cache,
        )@[listed@.id].battery_level && r@.is_charging == old(cache)@[listed@.id].is_charging
            && r@.network_type == old(cache)@[listed@.id].network_type && r@.signal_strength == old(
            cache,
        )@[listed@.id].signal_strength && r@.share_progress == old(
            cache,
        )@[listed@.id].share_progress && r@.run_commands == old(cache)@[listed@.id].run_commands,
        !old(cache)@.contains_key(listed@.id) ==> r@.battery_level is None && r@.is_charging is None
            && r@.network_type is None && r@.signal_strength is None && r@.share_progress is None
            && r@.run_commands.len() == 0,
{
    let existing = match cache.get(&listed.id) {
        Some(d) => Some(d.duplicate()),
        None => None,
    };
    let is_mounted = lists(mounted, &listed.id);
    let mut device = AppletDevice {
        id: listed.id.clone(),
        name: listed.name.clone(),
        device_type: listed.device_type.clone(),
        is_paired: listed.is_paired,
        is_reachable: listed.is_reachable,
        battery_level: None,
        is_charging: None,
        network_type: None,
        signal_strength: None,
        pairing_requests: 0,
        has_battery: false,
        has_ping: true,
        has_sms: true,
        has_contacts: false,
        has_clipboard: true,
        has_findmyphone: true,
        has_share: true,
        share_progress: None,
        has_sftp: true,
        is_mounted,
        has_mpris: false,
        has_remote_keyboard: false,
        has_presenter: false,
        has_lockdevice: false,
        has_virtualmonitor: false,
        run_commands: Vec::new(),
    };
    proof {
        assert(device.run_commands.deep_view() =~= Seq::<(Seq<char>, Seq<char>)>::empty());
    }
    if let Some(e) = existing {
        device.battery_level = e.battery_level;
        device.is_charging = e.is_charging;
        device.network_type = e.network_type;
        device.signal_strength = e.signal_strength;
        device.share_progress = e.share_progress;
        device.run_commands = e.run_commands;
    }
    cache.insert(listed.id.clone(), device.duplicate());
    device
}

/// The devices of a list, each with what was known of it, and what is known
/// afterwards.
pub open spec fn all_merged(
    listed: Seq<DbusDeviceModel>,
    mounted: Seq<Seq<char>>,
    cache: Map<Seq<char>, AppletDeviceModel>,
) -> (Seq<AppletDeviceModel>, Map<Seq<char>, AppletDeviceModel>)
    decreases listed.len(),
{
    if listed.len() == 0 {
        (Seq::empty(), cache)
    } else {
        let (before, now) = all_merged(listed.drop_last(), mounted, cache);
        let d = merged(listed.last(), mounted, known(now, listed.last().id));
        (before.push(d), now.insert(listed.last().id, d))
    }
}

fn merge_all(listed: &Vec<DbusDevice>, mounted: &Vec<String>, cache: &mut TextMap<AppletDevice>) -> (r:
    Vec<AppletDevice>)
    requires
        old(cache).wf(),
    ensures
        final(cache).wf(),
        (order::views(r@), final(cache)@) == all_merged(
            order::views(listed@),
            mounted.deep_view(),
            old(cache)@,
        ),
{
    let ghost all = order::views(listed@);
    let ghost start = cache@;
    let mut r: Vec<AppletDevice> = Vec::new();
    let mut i: usize = 0;
    proof {
        assert(all.take(0) =~= Seq::empty());
        assert(order::views(r@) =~= Seq::<AppletDeviceModel>::empty());
    }
    while i < listed.len()
        invariant
            i <= listed@.len(),
            all == order::views(listed@),
            cache.wf(),
            (order::views(r@), cache@) == all_merged(
                all.take(i as int),
                mounted.deep_view(),
                start,
            ),
        decreases listed@.len() - i,
    {
        let ghost before = order::views(r@);
        proof {
            assert(all.take(i + 1).drop_last() =~= all.take(i as int));
            assert(all.take(i + 1).last() == listed@[i as int]@);
        }
        let d = merge_device(&listed[i], mounted, cache);
        r.push(d);
        proof {
            assert(order::views(r@) =~= before.push(d@));
        }
        i = i + 1;
    }
    proof {
        assert(all.take(i as int) =~= all);
    }
    r
}

/// A device of the session bus is always a phone.
pub open spec fn as_phone(d: DbusDeviceModel) -> DbusDeviceModel {
    DbusDeviceModel { device_type: "phone"@, ..d }
}

/// The devices that are known to the service. The socket is asked first; where
/// it does not answer, the session bus is. Where neither answers there are no
/// devices.
pub fn fetch_devices(
    socket: Option<Vec<DbusDevice>>,
    bus: Option<Vec<DbusDevice>>,
    mounted: &Vec<String>,
    cache: &mut TextMap<AppletDevice>,
) -> (r: Vec<AppletDevice>)
    requires
        old(cache).wf(),
    ensures
        final(cache).wf(),
        ({
            let listed = match socket {
                Some(list) => order::views(list@),
                None => match bus {
                    Some(list) => order::views(list@).map_values(|d: DbusDeviceModel| as_phone(d)),
                    None => Seq::empty(),
                },
            };
            (order::views(r@), final(cache)@) == all_merged(
                listed,
                mounted.deep_view(),
                old(cache)@,
            )
        }),
{
    match socket {
        Some(list) => merge_all(&list, mounted, cache),
        None => match bus {
            Some(list) => {
                let mut phones: Vec<DbusDevice> = Vec::new();
                let mut i: usize = 0;
                while i < list.len()
                    invariant
                        i <= list@.len(),
                        phones@.len() == i,
                        forall|k: int|
                            0 <= k < i ==> (#[trigger] phones@[k])@ == as_phone(list@[k]@),
                    decreases list@.len() - i,
                {
                    let mut d = list[i].duplicate();
                    d.device_type = "phone".to_owned();
                    phones.push(d);
                    i = i + 1;
                }
                proof {
                    assert(order::views(phones@) =~= order::views(list@).map_values(
                        |d: DbusDeviceModel| as_phone(d),
                    ));
                }
                merge_all(&phones, mounted, cache)
            },
            None => {
                let r: Vec<AppletDevice> = Vec::new();
                proof {
                    assert(order::views(r@) =~= Seq::<AppletDeviceModel>::empty());
                }
                r
            },
        },
    }
}

/// Listing a device again keeps what only its own reports tell: its battery,
/// its signal, its transfer and its commands.
pub proof fn lemma_listing_keeps_reports(
    listed: DbusDeviceModel,
    mounted: Seq<Seq<char>>,
    cache: Map<Seq<char>, AppletDeviceModel>,
)
    requires
        cache.contains_key(listed.id),
    ensures
        ({
            let d = merged(listed, mounted, known(cache, listed.id));
            let before = cache[listed.id];
            &&& d.battery_level == before.battery_level
            &&& d.is_charging == before.is_charging
            &&& d.signal_strength == before.signal_strength
            &&& d.share_progress == before.share_progress
            &&& d.run_commands == before.run_commands
            &&& d.is_paired == listed.is_paired
            &&& d.is_reachable == listed.is_reachable
        }),
{
}

/// How long devices are waited for after the service came up, in seconds.
pub const DEVICE_WAIT: u64 = 90;

/// The longest pause between two looks, in seconds.
pub const MAX_BACKOFF: u64 = 10;

/// Waiting for devices after the service came up.
#[derive(Debug, Clone, Copy, PartialEq, Eq, Structural)]
pub struct DeviceWait {
    pub elapsed: u64,
    pub backoff: u64,
}

/// What happened while devices were waited for.
#[derive(Debug, Clone, Copy, PartialEq, Eq, Structural)]
pub enum WaitEvent {
    /// The pause is over; devices were found or not.
    Looked(bool),
    /// The name on the bus changed hands.
    OwnerChanged { gone: bool },
    /// The bus tells no more.
    StreamEnded,
}

/// What to do next.
#[derive(Debug, Clone, Copy, PartialEq, Eq, Structural)]
pub enum WaitStep {
    /// Pause for so many seconds.
    Pause(u64),
    /// Devices are there: show them.
    Refresh,
    /// Stop waiting.
    Stop,
}

/// What follows while devices are waited for.
pub open spec fn wait_step(w: DeviceWait, event: WaitEvent) -> (DeviceWait, WaitStep) {
    match event {
        WaitEvent::Looked(found) => {
            let elapsed = (w.elapsed + w.backoff) as u64;
            let now = DeviceWait { elapsed, ..w };
            if found {
                (now, WaitStep::Refresh)
            } else if elapsed >= DEVICE_WAIT {
                (now, WaitStep::Stop)
            } else {
                let next = if w.backoff * 2 < MAX_BACKOFF {
                    (w.backoff * 2) as u64
                } else {
                    MAX_BACKOFF
                };
                (DeviceWait { elapsed, backoff: next }, WaitStep::Pause(next))
            }
        },
        WaitEvent::OwnerChanged { gone } => if gone {
            (w, WaitStep::Stop)
        } else {
            (w, WaitStep::Pause(w.backoff))
        },
        WaitEvent::StreamEnded => (w, WaitStep::Stop),
    }
}

impl DeviceWait {
    /// Waiting is not over yet, and no pause is too long.
    pub open spec fn wf(&self) -> bool {
        self.elapsed < DEVICE_WAIT && 1 <= self.backoff <= MAX_BACKOFF
    }

    /// Begins to wait.
    pub fn new() -> (r: (DeviceWait, WaitStep))
        ensures
            r.0 == (DeviceWait { elapsed: 0, backoff: 1 }),
            r.0.wf(),
            r.1 == WaitStep::Pause(1),
    {
        (DeviceWait { elapsed: 0, backoff: 1 }, WaitStep::Pause(1))
    }

    /// Goes on after something happened.
    pub fn next(&mut self, event: WaitEvent) -> (r: WaitStep)
        requires
            old(self).wf(),
        ensures
            (*final(self), r) == wait_step(*old(self), event),
            r is Pause ==> final(self).wf(),
            event matches WaitEvent::Looked(found) ==> final(self).elapsed == old(self).elapsed
                + old(self).backoff && (found ==> r is Refresh) && (!found && final(self).elapsed
                >= 90 ==> r is Stop) && (!found && final(self).elapsed < 90 ==> r
                == WaitStep::Pause(final(self).backoff) && final(self).backoff == (if 2 * old(
                self,
            ).backoff < 10 {
                2 * old(self).backoff
            } else {
                10
            })),
            event matches WaitEvent::OwnerChanged { gone } ==> *final(self) == *old(self) && r == (
            if gone {
                WaitStep::Stop
            } else {
                WaitStep::Pause(old(self).backoff)
            }),
            event is StreamEnded ==> *final(self) == *old(self) && r is Stop,
    {
        match event {
            WaitEvent::Looked(found) => {
                self.elapsed = self.elapsed + self.backoff;
                if found {
                    WaitStep::Refresh
                } else if self.elapsed >= DEVICE_WAIT {
                    WaitStep::Stop
                } else {
                    let doubled = self.backoff * 2;
                    self.backoff = if doubled < MAX_BACKOFF {
                        doubled
                    } else {
                        MAX_BACKOFF
                    };
                    WaitStep::Pause(self.backoff)
                }
            },
            WaitEvent::OwnerChanged { gone } => {
                if gone {
                    WaitStep::Stop
                } else {
                    WaitStep::Pause(self.backoff)
                }
            },
            WaitEvent::StreamEnded => WaitStep::Stop,
        }
    }
}

/// Every look brings the end of the waiting nearer, and the pauses never shrink
/// nor grow beyond their limit.
pub proof fn lemma_waiting_ends(w: DeviceWait)
    requires
        w.wf(),
    ensures
        ({
            let (now, step) = wait_step(w, WaitEvent::Looked(false));
            &&& now.elapsed > w.elapsed
            &&& step matches WaitStep::Pause(n) ==> w.backoff <= n <= MAX_BACKOFF && now.wf()
            &&& now.elapsed >= DEVICE_WAIT ==> step is Stop
        }),
{
}

/// What is playing on a phone.
#[derive(Debug, PartialEq, Eq)]
pub struct NowPlaying {
    pub identity: String,
    pub title: Option<String>,
    pub artist: Option<String>,
    pub is_playing: bool,
    pub can_play: bool,
    pub can_pause: bool,
    pub can_go_next: bool,
    pub can_go_previous: bool,
    pub art_path: Option<String>,
}

/// What is playing on a phone, as a value.
pub struct NowPlayingModel {
    pub identity: Seq<char>,
    pub title: Option<Seq<char>>,
    pub artist: Option<Seq<char>>,
    pub is_playing: bool,
    pub can_play: bool,
    pub can_pause: bool,
    pub can_go_next: bool,
    pub can_go_previous: bool,
    pub art_path: Option<Seq<char>>,
}

impl View for NowPlaying {
    type V = NowPlayingModel;

    open spec fn view(&self) -> NowPlayingModel {
        NowPlayingModel {
            identity: self.identity@,
            title: self.title.deep_view(),
            artist: self.artist.deep_view(),
            is_playing: self.is_playing,
            can_play: self.can_play,
            can_pause: self.can_pause,
            can_go_next: self.can_go_next,
            can_go_previous: self.can_go_previous,
            art_path: self.art_path.deep_view(),
        }
    }
}

/// What the session bus says of a phone's player. A property that could not be
/// read is missing.
#[derive(Debug, PartialEq, Eq)]
pub struct BusReading {
    pub identity: Option<String>,
    pub playback_status: Option<String>,
    pub can_play: Option<bool>,
    pub can_pause: Option<bool>,
    pub can_go_next: Option<bool>,
    pub can_go_previous: Option<bool>,
    pub title: Option<String>,
    pub artists: Option<Vec<String>>,
    pub art_url: Option<String>,
}

/// A path without a leading `file://`.
pub open spec fn local_path(uri: Seq<char>) -> Seq<char> {
    match text::stripped(uri, "file://"@) {
        Some(path) => path,
        None => uri,
    }
}

/// What is shown of a player that was read. Of several artists the last is
/// shown, and a missing ability is taken to be there.
pub open spec fn shown(bus_name: Seq<char>, r: BusReading) -> NowPlayingModel {
    NowPlayingModel {
        identity: match r.identity {
            Some(i) => i@,
            None => bus_name,
        },
        title: r.title.deep_view(),
        artist: match r.artists {
            Some(list) => if list@.len() > 0 {
                Some(list@.last()@)
            } else {
                None
            },
            None => None,
        },
        is_playing: r.playback_status is Some && r.playback_status->0@ == "Playing"@,
        can_play: r.can_play != Some(false),
        can_pause: r.can_pause != Some(false),
        can_go_next: r.can_go_next != Some(false),
        can_go_previous: r.can_go_previous != Some(false),
        art_path: match r.art_url {
            Some(u) => Some(local_path(u@)),
            None => None,
        },
    }
}

fn unless_false(b: Option<bool>) -> (r: bool)
    ensures
        r == (b != Some(false)),
{
    match b {
        Some(x) => x,
        None => true,
    }
}

/// What is shown of the player that was read.
pub fn read_now_playing(bus_name: &str, reading: BusReading) -> (r: NowPlaying)
    ensures
        r@ == shown(bus_name@, reading),
        r@ == (NowPlayingModel {
        identity: match reading.identity {
            Some(i) => i@,
            None => bus_name@,
        },
        title: reading.title.deep_view(),
        artist: match reading.artists {
            Some(list) => if list@.len() > 0 {
                Some(list@.last()@)
            } else {
                None
            },
            None => None,
        },
        is_playing: reading.playback_status is Some && reading.playback_status->0@ == "Playing"@,
        can_play: reading.can_play != Some(false),
        can_pause: reading.can_pause != Some(false),
        can_go_next: reading.can_go_next != Some(false),
        can_go_previous: reading.can_go_previous != Some(false),
        art_path: match reading.art_url {
            Some(u) => Some(local_path(u@)),
            None => None,
        },
    }),
{
    let identity = match reading.identity {
        Some(i) => i,
        None => bus_name.to_owned(),
    };
    let is_playing = match &reading.playback_status {
        Some(s) => same(s, "Playing"),
        None => false,
    };
    let artist = match &reading.artists {
        Some(list) => {
            if list.len() > 0 {
                Some(list[list.len() - 1].clone())
            } else {
                None
            }
        },
        None => None,
    };
    let art_path = match reading.art_url {
        Some(uri) => match strip_prefix(&uri, "file://") {
            Some(path) => Some(path),
            None => Some(uri),
        },
        None => None,
    };
    NowPlaying {
        identity,
        title: reading.title,
        artist,
        is_playing,
        can_play: unless_false(reading.can_play),
        can_pause: unless_false(reading.can_pause),
        can_go_next: unless_false(reading.can_go_next),
        can_go_previous: unless_false(reading.can_go_previous),
        art_path,
    }
}

/// The names on the bus that belong to players of phones.
pub open spec fn phone_players(names: Seq<Seq<char>>) -> Seq<Seq<char>> {
    names.filter(|n: Seq<char>| text::begins(n, phone::bus_prefix()))
}

/// The names on the bus that belong to players of phones.
pub fn poll_now_playing(names: &Vec<String>) -> (r: Vec<String>)
    ensures
        r.deep_view() == phone_players(names.deep_view()),
        forall|i: int|
            0 <= i < names@.len() && text::begins((#[trigger] names@[i])@, phone::bus_prefix())
                ==> r.deep_view().contains(names@[i]@),
        forall|k: int|
            0 <= k < r@.len() ==> text::begins((#[trigger] r@[k])@, phone::bus_prefix())
                && names.deep_view().contains(r@[k]@),
{
    let ghost all = names.deep_view();
    let ghost keep = |n: Seq<char>| text::begins(n, phone::bus_prefix());
    let mut r: Vec<String> = Vec::new();
    let mut i: usize = 0;
    proof {
        assert(all.take(0) =~= Seq::empty());
        assert(r.deep_view() =~= Seq::<Seq<char>>::empty());
    }
    while i < names.len()
        invariant
            i <= names@.len(),
            all == names.deep_view(),
            keep == (|n: Seq<char>| text::begins(n, phone::bus_prefix())),
            r.deep_view() == all.take(i as int).filter(keep),
        decreases names@.len() - i,
    {
        let ghost before = r.deep_view();
        proof {
            assert(all.take(i + 1) =~= all.take(i as int).push(all[i as int]));
            assert(all[i as int] == names@[i as int]@);
            all.take(i as int).lemma_filter_push(all[i as int], keep);
        }
        if is_phone_player(&names[i]) {
            r.push(names[i].clone());
            proof {
                assert(r.deep_view() =~= before.push(all[i as int]));
            }
        }
        i = i + 1;
    }
    proof {
        assert(all.take(i as int) =~= all);
        assert forall|k: int|
            0 <= k < names@.len() && text::begins(
                (#[trigger] names@[k])@,
                phone::bus_prefix(),
            ) implies r.deep_view().contains(names@[k]@) by {
            assert(all[k] == names@[k]@);
            all.lemma_filter_contains(keep, k);
        }
        assert forall|k: int| 0 <= k < r@.len() implies text::begins(
            (#[trigger] r@[k])@,
            phone::bus_prefix(),
        ) && names.deep_view().contains(r@[k]@) by {
            assert(r.deep_view()[k] == r@[k]@);
            all.lemma_filter_pred(keep, k);
            all.lemma_filter_contains_rev(keep, r.deep_view()[k]);
        }
    }
    r
}

/// What a player on the bus can be told.
#[derive(Debug, Clone, Copy, PartialEq, Eq, Structural)]
pub enum MprisControlAction {
    PlayPause,
    Next,
    Previous,
}

impl MprisControlAction {
    /// The method that an action calls.
    pub open spec fn method(self) -> Seq<char> {
        match self {
            MprisControlAction::PlayPause => "PlayPause"@,
            MprisControlAction::Next => "Next"@,
            MprisControlAction::Previous => "Previous"@,
        }
    }

    /// The method that the action calls on the player.
    pub fn method_name(&self) -> (r: &'static str)
        ensures
            r@ == self.method(),
            *self is PlayPause ==> r@ == "PlayPause"@,
            *self is Next ==> r@ == "Next"@,
            *self is Previous ==> r@ == "Previous"@,
    {
        match self {
            MprisControlAction::PlayPause => "PlayPause",
            MprisControlAction::Next => "Next",
            MprisControlAction::Previous => "Previous",
        }
    }
}

/// The messages to look through for unread ones: those that the service gave,
/// where it gave any.
pub fn messages_to_check(socket: Option<String>, bus: Option<String>) -> (r: Option<String>)
    ensures
        ({
            let json = if socket is Some {
                socket
            } else {
                bus
            };
            r == (if json is Some && json->0@.len() > 0 {
                json
            } else {
                None
            })
        }),
{
    let json = match socket {
        Some(s) => Some(s),
        None => bus,
    };
    match json {
        Some(s) => {
            if s.as_str().is_empty() {
                None
            } else {
                Some(s)
            }
        },
        None => None,
    }
}

/// Which ways to the service are open.
#[derive(Debug, Clone, Copy, PartialEq, Eq, Structural)]
pub struct Access {
    pub socket: bool,
    pub bus: bool,
}

/// Which ways to the service are open. The session bus alone is enough, and so
/// is the socket; where there is neither, the bus tells why.
pub fn initialize(socket: bool, bus: Result<(), String>) -> (r: Result<Access, String>)
    ensures
        r == (match bus {
            Ok(_) => Ok(Access { socket, bus: true }),
            Err(e) => if socket {
                Ok(Access { socket: true, bus: false })
            } else {
                Err(e)
            },
        }),
{
    match bus {
        Ok(_) => Ok(Access { socket, bus: true }),
        Err(e) => {
            if socket {
                Ok(Access { socket: true, bus: false })
            } else {
                Err(e)
            }
        },
    }
}

/// What came of a request. The answer of the socket counts, also where it is a
/// failure; only where the socket does not answer is the bus asked, and without
/// either the request fails.
pub fn via_varlink(
    socket: Option<Result<(), String>>,
    bus: Option<Result<(), String>>,
) -> (r: Result<(), String>)
    ensures
        socket is Some ==> r == socket->0,
        socket is None && bus is Some ==> r == bus->0,
        socket is None && bus is None ==> r is Err && r->Err_0@
            == "D-Bus client not initialized"@,
{
    match socket {
        Some(r) => r,
        None => match bus {
            Some(r) => r,
            None => Err("D-Bus client not initialized".to_owned()),
        },
    }
}

/// A list that the service was asked for. The first way that gives one counts;
/// where none does the list is empty.
pub fn listed(socket: Option<Vec<String>>, bus: Option<Vec<String>>) -> (r: Vec<String>)
    ensures
        socket is Some ==> r == socket->0,
        socket is None && bus is Some ==> r == bus->0,
        socket is None && bus is None ==> r@.len() == 0,
{
    match socket {
        Some(r) => r,
        None => match bus {
            Some(r) => r,
            None => Vec::new(),
        },
    }
}

/// What happened to the stream of events.
#[derive(Debug, Clone, Copy, PartialEq, Eq, Structural)]
pub enum StreamState {
    /// There is no client yet.
    NoClient,
    /// There is a client, which has not subscribed.
    Connected,
    SubscribeFailed,
    /// An event came; whether there is still someone to hand it to.
    Arrived(bool),
    Ended,
    /// The client was looked at; whether it is still the same.
    Checked(bool),
}

/// What to do with the stream of events.
#[derive(Debug, Clone, Copy, PartialEq, Eq, Structural)]
pub enum StreamAction {
    /// Look for a client after so many milliseconds.
    Connect(u64),
    Subscribe,
    /// Wait for the next event.
    Listen,
    Stop,
}

/// What to do with the stream of events. It is set up again until nobody
/// listens any more.
pub fn event_stream(state: StreamState) -> (r: StreamAction)
    ensures
        r == (match state {
            StreamState::NoClient => StreamAction::Connect(100),
            StreamState::Connected => StreamAction::Subscribe,
            StreamState::SubscribeFailed => StreamAction::Connect(1000),
            StreamState::Arrived(heard) => if heard {
                StreamAction::Listen
            } else {
                StreamAction::Stop
            },
            StreamState::Ended => StreamAction::Connect(1000),
            StreamState::Checked(same_client) => if same_client {
                StreamAction::Listen
            } else {
                StreamAction::Connect(0)
            },
        }),
{
    match state {
        StreamState::NoClient => StreamAction::Connect(100),
        StreamState::Connected => StreamAction::Subscribe,
        StreamState::SubscribeFailed => StreamAction::Connect(1000),
        StreamState::Arrived(heard) => {
            if heard {
                StreamAction::Listen
            } else {
                StreamAction::Stop
            }
        },
        StreamState::Ended => StreamAction::Connect(1000),
        StreamState::Checked(same_client) => {
            if same_client {
                StreamAction::Listen
            } else {
                StreamAction::Connect(0)
            }
        },
    }
}

/// The text of a ping.
pub fn ping_text() -> (r: &'static str)
    ensures
        r@ == "Ping from COSMIC!"@,
{
    "Ping from COSMIC!"
}

/// Every device of a list is shown, in the order of the list, with what the list
/// says of it, and is remembered. What is remembered of other devices stays.
pub proof fn lemma_lists_are_shown(
    listed: Seq<DbusDeviceModel>,
    mounted: Seq<Seq<char>>,
    cache: Map<Seq<char>, AppletDeviceModel>,
    i: int,
)
    requires
        0 <= i < listed.len(),
    ensures
        ({
            let (r, now) = all_merged(listed, mounted, cache);
            &&& r.len() == listed.len()
            &&& r[i].id == listed[i].id
            &&& r[i].name == listed[i].name
            &&& r[i].device_type == listed[i].device_type
            &&& r[i].is_paired == listed[i].is_paired
            &&& r[i].is_reachable == listed[i].is_reachable
            &&& r[i].is_mounted <==> mounted.contains(listed[i].id)
            &&& r[i].has_sms && r[i].has_share && r[i].has_sftp && r[i].has_clipboard
            &&& cache.contains_key(listed[i].id) ==> r[i].battery_level
                == cache[listed[i].id].battery_level && r[i].run_commands
                == cache[listed[i].id].run_commands
            &&& now.contains_key(listed[i].id)
            &&& forall|id: Seq<char>|
                (forall|k: int| 0 <= k < listed.len() ==> (#[trigger] listed[k]).id != id) ==> (
                #[trigger] now.contains_key(id) <==> cache.contains_key(id)) && (cache.contains_key(
                    id,
                ) ==> now[id] == cache[id])
        }),
    decreases listed.len(),
{
    let less = listed.drop_last();
    let (before, known_now) = all_merged(less, mounted, cache);
    lemma_merged_reports(less, mounted, cache);
    let (r, now) = all_merged(listed, mounted, cache);
    let last = listed.len() - 1;
    assert(listed[last] == listed.last());
    if i < last {
        assert(less[i] == listed[i]);
        lemma_lists_are_shown(less, mounted, cache, i);
        assert(r[i] == before[i]);
    } else if cache.contains_key(listed[i].id) {
        assert(known_now[listed[i].id].battery_level == cache[listed[i].id].battery_level);
    }
    assert forall|id: Seq<char>|
        (forall|k: int| 0 <= k < listed.len() ==> (#[trigger] listed[k]).id != id) implies (
    #[trigger] now.contains_key(id) <==> cache.contains_key(id)) && (cache.contains_key(id)
        ==> now[id] == cache[id]) by {
        assert(listed[last].id != id);
        assert forall|k: int| 0 <= k < less.len() implies (#[trigger] less[k]).id != id by {
            assert(listed[k].id != id);
        }
    }
}

proof fn lemma_merged_reports(
    listed: Seq<DbusDeviceModel>,
    mounted: Seq<Seq<char>>,
    cache: Map<Seq<char>, AppletDeviceModel>,
)
    ensures
        ({
            let (r, now) = all_merged(listed, mounted, cache);
            &&& r.len() == listed.len()
            &&& forall|id: Seq<char>|
                #![trigger now[id]]
                cache.contains_key(id) ==> now.contains_key(id) && now[id].battery_level
                    == cache[id].battery_level && now[id].run_commands == cache[id].run_commands
            &&& forall|id: Seq<char>|
                (forall|k: int| 0 <= k < listed.len() ==> (#[trigger] listed[k]).id != id) ==> (
                #[trigger] now.contains_key(id) <==> cache.contains_key(id)) && (cache.contains_key(
                    id,
                ) ==> now[id] == cache[id])
        }),
    decreases listed.len(),
{
    if listed.len() > 0 {
        let less = listed.drop_last();
        lemma_merged_reports(less, mounted, cache);
        let (r, now) = all_merged(listed, mounted, cache);
        let (before, known_now) = all_merged(less, mounted, cache);
        assert(listed[listed.len() - 1] == listed.last());
        assert forall|id: Seq<char>|
            #![trigger now[id]]
            cache.contains_key(id) implies now.contains_key(id) && now[id].battery_level
            == cache[id].battery_level && now[id].run_commands == cache[id].run_commands by {
            assert(known_now[id].battery_level == cache[id].battery_level);
        }
        assert forall|id: Seq<char>|
            (forall|k: int| 0 <= k < listed.len() ==> (#[trigger] listed[k]).id != id) implies (
        #[trigger] now.contains_key(id) <==> cache.contains_key(id)) && (cache.contains_key(id)
            ==> now[id] == cache[id]) by {
            assert(listed[listed.len() - 1].id != id);
            assert forall|k: int| 0 <= k < less.len() implies (#[trigger] less[k]).id != id by {
                assert(listed[k].id != id);
            }
        }
    }
}

/// The path of a file URI is what stands behind `file://`; anything else is taken
/// as it is.
pub proof fn lemma_file_uris(path: Seq<char>, other: Seq<char>)
    ensures
        local_path("file://"@ + path) == path,
        !text::begins(other, "file://"@) ==> local_path(other) == other,
{
    text::lemma_prefixes("file://"@, path, other);
}

/// A device of the session bus keeps everything but its type: it is a phone.
pub proof fn lemma_devices_of_the_bus_are_phones(d: DbusDeviceModel)
    ensures
        as_phone(d).device_type == "phone"@,
        as_phone(d).id == d.id,
        as_phone(d).name == d.name,
        as_phone(d).is_paired == d.is_paired,
        as_phone(d).is_reachable == d.is_reachable,
{
}

} // verus!
