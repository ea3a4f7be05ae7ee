//! What the popup of the panel applet shows.

use vstd::prelude::*;

use crate::applet::{AppletState, KdeConnectApplet, Message};
use crate::backend::{AppletDevice, AppletDeviceModel, NowPlaying, NowPlayingModel};
use crate::order;
use crate::order::{text_le, Ranked};
use crate::table::{Duplicate, TextMap};
use crate::text::same;
use crate::transfer::{copy_text, TransferState, TransferStatus};

verus! {

/// A line in the menu of a device.
#[derive(Debug, PartialEq, Eq)]
pub enum MenuItem {
    Ping,
    FindPhone,
    ShareClipboard,
    /// Text messages, and whether some are unread.
    Sms(bool),
    FilesHeader,
    SendFile,
    /// How far a file that is sent has come, in percent.
    Progress(u8),
    Browse,
    Unmount,
    CommandsHeader,
    /// A command: its key and its name.
    Command(String, String),
}

/// A line in the menu of a device, as a value.
pub enum MenuItemModel {
    Ping,
    FindPhone,
    ShareClipboard,
    Sms(bool),
    FilesHeader,
    SendFile,
    Progress(u8),
    Browse,
    Unmount,
    CommandsHeader,
    Command(Seq<char>, Seq<char>),
}

impl View for MenuItem {
    type V = MenuItemModel;

    open spec fn view(&self) -> MenuItemModel {
        match *self {
            MenuItem::Ping => MenuItemModel::Ping,
            MenuItem::FindPhone => MenuItemModel::FindPhone,
            MenuItem::ShareClipboard => MenuItemModel::ShareClipboard,
            MenuItem::Sms(unread) => MenuItemModel::Sms(unread),
            MenuItem::FilesHeader => MenuItemModel::FilesHeader,
            MenuItem::SendFile => MenuItemModel::SendFile,
            MenuItem::Progress(p) => MenuItemModel::Progress(p),
            MenuItem::Browse => MenuItemModel::Browse,
            MenuItem::Unmount => MenuItemModel::Unmount,
            MenuItem::CommandsHeader => MenuItemModel::CommandsHeader,
            MenuItem::Command(key, name) => MenuItemModel::Command(key@, name@),
        }
    }
}

/// The message of a press on a line of the menu, where it can be pressed.
pub open spec fn pressed(item: MenuItem, id: String) -> Option<Message> {
    match item {
        MenuItem::Ping => Some(Message::PingDevice(id)),
        MenuItem::FindPhone => Some(Message::RingDevice(id)),
        MenuItem::ShareClipboard => Some(Message::ShareClipboard(id)),
        MenuItem::Sms(_) => Some(Message::SendSMS(id)),
        MenuItem::SendFile => Some(Message::SendFiles(id)),
        MenuItem::Browse => Some(Message::BrowseDevice(id)),
        MenuItem::Unmount => Some(Message::UnmountDevice(id)),
        MenuItem::Command(key, _) => Some(Message::ExecuteRunCommand(id, key)),
        MenuItem::FilesHeader => None,
        MenuItem::Progress(_) => None,
        MenuItem::CommandsHeader => None,
    }
}

/// The message of a press on a line of the menu.
pub fn on_press(item: MenuItem, device_id: String) -> (r: Option<Message>)
    ensures
        r == pressed(item, device_id),
        r == (match item {
        MenuItem::Ping => Some(Message::PingDevice(device_id)),
        MenuItem::FindPhone => Some(Message::RingDevice(device_id)),
        MenuItem::ShareClipboard => Some(Message::ShareClipboard(device_id)),
        MenuItem::Sms(_) => Some(Message::SendSMS(device_id)),
        MenuItem::SendFile => Some(Message::SendFiles(device_id)),
        MenuItem::Browse => Some(Message::BrowseDevice(device_id)),
        MenuItem::Unmount => Some(Message::UnmountDevice(device_id)),
        MenuItem::Command(key, _) => Some(Message::ExecuteRunCommand(device_id, key)),
        MenuItem::FilesHeader => None,
        MenuItem::Progress(_) => None,
        MenuItem::CommandsHeader => None,
    }),
{
    match item {
        MenuItem::Ping => Some(Message::PingDevice(device_id)),
        MenuItem::FindPhone => Some(Message::RingDevice(device_id)),
        MenuItem::ShareClipboard => Some(Message::ShareClipboard(device_id)),
        MenuItem::Sms(_) => Some(Message::SendSMS(device_id)),
        MenuItem::SendFile => Some(Message::SendFiles(device_id)),
        MenuItem::Browse => Some(Message::BrowseDevice(device_id)),
        MenuItem::Unmount => Some(Message::UnmountDevice(device_id)),
        MenuItem::Command(key, _) => Some(Message::ExecuteRunCommand(device_id, key)),
        MenuItem::FilesHeader => None,
        MenuItem::Progress(_) => None,
        MenuItem::CommandsHeader => None,
    }
}

/// One item or none.
pub open spec fn only_if(shown: bool, item: MenuItemModel) -> Seq<MenuItemModel> {
    if shown {
        seq![item]
    } else {
        Seq::empty()
    }
}

/// The menu of a device that can be reached.
pub open spec fn menu(d: AppletDeviceModel, unread: bool) -> Seq<MenuItemModel> {
    only_if(true, MenuItemModel::Ping) + only_if(d.has_findmyphone, MenuItemModel::FindPhone)
        + only_if(d.has_clipboard, MenuItemModel::ShareClipboard) + only_if(
        true,
        MenuItemModel::Sms(unread),
    ) + only_if(d.has_share || d.has_sftp, MenuItemModel::FilesHeader) + only_if(
        d.has_share,
        MenuItemModel::SendFile,
    ) + only_if(
        d.has_share && d.share_progress is Some && d.share_progress->0 > 0,
        MenuItemModel::Progress(d.share_progress->0),
    ) + only_if(d.has_sftp, MenuItemModel::Browse) + only_if(
        d.has_sftp && d.is_mounted,
        MenuItemModel::Unmount,
    ) + only_if(d.run_commands.len() > 0, MenuItemModel::CommandsHeader)
        + d.run_commands.map_values(
        |c: (Seq<char>, Seq<char>)| MenuItemModel::Command(c.0, c.1),
    )
}

fn add(list: &mut Vec<MenuItem>, shown: bool, item: MenuItem)
    ensures
        order::views(final(list)@) == order::views(old(list)@) + only_if(shown, item@),
{
    let ghost before = order::views(list@);
    if shown {
        list.push(item);
        proof {
            assert(order::views(list@) =~= before + seq![item@]);
        }
    } else {
        proof {
            assert(before =~= before + Seq::<MenuItemModel>::empty());
        }
    }
}

fn device_menu(device: &AppletDevice, unread: bool) -> (r: Vec<MenuItem>)
    ensures
        order::views(r@) == menu(device@, unread),
{
    let mut list: Vec<MenuItem> = Vec::new();
    proof {
        assert(order::views(list@) + only_if(true, MenuItemModel::Ping) =~= only_if(
            true,
            MenuItemModel::Ping,
        ));
    }
    let progress = match device.share_progress {
        Some(p) => p,
        None => 0,
    };
    self::add(&mut list, true, MenuItem::Ping);
    self::add(&mut list, device.has_findmyphone, MenuItem::FindPhone);
    self::add(&mut list, device.has_clipboard, MenuItem::ShareClipboard);
    self::add(&mut list, true, MenuItem::Sms(unread));
    self::add(&mut list, device.has_share || device.has_sftp, MenuItem::FilesHeader);
    self::add(&mut list, device.has_share, MenuItem::SendFile);
    self::add(&mut list, device.has_share && progress > 0, MenuItem::Progress(progress));
    self::add(&mut list, device.has_sftp, MenuItem::Browse);
    self::add(&mut list, device.has_sftp && device.is_mounted, MenuItem::Unmount);
    self::add(&mut list, device.run_commands.len() > 0, MenuItem::CommandsHeader);
    let ghost head = order::views(list@);
    let ghost n = list@.len();
    let ghost commands = device.run_commands.deep_view();
    let mut i: usize = 0;
    while i < device.run_commands.len()
        invariant
            i <= device.run_commands@.len(),
            list@.len() == n + i,
            head.len() == n,
            commands == device.run_commands.deep_view(),
            forall|k: int| 0 <= k < n ==> (#[trigger] list@[k])@ == head[k],
            forall|k: int|
                n <= k < n + i ==> (#[trigger] list@[k])@ == MenuItemModel::Command(
                    commands[k - n].0,
                    commands[k - n].1,
                ),
        decreases device.run_commands@.len() - i,
    {
        let command = &device.run_commands[i];
        proof {
            assert(commands[i as int] == (command.0@, command.1@));
        }
        list.push(MenuItem::Command(command.0.clone(), command.1.clone()));
        i = i + 1;
    }
    proof {
        assert(order::views(list@) =~= head + commands.map_values(
            |c: (Seq<char>, Seq<char>)| MenuItemModel::Command(c.0, c.1),
        ));
    }
    list
}

/// What is shown of a transfer.
#[derive(Debug, PartialEq, Eq)]
pub enum TransferLine {
    /// The name of the file, how much has come and how much is to come.
    Receiving(Option<String>, u64, Option<u64>),
    /// The name of the file and where it is.
    Completed(Option<String>, Option<String>),
    /// The name of the file, where it failed and why.
    Failed(Option<String>, String, String),
}

/// What is shown of a transfer, by its report.
pub open spec fn line(s: TransferStatus) -> TransferLine {
    match s.state {
        TransferState::Receiving => TransferLine::Receiving(
            s.filename,
            s.received_bytes,
            s.expected_size,
        ),
        TransferState::Completed => TransferLine::Completed(s.filename, s.saved_path),
        TransferState::Failed { stage, reason } => TransferLine::Failed(
            s.filename,
            stage,
            reason,
        ),
    }
}

fn transfer_line(s: TransferStatus) -> (r: TransferLine)
    ensures
        r == line(s),
{
    match s.state {
        TransferState::Receiving => TransferLine::Receiving(
            s.filename,
            s.received_bytes,
            s.expected_size,
        ),
        TransferState::Completed => TransferLine::Completed(s.filename, s.saved_path),
        TransferState::Failed { stage, reason } => TransferLine::Failed(
            s.filename,
            stage,
            reason,
        ),
    }
}

/// The lines on the transfers of a device.
pub open spec fn lines(transfers: Seq<TransferStatus>, id: Seq<char>) -> Seq<TransferLine> {
    transfers.filter(|s: TransferStatus| s.device_id@ == id).map_values(
        |s: TransferStatus| line(s),
    )
}

fn transfer_lines(applet: &KdeConnectApplet, id: &str) -> (r: Vec<TransferLine>)
    ensures
        r@ == lines(applet@.recent_transfers, id@),
        r@ == applet@.recent_transfers.filter(
            |s: TransferStatus| s.device_id@ == id@,
        ).map_values(|s: TransferStatus| line(s)),
{
    let list = applet.recent_transfers.of_device(id);
    let mut r: Vec<TransferLine> = Vec::new();
    let mut i: usize = 0;
    while i < list.len()
        invariant
            i <= list@.len(),
            r@.len() == i,
            forall|k: int| 0 <= k < i ==> #[trigger] r@[k] == line(list@[k]),
        decreases list@.len() - i,
    {
        r.push(transfer_line(list[i].copy()));
        i = i + 1;
    }
    proof {
        assert(r@ =~= list@.map_values(|s: TransferStatus| line(s)));
    }
    r
}

/// What is shown of a device.
#[derive(Debug, PartialEq, Eq)]
pub struct DeviceCard {
    pub device_id: String,
    pub name: String,
    pub online: bool,
    /// The signal, of a device that can be reached.
    pub signal: Option<i32>,
    /// The battery in percent, of a device that can be reached.
    pub battery: Option<i32>,
    pub expanded: bool,
    /// The menu, of an expanded device that can be reached.
    pub menu: Vec<MenuItem>,
    /// Says that an expanded device cannot be reached.
    pub unreachable: bool,
    pub transfers: Vec<TransferLine>,
}

/// What is shown of a device, as a value.
pub struct DeviceCardModel {
    pub device_id: Seq<char>,
    pub name: Seq<char>,
    pub online: bool,
    pub signal: Option<i32>,
    pub battery: Option<i32>,
    pub expanded: bool,
    pub menu: Seq<MenuItemModel>,
    pub unreachable: bool,
    pub transfers: Seq<TransferLine>,
}

impl View for DeviceCard {
    type V = DeviceCardModel;

    open spec fn view(&self) -> DeviceCardModel {
        DeviceCardModel {
            device_id: self.device_id@,
            name: self.name@,
            online: self.online,
            signal: self.signal,
            battery: self.battery,
            expanded: self.expanded,
            menu: order::views(self.menu@),
            unreachable: self.unreachable,
            transfers: self.transfers@,
        }
    }
}

/// Whether a device has unread messages.
pub open spec fn unread_of(unread: Map<Seq<char>, bool>, id: Seq<char>) -> bool {
    unread.contains_key(id) && unread[id]
}

/// What is shown of a device.
pub open spec fn device_card(d: AppletDeviceModel, s: AppletState) -> DeviceCardModel {
    let expanded = s.expanded_device == Some(d.id);
    DeviceCardModel {
        device_id: d.id,
        name: d.name,
        online: d.is_reachable,
        signal: if d.is_reachable {
            d.signal_strength
        } else {
            None
        },
        battery: if d.is_reachable {
            d.battery_level
        } else {
            None
        },
        expanded,
        menu: if expanded && d.is_reachable {
            menu(d, unread_of(s.unread_sms, d.id))
        } else {
            Seq::empty()
        },
        unreachable: expanded && !d.is_reachable,
        transfers: lines(s.recent_transfers, d.id),
    }
}

/// What is shown of the device.
pub fn create_device_card(device: &AppletDevice, applet: &KdeConnectApplet) -> (r: DeviceCard)
    requires
        applet.wf(),
    ensures
        r@ == device_card(device@, applet@),
        r@.device_id == device@.id,
        r@.name == device@.name,
        r@.online == device@.is_reachable,
        device@.is_reachable ==> r@.signal == device@.signal_strength && r@.battery
            == device@.battery_level,
        !device@.is_reachable ==> r@.signal is None && r@.battery is None,
        r@.expanded <==> applet@.expanded_device == Some(device@.id),
        r@.unreachable <==> r@.expanded && !device@.is_reachable,
        r@.menu.len() > 0 <==> r@.expanded && device@.is_reachable,
        r@.expanded && device@.is_reachable ==> r@.menu == menu(
            device@,
            applet@.unread_sms.contains_key(device@.id) && applet@.unread_sms[device@.id],
        ),
        r@.transfers == lines(applet@.recent_transfers, device@.id),
{
    let expanded = match &applet.expanded_device {
        Some(id) => same(id, &device.id),
        None => false,
    };
    let online = device.is_reachable;
    let unread = match applet.unread_sms.get(&device.id) {
        Some(u) => *u,
        None => false,
    };
    let menu = if expanded && online {
        device_menu(device, unread)
    } else {
        Vec::new()
    };
    proof {
        if !(expanded && online) {
            assert(order::views(menu@) =~= Seq::<MenuItemModel>::empty());
        }
    }
    DeviceCard {
        device_id: device.id.clone(),
        name: device.name.clone(),
        online,
        signal: if online {
            device.signal_strength
        } else {
            None
        },
        battery: if online {
            device.battery_level
        } else {
            None
        },
        expanded,
        menu,
        unreachable: expanded && !online,
        transfers: transfer_lines(applet, &device.id),
    }
}

/// What is shown of a player.
#[derive(Debug, PartialEq, Eq)]
pub struct MediaCard {
    pub bus_name: String,
    pub art_path: Option<String>,
    /// The player, above the title where there is one.
    pub caption: Option<String>,
    /// The title, or else the player.
    pub heading: String,
    pub artist: Option<String>,
    pub is_playing: bool,
    /// Which of the buttons can be pressed.
    pub previous: bool,
    pub play_pause: bool,
    pub next: bool,
}

/// What is shown of a player, as a value.
pub struct MediaCardModel {
    pub bus_name: Seq<char>,
    pub art_path: Option<Seq<char>>,
    pub caption: Option<Seq<char>>,
    pub heading: Seq<char>,
    pub artist: Option<Seq<char>>,
    pub is_playing: bool,
    pub previous: bool,
    pub play_pause: bool,
    pub next: bool,
}

impl View for MediaCard {
    type V = MediaCardModel;

    open spec fn view(&self) -> MediaCardModel {
        MediaCardModel {
            bus_name: self.bus_name@,
            art_path: self.art_path.deep_view(),
            caption: self.caption.deep_view(),
            heading: self.heading@,
            artist: self.artist.deep_view(),
            is_playing: self.is_playing,
            previous: self.previous,
            play_pause: self.play_pause,
            next: self.next,
        }
    }
}

/// What is shown of a player. Without a title its name is the only line; an
/// empty artist is not shown.
pub open spec fn media_card(bus_name: Seq<char>, p: NowPlayingModel) -> MediaCardModel {
    MediaCardModel {
        bus_name,
        art_path: p.art_path,
        caption: if p.title is Some {
            Some(p.identity)
        } else {
            None
        },
        heading: if p.title is Some {
            p.title->0
        } else {
            p.identity
        },
        artist: if p.artist is Some && p.artist->0.len() > 0 {
            p.artist
        } else {
            None
        },
        is_playing: p.is_playing,
        previous: p.can_go_previous,
        play_pause: p.can_play || p.can_pause,
        next: p.can_go_next,
    }
}

/// What is shown of the player.
pub fn create_media_card(bus_name: &str, player: &NowPlaying) -> (r: MediaCard)
    ensures
        r@ == media_card(bus_name@, player@),
        r@ == (MediaCardModel {
        bus_name: bus_name@,
        art_path: player@.art_path,
        caption: if player@.title is Some {
            Some(player@.identity)
        } else {
            None
        },
        heading: if player@.title is Some {
            player@.title->0
        } else {
            player@.identity
        },
        artist: if player@.artist is Some && player@.artist->0.len() > 0 {
            player@.artist
        } else {
            None
        },
        is_playing: player@.is_playing,
        previous: player@.can_go_previous,
        play_pause: player@.can_play || player@.can_pause,
        next: player@.can_go_next,
    }),
{
    let (caption, heading) = match &player.title {
        Some(title) => (Some(player.identity.clone()), title.clone()),
        None => (None, player.identity.clone()),
    };
    let artist = match &player.artist {
        Some(a) => {
            if a.as_str().is_empty() {
                None
            } else {
                Some(a.clone())
            }
        },
        None => None,
    };
    MediaCard {
        bus_name: bus_name.to_owned(),
        art_path: copy_text(&player.art_path),
        caption,
        heading,
        artist,
        is_playing: player.is_playing,
        previous: player.can_go_previous,
        play_pause: player.can_play || player.can_pause,
        next: player.can_go_next,
    }
}

impl Ranked for AppletDevice {
    /// Devices go by their names.
    open spec fn precedes(a: AppletDeviceModel, b: AppletDeviceModel) -> bool {
        order::text_before(a.name, b.name)
    }

    fn may_precede(&self, other: &Self) -> (r: bool) {
        text_le(&self.name, &other.name)
    }
}

impl Ranked for (String, NowPlaying) {
    /// Players go by the names that they are shown under.
    open spec fn precedes(a: (Seq<char>, NowPlayingModel), b: (Seq<char>, NowPlayingModel)) -> bool {
        order::text_before(a.1.identity, b.1.identity)
    }

    fn may_precede(&self, other: &Self) -> (r: bool) {
        text_le(&self.1.identity, &other.1.identity)
    }
}

impl Duplicate for NowPlaying {
    fn duplicate(&self) -> (r: Self) {
        NowPlaying {
            identity: self.identity.clone(),
            title: copy_text(&self.title),
            artist: copy_text(&self.artist),
            is_playing: self.is_playing,
            can_play: self.can_play,
            can_pause: self.can_pause,
            can_go_next: self.can_go_next,
            can_go_previous: self.can_go_previous,
            art_path: copy_text(&self.art_path),
        }
    }
}

/// The devices that are shown: the paired ones, by name. Devices with one name
/// stand as they were listed.
pub open spec fn shown_devices(entries: Seq<(Seq<char>, AppletDeviceModel)>) -> Seq<
    AppletDeviceModel,
> {
    order::sorted::<AppletDevice>(
        entries.map_values(|e: (Seq<char>, AppletDeviceModel)| e.1).filter(
            |d: AppletDeviceModel| d.is_paired,
        ),
    )
}

/// A player that can be controlled at all.
pub open spec fn controllable(p: NowPlayingModel) -> bool {
    p.can_play || p.can_pause || p.can_go_next || p.can_go_previous
}

/// The players that are shown: those that can be controlled, by name.
pub open spec fn shown_players(entries: Seq<(Seq<char>, NowPlayingModel)>) -> Seq<
    (Seq<char>, NowPlayingModel),
> {
    order::sorted::<(String, NowPlaying)>(
        entries.filter(|e: (Seq<char>, NowPlayingModel)| controllable(e.1)),
    )
}

fn list_devices(devices: &TextMap<AppletDevice>) -> (r: Vec<AppletDevice>)
    ensures
        order::views(r@) == shown_devices(order::views(devices.list())),
{
    let ghost all = order::views(devices.list()).map_values(
        |e: (Seq<char>, AppletDeviceModel)| e.1,
    );
    let ghost keep = |d: AppletDeviceModel| d.is_paired;
    let mut r: Vec<AppletDevice> = Vec::new();
    let mut i: usize = 0;
    proof {
        assert(all.take(0) =~= Seq::empty());
        assert(order::views(r@) =~= Seq::<AppletDeviceModel>::empty());
    }
    while i < devices.len()
        invariant
            i <= devices.list().len(),
            all == order::views(devices.list()).map_values(
                |e: (Seq<char>, AppletDeviceModel)| e.1,
            ),
            keep == (|d: AppletDeviceModel| d.is_paired),
            order::views(r@) == all.take(i as int).filter(keep),
        decreases devices.list().len() - i,
    {
        let ghost before = order::views(r@);
        proof {
            assert(all.take(i + 1) =~= all.take(i as int).push(all[i as int]));
            assert(order::views(devices.list())[i as int] == devices.list()[i as int]@);
            assert(all[i as int] == devices.list()[i as int].1@);
            all.take(i as int).lemma_filter_push(all[i as int], keep);
        }
        let d = devices.value_at(i);
        if d.is_paired {
            r.push(d.duplicate());
            proof {
                assert(order::views(r@) =~= before.push(all[i as int]));
            }
        }
        i = i + 1;
    }
    proof {
        assert(all.take(i as int) =~= all);
    }
    order::sort(&mut r);
    r
}

fn list_players(players: &TextMap<NowPlaying>) -> (r: Vec<(String, NowPlaying)>)
    ensures
        order::views(r@) == shown_players(order::views(players.list())),
{
    let ghost all = order::views(players.list());
    let ghost keep = |e: (Seq<char>, NowPlayingModel)| controllable(e.1);
    let mut r: Vec<(String, NowPlaying)> = Vec::new();
    let mut i: usize = 0;
    proof {
        assert(all.take(0) =~= Seq::empty());
        assert(order::views(r@) =~= Seq::<(Seq<char>, NowPlayingModel)>::empty());
    }
    while i < players.len()
        invariant
            i <= players.list().len(),
            all == order::views(players.list()),
            keep == (|e: (Seq<char>, NowPlayingModel)| controllable(e.1)),
            order::views(r@) == all.take(i as int).filter(keep),
        decreases players.list().len() - i,
    {
        let ghost before = order::views(r@);
        proof {
            assert(all.take(i + 1) =~= all.take(i as int).push(all[i as int]));
            assert(all[i as int] == players.list()[i as int]@);
            all.take(i as int).lemma_filter_push(all[i as int], keep);
        }
        let p = players.value_at(i);
        if p.can_play || p.can_pause || p.can_go_next || p.can_go_previous {
            r.push((players.key_at(i).clone(), p.duplicate()));
            proof {
                assert(order::views(r@) =~= before.push(all[i as int]));
            }
        }
        i = i + 1;
    }
    proof {
        assert(all.take(i as int) =~= all);
    }
    order::sort(&mut r);
    r
}

/// What the popup shows.
#[derive(Debug, PartialEq, Eq)]
pub struct PopupView {
    pub error_banner: Option<String>,
    /// Devices that want to pair, with their names, in the order of the names.
    pub pairing_requests: Vec<(String, String)>,
    pub devices: Vec<DeviceCard>,
    /// Says that no device is paired.
    pub none_paired: bool,
    pub players: Vec<MediaCard>,
}

/// What the popup shows: what went wrong, who wants to pair, the paired devices
/// and the players that can be controlled.
pub fn create_popup_view(applet: &KdeConnectApplet) -> (r: PopupView)
    requires
        applet.wf(),
    ensures
        r.error_banner.deep_view() == applet@.error_banner,
        order::views(r.pairing_requests@) == order::sorted::<(String, String)>(
            order::views(applet.pairing_requests.list()),
        ),
        order::views(r.devices@) == shown_devices(order::views(applet.devices.list())).map_values(
            |d: AppletDeviceModel| device_card(d, applet@),
        ),
        r.none_paired == (r.devices@.len() == 0),
        order::views(r.players@) == shown_players(
            order::views(applet.now_playing.list()),
        ).map_values(|e: (Seq<char>, NowPlayingModel)| media_card(e.0, e.1)),
{
    let mut pairing_requests = applet.pairing_requests.to_entries();
    order::sort(&mut pairing_requests);
    let paired = list_devices(&applet.devices);
    let mut devices: Vec<DeviceCard> = Vec::new();
    let mut i: usize = 0;
    while i < paired.len()
        invariant
            i <= paired@.len(),
            applet.wf(),
            devices@.len() == i,
            forall|k: int|
                0 <= k < i ==> (#[trigger] devices@[k])@ == device_card(paired@[k]@, applet@),
        decreases paired@.len() - i,
    {
        devices.push(create_device_card(&paired[i], applet));
        i = i + 1;
    }
    proof {
        assert(order::views(devices@) =~= order::views(paired@).map_values(
            |d: AppletDeviceModel| device_card(d, applet@),
        ));
    }
    let active = list_players(&applet.now_playing);
    let mut players: Vec<MediaCard> = Vec::new();
    let mut j: usize = 0;
    while j < active.len()
        invariant
            j <= active@.len(),
            players@.len() == j,
            forall|k: int|
                0 <= k < j ==> (#[trigger] players@[k])@ == media_card(
                    active@[k].0@,
                    active@[k].1@,
                ),
        decreases active@.len() - j,
    {
        players.push(create_media_card(&active[j].0, &active[j].1));
        j = j + 1;
    }
    proof {
        assert(order::views(players@) =~= order::views(active@).map_values(
            |e: (Seq<char>, NowPlayingModel)| media_card(e.0, e.1),
        ));
    }
    let none_paired = devices.len() == 0;
    PopupView {
        error_banner: copy_text(&applet.error_banner),
        pairing_requests,
        devices,
        none_paired,
        players,
    }
}

proof fn lemma_names_rank()
    ensures
        order::ranks::<AppletDevice>(),
{
    assert forall|a: AppletDeviceModel, b: AppletDeviceModel|
        #![trigger <AppletDevice as Ranked>::precedes(a, b)]
        <AppletDevice as Ranked>::precedes(a, b) || <AppletDevice as Ranked>::precedes(b, a) by {
        order::lemma_text_total(a.name, b.name);
    }
    assert forall|a: AppletDeviceModel, b: AppletDeviceModel, c: AppletDeviceModel|
        #![trigger <AppletDevice as Ranked>::precedes(a, b), <AppletDevice as Ranked>::precedes(b, c)]
        <AppletDevice as Ranked>::precedes(a, b) && <AppletDevice as Ranked>::precedes(
            b,
            c,
        ) implies <AppletDevice as Ranked>::precedes(a, c) by {
        order::lemma_text_transitive(a.name, b.name, c.name);
    }
}

/// The popup shows every paired device, no other, and all in the order of their
/// names.
pub proof fn lemma_paired_devices_are_shown(
    entries: Seq<(Seq<char>, AppletDeviceModel)>,
    d: AppletDeviceModel,
)
    ensures
        order::in_order::<AppletDevice>(shown_devices(entries)),
        forall|i: int, j: int|
            #![trigger shown_devices(entries)[i], shown_devices(entries)[j]]
            0 <= i < j < shown_devices(entries).len() ==> order::text_before(
                shown_devices(entries)[i].name,
                shown_devices(entries)[j].name,
            ),
        shown_devices(entries).contains(d) <==> d.is_paired && exists|i: int|
            0 <= i < entries.len() && #[trigger] entries[i].1 == d,
{
    broadcast use vstd::seq_lib::group_to_multiset_ensures;

    let values = entries.map_values(|e: (Seq<char>, AppletDeviceModel)| e.1);
    let keep = |d: AppletDeviceModel| d.is_paired;
    let kept = values.filter(keep);
    lemma_names_rank();
    order::lemma_sorted::<AppletDevice>(kept);
    let shown = shown_devices(entries);
    assert forall|i: int, j: int|
        #![trigger shown[i], shown[j]]
        0 <= i < j < shown.len() implies order::text_before(shown[i].name, shown[j].name) by {
        assert(<AppletDevice as Ranked>::precedes(shown[i], shown[j]));
    }
    assert(shown.contains(d) <==> shown.to_multiset().contains(d));
    assert(kept.contains(d) <==> kept.to_multiset().contains(d));
    if kept.contains(d) {
        let k = choose|k: int| 0 <= k < kept.len() && kept[k] == d;
        values.lemma_filter_pred(keep, k);
        values.lemma_filter_contains_rev(keep, d);
        let i = choose|i: int| 0 <= i < values.len() && values[i] == d;
        assert(entries[i].1 == d);
    }
    if d.is_paired && exists|i: int| 0 <= i < entries.len() && #[trigger] entries[i].1 == d {
        let i = choose|i: int| 0 <= i < entries.len() && #[trigger] entries[i].1 == d;
        assert(values[i] == d);
        values.lemma_filter_contains(keep, i);
    }
}

/// A device that cannot be reached offers no menu, whatever it can do.
pub proof fn lemma_unreachable_devices_offer_nothing(d: AppletDeviceModel, s: AppletState)
    requires
        !d.is_reachable,
    ensures
        device_card(d, s).menu.len() == 0,
        device_card(d, s).battery is None,
        device_card(d, s).signal is None,
        device_card(d, s).unreachable == (s.expanded_device == Some(d.id)),
{
}

proof fn lemma_only_if(list: Seq<MenuItemModel>, shown: bool, item: MenuItemModel, m: MenuItemModel)
    ensures
        (list + only_if(shown, item)).contains(m) <==> list.contains(m) || (shown && m == item),
        list.len() > 0 ==> (list + only_if(shown, item))[0] == list[0],
        (list + only_if(shown, item)).len() >= list.len(),
{
    let all = list + only_if(shown, item);
    if list.contains(m) {
        let i = choose|i: int| 0 <= i < list.len() && list[i] == m;
        assert(all[i] == m);
    }
    if shown && m == item {
        assert(all[list.len() as int] == m);
    }
}

/// What the menu of a device offers: a ping first and its messages always,
/// everything else exactly where the device has it. How far a file has come is
/// shown once some of it has.
pub proof fn lemma_menus_offer_what_the_device_has(
    d: AppletDeviceModel,
    unread: bool,
    m: MenuItemModel,
)
    ensures
        menu(d, unread).len() > 0 && menu(d, unread)[0] is Ping,
        m is Ping ==> menu(d, unread).contains(m),
        m matches MenuItemModel::Sms(u) ==> (menu(d, unread).contains(m) <==> u == unread),
        m is FindPhone ==> (menu(d, unread).contains(m) <==> d.has_findmyphone),
        m is ShareClipboard ==> (menu(d, unread).contains(m) <==> d.has_clipboard),
        m is FilesHeader ==> (menu(d, unread).contains(m) <==> d.has_share || d.has_sftp),
        m is SendFile ==> (menu(d, unread).contains(m) <==> d.has_share),
        m is Browse ==> (menu(d, unread).contains(m) <==> d.has_sftp),
        m is Unmount ==> (menu(d, unread).contains(m) <==> d.has_sftp && d.is_mounted),
        m is CommandsHeader ==> (menu(d, unread).contains(m) <==> d.run_commands.len() > 0),
        m matches MenuItemModel::Progress(p) ==> (menu(d, unread).contains(m) <==> d.has_share
            && d.share_progress == Some(p) && p > 0),
        m matches MenuItemModel::Command(key, name) ==> (menu(d, unread).contains(m)
            <==> d.run_commands.contains((key, name))),
{
    let a = only_if(true, MenuItemModel::Ping);
    let b = a + only_if(d.has_findmyphone, MenuItemModel::FindPhone);
    let c = b + only_if(d.has_clipboard, MenuItemModel::ShareClipboard);
    let e = c + only_if(true, MenuItemModel::Sms(unread));
    let f = e + only_if(d.has_share || d.has_sftp, MenuItemModel::FilesHeader);
    let g = f + only_if(d.has_share, MenuItemModel::SendFile);
    let p = d.has_share && d.share_progress is Some && d.share_progress->0 > 0;
    let h = g + only_if(p, MenuItemModel::Progress(d.share_progress->0));
    let k = h + only_if(d.has_sftp, MenuItemModel::Browse);
    let l = k + only_if(d.has_sftp && d.is_mounted, MenuItemModel::Unmount);
    let n = l + only_if(d.run_commands.len() > 0, MenuItemModel::CommandsHeader);
    assert(a.contains(m) <==> m is Ping) by {
        assert(a[0] is Ping);
    }
    lemma_only_if(a, d.has_findmyphone, MenuItemModel::FindPhone, m);
    lemma_only_if(b, d.has_clipboard, MenuItemModel::ShareClipboard, m);
    lemma_only_if(c, true, MenuItemModel::Sms(unread), m);
    lemma_only_if(e, d.has_share || d.has_sftp, MenuItemModel::FilesHeader, m);
    lemma_only_if(f, d.has_share, MenuItemModel::SendFile, m);
    lemma_only_if(g, p, MenuItemModel::Progress(d.share_progress->0), m);
    lemma_only_if(h, d.has_sftp, MenuItemModel::Browse, m);
    lemma_only_if(k, d.has_sftp && d.is_mounted, MenuItemModel::Unmount, m);
    lemma_only_if(l, d.run_commands.len() > 0, MenuItemModel::CommandsHeader, m);
    lemma_menu_commands(n, d.run_commands, m);
    assert(menu(d, unread) == n + commands_of(d.run_commands));
}

spec fn commands_of(commands: Seq<(Seq<char>, Seq<char>)>) -> Seq<MenuItemModel> {
    commands.map_values(|c: (Seq<char>, Seq<char>)| MenuItemModel::Command(c.0, c.1))
}

proof fn lemma_menu_commands(
    list: Seq<MenuItemModel>,
    commands: Seq<(Seq<char>, Seq<char>)>,
    m: MenuItemModel,
)
    ensures
        (list + commands_of(commands)).contains(m) <==> list.contains(m) || (
        m matches MenuItemModel::Command(key, name) && commands.contains((key, name))),
        list.len() > 0 ==> (list + commands_of(commands))[0] == list[0],
{
    let shown = commands_of(commands);
    let all = list + shown;
    if list.contains(m) {
        let i = choose|i: int| 0 <= i < list.len() && list[i] == m;
        assert(all[i] == m);
    }
    match m {
        MenuItemModel::Command(key, name) => {
            if commands.contains((key, name)) {
                let i = choose|i: int| 0 <= i < commands.len() && commands[i] == (key, name);
                assert(all[list.len() + i] == shown[i]);
            }
        },
        _ => {},
    }
    if all.contains(m) && !list.contains(m) {
        let i = choose|i: int| 0 <= i < all.len() && all[i] == m;
        assert(i >= list.len());
        assert(all[i] == shown[i - list.len()]);
        assert(commands[i - list.len()] == (m->Command_0, m->Command_1));
    }
}

/// What is shown of a transfer: how much has come while it is received, where the
/// file is once it has, and where and why it failed.
pub proof fn lemma_transfers_are_shown(s: TransferStatus)
    ensures
        s.state is Receiving ==> line(s) == TransferLine::Receiving(
            s.filename,
            s.received_bytes,
            s.expected_size,
        ),
        s.state is Completed ==> line(s) == TransferLine::Completed(s.filename, s.saved_path),
        s.state matches TransferState::Failed { stage, reason } ==> line(s)
            == TransferLine::Failed(s.filename, stage, reason),
{
}

proof fn lemma_players_rank()
    ensures
        order::ranks::<(String, NowPlaying)>(),
{
    assert forall|a: (Seq<char>, NowPlayingModel), b: (Seq<char>, NowPlayingModel)|
        #![trigger <(String, NowPlaying) as Ranked>::precedes(a, b)]
        <(String, NowPlaying) as Ranked>::precedes(a, b)
            || <(String, NowPlaying) as Ranked>::precedes(b, a) by {
        order::lemma_text_total(a.1.identity, b.1.identity);
    }
    assert forall|
        a: (Seq<char>, NowPlayingModel),
        b: (Seq<char>, NowPlayingModel),
        c: (Seq<char>, NowPlayingModel),
    |
        #![trigger <(String, NowPlaying) as Ranked>::precedes(a, b), <(String, NowPlaying) as Ranked>::precedes(b, c)]
        <(String, NowPlaying) as Ranked>::precedes(a, b) && <(String, NowPlaying) as Ranked>::precedes(
            b,
            c,
        ) implies <(String, NowPlaying) as Ranked>::precedes(a, c) by {
        order::lemma_text_transitive(a.1.identity, b.1.identity, c.1.identity);
    }
}

/// The popup shows every player that can be controlled at all, and no other.
pub proof fn lemma_controllable_players_are_shown(
    entries: Seq<(Seq<char>, NowPlayingModel)>,
    e: (Seq<char>, NowPlayingModel),
)
    ensures
        shown_players(entries).contains(e) <==> entries.contains(e) && (e.1.can_play
            || e.1.can_pause || e.1.can_go_next || e.1.can_go_previous),
{
    broadcast use vstd::seq_lib::group_to_multiset_ensures;

    let keep = |x: (Seq<char>, NowPlayingModel)| controllable(x.1);
    let kept = entries.filter(keep);
    lemma_players_rank();
    order::lemma_sorted::<(String, NowPlaying)>(kept);
    assert(shown_players(entries).contains(e) <==> kept.contains(e)) by {
        assert(shown_players(entries).to_multiset().count(e) == kept.to_multiset().count(e));
    }
    if entries.contains(e) && controllable(e.1) {
        let i = choose|i: int| 0 <= i < entries.len() && entries[i] == e;
        entries.lemma_filter_contains(keep, i);
    }
    if kept.contains(e) {
        let i = choose|i: int| 0 <= i < kept.len() && kept[i] == e;
        entries.lemma_filter_pred(keep, i);
        entries.lemma_filter_contains_rev(keep, e);
    }
}

/// A device shows the transfers that are its own, all of them and no others.
pub proof fn lemma_transfers_stay_with_their_device(
    transfers: Seq<TransferStatus>,
    status: TransferStatus,
    id: Seq<char>,
)
    ensures
        status.device_id@ == id ==> lines(transfers.push(status), id) == lines(transfers, id).push(
            line(status),
        ),
        status.device_id@ != id ==> lines(transfers.push(status), id) == lines(transfers, id),
        lines(Seq::empty(), id).len() == 0,
{
    broadcast use Seq::lemma_filter_push;

    assert(lines(transfers.push(status), id).len() >= 0);
}

} // verus!
