//! The state behind the settings window.

use vstd::prelude::*;

use crate::backend::{AppletDevice, AppletDeviceModel};
use crate::client::ServiceEvent;
use crate::encode::fresh_id;
use crate::order;
use crate::table::{Duplicate, TextMap, TextSet};
use crate::text;
use crate::text::{same, trim};
use crate::transfer::copy_text;

verus! {

/// A plugin that can be switched on and off.
#[derive(Debug, PartialEq, Eq)]
pub struct PluginInfo {
    pub id: &'static str,
    /// The key of its name among the translations.
    pub name: &'static str,
    /// The key of its description among the translations.
    pub description: &'static str,
    pub icon: &'static str,
}

impl View for PluginInfo {
    type V = (Seq<char>, Seq<char>, Seq<char>, Seq<char>);

    open spec fn view(&self) -> (Seq<char>, Seq<char>, Seq<char>, Seq<char>) {
        (self.id@, self.name@, self.description@, self.icon@)
    }
}

/// The plugins, in the order in which they are shown.
pub open spec fn plugin_table() -> Seq<(Seq<char>, Seq<char>, Seq<char>, Seq<char>)> {
    seq![
        (
            "battery"@,
            "plugin-battery-name"@,
            "plugin-battery-desc"@,
            "battery-full-symbolic"@,
        ),
        (
            "clipboard"@,
            "plugin-clipboard-name"@,
            "plugin-clipboard-desc"@,
            "edit-paste-symbolic"@,
        ),
        (
            "connectivity_report"@,
            "plugin-connectivity-name"@,
            "plugin-connectivity-desc"@,
            "network-cellular-symbolic"@,
        ),
        (
            "contacts"@,
            "plugin-contacts-name"@,
            "plugin-contacts-desc"@,
            "x-office-address-book-symbolic"@,
        ),
        (
            "findmyphone"@,
            "plugin-findmyphone-name"@,
            "plugin-findmyphone-desc"@,
            "audio-speakers-symbolic"@,
        ),
        (
            "mpris"@,
            "plugin-mpris-name"@,
            "plugin-mpris-desc"@,
            "media-playback-start-symbolic"@,
        ),
        (
            "notification"@,
            "plugin-notifications-name"@,
            "plugin-notifications-desc"@,
            "preferences-system-notifications-symbolic"@,
        ),
        ("ping"@, "plugin-ping-name"@, "plugin-ping-desc"@, "network-transmit-receive-symbolic"@),
        (
            "runcommand"@,
            "plugin-runcommand-name"@,
            "plugin-runcommand-desc"@,
            "utilities-terminal-symbolic"@,
        ),
        ("share"@, "plugin-share-name"@, "plugin-share-desc"@, "document-send-symbolic"@),
        ("sms"@, "plugin-sms-name"@, "plugin-sms-desc"@, "mail-message-new-symbolic"@),
        (
            "systemvolume"@,
            "plugin-systemvolume-name"@,
            "plugin-systemvolume-desc"@,
            "audio-volume-high-symbolic"@,
        ),
        (
            "telephony"@,
            "plugin-telephony-name"@,
            "plugin-telephony-desc"@,
            "phone-symbolic"@,
        ),
    ]
}

fn info(
    id: &'static str,
    name: &'static str,
    description: &'static str,
    icon: &'static str,
) -> (r: PluginInfo)
    ensures
        r@ == (id@, name@, description@, icon@),
{
    PluginInfo { id, name, description, icon }
}

/// The plugins, in the order in which they are shown.
pub fn implemented_plugins() -> (r: Vec<PluginInfo>)
    ensures
        order::views(r@) == plugin_table(),
{
    let r = vec![
        info(
            "battery",
            "plugin-battery-name",
            "plugin-battery-desc",
            "battery-full-symbolic",
        ),
        info(
            "clipboard",
            "plugin-clipboard-name",
            "plugin-clipboard-desc",
            "edit-paste-symbolic",
        ),
        info(
            "connectivity_report",
            "plugin-connectivity-name",
            "plugin-connectivity-desc",
            "network-cellular-symbolic",
        ),
        info(
            "contacts",
            "plugin-contacts-name",
            "plugin-contacts-desc",
            "x-office-address-book-symbolic",
        ),
        info(
            "findmyphone",
            "plugin-findmyphone-name",
            "plugin-findmyphone-desc",
            "audio-speakers-symbolic",
        ),
        info("mpris", "plugin-mpris-name", "plugin-mpris-desc", "media-playback-start-symbolic"),
        info(
            "notification",
            "plugin-notifications-name",
            "plugin-notifications-desc",
            "preferences-system-notifications-symbolic",
        ),
        info("ping", "plugin-ping-name", "plugin-ping-desc", "network-transmit-receive-symbolic"),
        info(
            "runcommand",
            "plugin-runcommand-name",
            "plugin-runcommand-desc",
            "utilities-terminal-symbolic",
        ),
        info("share", "plugin-share-name", "plugin-share-desc", "document-send-symbolic"),
        info("sms", "plugin-sms-name", "plugin-sms-desc", "mail-message-new-symbolic"),
        info(
            "systemvolume",
            "plugin-systemvolume-name",
            "plugin-systemvolume-desc",
            "audio-volume-high-symbolic",
        ),
        info("telephony", "plugin-telephony-name", "plugin-telephony-desc", "phone-symbolic"),
    ];
    proof {
        assert(order::views(r@) =~= plugin_table());
    }
    r
}

/// A page of the settings window.
#[derive(Debug, Clone, Copy, PartialEq, Eq, Structural)]
pub enum Tab {
    PairedDevices,
    AvailableDevices,
}

/// A command of this desktop as it is stored. What was stored without a member
/// lacks it here.
#[derive(Debug, PartialEq, Eq)]
pub struct StoredCommand {
    pub id: Option<String>,
    pub name: Option<String>,
    pub command: Option<String>,
}

/// A stored command, as a value.
pub struct StoredModel {
    pub id: Option<Seq<char>>,
    pub name: Option<Seq<char>>,
    pub command: Option<Seq<char>>,
}

impl View for StoredCommand {
    type V = StoredModel;

    open spec fn view(&self) -> StoredModel {
        StoredModel {
            id: self.id.deep_view(),
            name: self.name.deep_view(),
            command: self.command.deep_view(),
        }
    }
}

/// Something that the settings window is told.
#[derive(Debug)]
pub enum Message {
    DevicesLoaded(Vec<AppletDevice>),
    /// A device and the plugins that are switched off for it.
    PluginStatesLoaded(String, Vec<String>),
    SelectTab(Tab),
    SelectDevice(String),
    TogglePlugin(String, bool),
    Refresh,
    PairDevice(String),
    UnpairDevice(String),
    ServiceEvent(ServiceEvent),
    RunCommandsLoaded(Vec<StoredCommand>),
    NewRunCommandName(String),
    NewRunCommandCommand(String),
    AddRunCommand,
    DeleteRunCommand(String),
}

/// Something that the settings window asks for.
#[derive(Debug, PartialEq, Eq)]
pub enum SettingsTask {
    /// Show the title of the window.
    SetTitle,
    /// Find the service and fetch the devices; `DevicesLoaded` follows.
    Connect,
    /// Read the commands; `RunCommandsLoaded` follows.
    LoadCommands,
    /// Fetch the devices; `DevicesLoaded` follows.
    FetchDevices,
    /// Read which plugins are off; `PluginStatesLoaded` follows.
    LoadPluginStates(String),
    /// Switch a plugin of a device; `Refresh` follows.
    SetPluginEnabled(String, String, bool),
    /// Pair and fetch the devices; `DevicesLoaded` follows.
    Pair(String),
    /// Unpair and fetch the devices; `DevicesLoaded` follows.
    Unpair(String),
    /// Store the commands.
    SaveCommands,
    /// Tell a device the commands; `Refresh` follows.
    PushCommands(String),
}

/// Something that the settings window asks for, as a value.
pub enum SettingsTaskModel {
    SetTitle,
    Connect,
    LoadCommands,
    FetchDevices,
    LoadPluginStates(Seq<char>),
    SetPluginEnabled(Seq<char>, Seq<char>, bool),
    Pair(Seq<char>),
    Unpair(Seq<char>),
    SaveCommands,
    PushCommands(Seq<char>),
}

impl View for SettingsTask {
    type V = SettingsTaskModel;

    open spec fn view(&self) -> SettingsTaskModel {
        match *self {
            SettingsTask::SetTitle => SettingsTaskModel::SetTitle,
            SettingsTask::Connect => SettingsTaskModel::Connect,
            SettingsTask::LoadCommands => SettingsTaskModel::LoadCommands,
            SettingsTask::FetchDevices => SettingsTaskModel::FetchDevices,
            SettingsTask::LoadPluginStates(d) => SettingsTaskModel::LoadPluginStates(d@),
            SettingsTask::SetPluginEnabled(d, p, on) => SettingsTaskModel::SetPluginEnabled(
                d@,
                p@,
                on,
            ),
            SettingsTask::Pair(d) => SettingsTaskModel::Pair(d@),
            SettingsTask::Unpair(d) => SettingsTaskModel::Unpair(d@),
            SettingsTask::SaveCommands => SettingsTaskModel::SaveCommands,
            SettingsTask::PushCommands(d) => SettingsTaskModel::PushCommands(d@),
        }
    }
}

/// The settings window.
#[derive(Debug)]
pub struct SettingsApp {
    pub active_tab: Tab,
    pub devices: Vec<AppletDevice>,
    pub selected_device: Option<String>,
    /// For each device that was looked at, the plugins that are off. All
    /// others are on.
    pub plugin_states: TextMap<TextSet>,
    pub pairing_in_progress: TextMap<bool>,
    pub run_commands: Vec<StoredCommand>,
    pub new_cmd_name: String,
    pub new_cmd_command: String,
}

/// The settings window, as a value.
#[verifier::ext_equal]
pub struct SettingsState {
    pub active_tab: Tab,
    pub devices: Seq<AppletDeviceModel>,
    pub selected_device: Option<Seq<char>>,
    pub plugin_states: Map<Seq<char>, Set<Seq<char>>>,
    pub pairing_in_progress: Map<Seq<char>, bool>,
    pub run_commands: Seq<StoredModel>,
    pub new_cmd_name: Seq<char>,
    pub new_cmd_command: Seq<char>,
}

impl View for SettingsApp {
    type V = SettingsState;

    open spec fn view(&self) -> SettingsState {
        SettingsState {
            active_tab: self.active_tab,
            devices: order::views(self.devices@),
            selected_device: self.selected_device.deep_view(),
            plugin_states: self.plugin_states@,
            pairing_in_progress: self.pairing_in_progress@,
            run_commands: order::views(self.run_commands@),
            new_cmd_name: self.new_cmd_name@,
            new_cmd_command: self.new_cmd_command@,
        }
    }
}

/// The device with the identifier is among those listed, and paired.
pub open spec fn lists_paired(list: Seq<AppletDeviceModel>, id: Seq<char>) -> bool {
    exists|i: int| 0 <= i < list.len() && (#[trigger] list[i]).id == id && list[i].is_paired
}

/// The first paired device of a list.
pub open spec fn first_paired(list: Seq<AppletDeviceModel>) -> Option<Seq<char>> {
    let i = order::first_where(list, |d: AppletDeviceModel| d.is_paired);
    if i < list.len() {
        Some(list[i].id)
    } else {
        None
    }
}

/// The selected device stays selected.
pub open spec fn stays(s: SettingsState, list: Seq<AppletDeviceModel>) -> bool {
    s.selected_device is Some && lists_paired(list, s.selected_device->0)
}

/// The identifiers of the paired devices of a list.
pub open spec fn paired_ids(list: Seq<AppletDeviceModel>) -> Set<Seq<char>> {
    Set::new(|id: Seq<char>| lists_paired(list, id))
}

/// The plugins of a device that are off. Of a device that was not looked at
/// none is.
pub open spec fn off(s: SettingsState, id: Seq<char>) -> Set<Seq<char>> {
    if s.plugin_states.contains_key(id) {
        s.plugin_states[id]
    } else {
        Set::empty()
    }
}

/// A command can be added: it has a name and something to run.
pub open spec fn addable(s: SettingsState) -> bool {
    text::trimmed(s.new_cmd_name).len() > 0 && text::trimmed(s.new_cmd_command).len() > 0
}

/// The commands without those that have the identifier.
pub open spec fn without(commands: Seq<StoredModel>, id: Seq<char>) -> Seq<StoredModel> {
    commands.filter(|c: StoredModel| c.id != Some(id))
}

/// The window after a message. A command that is added gets the fresh
/// identifier.
pub open spec fn after(s: SettingsState, message: Message, fresh: Seq<char>) -> SettingsState {
    match message {
        Message::DevicesLoaded(list) => {
            let devices = order::views(list@);
            SettingsState {
                devices,
                selected_device: if stays(s, devices) {
                    s.selected_device
                } else {
                    first_paired(devices)
                },
                plugin_states: if s.selected_device is Some && !stays(s, devices) {
                    s.plugin_states.remove(s.selected_device->0)
                } else {
                    s.plugin_states
                },
                pairing_in_progress: s.pairing_in_progress.remove_keys(paired_ids(devices)),
                ..s
            }
        },
        Message::PluginStatesLoaded(id, disabled) => SettingsState {
            plugin_states: s.plugin_states.insert(id@, disabled.deep_view().to_set()),
            ..s
        },
        Message::SelectTab(tab) => SettingsState { active_tab: tab, ..s },
        Message::SelectDevice(id) => SettingsState {
            selected_device: Some(id@),
            plugin_states: if s.selected_device != Some(id@) {
                s.plugin_states.insert(id@, off(s, id@))
            } else {
                s.plugin_states
            },
            ..s
        },
        Message::TogglePlugin(plugin, enabled) => match s.selected_device {
            Some(id) => SettingsState {
                plugin_states: s.plugin_states.insert(
                    id,
                    if enabled {
                        off(s, id).remove(plugin@)
                    } else {
                        off(s, id).insert(plugin@)
                    },
                ),
                ..s
            },
            None => s,
        },
        Message::PairDevice(id) => SettingsState {
            pairing_in_progress: s.pairing_in_progress.insert(id@, true),
            ..s
        },
        Message::UnpairDevice(id) => SettingsState {
            selected_device: if s.selected_device == Some(id@) {
                None
            } else {
                s.selected_device
            },
            plugin_states: s.plugin_states.remove(id@),
            ..s
        },
        Message::RunCommandsLoaded(commands) => SettingsState {
            run_commands: order::views(commands@),
            ..s
        },
        Message::NewRunCommandName(text) => SettingsState { new_cmd_name: text@, ..s },
        Message::NewRunCommandCommand(text) => SettingsState { new_cmd_command: text@, ..s },
        Message::AddRunCommand => if addable(s) {
            SettingsState {
                run_commands: s.run_commands.push(
                    StoredModel {
                        id: Some(fresh),
                        name: Some(text::trimmed(s.new_cmd_name)),
                        command: Some(text::trimmed(s.new_cmd_command)),
                    },
                ),
                new_cmd_name: Seq::empty(),
                new_cmd_command: Seq::empty(),
                ..s
            }
        } else {
            s
        },
        Message::DeleteRunCommand(id) => SettingsState {
            run_commands: without(s.run_commands, id@),
            ..s
        },
        Message::Refresh => s,
        Message::ServiceEvent(_) => s,
    }
}

/// The commands are stored, and told to the selected device.
pub open spec fn published(s: SettingsState) -> Seq<SettingsTaskModel> {
    match s.selected_device {
        Some(id) => seq![SettingsTaskModel::SaveCommands, SettingsTaskModel::PushCommands(id)],
        None => seq![SettingsTaskModel::SaveCommands],
    }
}

/// What the window asks for after a message.
pub open spec fn asks(s: SettingsState, message: Message) -> Seq<SettingsTaskModel> {
    match message {
        Message::DevicesLoaded(list) => {
            let first = first_paired(order::views(list@));
            if !stays(s, order::views(list@)) && first is Some {
                seq![SettingsTaskModel::LoadPluginStates(first->0)]
            } else {
                Seq::empty()
            }
        },
        Message::SelectTab(tab) => if tab == Tab::AvailableDevices {
            seq![SettingsTaskModel::FetchDevices]
        } else {
            Seq::empty()
        },
        Message::SelectDevice(id) => if s.selected_device != Some(id@) {
            seq![SettingsTaskModel::LoadPluginStates(id@)]
        } else {
            Seq::empty()
        },
        Message::TogglePlugin(plugin, enabled) => match s.selected_device {
            Some(id) => seq![SettingsTaskModel::SetPluginEnabled(id, plugin@, enabled)],
            None => Seq::empty(),
        },
        Message::Refresh => seq![SettingsTaskModel::FetchDevices],
        Message::PairDevice(id) => seq![SettingsTaskModel::Pair(id@)],
        Message::UnpairDevice(id) => seq![SettingsTaskModel::Unpair(id@)],
        Message::ServiceEvent(event) => if event is DeviceConnected || event is DeviceDisconnected
            || event is DevicePaired {
            seq![SettingsTaskModel::FetchDevices]
        } else {
            Seq::empty()
        },
        Message::AddRunCommand => if addable(s) {
            published(s)
        } else {
            Seq::empty()
        },
        Message::DeleteRunCommand(_) => published(s),
        _ => Seq::empty(),
    }
}

fn one(task: SettingsTask) -> (r: Vec<SettingsTask>)
    ensures
        order::views(r@) == seq![task@],
{
    let mut r: Vec<SettingsTask> = Vec::new();
    r.push(task);
    proof {
        assert(order::views(r@) =~= seq![task@]);
    }
    r
}

fn nothing() -> (r: Vec<SettingsTask>)
    ensures
        order::views(r@) == Seq::<SettingsTaskModel>::empty(),
{
    let r: Vec<SettingsTask> = Vec::new();
    proof {
        assert(order::views(r@) =~= Seq::<SettingsTaskModel>::empty());
    }
    r
}

fn is_listed_paired(list: &Vec<AppletDevice>, id: &str) -> (r: bool)
    ensures
        r == lists_paired(order::views(list@), id@),
{
    let ghost all = order::views(list@);
    let mut i: usize = 0;
    while i < list.len()
        invariant
            i <= list@.len(),
            all == order::views(list@),
            forall|k: int| 0 <= k < i ==> !((#[trigger] all[k]).id == id@ && all[k].is_paired),
        decreases list@.len() - i,
    {
        proof {
            assert(all[i as int] == list@[i as int]@);
        }
        if same(&list[i].id, id) && list[i].is_paired {
            return true;
        }
        i = i + 1;
    }
    false
}

fn find_first_paired(list: &Vec<AppletDevice>) -> (r: Option<String>)
    ensures
        r.deep_view() == first_paired(order::views(list@)),
{
    let ghost all = order::views(list@);
    let ghost p = |d: AppletDeviceModel| d.is_paired;
    let mut i: usize = 0;
    while i < list.len()
        invariant
            i <= list@.len(),
            all == order::views(list@),
            p == (|d: AppletDeviceModel| d.is_paired),
            forall|k: int| 0 <= k < i ==> !p(#[trigger] all[k]),
        decreases list@.len() - i,
    {
        proof {
            assert(all[i as int] == list@[i as int]@);
        }
        if list[i].is_paired {
            proof {
                order::lemma_first_where(all, p, i as int);
            }
            return Some(list[i].id.clone());
        }
        i = i + 1;
    }
    proof {
        order::lemma_first_where(all, p, i as int);
    }
    None
}

fn list_paired_ids(list: &Vec<AppletDevice>) -> (r: Vec<String>)
    ensures
        r.deep_view().to_set() == paired_ids(order::views(list@)),
{
    let ghost all = order::views(list@);
    let mut r: Vec<String> = Vec::new();
    let mut i: usize = 0;
    while i < list.len()
        invariant
            i <= list@.len(),
            all == order::views(list@),
            forall|k: int|
                0 <= k < i && (#[trigger] all[k]).is_paired ==> r.deep_view().contains(all[k].id),
            forall|k: int|
                0 <= k < r.deep_view().len() ==> lists_paired(all, #[trigger] r.deep_view()[k]),
        decreases list@.len() - i,
    {
        let ghost before = r.deep_view();
        proof {
            assert(all[i as int] == list@[i as int]@);
        }
        if list[i].is_paired {
            r.push(list[i].id.clone());
            proof {
                let now = r.deep_view();
                assert(now =~= before.push(all[i as int].id));
                assert(now[before.len() as int] == all[i as int].id);
                assert forall|k: int| 0 <= k < i + 1 && (#[trigger] all[k]).is_paired implies now.contains(
                    all[k].id,
                ) by {
                    crate::table::lemma_push_contains(before, all[i as int].id, all[k].id);
                }
                assert forall|k: int| 0 <= k < now.len() implies lists_paired(
                    all,
                    #[trigger] now[k],
                ) by {
                    if k < before.len() {
                        assert(now[k] == before[k]);
                    }
                }
            }
        }
        i = i + 1;
    }
    proof {
        let ids = r.deep_view();
        assert forall|id: Seq<char>| ids.to_set().contains(id) <==> paired_ids(all).contains(id) by {
            if ids.contains(id) {
                let k = choose|k: int| 0 <= k < ids.len() && ids[k] == id;
                assert(lists_paired(all, ids[k]));
            }
            if lists_paired(all, id) {
                let k = choose|k: int|
                    0 <= k < all.len() && (#[trigger] all[k]).id == id && all[k].is_paired;
                assert(ids.contains(all[k].id));
            }
        }
        assert(ids.to_set() =~= paired_ids(all));
    }
    r
}

fn remove_command(commands: &mut Vec<StoredCommand>, id: &str)
    ensures
        order::views(final(commands)@) == without(order::views(old(commands)@), id@),
{
    let ghost all = order::views(commands@);
    let ghost keep = |c: StoredModel| c.id != Some(id@);
    let n: usize = commands.len();
    let mut i: usize = 0;
    let mut k: usize = 0;
    proof {
        assert(all.take(0) =~= Seq::empty());
        assert(order::views(commands@.take(0)) =~= Seq::<StoredModel>::empty());
        assert(order::views(commands@.skip(0)) =~= all.skip(0));
    }
    while i < n
        invariant
            i <= n,
            n == all.len(),
            k <= i,
            k <= commands@.len(),
            keep == (|c: StoredModel| c.id != Some(id@)),
            order::views(commands@.take(k as int)) == all.take(i as int).filter(keep),
            order::views(commands@.skip(k as int)) == all.skip(i as int),
        decreases n - i,
    {
        let ghost before = commands@;
        proof {
            let rest = order::views(before.skip(k as int));
            assert(rest.len() == n - i);
            assert(rest[0] == before[k as int]@);
            assert(rest[0] == all[i as int]);
            assert(all.take(i + 1) =~= all.take(i as int).push(all[i as int]));
            all.take(i as int).lemma_filter_push(all[i as int], keep);
        }
        let gone = match &commands[k].id {
            Some(c) => same(c, id),
            None => false,
        };
        if gone {
            commands.remove(k);
            proof {
                assert(commands@.take(k as int) =~= before.take(k as int));
                assert(order::views(commands@.skip(k as int)) =~= all.skip(i + 1)) by {
                    assert forall|j: int| 0 <= j < all.skip(i + 1).len() implies order::views(
                        commands@.skip(k as int),
                    )[j] == #[trigger] all.skip(i + 1)[j] by {
                        assert(order::views(before.skip(k as int))[j + 1] == all.skip(
                            i as int,
                        )[j + 1]);
                    }
                }
            }
        } else {
            k = k + 1;
            proof {
                assert(order::views(commands@.take(k as int)) =~= order::views(
                    before.take(k - 1),
                ).push(all[i as int]));
                assert(order::views(commands@.skip(k as int)) =~= all.skip(i + 1)) by {
                    assert forall|j: int| 0 <= j < all.skip(i + 1).len() implies order::views(
                        commands@.skip(k as int),
                    )[j] == #[trigger] all.skip(i + 1)[j] by {
                        assert(order::views(before.skip(k - 1))[j + 1] == all.skip(
                            i as int,
                        )[j + 1]);
                    }
                }
            }
        }
        i = i + 1;
    }
    proof {
        assert(all.take(i as int) =~= all);
        assert(order::views(commands@.skip(k as int)).len() == 0);
        assert(commands@.take(k as int) =~= commands@);
    }
}

impl SettingsApp {
    /// The tables are in order.
    pub open spec fn wf(&self) -> bool {
        self.plugin_states.wf() && self.pairing_in_progress.wf()
    }

    /// A window that knows nothing, and what it asks for as it opens: its title,
    /// the devices and the commands.
    pub fn init() -> (r: (SettingsApp, Vec<SettingsTask>))
        ensures
            r.0.wf(),
            r.0@ == (SettingsState {
                active_tab: Tab::PairedDevices,
                devices: Seq::empty(),
                selected_device: None,
                plugin_states: Map::empty(),
                pairing_in_progress: Map::empty(),
                run_commands: Seq::empty(),
                new_cmd_name: Seq::empty(),
                new_cmd_command: Seq::empty(),
            }),
            order::views(r.1@) == seq![
                SettingsTaskModel::SetTitle,
                SettingsTaskModel::Connect,
                SettingsTaskModel::LoadCommands,
            ],
    {
        let app = SettingsApp {
            active_tab: Tab::PairedDevices,
            devices: Vec::new(),
            selected_device: None,
            plugin_states: TextMap::new(),
            pairing_in_progress: TextMap::new(),
            run_commands: Vec::new(),
            new_cmd_name: String::new(),
            new_cmd_command: String::new(),
        };
        let mut tasks: Vec<SettingsTask> = Vec::new();
        tasks.push(SettingsTask::SetTitle);
        tasks.push(SettingsTask::Connect);
        tasks.push(SettingsTask::LoadCommands);
        proof {
            assert(order::views(app.devices@) =~= Seq::<AppletDeviceModel>::empty());
            assert(order::views(app.run_commands@) =~= Seq::<StoredModel>::empty());
            assert(order::views(tasks@) =~= seq![
                SettingsTaskModel::SetTitle,
                SettingsTaskModel::Connect,
                SettingsTaskModel::LoadCommands,
            ]);
        }
        (app, tasks)
    }

    /// Whether a plugin is on for the selected device. What is not known to be
    /// off is on.
    pub fn plugin_enabled(&self, plugin_id: &str) -> (r: bool)
        requires
            self.wf(),
        ensures
            r == enabled(self@, plugin_id@),
    {
        match &self.selected_device {
            Some(id) => match self.plugin_states.get(id) {
                Some(off) => !off.contains(plugin_id),
                None => true,
            },
            None => true,
        }
    }

    fn is_selected(&self, id: &str) -> (r: bool)
        ensures
            r == (self@.selected_device == Some(id@)),
    {
        match &self.selected_device {
            Some(d) => same(d, id),
            None => false,
        }
    }

    fn switched_off(&self, id: &str) -> (r: TextSet)
        requires
            self.wf(),
        ensures
            r@ == off(self@, id@),
    {
        match self.plugin_states.get(id) {
            Some(off) => off.duplicate(),
            None => TextSet::new(),
        }
    }

    fn publish(&self) -> (r: Vec<SettingsTask>)
        ensures
            order::views(r@) == published(self@),
    {
        let mut r: Vec<SettingsTask> = Vec::new();
        r.push(SettingsTask::SaveCommands);
        if let Some(id) = &self.selected_device {
            r.push(SettingsTask::PushCommands(id.clone()));
        }
        proof {
            assert(order::views(r@) =~= published(self@));
        }
        r
    }

    fn load_devices(&mut self, list: Vec<AppletDevice>) -> (r: Vec<SettingsTask>)
        requires
            old(self).wf(),
        ensures
            final(self).wf(),
            final(self)@ == after(old(self)@, Message::DevicesLoaded(list), Seq::empty()),
            order::views(r@) == asks(old(self)@, Message::DevicesLoaded(list)),
    {
        let selected = copy_text(&self.selected_device);
        let kept = match &selected {
            Some(id) => is_listed_paired(&list, id),
            None => false,
        };
        let paired = list_paired_ids(&list);
        self.pairing_in_progress.remove_all(&paired);
        let first = find_first_paired(&list);
        self.devices = list;
        if kept {
            return nothing();
        }
        if let Some(id) = &selected {
            self.plugin_states.remove(id);
        }
        self.selected_device = copy_text(&first);
        match first {
            Some(id) => one(SettingsTask::LoadPluginStates(id)),
            None => nothing(),
        }
    }

    /// Takes a message in and gives back what is to be done. A command that is
    /// added gets the fresh identifier.
    #[verifier::rlimit(30)]
    pub fn update_with(&mut self, message: Message, fresh: String) -> (r: Vec<SettingsTask>)
        requires
            old(self).wf(),
        ensures
            final(self).wf(),
            final(self)@ == after(old(self)@, message, fresh@),
            order::views(r@) == asks(old(self)@, message),
    {
        match message {
            Message::DevicesLoaded(list) => self.load_devices(list),
            Message::PluginStatesLoaded(id, disabled) => {
                self.plugin_states.insert(id, TextSet::of(disabled));
                nothing()
            },
            Message::SelectTab(tab) => {
                self.active_tab = tab;
                if tab == Tab::AvailableDevices {
                    one(SettingsTask::FetchDevices)
                } else {
                    nothing()
                }
            },
            Message::SelectDevice(id) => {
                if self.is_selected(&id) {
                    nothing()
                } else {
                    let off = self.switched_off(&id);
                    self.plugin_states.insert(id.clone(), off);
                    self.selected_device = Some(id.clone());
                    one(SettingsTask::LoadPluginStates(id))
                }
            },
            Message::TogglePlugin(plugin, enabled) => match copy_text(&self.selected_device) {
                Some(id) => {
                    let mut off = self.switched_off(&id);
                    if enabled {
                        off.remove(&plugin);
                    } else {
                        off.insert(plugin.clone());
                    }
                    self.plugin_states.insert(id.clone(), off);
                    one(SettingsTask::SetPluginEnabled(id, plugin, enabled))
                },
                None => nothing(),
            },
            Message::Refresh => one(SettingsTask::FetchDevices),
            Message::PairDevice(id) => {
                self.pairing_in_progress.insert(id.clone(), true);
                one(SettingsTask::Pair(id))
            },
            Message::UnpairDevice(id) => {
                if self.is_selected(&id) {
                    self.selected_device = None;
                }
                self.plugin_states.remove(&id);
                one(SettingsTask::Unpair(id))
            },
            Message::ServiceEvent(event) => match event {
                ServiceEvent::DeviceConnected(_, _) => one(SettingsTask::FetchDevices),
                ServiceEvent::DeviceDisconnected(_) => one(SettingsTask::FetchDevices),
                ServiceEvent::DevicePaired(_, _) => one(SettingsTask::FetchDevices),
                _ => nothing(),
            },
            Message::RunCommandsLoaded(commands) => {
                self.run_commands = commands;
                nothing()
            },
            Message::NewRunCommandName(text) => {
                self.new_cmd_name = text;
                nothing()
            },
            Message::NewRunCommandCommand(text) => {
                self.new_cmd_command = text;
                nothing()
            },
            Message::AddRunCommand => {
                let name = trim(&self.new_cmd_name);
                let command = trim(&self.new_cmd_command);
                if name.as_str().is_empty() || command.as_str().is_empty() {
                    return nothing();
                }
                let ghost before = self.run_commands@;
                self.run_commands.push(
                    StoredCommand { id: Some(fresh), name: Some(name), command: Some(command) },
                );
                proof {
                    assert(order::views(self.run_commands@) =~= order::views(before).push(
                        self.run_commands@.last()@,
                    ));
                }
                self.new_cmd_name = String::new();
                self.new_cmd_command = String::new();
                self.publish()
            },
            Message::DeleteRunCommand(id) => {
                remove_command(&mut self.run_commands, &id);
                self.publish()
            },
        }
    }

    /// Takes a message in and gives back what is to be done. A command that is
    /// added gets an identifier that depends on chance.
    pub fn update(&mut self, message: Message) -> (r: Vec<SettingsTask>)
        requires
            old(self).wf(),
        ensures
            final(self).wf(),
            exists|fresh: Seq<char>|
                fresh.len() == 36 && final(self)@ == #[trigger] after(old(self)@, message, fresh),
            order::views(r@) == asks(old(self)@, message),
    {
        let fresh = fresh_id();
        self.update_with(message, fresh)
    }
}

/// A device in the list of paired devices.
#[derive(Debug, PartialEq, Eq)]
pub struct SidebarItem {
    pub device_id: String,
    pub name: String,
    pub reachable: bool,
    pub selected: bool,
}

/// A device in the list of paired devices, as a value.
pub struct SidebarModel {
    pub device_id: Seq<char>,
    pub name: Seq<char>,
    pub reachable: bool,
    pub selected: bool,
}

impl View for SidebarItem {
    type V = SidebarModel;

    open spec fn view(&self) -> SidebarModel {
        SidebarModel {
            device_id: self.device_id@,
            name: self.name@,
            reachable: self.reachable,
            selected: self.selected,
        }
    }
}

/// A device that can be paired.
#[derive(Debug, PartialEq, Eq)]
pub struct AvailableDevice {
    pub device_id: String,
    pub name: String,
    /// A request to pair is under way.
    pub in_progress: bool,
}

/// A device that can be paired, as a value.
pub struct AvailableModel {
    pub device_id: Seq<char>,
    pub name: Seq<char>,
    pub in_progress: bool,
}

impl View for AvailableDevice {
    type V = AvailableModel;

    open spec fn view(&self) -> AvailableModel {
        AvailableModel {
            device_id: self.device_id@,
            name: self.name@,
            in_progress: self.in_progress,
        }
    }
}

/// A plugin with its switch.
#[derive(Debug, PartialEq, Eq)]
pub struct PluginRow {
    pub plugin: PluginInfo,
    pub enabled: bool,
    /// The commands of this desktop are managed below.
    pub manages_commands: bool,
}

/// What the page of a device shows.
#[derive(Debug, PartialEq, Eq)]
pub struct PluginPanel {
    /// The device and its name, where it is known.
    pub device: Option<(String, String)>,
    /// Says that no device is selected.
    pub hint: bool,
    pub plugins: Vec<PluginRow>,
}

/// The entry of a paired device.
pub open spec fn sidebar_item(s: SettingsState, d: AppletDeviceModel) -> SidebarModel {
    SidebarModel {
        device_id: d.id,
        name: d.name,
        reachable: d.is_reachable,
        selected: s.selected_device == Some(d.id),
    }
}

/// The entry of a device that can be paired.
pub open spec fn available_item(s: SettingsState, d: AppletDeviceModel) -> AvailableModel {
    AvailableModel {
        device_id: d.id,
        name: d.name,
        in_progress: s.pairing_in_progress.contains_key(d.id) && s.pairing_in_progress[d.id],
    }
}

/// The devices that can be paired: reachable, and not paired yet.
pub open spec fn available(s: SettingsState) -> Seq<AppletDeviceModel> {
    s.devices.filter(|d: AppletDeviceModel| !d.is_paired && d.is_reachable)
}

/// The paired devices.
pub open spec fn paired(s: SettingsState) -> Seq<AppletDeviceModel> {
    s.devices.filter(|d: AppletDeviceModel| d.is_paired)
}

impl SettingsApp {
    /// The paired devices, in the order in which they were listed.
    pub fn view_paired_sidebar(&self) -> (r: Vec<SidebarItem>)
        ensures
            order::views(r@) == paired(self@).map_values(
                |d: AppletDeviceModel| sidebar_item(self@, d),
            ),
    {
        let ghost all = order::views(self.devices@);
        let ghost keep = |d: AppletDeviceModel| d.is_paired;
        let ghost show = |d: AppletDeviceModel| sidebar_item(self@, d);
        let mut r: Vec<SidebarItem> = Vec::new();
        let mut i: usize = 0;
        proof {
            assert(all.take(0) =~= Seq::empty());
            assert(order::views(r@) =~= all.take(0).filter(keep).map_values(show));
        }
        while i < self.devices.len()
            invariant
                i <= self.devices@.len(),
                all == order::views(self.devices@),
                keep == (|d: AppletDeviceModel| d.is_paired),
                show == (|d: AppletDeviceModel| sidebar_item(self@, d)),
                order::views(r@) == all.take(i as int).filter(keep).map_values(show),
            decreases self.devices@.len() - i,
        {
            let ghost before = order::views(r@);
            proof {
                assert(all.take(i + 1) =~= all.take(i as int).push(all[i as int]));
                assert(all[i as int] == self.devices@[i as int]@);
                all.take(i as int).lemma_filter_push(all[i as int], keep);
            }
            let d = &self.devices[i];
            if d.is_paired {
                r.push(
                    SidebarItem {
                        device_id: d.id.clone(),
                        name: d.name.clone(),
                        reachable: d.is_reachable,
                        selected: self.is_selected(&d.id),
                    },
                );
                proof {
                    assert(order::views(r@) =~= before.push(show(all[i as int])));
                    assert(all.take(i as int).filter(keep).push(all[i as int]).map_values(show)
                        =~= before.push(show(all[i as int])));
                }
            }
            i = i + 1;
        }
        proof {
            assert(all.take(i as int) =~= all);
        }
        r
    }

    /// The devices that can be paired, in the order in which they were listed.
    pub fn view_available_devices(&self) -> (r: Vec<AvailableDevice>)
        requires
            self.wf(),
        ensures
            order::views(r@) == available(self@).map_values(
                |d: AppletDeviceModel| available_item(self@, d),
            ),
    {
        let ghost all = order::views(self.devices@);
        let ghost keep = |d: AppletDeviceModel| !d.is_paired && d.is_reachable;
        let ghost show = |d: AppletDeviceModel| available_item(self@, d);
        let mut r: Vec<AvailableDevice> = Vec::new();
        let mut i: usize = 0;
        proof {
            assert(all.take(0) =~= Seq::empty());
            assert(order::views(r@) =~= all.take(0).filter(keep).map_values(show));
        }
        while i < self.devices.len()
            invariant
                i <= self.devices@.len(),
                self.wf(),
                all == order::views(self.devices@),
                keep == (|d: AppletDeviceModel| !d.is_paired && d.is_reachable),
                show == (|d: AppletDeviceModel| available_item(self@, d)),
                order::views(r@) == all.take(i as int).filter(keep).map_values(show),
            decreases self.devices@.len() - i,
        {
            let ghost before = order::views(r@);
            proof {
                assert(all.take(i + 1) =~= all.take(i as int).push(all[i as int]));
                assert(all[i as int] == self.devices@[i as int]@);
                all.take(i as int).lemma_filter_push(all[i as int], keep);
            }
            let d = &self.devices[i];
            if !d.is_paired && d.is_reachable {
                let in_progress = match self.pairing_in_progress.get(&d.id) {
                    Some(p) => *p,
                    None => false,
                };
                r.push(
                    AvailableDevice { device_id: d.id.clone(), name: d.name.clone(), in_progress },
                );
                proof {
                    assert(order::views(r@) =~= before.push(show(all[i as int])));
                    assert(all.take(i as int).filter(keep).push(all[i as int]).map_values(show)
                        =~= before.push(show(all[i as int])));
                }
            }
            i = i + 1;
        }
        proof {
            assert(all.take(i as int) =~= all);
        }
        r
    }

    /// What the page of the selected device shows: the device, and every plugin
    /// with its switch. Without a device there is only a hint.
    pub fn view_plugin_panel(&self) -> (r: PluginPanel)
        requires
            self.wf(),
        ensures
            r.hint == (self@.selected_device is None),
            r.device.deep_view() == selected_entry(self@),
            r.hint ==> r.plugins@.len() == 0,
            !r.hint ==> r.plugins@.len() == plugin_table().len() && forall|i: int|
                0 <= i < r.plugins@.len() ==> {
                    let row = #[trigger] r.plugins@[i];
                    &&& row.plugin@ == plugin_table()[i]
                    &&& row.enabled == enabled(self@, plugin_table()[i].0)
                    &&& row.manages_commands == (row.enabled && plugin_table()[i].0
                        == "runcommand"@)
                },
    {
        let mut rows: Vec<PluginRow> = Vec::new();
        let id = match &self.selected_device {
            Some(id) => id,
            None => {
                return PluginPanel { device: None, hint: true, plugins: rows };
            },
        };
        let ghost all = order::views(self.devices@);
        let ghost chosen = |d: AppletDeviceModel| d.id == id@;
        let mut device: Option<(String, String)> = None;
        let mut i: usize = 0;
        while i < self.devices.len() && !same(&self.devices[i].id, id)
            invariant
                i <= self.devices@.len(),
                all == order::views(self.devices@),
                chosen == (|d: AppletDeviceModel| d.id == id@),
                forall|k: int| 0 <= k < i ==> !chosen(#[trigger] all[k]),
            decreases self.devices@.len() - i,
        {
            proof {
                assert(all[i as int] == self.devices@[i as int]@);
            }
            i = i + 1;
        }
        proof {
            if i < all.len() {
                assert(all[i as int] == self.devices@[i as int]@);
            }
            order::lemma_first_where(all, chosen, i as int);
        }
        if i < self.devices.len() {
            device = Some((id.clone(), self.devices[i].name.clone()));
        }
        let mut plugins = implemented_plugins();
        let ghost table = plugins@;
        let n: usize = plugins.len();
        let mut j: usize = 0;
        while j < n
            invariant
                j <= n,
                self.wf(),
                n == table.len(),
                order::views(table) == plugin_table(),
                plugins@ == table.skip(j as int),
                rows@.len() == j,
                forall|k: int|
                    0 <= k < j ==> {
                        let row = #[trigger] rows@[k];
                        &&& row.plugin@ == plugin_table()[k]
                        &&& row.enabled == enabled(self@, plugin_table()[k].0)
                        &&& row.manages_commands == (row.enabled && plugin_table()[k].0
                            == "runcommand"@)
                    },
            decreases n - j,
        {
            proof {
                assert(plugin_table()[j as int] == table[j as int]@);
                assert(plugins@[0] == table[j as int]);
            }
            let plugin = plugins.remove(0);
            let on = self.plugin_enabled(plugin.id);
            let manages_commands = on && same(plugin.id, "runcommand");
            rows.push(PluginRow { plugin, enabled: on, manages_commands });
            j = j + 1;
            proof {
                assert(plugins@ =~= table.skip(j as int));
            }
        }
        PluginPanel { device, hint: false, plugins: rows }
    }

    /// What is shown of the commands of this desktop: identifier, name and what
    /// is run. What is missing is empty.
    pub fn view_run_commands_section(&self) -> (r: Vec<(String, String, String)>)
        ensures
            r.deep_view() == self@.run_commands.map_values(|c: StoredModel| command_line(c)),
    {
        let mut r: Vec<(String, String, String)> = Vec::new();
        let mut i: usize = 0;
        while i < self.run_commands.len()
            invariant
                i <= self.run_commands@.len(),
                r@.len() == i,
                forall|k: int|
                    0 <= k < i ==> (#[trigger] r@[k]).deep_view() == command_line(
                        self.run_commands@[k]@,
                    ),
            decreases self.run_commands@.len() - i,
        {
            let c = &self.run_commands[i];
            r.push((or_empty(&c.id), or_empty(&c.name), or_empty(&c.command)));
            i = i + 1;
        }
        proof {
            assert(r.deep_view() =~= self@.run_commands.map_values(
                |c: StoredModel| command_line(c),
            ));
        }
        r
    }
}

/// A text, or the empty text.
pub open spec fn present(s: Option<Seq<char>>) -> Seq<char> {
    match s {
        Some(x) => x,
        None => Seq::empty(),
    }
}

/// What is shown of a command.
pub open spec fn command_line(c: StoredModel) -> (Seq<char>, Seq<char>, Seq<char>) {
    (present(c.id), present(c.name), present(c.command))
}

fn or_empty(s: &Option<String>) -> (r: String)
    ensures
        r@ == present(s.deep_view()),
{
    match s {
        Some(x) => x.clone(),
        None => String::new(),
    }
}

/// The selected device and its name, where it is listed.
pub open spec fn selected_entry(s: SettingsState) -> Option<(Seq<char>, Seq<char>)> {
    match s.selected_device {
        Some(id) => {
            let i = order::first_where(s.devices, |d: AppletDeviceModel| d.id == id);
            if i < s.devices.len() {
                Some((id, s.devices[i].name))
            } else {
                None
            }
        },
        None => None,
    }
}

/// After the devices were loaded a device is selected just when one is paired,
/// and the selected one is paired.
pub proof fn lemma_selection_is_paired(s: SettingsState, list: Vec<AppletDevice>, fresh: Seq<char>)
    ensures
        ({
            let devices = order::views(list@);
            let now = after(s, Message::DevicesLoaded(list), fresh);
            &&& now.selected_device is Some ==> lists_paired(devices, now.selected_device->0)
            &&& (exists|i: int| 0 <= i < devices.len() && (#[trigger] devices[i]).is_paired)
                ==> now.selected_device is Some
        }),
{
    let devices = order::views(list@);
    let p = |d: AppletDeviceModel| d.is_paired;
    let at = order::first_where(devices, p);
    lemma_found(devices, p);
    if exists|i: int| 0 <= i < devices.len() && (#[trigger] devices[i]).is_paired {
        let i = choose|i: int| 0 <= i < devices.len() && (#[trigger] devices[i]).is_paired;
        assert(p(devices[i]));
    }
}

proof fn lemma_found(s: Seq<AppletDeviceModel>, p: spec_fn(AppletDeviceModel) -> bool)
    ensures
        ({
            let at = order::first_where(s, p);
            &&& 0 <= at <= s.len()
            &&& at < s.len() ==> p(s[at])
            &&& forall|k: int| 0 <= k < at ==> !p(#[trigger] s[k])
        }),
    decreases s.len(),
{
    if s.len() > 0 && !p(s[0]) {
        let rest = s.skip(1);
        lemma_found(rest, p);
        let at = order::first_where(s, p);
        if at < s.len() {
            assert(rest[at - 1] == s[at]);
        }
        assert forall|k: int| 0 <= k < at implies !p(#[trigger] s[k]) by {
            if k > 0 {
                assert(rest[k - 1] == s[k]);
            }
        }
    }
}

/// A plugin that is switched is as it was switched, and every other plugin is as
/// it was.
pub proof fn lemma_switches_hold(
    s: SettingsState,
    plugin: String,
    on: bool,
    other: Seq<char>,
    fresh: Seq<char>,
)
    requires
        s.selected_device is Some,
    ensures
        ({
            let now = after(s, Message::TogglePlugin(plugin, on), fresh);
            &&& enabled(now, plugin@) == on
            &&& other != plugin@ ==> enabled(now, other) == enabled(s, other)
        }),
{
}

/// What is switched for one device leaves the other devices alone.
pub proof fn lemma_switches_stay_with_their_device(
    s: SettingsState,
    plugin: String,
    on: bool,
    id: Seq<char>,
    fresh: Seq<char>,
)
    requires
        s.selected_device != Some(id),
    ensures
        off(after(s, Message::TogglePlugin(plugin, on), fresh), id) == off(s, id),
{
}

/// A command that was added and is deleted again leaves the commands as they
/// were, where its identifier is new.
pub proof fn lemma_deleting_undoes_adding(s: SettingsState, id: String)
    requires
        forall|i: int| 0 <= i < s.run_commands.len() ==> (#[trigger] s.run_commands[i]).id != Some(id@),
    ensures
        ({
            let added = after(s, Message::AddRunCommand, id@);
            after(added, Message::DeleteRunCommand(id), Seq::empty()).run_commands
                == s.run_commands
        }),
{
    let keep = |c: StoredModel| c.id != Some(id@);
    let added = after(s, Message::AddRunCommand, id@);
    lemma_keeps_all(s.run_commands, keep);
    if addable(s) {
        s.run_commands.lemma_filter_push(added.run_commands.last(), keep);
    }
}

proof fn lemma_keeps_all(s: Seq<StoredModel>, keep: spec_fn(StoredModel) -> bool)
    requires
        forall|i: int| 0 <= i < s.len() ==> keep(#[trigger] s[i]),
    ensures
        s.filter(keep) == s,
    decreases s.len(),
{
    reveal(Seq::filter);
    if s.len() > 0 {
        assert forall|i: int| 0 <= i < s.drop_last().len() implies keep(#[trigger] s.drop_last()[i]) by {
            assert(s.drop_last()[i] == s[i]);
        }
        lemma_keeps_all(s.drop_last(), keep);
        assert(s.drop_last().push(s.last()) =~= s);
    }
}

/// A paired device is never offered for pairing, and a device that pairs is no
/// longer under way.
pub proof fn lemma_paired_devices_are_settled(
    s: SettingsState,
    list: Vec<AppletDevice>,
    i: int,
    fresh: Seq<char>,
)
    requires
        0 <= i < list@.len(),
        list@[i]@.is_paired,
    ensures
        ({
            let now = after(s, Message::DevicesLoaded(list), fresh);
            &&& !now.pairing_in_progress.contains_key(list@[i]@.id)
            &&& !available(now).contains(list@[i]@)
        }),
{
    let now = after(s, Message::DevicesLoaded(list), fresh);
    let devices = order::views(list@);
    assert(devices[i] == list@[i]@);
    assert(lists_paired(devices, devices[i].id));
    let keep = |d: AppletDeviceModel| !d.is_paired && d.is_reachable;
    assert forall|k: int| 0 <= k < available(now).len() implies #[trigger] available(now)[k]
        != list@[i]@ by {
        now.devices.lemma_filter_pred(keep, k);
    }
}

/// A plugin is on for the selected device.
pub open spec fn enabled(s: SettingsState, plugin: Seq<char>) -> bool {
    match s.selected_device {
        Some(id) => !off(s, id).contains(plugin),
        None => true,
    }
}

/// Loading the devices shows them as they are. A selected device that is still
/// listed as paired stays selected with its switches; otherwise the first paired
/// one is selected, if there is any, and its switches are read. Pairing that is
/// under way with other devices goes on.
pub proof fn lemma_loaded_devices_are_shown(s: SettingsState, list: Vec<AppletDevice>, fresh: Seq<char>)
    ensures
        ({
            let r = after(s, Message::DevicesLoaded(list), fresh);
            let devices = order::views(list@);
            &&& r.devices == devices
            &&& s.selected_device is Some && lists_paired(devices, s.selected_device->0)
                ==> r.selected_device == s.selected_device && r.plugin_states == s.plugin_states
                && asks(s, Message::DevicesLoaded(list)).len() == 0
            &&& (s.selected_device is None || !lists_paired(devices, s.selected_device->0)) ==> (
            forall|i: int|
                #![trigger devices[i]]
                0 <= i < devices.len() && devices[i].is_paired && (forall|j: int|
                    0 <= j < i ==> !(#[trigger] devices[j]).is_paired) ==> r.selected_device == Some(
                    devices[i].id,
                ) && asks(s, Message::DevicesLoaded(list)) == seq![
                    SettingsTaskModel::LoadPluginStates(devices[i].id),
                ])
            &&& (s.selected_device is None || !lists_paired(devices, s.selected_device->0)) && (
            forall|j: int| 0 <= j < devices.len() ==> !(#[trigger] devices[j]).is_paired)
                ==> r.selected_device is None && asks(s, Message::DevicesLoaded(list)).len() == 0
            &&& forall|id: Seq<char>|
                #[trigger] r.pairing_in_progress.contains_key(id)
                    <==> s.pairing_in_progress.contains_key(id) && !lists_paired(devices, id)
            &&& forall|id: Seq<char>|
                s.selected_device != Some(id) ==> (#[trigger] r.plugin_states.contains_key(id)
                    <==> s.plugin_states.contains_key(id)) && (s.plugin_states.contains_key(id)
                    ==> r.plugin_states[id] == s.plugin_states[id])
            &&& r.run_commands == s.run_commands
            &&& r.active_tab == s.active_tab
            &&& r.new_cmd_name == s.new_cmd_name
            &&& r.new_cmd_command == s.new_cmd_command
        }),
{
    let devices = order::views(list@);
    let r = after(s, Message::DevicesLoaded(list), fresh);
    let p = |d: AppletDeviceModel| d.is_paired;
    lemma_found(devices, p);
    let at = order::first_where(devices, p);
    assert forall|i: int|
        #![trigger devices[i]]
        0 <= i < devices.len() && devices[i].is_paired && (forall|j: int|
            0 <= j < i ==> !(#[trigger] devices[j]).is_paired) implies at == i by {
        order::lemma_first_where(devices, p, i);
    }
    if forall|j: int| 0 <= j < devices.len() ==> !(#[trigger] devices[j]).is_paired {
        order::lemma_first_where(devices, p, devices.len() as int);
    }
    assert forall|id: Seq<char>|
        #[trigger] r.pairing_in_progress.contains_key(id) <==> s.pairing_in_progress.contains_key(id)
            && !lists_paired(devices, id) by {
        assert(paired_ids(devices).contains(id) <==> lists_paired(devices, id));
    }
}

/// What the controls of the window do, each to what it stands for and to nothing
/// else.
pub proof fn lemma_settings_controls(
    s: SettingsState,
    id: String,
    names: Vec<String>,
    tab: Tab,
    fresh: Seq<char>,
)
    ensures
        after(s, Message::PluginStatesLoaded(id, names), fresh) == (SettingsState {
            plugin_states: s.plugin_states.insert(id@, names.deep_view().to_set()),
            ..s
        }),
        after(s, Message::SelectTab(tab), fresh) == (SettingsState { active_tab: tab, ..s }),
        asks(s, Message::SelectTab(Tab::AvailableDevices)) == seq![SettingsTaskModel::FetchDevices],
        asks(s, Message::SelectTab(Tab::PairedDevices)).len() == 0,
        after(s, Message::SelectDevice(id), fresh).selected_device == Some(id@),
        after(s, Message::SelectDevice(id), fresh).devices == s.devices,
        s.selected_device != Some(id@) ==> asks(s, Message::SelectDevice(id)) == seq![
            SettingsTaskModel::LoadPluginStates(id@),
        ],
        s.selected_device == Some(id@) ==> asks(s, Message::SelectDevice(id)).len() == 0,
        after(s, Message::Refresh, fresh) == s,
        asks(s, Message::Refresh) == seq![SettingsTaskModel::FetchDevices],
        after(s, Message::NewRunCommandName(id), fresh) == (SettingsState { new_cmd_name: id@, ..s }),
        after(s, Message::NewRunCommandCommand(id), fresh) == (SettingsState {
            new_cmd_command: id@,
            ..s
        }),
{
}

/// Pairing and unpairing: a request is shown as under way and made of the device
/// it is for; a device that is unpaired loses its switches, and its selection.
pub proof fn lemma_pairing_controls(s: SettingsState, id: String, fresh: Seq<char>)
    ensures
        after(s, Message::PairDevice(id), fresh) == (SettingsState {
            pairing_in_progress: s.pairing_in_progress.insert(id@, true),
            ..s
        }),
        asks(s, Message::PairDevice(id)) == seq![SettingsTaskModel::Pair(id@)],
        s.selected_device == Some(id@) ==> after(s, Message::UnpairDevice(id), fresh) == (
        SettingsState {
            selected_device: None,
            plugin_states: s.plugin_states.remove(id@),
            ..s
        }),
        s.selected_device != Some(id@) ==> after(s, Message::UnpairDevice(id), fresh) == (
        SettingsState { plugin_states: s.plugin_states.remove(id@), ..s }),
        asks(s, Message::UnpairDevice(id)) == seq![SettingsTaskModel::Unpair(id@)],
{
}

/// Switching a plugin is asked of the selected device. Without one nothing is
/// switched.
pub proof fn lemma_switches_are_asked_for(
    s: SettingsState,
    plugin: String,
    on: bool,
    fresh: Seq<char>,
)
    ensures
        s.selected_device matches Some(id) ==> asks(s, Message::TogglePlugin(plugin, on)) == seq![
            SettingsTaskModel::SetPluginEnabled(id, plugin@, on),
        ],
        s.selected_device is None ==> asks(s, Message::TogglePlugin(plugin, on)).len() == 0
            && after(s, Message::TogglePlugin(plugin, on), fresh) == s,
        s.selected_device matches Some(id) ==> ({
            let r = after(s, Message::TogglePlugin(plugin, on), fresh);
            &&& r.plugin_states.contains_key(id)
            &&& r.plugin_states[id].contains(plugin@) <==> !on
            &&& r.selected_device == s.selected_device
            &&& r.devices == s.devices
            &&& r.run_commands == s.run_commands
        }),
{
}

/// The devices are fetched again when one comes, goes or is paired, and not
/// otherwise.
pub proof fn lemma_devices_are_fetched_again(s: SettingsState, event: ServiceEvent, fresh: Seq<char>)
    ensures
        event is DeviceConnected || event is DeviceDisconnected || event is DevicePaired ==> asks(
            s,
            Message::ServiceEvent(event),
        ) == seq![SettingsTaskModel::FetchDevices],
        !(event is DeviceConnected) && !(event is DeviceDisconnected) && !(event is DevicePaired)
            ==> asks(s, Message::ServiceEvent(event)).len() == 0,
        after(s, Message::ServiceEvent(event), fresh) == s,
{
}

/// A command that has a name and something to run is added behind the others,
/// both trimmed, under the fresh identifier; the fields are empty again, and the
/// commands are stored and told to the selected device. Otherwise nothing
/// happens.
pub proof fn lemma_commands_are_added(s: SettingsState, fresh: Seq<char>)
    ensures
        ({
            let name = text::trimmed(s.new_cmd_name);
            let command = text::trimmed(s.new_cmd_command);
            let r = after(s, Message::AddRunCommand, fresh);
            let a = asks(s, Message::AddRunCommand);
            &&& name.len() == 0 || command.len() == 0 ==> r == s && a.len() == 0
            &&& name.len() > 0 && command.len() > 0 ==> {
                &&& r.run_commands == s.run_commands.push(
                    (StoredModel { id: Some(fresh), name: Some(name), command: Some(command) }),
                )
                &&& r.new_cmd_name.len() == 0
                &&& r.new_cmd_command.len() == 0
                &&& r.devices == s.devices
                &&& r.selected_device == s.selected_device
                &&& r.plugin_states == s.plugin_states
                &&& a.len() > 0 && a[0] is SaveCommands
                &&& s.selected_device matches Some(id) ==> a.len() == 2 && a[1]
                    == SettingsTaskModel::PushCommands(id)
                &&& s.selected_device is None ==> a.len() == 1
            }
        }),
{
}

/// Deleting a command takes those with its identifier away and leaves the others;
/// the commands are then stored and told to the selected device.
pub proof fn lemma_commands_are_deleted(s: SettingsState, id: String, fresh: Seq<char>, i: int)
    requires
        0 <= i < s.run_commands.len(),
    ensures
        ({
            let r = after(s, Message::DeleteRunCommand(id), fresh);
            let a = asks(s, Message::DeleteRunCommand(id));
            &&& s.run_commands[i].id != Some(id@) ==> r.run_commands.contains(s.run_commands[i])
            &&& forall|k: int|
                0 <= k < r.run_commands.len() ==> (#[trigger] r.run_commands[k]).id != Some(id@)
                    && s.run_commands.contains(r.run_commands[k])
            &&& a.len() > 0 && a[0] is SaveCommands
            &&& s.selected_device matches Some(d) ==> a.len() == 2 && a[1]
                == SettingsTaskModel::PushCommands(d)
            &&& r.new_cmd_name == s.new_cmd_name
            &&& r.devices == s.devices
            &&& r.plugin_states == s.plugin_states
        }),
{
    let keep = |c: StoredModel| c.id != Some(id@);
    let r = after(s, Message::DeleteRunCommand(id), fresh);
    if keep(s.run_commands[i]) {
        s.run_commands.lemma_filter_contains(keep, i);
    }
    assert forall|k: int| 0 <= k < r.run_commands.len() implies (
    #[trigger] r.run_commands[k]).id != Some(id@) && s.run_commands.contains(r.run_commands[k]) by {
        s.run_commands.lemma_filter_pred(keep, k);
        s.run_commands.lemma_filter_contains_rev(keep, r.run_commands[k]);
    }
}

/// The list of paired devices holds every paired device and no other; the list of
/// devices to pair holds those within reach that are not paired, and no other.
pub proof fn lemma_devices_are_listed_apart(s: SettingsState, d: AppletDeviceModel)
    ensures
        paired(s).contains(d) <==> s.devices.contains(d) && d.is_paired,
        available(s).contains(d) <==> s.devices.contains(d) && !d.is_paired && d.is_reachable,
{
    let p = |x: AppletDeviceModel| x.is_paired;
    let q = |x: AppletDeviceModel| !x.is_paired && x.is_reachable;
    if s.devices.contains(d) {
        let i = choose|i: int| 0 <= i < s.devices.len() && s.devices[i] == d;
        if d.is_paired {
            s.devices.lemma_filter_contains(p, i);
        }
        if !d.is_paired && d.is_reachable {
            s.devices.lemma_filter_contains(q, i);
        }
    }
    if paired(s).contains(d) {
        let i = choose|i: int| 0 <= i < paired(s).len() && paired(s)[i] == d;
        s.devices.lemma_filter_pred(p, i);
        s.devices.lemma_filter_contains_rev(p, d);
    }
    if available(s).contains(d) {
        let i = choose|i: int| 0 <= i < available(s).len() && available(s)[i] == d;
        s.devices.lemma_filter_pred(q, i);
        s.devices.lemma_filter_contains_rev(q, d);
    }
}

/// What the entries of the lists say of their device.
pub proof fn lemma_entries(s: SettingsState, d: AppletDeviceModel, c: StoredModel)
    ensures
        sidebar_item(s, d).device_id == d.id,
        sidebar_item(s, d).name == d.name,
        sidebar_item(s, d).reachable == d.is_reachable,
        sidebar_item(s, d).selected <==> s.selected_device == Some(d.id),
        available_item(s, d).device_id == d.id,
        available_item(s, d).name == d.name,
        available_item(s, d).in_progress <==> s.pairing_in_progress.contains_key(d.id)
            && s.pairing_in_progress[d.id],
        c.id matches Some(x) ==> command_line(c).0 == x,
        c.name matches Some(x) ==> command_line(c).1 == x,
        c.command matches Some(x) ==> command_line(c).2 == x,
        c.id is None ==> command_line(c).0.len() == 0,
        c.name is None ==> command_line(c).1.len() == 0,
        c.command is None ==> command_line(c).2.len() == 0,
{
}

/// The page of a device shows the name of the first listed device with the
/// selected identifier.
pub proof fn lemma_the_selected_device_is_named(s: SettingsState, i: int)
    requires
        0 <= i < s.devices.len(),
        s.selected_device == Some(s.devices[i].id),
        forall|j: int| 0 <= j < i ==> (#[trigger] s.devices[j]).id != s.devices[i].id,
    ensures
        selected_entry(s) == Some((s.devices[i].id, s.devices[i].name)),
{
    order::lemma_first_where(s.devices, |d: AppletDeviceModel| d.id == s.devices[i].id, i);
}

/// Every plugin that packets belong to can be switched.
pub proof fn lemma_every_plugin_can_be_switched(pt: crate::packet::PacketType)
    ensures
        crate::plugins::plugin_of(pt) matches Some(p) ==> exists|i: int|
            0 <= i < plugin_table().len() && (#[trigger] plugin_table()[i]).0 == p,
{
    let t = plugin_table();
    assert(t[0].0 == "battery"@);
    assert(t[1].0 == "clipboard"@);
    assert(t[2].0 == "connectivity_report"@);
    assert(t[3].0 == "contacts"@);
    assert(t[4].0 == "findmyphone"@);
    assert(t[5].0 == "mpris"@);
    assert(t[6].0 == "notification"@);
    assert(t[7].0 == "ping"@);
    assert(t[8].0 == "runcommand"@);
    assert(t[9].0 == "share"@);
    assert(t[10].0 == "sms"@);
    assert(t[11].0 == "systemvolume"@);
    assert(t[12].0 == "telephony"@);
}

/// Commands that are loaded are shown as they are.
pub proof fn lemma_loaded_commands_are_shown(
    s: SettingsState,
    commands: Vec<StoredCommand>,
    fresh: Seq<char>,
)
    ensures
        after(s, Message::RunCommandsLoaded(commands), fresh) == (SettingsState {
            run_commands: order::views(commands@),
            ..s
        }),
        asks(s, Message::RunCommandsLoaded(commands)).len() == 0,
{
}

/// A device is listed as paired where an entry of the list says so, and nowhere
/// else.
pub proof fn lemma_listed_as_paired(list: Seq<AppletDeviceModel>, d: AppletDeviceModel, id: Seq<char>)
    ensures
        lists_paired(list.push(d), id) <==> lists_paired(list, id) || (d.is_paired && d.id == id),
        !lists_paired(Seq::empty(), id),
{
    let more = list.push(d);
    assert(more[list.len() as int] == d);
    if lists_paired(list, id) {
        let i = choose|i: int|
            0 <= i < list.len() && (#[trigger] list[i]).id == id && list[i].is_paired;
        assert(more[i].id == id && more[i].is_paired);
    }
    if lists_paired(more, id) {
        let i = choose|i: int|
            0 <= i < more.len() && (#[trigger] more[i]).id == id && more[i].is_paired;
        if i < list.len() {
            assert(list[i].id == id && list[i].is_paired);
        }
    }
}

} // verus!
