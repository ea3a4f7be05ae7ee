//! The players of connected phones, as they are offered to this desktop.

use vstd::prelude::*;

use crate::device::DeviceId;
use crate::table;
use crate::table::{Duplicate, TextMap};
use crate::mpris;
use crate::mpris::{
    album_art_request, now_playing_request, sanitize_player, Mpris, MprisAction, MprisPlayer,
    MprisRequest,
};
use crate::text;
use crate::text::{chars_of, join2, join3, same, starts_with};

verus! {

/// A player that is offered on the session bus.
#[derive(Debug, PartialEq, Eq)]
pub struct ActivePlayer {
    pub device_id: DeviceId,
    pub player: MprisPlayer,
}

/// An offered player as a value.
pub struct ActiveModel {
    pub device: Seq<char>,
    pub player: MprisPlayer,
}

impl View for ActivePlayer {
    type V = ActiveModel;

    open spec fn view(&self) -> ActiveModel {
        ActiveModel { device: self.device_id@, player: self.player }
    }
}

impl Duplicate for ActivePlayer {
    fn duplicate(&self) -> (r: Self) {
        ActivePlayer { device_id: self.device_id.duplicate(), player: self.player.copy() }
    }
}

/// What the desktop has to do about the players of phones.
#[derive(Debug, PartialEq, Eq)]
pub enum PlayerTask {
    /// Send the request to the device.
    Ask(DeviceId, MprisRequest),
    /// Offer a new player on the session bus, then report whether that worked.
    Register(DeviceId, MprisPlayer),
    /// Tell the session bus that the player has started or stopped.
    StatusChanged(String),
    /// Tell the session bus that the metadata of the player has changed.
    MetadataChanged(String),
    /// Withdraw the player from the session bus.
    Withdraw(String),
}

/// The key of a player.
pub open spec fn player_key(device: Seq<char>, player: Seq<char>) -> Seq<char> {
    device + "_"@ + player
}

fn key_of(device: &str, player: &str) -> (r: String)
    ensures
        r@ == player_key(device@, player@),
{
    join3(device, "_", player)
}

/// The players that are offered, and the album art that was asked for.
#[derive(Debug)]
pub struct PhonePlayers {
    active: TextMap<ActivePlayer>,
    requested_art: TextMap<String>,
}

/// The offered players and the art asked for, as values.
pub struct PlayersModel {
    pub active: Map<Seq<char>, ActiveModel>,
    pub art: Map<Seq<char>, Seq<char>>,
}

impl View for PhonePlayers {
    type V = PlayersModel;

    closed spec fn view(&self) -> PlayersModel {
        PlayersModel { active: self.active@, art: self.requested_art@ }
    }
}

/// The keys of the players that a device still lists.
pub open spec fn listed(device: Seq<char>, names: Seq<Seq<char>>, key: Seq<char>) -> bool {
    exists|i: int| 0 <= i < names.len() && key == player_key(device, #[trigger] names[i])
}

/// Keys under the name of a device that it no longer lists.
pub open spec fn unlisted(device: Seq<char>, names: Seq<Seq<char>>, key: Seq<char>) -> bool {
    text::begins(key, device + "_"@) && !listed(device, names, key)
}

/// The players after a device has sent its list: those of the device that are
/// not on it go, along with the art that was asked for on their behalf.
pub open spec fn after_list(m: PlayersModel, device: Seq<char>, names: Seq<Seq<char>>) -> PlayersModel {
    PlayersModel {
        active: m.active.remove_keys(
            Set::new(
                |k: Seq<char>|
                    m.active.contains_key(k) && m.active[k].device == device && unlisted(device, names, k),
            ),
        ),
        art: m.art.remove_keys(
            Set::new(|k: Seq<char>| m.art.contains_key(k) && unlisted(device, names, k)),
        ),
    }
}

/// Whether the report names art that was not asked for yet.
pub open spec fn wants_art(m: PlayersModel, device: Seq<char>, info: MprisPlayer) -> bool {
    let key = player_key(device, info.player@);
    info.album_art_url is Some && !(m.art.contains_key(key) && m.art[key] == info.album_art_url->0@)
}

/// The players after a report on one: a known player takes the report over,
/// keeping the art that was resolved for it.
pub open spec fn after_info(m: PlayersModel, device: Seq<char>, info: MprisPlayer) -> PlayersModel {
    let key = player_key(device, info.player@);
    PlayersModel {
        active: if m.active.contains_key(key) {
            m.active.insert(
                key,
                ActiveModel {
                    player: MprisPlayer {
                        album_art_url: m.active[key].player.album_art_url,
                        ..info
                    },
                    ..m.active[key]
                },
            )
        } else {
            m.active
        },
        art: if wants_art(m, device, info) {
            m.art.insert(key, info.album_art_url->0@)
        } else {
            m.art
        },
    }
}

/// The players after a device has gone.
pub open spec fn after_disconnect(m: PlayersModel, device: Seq<char>) -> PlayersModel {
    PlayersModel {
        active: m.active.remove_keys(
            Set::new(|k: Seq<char>| m.active.contains_key(k) && m.active[k].device == device),
        ),
        ..m
    }
}

/// What a player shows once a button of it was pressed.
pub open spec fn shown_after(p: MprisPlayer, button: MprisAction) -> MprisPlayer {
    match button {
        MprisAction::Play | MprisAction::PlayPause => MprisPlayer {
            is_playing: Some(!p.playing()),
            ..p
        },
        MprisAction::Pause => MprisPlayer { is_playing: Some(false), ..p },
        _ => p,
    }
}

/// What the phone is asked to do when a button of a player is pressed.
pub open spec fn button_request(p: MprisPlayer, button: MprisAction) -> MprisRequest {
    MprisRequest {
        player: Some(p.player),
        action: Some(
            if button is Play && p.playing() {
                MprisAction::Pause
            } else {
                button
            },
        ),
        ..mpris::no_request()
    }
}

/// A request for now-playing information and volume.
pub open spec fn introduction(player: String) -> MprisRequest {
    MprisRequest {
        player: Some(player),
        request_now_playing: Some(true),
        request_volume: Some(true),
        ..mpris::no_request()
    }
}

/// The key that a task withdraws.
pub open spec fn withdrawn(t: PlayerTask) -> Seq<char> {
    t->Withdraw_0@
}

/// From an index on, no player is withdrawn twice.
pub open spec fn withdrawn_once(r: Seq<PlayerTask>, from: int) -> bool {
    forall|i: int, j: int|
        from <= i < j < r.len() ==> withdrawn(#[trigger] r[i]) != withdrawn(#[trigger] r[j])
}

/// What a list of players leads to: every player on it is asked what it plays,
/// in order, and exactly the offered players that it drops are withdrawn, each
/// once.
pub open spec fn list_tasks(
    before: PlayersModel,
    after: PlayersModel,
    device: Seq<char>,
    names: Seq<String>,
    r: Seq<PlayerTask>,
) -> bool {
    &&& r.len() >= names.len()
    &&& forall|i: int|
        0 <= i < names.len() ==> (#[trigger] r[i] matches PlayerTask::Ask(d, q) && d@ == device && q
            == introduction(names[i]))
    &&& forall|i: int|
        names.len() <= i < r.len() ==> (#[trigger] r[i] matches PlayerTask::Withdraw(k)
            && before.active.contains_key(k@) && !after.active.contains_key(k@))
    &&& forall|k: Seq<char>|
        #[trigger] before.active.contains_key(k) && !after.active.contains_key(k) ==> exists|i: int|
            names.len() <= i < r.len() && (#[trigger] r[i] matches PlayerTask::Withdraw(q) && q@ == k)
    &&& withdrawn_once(r, names.len() as int)
}

proof fn lemma_new_key<V>(list: Seq<(String, V)>, i: int)
    requires
        table::distinct(list),
        0 <= i < list.len(),
    ensures
        !(table::has(list.take(i), list[i].0@)),
{
    let before = list.take(i);
    if table::has(before, list[i].0@) {
        let n = choose|n: int| 0 <= n < before.len() && (#[trigger] before[n]).0@ == list[i].0@;
        assert(list[n].0@ == list[i].0@);
    }
}

proof fn lemma_push_once(s: Seq<Seq<char>>, x: Seq<char>)
    requires
        s.no_duplicates(),
        !s.contains(x),
    ensures
        s.push(x).no_duplicates(),
{
    let t = s.push(x);
    assert forall|i: int, j: int| 0 <= i < t.len() && 0 <= j < t.len() && i != j implies t[i]
        != t[j] by {
        if i < s.len() && j < s.len() {
            assert(s[i] != s[j]);
        }
    }
}

/// What a report on a player leads to: a request for art that is new, then the
/// registration of a new player or word of a known one that has started or
/// stopped.
pub open spec fn info_tasks(
    before: PlayersModel,
    device: Seq<char>,
    info: MprisPlayer,
    r: Seq<PlayerTask>,
) -> bool {
    let key = player_key(device, info.player@);
    let art = wants_art(before, device, info);
    let known = before.active.contains_key(key);
    let turned = known && before.active[key].player.is_playing != info.is_playing;
    &&& r.len() == (if art {
        1int
    } else {
        0
    }) + (if !known || turned {
        1int
    } else {
        0
    })
    &&& art ==> (r[0] matches PlayerTask::Ask(d, q) && d@ == device && q == (MprisRequest {
        player: Some(info.player),
        album_art_url: Some(info.album_art_url->0),
        ..mpris::no_request()
    }))
    &&& !known ==> (r.last() matches PlayerTask::Register(d, p) && d@ == device && p == info)
    &&& turned ==> (r.last() matches PlayerTask::StatusChanged(k) && k@ == key)
}

impl PhonePlayers {
    /// Keys are distinct.
    pub closed spec fn wf(&self) -> bool {
        self.active.wf() && self.requested_art.wf()
    }

    /// The offered players in the order in which they came.
    pub closed spec fn offered(&self) -> Seq<(String, ActivePlayer)> {
        self.active.list()
    }

    /// No player is offered.
    pub fn new() -> (r: PhonePlayers)
        ensures
            r.wf(),
            r@ == (PlayersModel { active: Map::empty(), art: Map::empty() }),
    {
        PhonePlayers { active: TextMap::new(), requested_art: TextMap::new() }
    }

    /// A device has sent the list of its players. Each of them is asked what it
    /// plays, and players that are gone are withdrawn.
    pub fn list_received(&mut self, device_id: &DeviceId, names: &Vec<String>) -> (r: Vec<PlayerTask>)
        requires
            old(self).wf(),
        ensures
            final(self).wf(),
            final(self)@ == after_list(old(self)@, device_id@, names.deep_view()),
            list_tasks(old(self)@, final(self)@, device_id@, names@, r@),
            ({
                &&& r@.len() >= names@.len()
    &&& forall|i: int|
        0 <= i < names@.len() ==> (#[trigger] r@[i] matches PlayerTask::Ask(d, q) && d@ == device_id@ && q
            == introduction(names@[i]))
    &&& forall|i: int|
        names@.len() <= i < r@.len() ==> (#[trigger] r@[i] matches PlayerTask::Withdraw(k)
            && old(self)@.active.contains_key(k@) && !final(self)@.active.contains_key(k@))
    &&& forall|k: Seq<char>|
        #[trigger] old(self)@.active.contains_key(k) && !final(self)@.active.contains_key(k) ==> exists|i: int|
            names@.len() <= i < r@.len() && (#[trigger] r@[i] matches PlayerTask::Withdraw(q) && q@ == k)
    &&& withdrawn_once(r@, names@.len() as int)
            }),
    {
        let mut r: Vec<PlayerTask> = Vec::new();
        let mut i: usize = 0;
        while i < names.len()
            invariant
                i <= names@.len(),
                r@.len() == i,
                forall|j: int|
                    0 <= j < i ==> (#[trigger] r@[j] matches PlayerTask::Ask(d, q) && d@
                        == device_id@ && q == introduction(names@[j])),
            decreases names@.len() - i,
        {
            let mut q = now_playing_request(names[i].clone());
            q.request_volume = Some(true);
            r.push(PlayerTask::Ask(device_id.duplicate(), q));
            i = i + 1;
        }
        let ghost asked = r@;
        let ghost before = self@;
        let gone = self.unlisted_players(device_id, names);
        let gone_art = self.unlisted_art(device_id, names);
        self.active.remove_all(&gone);
        self.requested_art.remove_all(&gone_art);
        let mut j: usize = 0;
        while j < gone.len()
            invariant
                j <= gone@.len(),
                r@.len() == names@.len() + j,
                asked.len() == names@.len(),
                forall|k: int| 0 <= k < asked.len() ==> #[trigger] r@[k] == asked[k],
                forall|k: int|
                    asked.len() <= k < asked.len() + j ==> (
                    #[trigger] r@[k] matches PlayerTask::Withdraw(q) && q@ == gone.deep_view()[k
                        - asked.len()]),
            decreases gone@.len() - j,
        {
            r.push(PlayerTask::Withdraw(gone[j].clone()));
            j = j + 1;
        }
        proof {
            let all = gone.deep_view();
            let model = after_list(before, device_id@, names.deep_view());
            assert(self.active@ =~= model.active);
            assert(self.requested_art@ =~= model.art);
            assert forall|i: int| names@.len() <= i < r@.len() implies (
            #[trigger] r@[i] matches PlayerTask::Withdraw(k) && before.active.contains_key(k@)
                && !self@.active.contains_key(k@)) by {
                assert(all.contains(all[i - names@.len()]));
            }
            assert forall|k: Seq<char>|
                #[trigger] before.active.contains_key(k) && !self@.active.contains_key(k) implies exists|
                i: int,
            |
                names@.len() <= i < r@.len() && (#[trigger] r@[i] matches PlayerTask::Withdraw(q)
                    && q@ == k) by {
                assert(all.contains(k));
                let m = choose|m: int| 0 <= m < all.len() && all[m] == k;
                assert(r@[names@.len() + m] matches PlayerTask::Withdraw(q) && q@ == k);
            }
            let n = names@.len() as int;
            assert forall|i: int, j: int| n <= i < j < r@.len() implies withdrawn(#[trigger] r@[i])
                != withdrawn(#[trigger] r@[j]) by {
                assert(withdrawn(r@[i]) == all[i - n]);
                assert(withdrawn(r@[j]) == all[j - n]);
            }
        }
        r
    }

    fn is_unlisted(device: &str, names: &Vec<String>, key: &str) -> (r: bool)
        ensures
            r == unlisted(device@, names.deep_view(), key@),
    {
        if !starts_with(key, &join2(device, "_")) {
            return false;
        }
        let ghost all = names.deep_view();
        let mut i: usize = 0;
        while i < names.len()
            invariant
                i <= names@.len(),
                all == names.deep_view(),
                forall|j: int| 0 <= j < i ==> key@ != player_key(device@, #[trigger] all[j]),
            decreases names@.len() - i,
        {
            proof {
                assert(all[i as int] == names@[i as int]@);
            }
            if same(key, &key_of(device, &names[i])) {
                return false;
            }
            i = i + 1;
        }
        true
    }

    fn unlisted_players(&self, device_id: &DeviceId, names: &Vec<String>) -> (r: Vec<String>)
        requires
            self.wf(),
        ensures
            forall|k: Seq<char>| #[trigger]
                r.deep_view().contains(k) <==> (self@.active.contains_key(k) && self@.active[k].device
                    == device_id@ && unlisted(device_id@, names.deep_view(), k)),
            r.deep_view().no_duplicates(),
    {
        proof {
            self.active.lemma_list();
        }
        let mut r: Vec<String> = Vec::new();
        let mut i: usize = 0;
        let ghost list = self.active.list();
        while i < self.active.len()
            invariant
                i <= list.len(),
                list == self.active.list(),
                self.wf(),
                table::distinct(list),
                r.deep_view().no_duplicates(),
                forall|n: int|
                    0 <= n < list.len() ==> {
                        &&& self@.active.contains_key((#[trigger] list[n]).0@)
                        &&& self@.active[list[n].0@] == list[n].1@
                    },
                forall|k: Seq<char>| #[trigger]
                    r.deep_view().contains(k) <==> (table::has(list.take(i as int), k)
                        && self@.active[k].device == device_id@ && unlisted(
                        device_id@,
                        names.deep_view(),
                        k,
                    )),
            decreases list.len() - i,
        {
            let key = self.active.key_at(i);
            let value = self.active.value_at(i);
            let ghost before = r.deep_view();
            let gone = same(&value.device_id.0, &device_id.0) && Self::is_unlisted(
                &device_id.0,
                names,
                key,
            );
            if gone {
                r.push(key.clone());
            }
            proof {
                assert(self@.active[list[i as int].0@] == list[i as int].1@);
                if gone {
                    assert(r.deep_view() =~= before.push(key@));
                    lemma_new_key(list, i as int);
                    assert(!before.contains(key@));
                    lemma_push_once(before, key@);
                }
                assert forall|k: Seq<char>| #[trigger]
                    r.deep_view().contains(k) <==> (table::has(list.take(i + 1), k)
                        && self@.active[k].device == device_id@ && unlisted(
                        device_id@,
                        names.deep_view(),
                        k,
                    )) by {
                    table::lemma_has_next(list, i as int, k);
                    if gone {
                        table::lemma_push_contains(before, key@, k);
                    }
                    assert(before.contains(k) <==> (table::has(list.take(i as int), k)
                        && self@.active[k].device == device_id@ && unlisted(
                        device_id@,
                        names.deep_view(),
                        k,
                    )));
                }
            }
            i = i + 1;
        }
        proof {
            assert(list.take(i as int) == list);
        }
        r
    }

    fn unlisted_art(&self, device_id: &DeviceId, names: &Vec<String>) -> (r: Vec<String>)
        requires
            self.wf(),
        ensures
            forall|k: Seq<char>| #[trigger]
                r.deep_view().contains(k) <==> (self@.art.contains_key(k) && unlisted(
                    device_id@,
                    names.deep_view(),
                    k,
                )),
    {
        proof {
            self.requested_art.lemma_list();
        }
        let mut r: Vec<String> = Vec::new();
        let mut i: usize = 0;
        let ghost list = self.requested_art.list();
        while i < self.requested_art.len()
            invariant
                i <= list.len(),
                list == self.requested_art.list(),
                forall|k: Seq<char>| #[trigger]
                    r.deep_view().contains(k) <==> (table::has(list.take(i as int), k)
                        && unlisted(device_id@, names.deep_view(), k)),
            decreases list.len() - i,
        {
            let key = self.requested_art.key_at(i);
            let ghost before = r.deep_view();
            let gone = Self::is_unlisted(&device_id.0, names, key);
            if gone {
                r.push(key.clone());
            }
            proof {
                if gone {
                    assert(r.deep_view() =~= before.push(key@));
                }
                assert forall|k: Seq<char>| #[trigger]
                    r.deep_view().contains(k) <==> (table::has(list.take(i + 1), k) && unlisted(
                        device_id@,
                        names.deep_view(),
                        k,
                    )) by {
                    table::lemma_has_next(list, i as int, k);
                    if gone {
                        table::lemma_push_contains(before, key@, k);
                    }
                    assert(before.contains(k) <==> (table::has(list.take(i as int), k)
                        && unlisted(device_id@, names.deep_view(), k)));
                }
            }
            i = i + 1;
        }
        proof {
            assert(list.take(i as int) == list);
        }
        r
    }
}

impl PhonePlayers {
    /// A device has reported on one of its players. Art that is new is asked
    /// for; a player that is not offered yet is to be registered, and one that
    /// is takes the report over, keeping the art that was resolved for it.
    pub fn info_received(&mut self, device_id: &DeviceId, info: MprisPlayer) -> (r: Vec<PlayerTask>)
        requires
            old(self).wf(),
        ensures
            final(self).wf(),
            final(self)@ == after_info(old(self)@, device_id@, info),
            info_tasks(old(self)@, device_id@, info, r@),
            ({
                let key = player_key(device_id@, info.player@);
    let art = wants_art(old(self)@, device_id@, info);
    let known = old(self)@.active.contains_key(key);
    let turned = known && old(self)@.active[key].player.is_playing != info.is_playing;
    &&& r@.len() == (if art {
        1int
    } else {
        0
    }) + (if !known || turned {
        1int
    } else {
        0
    })
    &&& art ==> (r@[0] matches PlayerTask::Ask(d, q) && d@ == device_id@ && q == (MprisRequest {
        player: Some(info.player),
        album_art_url: Some(info.album_art_url->0),
        ..mpris::no_request()
    }))
    &&& !known ==> (r@.last() matches PlayerTask::Register(d, p) && d@ == device_id@ && p == info)
    &&& turned ==> (r@.last() matches PlayerTask::StatusChanged(k) && k@ == key)
            }),
    {
        let mut r: Vec<PlayerTask> = Vec::new();
        let ghost before = self@;
        let key = key_of(&device_id.0, &info.player);
        if let Some(url) = &info.album_art_url {
            let have = match self.requested_art.get(&key) {
                Some(u) => same(u, url),
                None => false,
            };
            if !have {
                self.requested_art.insert(key.clone(), url.clone());
                r.push(
                    PlayerTask::Ask(
                        device_id.duplicate(),
                        album_art_request(info.player.clone(), url.clone()),
                    ),
                );
            }
        }
        let known = match self.active.get(&key) {
            Some(a) => Some(a.duplicate()),
            None => None,
        };
        match known {
            Some(a) => {
                let turned = match (a.player.is_playing, info.is_playing) {
                    (Some(x), Some(y)) => x != y,
                    (None, None) => false,
                    _ => true,
                };
                let mut player = info;
                player.album_art_url = a.player.album_art_url;
                self.active.insert(
                    key.clone(),
                    ActivePlayer { device_id: a.device_id, player },
                );
                if turned {
                    r.push(PlayerTask::StatusChanged(key));
                }
            },
            None => {
                r.push(PlayerTask::Register(device_id.duplicate(), info));
            },
        }
        proof {
            assert(self@.active =~= after_info(before, device_id@, info).active);
            assert(self@.art =~= after_info(before, device_id@, info).art);
        }
        r
    }

    /// A player was put on the session bus.
    pub fn registered(&mut self, device_id: &DeviceId, info: MprisPlayer)
        requires
            old(self).wf(),
        ensures
            final(self).wf(),
            final(self)@ == (PlayersModel {
                active: old(self)@.active.insert(
                    player_key(device_id@, info.player@),
                    ActiveModel { device: device_id@, player: info },
                ),
                ..old(self)@
            }),
    {
        let key = key_of(&device_id.0, &info.player);
        self.active.insert(key, ActivePlayer { device_id: device_id.duplicate(), player: info });
    }

    /// The art of a player was downloaded to the path.
    pub fn art_ready(&mut self, device_id: &DeviceId, player: &str, path: String) -> (r: Vec<PlayerTask>)
        requires
            old(self).wf(),
        ensures
            final(self).wf(),
            ({
                let key = player_key(device_id@, player@);
                let known = old(self)@.active.contains_key(key);
                &&& final(self)@ == (PlayersModel {
                    active: if known {
                        old(self)@.active.insert(
                            key,
                            ActiveModel {
                                player: MprisPlayer {
                                    album_art_url: Some(path),
                                    ..old(self)@.active[key].player
                                },
                                ..old(self)@.active[key]
                            },
                        )
                    } else {
                        old(self)@.active
                    },
                    ..old(self)@
                })
                &&& r@.len() == (if known { 1int } else { 0 })
                &&& known ==> (r@[0] matches PlayerTask::MetadataChanged(k) && k@ == key)
            }),
    {
        let mut r: Vec<PlayerTask> = Vec::new();
        let key = key_of(&device_id.0, player);
        let known = match self.active.get(&key) {
            Some(a) => Some(a.duplicate()),
            None => None,
        };
        if let Some(a) = known {
            let mut p = a.player;
            p.album_art_url = Some(path);
            self.active.insert(key.clone(), ActivePlayer { device_id: a.device_id, player: p });
            r.push(PlayerTask::MetadataChanged(key));
        }
        r
    }

    /// What an offered player shows.
    pub fn player(&self, device_id: &DeviceId, player: &str) -> (r: Option<MprisPlayer>)
        requires
            self.wf(),
        ensures
            ({
                let key = player_key(device_id@, player@);
                r == (if self@.active.contains_key(key) {
                    Some(self@.active[key].player)
                } else {
                    None
                })
            }),
    {
        match self.active.get(&key_of(&device_id.0, player)) {
            Some(a) => Some(a.player.copy()),
            None => None,
        }
    }

    /// A button of an offered player was pressed: gives what the phone is asked
    /// to do. The player shows the change at once.
    pub fn pressed(&mut self, device_id: &DeviceId, player: &str, button: MprisAction) -> (r: Option<
        MprisRequest,
    >)
        requires
            old(self).wf(),
        ensures
            final(self).wf(),
            ({
                let key = player_key(device_id@, player@);
                let before = old(self)@.active;
                &&& final(self)@.art == old(self)@.art
                &&& before.contains_key(key) ==> {
                    &&& r == Some(button_request(before[key].player, button))
                    &&& final(self)@.active == before.insert(
                        key,
                        ActiveModel {
                            player: shown_after(before[key].player, button),
                            ..before[key]
                        },
                    )
                }
                &&& !before.contains_key(key) ==> r is None && final(self)@.active == before
            }),
    {
        let key = key_of(&device_id.0, player);
        let known = match self.active.get(&key) {
            Some(a) => Some(a.duplicate()),
            None => None,
        };
        match known {
            Some(a) => {
                let mut p = a.player;
                let request = match button {
                    MprisAction::Play => p.play(),
                    MprisAction::Pause => p.pause(),
                    MprisAction::PlayPause => p.play_pause(),
                    MprisAction::Stop => p.stop(),
                    MprisAction::Next => p.next(),
                    MprisAction::Previous => p.previous(),
                };
                self.active.insert(key, ActivePlayer { device_id: a.device_id, player: p });
                Some(request)
            },
            None => None,
        }
    }

    /// A device has gone, and its players with it.
    pub fn disconnected(&mut self, device_id: &DeviceId) -> (r: Vec<PlayerTask>)
        requires
            old(self).wf(),
        ensures
            final(self).wf(),
            final(self)@ == after_disconnect(old(self)@, device_id@),
            forall|i: int|
                0 <= i < r@.len() ==> (#[trigger] r@[i] matches PlayerTask::Withdraw(k)
                    && old(self)@.active.contains_key(k@) && old(self)@.active[k@].device
                    == device_id@),
            forall|k: Seq<char>|
                #[trigger] old(self)@.active.contains_key(k) && old(self)@.active[k].device
                    == device_id@ ==> exists|i: int|
                    0 <= i < r@.len() && (#[trigger] r@[i] matches PlayerTask::Withdraw(q) && q@ == k),
            withdrawn_once(r@, 0),
    {
        proof {
            self.active.lemma_list();
        }
        let ghost before = self@;
        let ghost list = self.active.list();
        let mut gone: Vec<String> = Vec::new();
        let mut r: Vec<PlayerTask> = Vec::new();
        let mut i: usize = 0;
        while i < self.active.len()
            invariant
                i <= list.len(),
                list == self.active.list(),
                self@ == before,
                self.wf(),
                table::distinct(list),
                gone.deep_view().no_duplicates(),
                forall|n: int|
                    0 <= n < list.len() ==> {
                        &&& before.active.contains_key((#[trigger] list[n]).0@)
                        &&& before.active[list[n].0@] == list[n].1@
                    },
                forall|k: Seq<char>| #[trigger]
                    gone.deep_view().contains(k) <==> (table::has(list.take(i as int), k)
                        && before.active[k].device == device_id@),
                r@.len() == gone@.len(),
                forall|n: int|
                    0 <= n < r@.len() ==> (#[trigger] r@[n] matches PlayerTask::Withdraw(k) && k@
                        == gone.deep_view()[n]),
            decreases list.len() - i,
        {
            let key = self.active.key_at(i);
            let value = self.active.value_at(i);
            let ghost had = gone.deep_view();
            let ghost said = r@;
            let hit = same(&value.device_id.0, &device_id.0);
            if hit {
                gone.push(key.clone());
                r.push(PlayerTask::Withdraw(key.clone()));
            }
            proof {
                assert(before.active[list[i as int].0@] == list[i as int].1@);
                if hit {
                    assert(gone.deep_view() =~= had.push(key@));
                    lemma_new_key(list, i as int);
                    assert(!had.contains(key@));
                    lemma_push_once(had, key@);
                    assert forall|n: int| 0 <= n < r@.len() implies (
                    #[trigger] r@[n] matches PlayerTask::Withdraw(k) && k@ == gone.deep_view()[n]) by {
                        if n < said.len() {
                            assert(r@[n] == said[n]);
                        }
                    }
                }
                assert forall|k: Seq<char>| #[trigger]
                    gone.deep_view().contains(k) <==> (table::has(list.take(i + 1), k)
                        && before.active[k].device == device_id@) by {
                    table::lemma_has_next(list, i as int, k);
                    if hit {
                        table::lemma_push_contains(had, key@, k);
                    }
                    assert(had.contains(k) <==> (table::has(list.take(i as int), k)
                        && before.active[k].device == device_id@));
                }
            }
            i = i + 1;
        }
        self.active.remove_all(&gone);
        proof {
            assert(list.take(i as int) == list);
            let all = gone.deep_view();
            assert(self.active@ =~= after_disconnect(before, device_id@).active);
            assert forall|n: int| 0 <= n < r@.len() implies (
            #[trigger] r@[n] matches PlayerTask::Withdraw(k) && before.active.contains_key(k@)
                && before.active[k@].device == device_id@) by {
                assert(all.contains(all[n]));
            }
            assert forall|k: Seq<char>|
                #[trigger] before.active.contains_key(k) && before.active[k].device
                    == device_id@ implies exists|i: int|
                0 <= i < r@.len() && (#[trigger] r@[i] matches PlayerTask::Withdraw(q) && q@ == k) by {
                assert(all.contains(k));
                let m = choose|m: int| 0 <= m < all.len() && all[m] == k;
                assert(r@[m] matches PlayerTask::Withdraw(q) && q@ == k);
            }
            assert forall|i: int, j: int| 0 <= i < j < r@.len() implies withdrawn(#[trigger] r@[i])
                != withdrawn(#[trigger] r@[j]) by {
                assert(withdrawn(r@[i]) == all[i]);
                assert(withdrawn(r@[j]) == all[j]);
            }
        }
        r
    }

    /// Asks every offered player what it plays now.
    pub fn refresh(&self) -> (r: Vec<PlayerTask>)
        requires
            self.wf(),
        ensures
            r@.len() == self.offered().len(),
            forall|i: int|
                0 <= i < r@.len() ==> (#[trigger] r@[i] matches PlayerTask::Ask(d, q) && d@
                    == self.offered()[i].1@.device && q == (MprisRequest {
                    player: Some(self.offered()[i].1@.player.player),
                    request_now_playing: Some(true),
                    ..mpris::no_request()
                })),
            forall|k: Seq<char>|
                self@.active.contains_key(k) <==> table::has(self.offered(), k),
    {
        proof {
            self.active.lemma_list();
        }
        let mut r: Vec<PlayerTask> = Vec::new();
        let mut i: usize = 0;
        while i < self.active.len()
            invariant
                i <= self.offered().len(),
                r@.len() == i,
                forall|j: int|
                    0 <= j < i ==> (#[trigger] r@[j] matches PlayerTask::Ask(d, q) && d@
                        == self.offered()[j].1@.device && q == (MprisRequest {
                        player: Some(self.offered()[j].1@.player.player),
                        request_now_playing: Some(true),
                        ..mpris::no_request()
                    })),
            decreases self.offered().len() - i,
        {
            let a = self.active.value_at(i);
            r.push(
                PlayerTask::Ask(
                    a.device_id.duplicate(),
                    now_playing_request(a.player.player.clone()),
                ),
            );
            i = i + 1;
        }
        r
    }

    /// Takes in a media packet of a device. A finished download of album art
    /// arrives as one too; an announced download changes nothing yet.
    pub fn received(&mut self, device_id: &DeviceId, body: Mpris) -> (r: Vec<PlayerTask>)
        requires
            old(self).wf(),
        ensures
            final(self).wf(),
            match body {
                Mpris::List { player_list, supports_album_art_payload } => final(self)@ == after_list(
                    old(self)@,
                    device_id@,
                    player_list.deep_view(),
                ) && list_tasks(old(self)@, final(self)@, device_id@, player_list@, r@),
                Mpris::Info(info) => final(self)@ == after_info(old(self)@, device_id@, info)
                    && info_tasks(old(self)@, device_id@, info, r@),
                Mpris::TransferringArt { player, album_art_url, transferring_album_art } => {
                    let key = player_key(device_id@, player@);
                    if transferring_album_art || !old(self)@.active.contains_key(key) {
                        final(self)@ == old(self)@ && r@.len() == 0
                    } else {
                        &&& final(self)@.art == old(self)@.art
                        &&& final(self)@.active == old(self)@.active.insert(
                            key,
                            ActiveModel {
                                player: MprisPlayer {
                                    album_art_url: Some(album_art_url),
                                    ..old(self)@.active[key].player
                                },
                                ..old(self)@.active[key]
                            },
                        )
                        &&& r@.len() == 1
                        &&& (r@[0] matches PlayerTask::MetadataChanged(k) && k@ == key)
                    }
                },
            },
    {
        match body {
            Mpris::List { player_list, supports_album_art_payload: _ } => self.list_received(
                device_id,
                &player_list,
            ),
            Mpris::Info(info) => self.info_received(device_id, info),
            Mpris::TransferringArt { player, album_art_url, transferring_album_art } => {
                if transferring_album_art {
                    Vec::new()
                } else {
                    self.art_ready(device_id, &player, album_art_url)
                }
            },
        }
    }
}

/// Album art is asked for once: a second report with the same art asks for
/// nothing more, so a refresh does not start the download again.
pub proof fn lemma_art_is_asked_for_once(m: PlayersModel, device: Seq<char>, info: MprisPlayer)
    ensures
        !wants_art(after_info(m, device, info), device, info),
{
}

/// Art that was resolved for a player stays until new art is resolved: no
/// report of the phone takes it away.
pub proof fn lemma_resolved_art_stays(m: PlayersModel, device: Seq<char>, info: MprisPlayer, k: Seq<char>)
    requires
        m.active.contains_key(k),
    ensures
        after_info(m, device, info).active.contains_key(k),
        after_info(m, device, info).active[k].player.album_art_url
            == m.active[k].player.album_art_url,
{
}

/// The players of one device are left alone by what another device lists, and
/// by its going away.
pub proof fn lemma_other_devices_keep_players(
    m: PlayersModel,
    device: Seq<char>,
    names: Seq<Seq<char>>,
    k: Seq<char>,
)
    requires
        m.active.contains_key(k),
        m.active[k].device != device,
    ensures
        after_list(m, device, names).active.contains_key(k),
        after_list(m, device, names).active[k] == m.active[k],
        after_disconnect(m, device).active.contains_key(k),
        after_disconnect(m, device).active[k] == m.active[k],
{
}

/// A text with `-` replaced by `_`.
pub open spec fn underscored(s: Seq<char>) -> Seq<char> {
    s.map_values(
        |c: char|
            if c == '-' {
                '_'
            } else {
                c
            },
    )
}

fn underscore(s: &str) -> (r: String)
    ensures
        r@ == underscored(s@),
{
    let v = chars_of(s);
    let mut r = String::new();
    let mut i: usize = 0;
    while i < v.len()
        invariant
            i <= v@.len(),
            r@ == underscored(v@.take(i as int)),
        decreases v@.len() - i,
    {
        let ghost before = r@;
        r.push(
            if v[i] == '-' {
                '_'
            } else {
                v[i]
            },
        );
        proof {
            assert(underscored(v@.take(i + 1)) =~= before.push(r@.last()));
        }
        i = i + 1;
    }
    proof {
        assert(v@.take(i as int) == v@);
    }
    r
}

/// The prefix of the bus names under which the players of phones are offered.
pub open spec fn bus_prefix() -> Seq<char> {
    "org.mpris.MediaPlayer2.KDEConnect_"@
}

/// The bus name of a player.
pub open spec fn bus_name(device: Seq<char>, player: Seq<char>) -> Seq<char> {
    bus_prefix() + underscored(device) + "_"@ + mpris::sanitized(player)
}

/// The bus name under which a player is offered.
pub fn service_name(device_id: &str, player: &str) -> (r: String)
    ensures
        r@ == bus_name(device_id@, player@),
        r@ == "org.mpris.MediaPlayer2.KDEConnect_"@ + underscored(device_id@) + "_"@
            + mpris::sanitized(player@),
{
    let mut r = "org.mpris.MediaPlayer2.KDEConnect_".to_owned();
    r.append(&underscore(device_id));
    r.append("_");
    r.append(&sanitize_player(player));
    r
}

/// Whether a bus name is that of a phone's player.
pub fn is_phone_player(name: &str) -> (r: bool)
    ensures
        r == text::begins(name@, bus_prefix()),
        r == text::begins(name@, "org.mpris.MediaPlayer2.KDEConnect_"@),
{
    starts_with(name, "org.mpris.MediaPlayer2.KDEConnect_")
}

/// The applet recognises every player that is offered.
pub proof fn lemma_offered_players_are_recognised(device: Seq<char>, player: Seq<char>)
    ensures
        text::begins(bus_name(device, player), bus_prefix()),
        bus_prefix() == "org.mpris.MediaPlayer2.KDEConnect_"@,
        bus_name(device, player) == "org.mpris.MediaPlayer2.KDEConnect_"@ + underscored(device)
            + "_"@ + mpris::sanitized(player),
{
    assert(bus_name(device, player).take(bus_prefix().len() as int) =~= bus_prefix());
}

/// The name that a player is shown under.
pub fn player_identity(name: &str) -> (r: String)
    ensures
        r@ == "KDE Connect - "@ + name@,
{
    join2("KDE Connect - ", name)
}

/// A player is known by its device and its name.
pub proof fn lemma_keys(device: Seq<char>, player: Seq<char>)
    ensures
        player_key(device, player) == device + "_"@ + player,
{
}

/// After a list only players of that device go, and only those that are not on
/// it. Every other one stays as it was, and none comes.
pub proof fn lemma_lists_drop_players(
    m: PlayersModel,
    device: Seq<char>,
    names: Seq<Seq<char>>,
    k: Seq<char>,
)
    ensures
        ({
            let r = after_list(m, device, names);
            let on_it = exists|i: int|
                0 <= i < names.len() && k == device + "_"@ + #[trigger] names[i];
            &&& r.active.contains_key(k) ==> m.active.contains_key(k) && r.active[k] == m.active[k]
            &&& m.active.contains_key(k) && (m.active[k].device != device || on_it)
                ==> r.active.contains_key(k)
            &&& m.active.contains_key(k) && m.active[k].device == device && text::begins(
                k,
                device + "_"@,
            ) && !on_it ==> !r.active.contains_key(k)
            &&& r.art.contains_key(k) ==> m.art.contains_key(k) && r.art[k] == m.art[k]
            &&& m.art.contains_key(k) && on_it ==> r.art.contains_key(k)
        }),
{
    if exists|i: int| 0 <= i < names.len() && k == device + "_"@ + #[trigger] names[i] {
        let i = choose|i: int| 0 <= i < names.len() && k == device + "_"@ + #[trigger] names[i];
        assert(k == player_key(device, names[i]));
        assert(listed(device, names, k));
    }
    if listed(device, names, k) {
        let i = choose|i: int|
            0 <= i < names.len() && k == player_key(device, #[trigger] names[i]);
        assert(k == device + "_"@ + names[i]);
    }
}

/// A report on an offered player is taken over whole, apart from the art that was
/// resolved for it; every other player stays. A player that is not offered is not
/// offered by its report alone. Art is asked for when the report names other art
/// than was asked for last.
pub proof fn lemma_reports_are_taken_over(
    m: PlayersModel,
    device: Seq<char>,
    info: MprisPlayer,
    k: Seq<char>,
)
    ensures
        ({
            let r = after_info(m, device, info);
            let key = device + "_"@ + info.player@;
            &&& m.active.contains_key(key) ==> r.active.contains_key(key) && r.active[key].device
                == m.active[key].device && r.active[key].player == (MprisPlayer {
                album_art_url: m.active[key].player.album_art_url,
                ..info
            })
            &&& !m.active.contains_key(key) ==> r.active == m.active
            &&& k != key ==> (r.active.contains_key(k) <==> m.active.contains_key(k)) && (
            m.active.contains_key(k) ==> r.active[k] == m.active[k]) && (r.art.contains_key(k)
                <==> m.art.contains_key(k)) && (m.art.contains_key(k) ==> r.art[k] == m.art[k])
            &&& info.album_art_url matches Some(url) ==> r.art.contains_key(key) && r.art[key]
                == url@
            &&& info.album_art_url is None ==> r.art == m.art
            &&& wants_art(m, device, info) <==> info.album_art_url is Some && (!m.art.contains_key(
                key,
            ) || m.art[key] != info.album_art_url->0@)
        }),
{
}

/// A device that is gone takes its players with it, and no other.
pub proof fn lemma_players_go_with_their_device(m: PlayersModel, device: Seq<char>, k: Seq<char>)
    ensures
        ({
            let r = after_disconnect(m, device);
            &&& r.active.contains_key(k) <==> m.active.contains_key(k) && m.active[k].device
                != device
            &&& r.active.contains_key(k) ==> r.active[k] == m.active[k]
            &&& r.art == m.art
        }),
{
}

/// What the buttons do: playing turns over, pausing stops, and the others show
/// nothing new. The phone is asked for what was pressed, except that `Play` on a
/// playing player asks it to pause.
pub proof fn lemma_buttons(p: MprisPlayer, button: MprisAction)
    ensures
        button is Play || button is PlayPause ==> shown_after(p, button).is_playing == Some(
            p.is_playing != Some(true),
        ),
        button is Pause ==> shown_after(p, button).is_playing == Some(false),
        !(button is Play) && !(button is PlayPause) && !(button is Pause) ==> shown_after(p, button)
            == p,
        shown_after(p, button) == (MprisPlayer {
            is_playing: shown_after(p, button).is_playing,
            ..p
        }),
        button_request(p, button).player == Some(p.player),
        button is Play && p.is_playing == Some(true) ==> button_request(p, button).action == Some(
            MprisAction::Pause,
        ),
        !(button is Play && p.is_playing == Some(true)) ==> button_request(p, button).action
            == Some(button),
{
}

/// Introducing itself to a player, the desktop asks what plays and how loud.
pub proof fn lemma_introductions(player: String)
    ensures
        introduction(player).player == Some(player),
        introduction(player).request_now_playing == Some(true),
        introduction(player).request_volume == Some(true),
        introduction(player).action is None,
        introduction(player).album_art_url is None,
{
}

/// Dashes become underscores, and every other character stays.
pub proof fn lemma_dashes_become_underscores(s: Seq<char>, i: int)
    requires
        0 <= i < s.len(),
    ensures
        underscored(s).len() == s.len(),
        s[i] == '-' ==> underscored(s)[i] == '_',
        s[i] != '-' ==> underscored(s)[i] == s[i],
{
}

} // verus!
