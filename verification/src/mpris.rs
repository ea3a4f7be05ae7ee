//! Media players: what they report, and what a phone asks of them.

use vstd::prelude::*;

use crate::device;
use crate::download;
use crate::download::{Download, DownloadError};
use crate::paths;
use crate::paths::join_path;
use crate::table::Duplicate;
use crate::text;
use crate::text::{chars_of, copy_texts, digits_text, is_alphanumeric, join2, starts_with, strip_prefix};
use crate::transfer::copy_text;

verus! {

/// How a player repeats.
#[derive(Debug, Clone, Copy, PartialEq, Eq, Structural)]
pub enum MprisLoopStatus {
    Off,
    Track,
    Playlist,
}

/// What a player can be told to do.
#[derive(Debug, Clone, Copy, PartialEq, Eq, Structural)]
pub enum MprisAction {
    Play,
    Pause,
    PlayPause,
    Stop,
    Next,
    Previous,
}

/// What a player reports of itself.
#[derive(Debug, PartialEq, Eq)]
pub struct MprisPlayer {
    pub player: String,
    pub title: Option<String>,
    pub artist: Option<String>,
    pub album: Option<String>,
    pub is_playing: Option<bool>,
    pub can_pause: Option<bool>,
    pub can_play: Option<bool>,
    pub can_go_next: Option<bool>,
    pub can_go_previous: Option<bool>,
    pub can_seek: Option<bool>,
    pub loop_status: Option<MprisLoopStatus>,
    pub shuffle: Option<bool>,
    pub pos: Option<i32>,
    pub length: Option<i32>,
    pub volume: Option<i32>,
    pub album_art_url: Option<String>,
    pub url: Option<String>,
}

impl Default for MprisPlayer {
    fn default() -> (r: Self)
        ensures
            r.player@.len() == 0,
            r == (MprisPlayer {
                player: r.player,
                title: None,
                artist: None,
                album: None,
                is_playing: None,
                can_pause: None,
                can_play: None,
                can_go_next: None,
                can_go_previous: None,
                can_seek: None,
                loop_status: None,
                shuffle: None,
                pos: None,
                length: None,
                volume: None,
                album_art_url: None,
                url: None,
            }),
    {
        MprisPlayer {
            player: String::new(),
            title: None,
            artist: None,
            album: None,
            is_playing: None,
            can_pause: None,
            can_play: None,
            can_go_next: None,
            can_go_previous: None,
            can_seek: None,
            loop_status: None,
            shuffle: None,
            pos: None,
            length: None,
            volume: None,
            album_art_url: None,
            url: None,
        }
    }
}

/// What the session bus says of a player. A property that could not be read is
/// missing; the volume is in percent.
#[derive(Debug, PartialEq, Eq)]
pub struct PlayerReading {
    pub identity: String,
    pub artists: Option<Vec<String>>,
    pub title: Option<String>,
    pub album: Option<String>,
    pub art_url: Option<String>,
    pub length_ms: Option<u128>,
    pub position_ms: Option<u128>,
    pub volume: i32,
    pub playing: Option<bool>,
    pub can_pause: Option<bool>,
    pub can_play: Option<bool>,
    pub can_go_next: Option<bool>,
    pub can_go_previous: Option<bool>,
    pub can_seek: Option<bool>,
    pub loop_status: Option<MprisLoopStatus>,
    pub shuffle: Option<bool>,
}

/// Texts with a separator between them.
pub open spec fn joined_with(parts: Seq<Seq<char>>, sep: Seq<char>) -> Seq<char>
    decreases parts.len(),
{
    if parts.len() == 0 {
        Seq::empty()
    } else if parts.len() == 1 {
        parts[0]
    } else {
        joined_with(parts.drop_last(), sep) + sep + parts.last()
    }
}

/// One text is joined as it is, and a further one is put behind the separator.
pub proof fn lemma_joining(parts: Seq<Seq<char>>, part: Seq<char>, sep: Seq<char>)
    ensures
        joined_with(Seq::empty(), sep).len() == 0,
        joined_with(seq![part], sep) == part,
        parts.len() > 0 ==> joined_with(parts.push(part), sep) == joined_with(parts, sep) + sep
            + part,
{
    assert(parts.push(part).drop_last() =~= parts);
}

/// The texts with the separator between them.
pub fn join_with(parts: &Vec<String>, sep: &str) -> (r: String)
    ensures
        r@ == joined_with(parts.deep_view(), sep@),
{
    let ghost all = parts.deep_view();
    let mut r = String::new();
    let mut i: usize = 0;
    proof {
        assert(all.take(0) =~= Seq::empty());
    }
    while i < parts.len()
        invariant
            i <= parts@.len(),
            all == parts.deep_view(),
            r@ == joined_with(all.take(i as int), sep@),
        decreases parts@.len() - i,
    {
        proof {
            assert(all.take(i + 1).drop_last() == all.take(i as int));
            assert(all.take(i + 1).last() == parts@[i as int]@);
        }
        if i == 0 {
            r = parts[i].clone();
        } else {
            r.append(sep);
            r.append(&parts[i]);
        }
        i = i + 1;
    }
    proof {
        assert(all.take(i as int) == all);
    }
    r
}

/// A flag that was read, or `false`.
pub open spec fn or_false(b: Option<bool>) -> bool {
    b is Some && b->0
}

fn flag(b: Option<bool>) -> (r: bool)
    ensures
        r == or_false(b),
        r <==> b == Some(true),
{
    match b {
        Some(x) => x,
        None => false,
    }
}

fn or_text(s: Option<String>, other: &str) -> (r: String)
    ensures
        r@ == (if s is Some {
            s->0@
        } else {
            other@
        }),
{
    match s {
        Some(t) => t,
        None => other.to_owned(),
    }
}

/// The report to send for what was read of a player.
pub open spec fn describes(p: MprisPlayer, r: PlayerReading) -> bool {
    &&& p.player == r.identity
    &&& p.title is Some && p.title->0@ == (if r.title is Some {
        r.title->0@
    } else {
        "Unknown Title"@
    })
    &&& p.artist is Some && p.artist->0@ == (if r.artists is Some {
        joined_with(r.artists->0.deep_view(), ", "@)
    } else {
        "Unknown Artist"@
    })
    &&& p.album is Some && p.album->0@ == (if r.album is Some {
        r.album->0@
    } else {
        "Unknown Album"@
    })
    &&& p.album_art_url is Some && p.album_art_url->0@ == (if r.art_url is Some {
        r.art_url->0@
    } else {
        ""@
    })
    &&& p.is_playing == Some(or_false(r.playing))
    &&& p.can_pause == Some(or_false(r.can_pause))
    &&& p.can_play == Some(or_false(r.can_play))
    &&& p.can_go_next == Some(or_false(r.can_go_next))
    &&& p.can_go_previous == Some(or_false(r.can_go_previous))
    &&& p.can_seek == Some(or_false(r.can_seek))
    &&& p.shuffle == Some(or_false(r.shuffle))
    &&& p.loop_status == Some(
        if r.loop_status is Some {
            r.loop_status->0
        } else {
            MprisLoopStatus::Off
        },
    )
    &&& p.pos == Some(
        if r.position_ms is Some {
            r.position_ms->0 as i32
        } else {
            0
        },
    )
    &&& p.length == Some(
        if r.length_ms is Some {
            r.length_ms->0 as i32
        } else {
            0
        },
    )
    &&& p.volume == Some(r.volume)
    &&& p.url is None
}

impl MprisPlayer {
    /// The same report again.
    pub fn copy(&self) -> (r: MprisPlayer)
        ensures
            r == *self,
    {
        MprisPlayer {
            player: self.player.clone(),
            title: copy_text(&self.title),
            artist: copy_text(&self.artist),
            album: copy_text(&self.album),
            is_playing: self.is_playing,
            can_pause: self.can_pause,
            can_play: self.can_play,
            can_go_next: self.can_go_next,
            can_go_previous: self.can_go_previous,
            can_seek: self.can_seek,
            loop_status: self.loop_status,
            shuffle: self.shuffle,
            pos: self.pos,
            length: self.length,
            volume: self.volume,
            album_art_url: copy_text(&self.album_art_url),
            url: copy_text(&self.url),
        }
    }

    /// The report on a player that was read.
    pub fn new(reading: PlayerReading) -> (r: MprisPlayer)
        ensures
            describes(r, reading),
            ({
                &&& r.player == reading.identity
    &&& r.title is Some && r.title->0@ == (if reading.title is Some {
        reading.title->0@
    } else {
        "Unknown Title"@
    })
    &&& r.artist is Some && r.artist->0@ == (if reading.artists is Some {
        joined_with(reading.artists->0.deep_view(), ", "@)
    } else {
        "Unknown Artist"@
    })
    &&& r.album is Some && r.album->0@ == (if reading.album is Some {
        reading.album->0@
    } else {
        "Unknown Album"@
    })
    &&& r.album_art_url is Some && r.album_art_url->0@ == (if reading.art_url is Some {
        reading.art_url->0@
    } else {
        ""@
    })
    &&& r.is_playing == Some(or_false(reading.playing))
    &&& r.can_pause == Some(or_false(reading.can_pause))
    &&& r.can_play == Some(or_false(reading.can_play))
    &&& r.can_go_next == Some(or_false(reading.can_go_next))
    &&& r.can_go_previous == Some(or_false(reading.can_go_previous))
    &&& r.can_seek == Some(or_false(reading.can_seek))
    &&& r.shuffle == Some(or_false(reading.shuffle))
    &&& r.loop_status == Some(
        if reading.loop_status is Some {
            reading.loop_status->0
        } else {
            MprisLoopStatus::Off
        },
    )
    &&& r.pos == Some(
        if reading.position_ms is Some {
            reading.position_ms->0 as i32
        } else {
            0
        },
    )
    &&& r.length == Some(
        if reading.length_ms is Some {
            reading.length_ms->0 as i32
        } else {
            0
        },
    )
    &&& r.volume == Some(reading.volume)
    &&& r.url is None
            }),
    {
        let artist = match &reading.artists {
            Some(a) => join_with(a, ", "),
            None => "Unknown Artist".to_owned(),
        };
        let length = match reading.length_ms {
            Some(l) => l as i32,
            None => 0,
        };
        let pos = match reading.position_ms {
            Some(p) => p as i32,
            None => 0,
        };
        let loop_status = match reading.loop_status {
            Some(s) => s,
            None => MprisLoopStatus::Off,
        };
        MprisPlayer {
            player: reading.identity,
            title: Some(or_text(reading.title, "Unknown Title")),
            artist: Some(artist),
            album: Some(or_text(reading.album, "Unknown Album")),
            is_playing: Some(flag(reading.playing)),
            can_pause: Some(flag(reading.can_pause)),
            can_play: Some(flag(reading.can_play)),
            can_go_next: Some(flag(reading.can_go_next)),
            can_go_previous: Some(flag(reading.can_go_previous)),
            can_seek: Some(flag(reading.can_seek)),
            loop_status: Some(loop_status),
            shuffle: Some(flag(reading.shuffle)),
            pos: Some(pos),
            length: Some(length),
            volume: Some(reading.volume),
            album_art_url: Some(or_text(reading.art_url, "")),
            url: None,
        }
    }
}

/// The body of a media packet.
#[derive(Debug, PartialEq, Eq)]
pub enum Mpris {
    List { player_list: Vec<String>, supports_album_art_payload: bool },
    TransferringArt { player: String, album_art_url: String, transferring_album_art: bool },
    Info(MprisPlayer),
}

/// The body of a media packet, as a value.
pub enum MprisModel {
    List { player_list: Seq<Seq<char>>, supports_album_art_payload: bool },
    TransferringArt { player: Seq<char>, album_art_url: Seq<char>, transferring_album_art: bool },
    Info(MprisPlayer),
}

impl View for Mpris {
    type V = MprisModel;

    open spec fn view(&self) -> MprisModel {
        match self {
            Mpris::List { player_list, supports_album_art_payload } => MprisModel::List {
                player_list: player_list.deep_view(),
                supports_album_art_payload: *supports_album_art_payload,
            },
            Mpris::TransferringArt {
                player,
                album_art_url,
                transferring_album_art,
            } => MprisModel::TransferringArt {
                player: player@,
                album_art_url: album_art_url@,
                transferring_album_art: *transferring_album_art,
            },
            Mpris::Info(p) => MprisModel::Info(*p),
        }
    }
}

impl Duplicate for Mpris {
    fn duplicate(&self) -> (r: Self) {
        match self {
            Mpris::List { player_list, supports_album_art_payload } => Mpris::List {
                player_list: copy_texts(player_list),
                supports_album_art_payload: *supports_album_art_payload,
            },
            Mpris::TransferringArt {
                player,
                album_art_url,
                transferring_album_art,
            } => Mpris::TransferringArt {
                player: player.clone(),
                album_art_url: album_art_url.clone(),
                transferring_album_art: *transferring_album_art,
            },
            Mpris::Info(p) => Mpris::Info(p.copy()),
        }
    }
}

impl Default for Mpris {
    fn default() -> (r: Self)
        ensures
            r matches Mpris::Info(p) && p.player@.len() == 0 && p.title is None && p.is_playing is None,
    {
        Mpris::Info(MprisPlayer::default())
    }
}

/// What one side asks of the players of the other.
#[derive(Debug, PartialEq, Eq)]
pub struct MprisRequest {
    pub player: Option<String>,
    pub request_now_playing: Option<bool>,
    pub request_player_list: Option<bool>,
    pub request_volume: Option<bool>,
    pub seek: Option<i64>,
    pub set_loop_status: Option<MprisLoopStatus>,
    pub set_position: Option<i64>,
    pub set_shuffle: Option<bool>,
    pub set_volume: Option<i64>,
    pub action: Option<MprisAction>,
    pub album_art_url: Option<String>,
}

/// A request that asks for nothing.
pub open spec fn no_request() -> MprisRequest {
    MprisRequest {
        player: None,
        request_now_playing: None,
        request_player_list: None,
        request_volume: None,
        seek: None,
        set_loop_status: None,
        set_position: None,
        set_shuffle: None,
        set_volume: None,
        action: None,
        album_art_url: None,
    }
}

impl Default for MprisRequest {
    fn default() -> (r: Self)
        ensures
            r == no_request(),
    {
        MprisRequest {
            player: None,
            request_now_playing: None,
            request_player_list: None,
            request_volume: None,
            seek: None,
            set_loop_status: None,
            set_position: None,
            set_shuffle: None,
            set_volume: None,
            action: None,
            album_art_url: None,
        }
    }
}

/// Asks a player to do something.
pub fn action_request(player: String, action: MprisAction) -> (r: MprisRequest)
    ensures
        r == (MprisRequest { player: Some(player), action: Some(action), ..no_request() }),
{
    let mut r = MprisRequest::default();
    r.player = Some(player);
    r.action = Some(action);
    r
}

/// Asks for fresh now-playing information of a player.
pub fn now_playing_request(player: String) -> (r: MprisRequest)
    ensures
        r == (MprisRequest { player: Some(player), request_now_playing: Some(true), ..no_request() }),
{
    let mut r = MprisRequest::default();
    r.player = Some(player);
    r.request_now_playing = Some(true);
    r
}

/// Asks for the album art that a player has announced.
pub fn album_art_request(player: String, album_art_url: String) -> (r: MprisRequest)
    ensures
        r == (MprisRequest {
            player: Some(player),
            album_art_url: Some(album_art_url),
            ..no_request()
        }),
{
    let mut r = MprisRequest::default();
    r.player = Some(player);
    r.album_art_url = Some(album_art_url);
    r
}

/// One thing to do to a player of this desktop.
#[derive(Debug, Clone, Copy, PartialEq, Eq, Structural)]
pub enum PlayerControl {
    Seek(i64),
    SetVolume(i64),
    SetLoop(MprisLoopStatus),
    SetPosition(u64),
    SetShuffle(bool),
    Do(MprisAction),
}

/// What to send back for a request.
#[derive(Debug, PartialEq, Eq)]
pub enum MprisReply {
    Nothing,
    /// The names of all players.
    PlayerList,
    /// The report on the player.
    NowPlaying { player: String },
    /// The album art at the path, for the player.
    AlbumArt { player: String, path: String },
}

/// What a request calls for: things to do to a player, in order, and what to
/// send back.
#[derive(Debug, PartialEq, Eq)]
pub struct MprisPlan {
    pub player: Option<String>,
    pub controls: Vec<PlayerControl>,
    pub reply: MprisReply,
}

/// The controls of a request, in the order in which they are applied.
pub open spec fn controls_of(q: MprisRequest) -> Seq<PlayerControl> {
    let none = Seq::<PlayerControl>::empty();
    (if q.seek is Some {
        seq![PlayerControl::Seek(q.seek->0)]
    } else {
        none
    }) + (if q.set_volume is Some {
        seq![PlayerControl::SetVolume(q.set_volume->0)]
    } else {
        none
    }) + (if q.set_loop_status is Some {
        seq![PlayerControl::SetLoop(q.set_loop_status->0)]
    } else {
        none
    }) + (if q.set_position is Some {
        seq![PlayerControl::SetPosition(q.set_position->0 as u64)]
    } else {
        none
    }) + (if q.set_shuffle is Some {
        seq![PlayerControl::SetShuffle(q.set_shuffle->0)]
    } else {
        none
    }) + (if q.action is Some {
        seq![PlayerControl::Do(q.action->0)]
    } else {
        none
    })
}

/// Whether the plan is what the request calls for.
pub open spec fn plans(q: MprisRequest, p: MprisPlan) -> bool {
    if q.request_player_list == Some(true) {
        p.player is None && p.controls@.len() == 0 && p.reply is PlayerList
    } else if q.player is None {
        p.player is None && p.controls@.len() == 0 && p.reply is Nothing
    } else {
        &&& p.player == q.player
        &&& p.controls@ == controls_of(q)
        &&& if q.album_art_url is Some {
            match text::stripped(q.album_art_url->0@, "file://"@) {
                Some(path) => p.reply matches MprisReply::AlbumArt { player: n, path: f } && n
                    == q.player->0 && f@ == path,
                None => p.reply is Nothing,
            }
        } else if q.request_now_playing == Some(true) || q.request_volume == Some(true) {
            p.reply matches MprisReply::NowPlaying { player: n } && n == q.player->0
        } else {
            p.reply is Nothing
        }
    }
}

fn asked(b: Option<bool>) -> (r: bool)
    ensures
        r == (b == Some(true)),
{
    match b {
        Some(x) => x,
        None => false,
    }
}

impl MprisRequest {
    /// The same request again.
    pub fn copy(&self) -> (r: MprisRequest)
        ensures
            r == *self,
    {
        MprisRequest {
            player: copy_text(&self.player),
            request_now_playing: self.request_now_playing,
            request_player_list: self.request_player_list,
            request_volume: self.request_volume,
            seek: self.seek,
            set_loop_status: self.set_loop_status,
            set_position: self.set_position,
            set_shuffle: self.set_shuffle,
            set_volume: self.set_volume,
            action: self.action,
            album_art_url: copy_text(&self.album_art_url),
        }
    }

    fn controls(&self) -> (r: Vec<PlayerControl>)
        ensures
            r@ == controls_of(*self),
    {
        let mut r: Vec<PlayerControl> = Vec::new();
        if let Some(x) = self.seek {
            r.push(PlayerControl::Seek(x));
        }
        if let Some(x) = self.set_volume {
            r.push(PlayerControl::SetVolume(x));
        }
        if let Some(x) = self.set_loop_status {
            r.push(PlayerControl::SetLoop(x));
        }
        if let Some(x) = self.set_position {
            r.push(PlayerControl::SetPosition(x as u64));
        }
        if let Some(x) = self.set_shuffle {
            r.push(PlayerControl::SetShuffle(x));
        }
        if let Some(x) = self.action {
            r.push(PlayerControl::Do(x));
        }
        proof {
            assert(r@ =~= controls_of(*self));
        }
        r
    }

    /// What the request of a phone calls for. A request for the player list is
    /// answered with it and nothing else.
    pub fn received_packet(&self) -> (r: MprisPlan)
        ensures
            plans(*self, r),
            ({
                if self.request_player_list == Some(true) {
        r.player is None && r.controls@.len() == 0 && r.reply is PlayerList
    } else if self.player is None {
        r.player is None && r.controls@.len() == 0 && r.reply is Nothing
    } else {
        &&& r.player == self.player
        &&& r.controls@ == controls_of(*self)
        &&& if self.album_art_url is Some {
            match text::stripped(self.album_art_url->0@, "file://"@) {
                Some(path) => r.reply matches MprisReply::AlbumArt { player: n, path: f } && n
                    == self.player->0 && f@ == path,
                None => r.reply is Nothing,
            }
        } else if self.request_now_playing == Some(true) || self.request_volume == Some(true) {
            r.reply matches MprisReply::NowPlaying { player: n } && n == self.player->0
        } else {
            r.reply is Nothing
        }
    }
            }),
    {
        if asked(self.request_player_list) {
            return MprisPlan {
                player: None,
                controls: Vec::new(),
                reply: MprisReply::PlayerList,
            };
        }
        match &self.player {
            None => MprisPlan { player: None, controls: Vec::new(), reply: MprisReply::Nothing },
            Some(name) => {
                let reply = match &self.album_art_url {
                    Some(url) => match strip_prefix(url, "file://") {
                        Some(path) => MprisReply::AlbumArt { player: name.clone(), path },
                        None => MprisReply::Nothing,
                    },
                    None => {
                        if asked(self.request_now_playing) || asked(self.request_volume) {
                            MprisReply::NowPlaying { player: name.clone() }
                        } else {
                            MprisReply::Nothing
                        }
                    },
                };
                MprisPlan { player: Some(name.clone()), controls: self.controls(), reply }
            },
        }
    }
}

/// The announcement of album art: the URL that the player itself reports, or
/// the path where it reports none.
pub fn art_announcement(player: String, reported: Option<String>, path: String) -> (r: Mpris)
    ensures
        r == (Mpris::TransferringArt {
            player,
            album_art_url: if reported is Some {
                reported->0
            } else {
                path
            },
            transferring_album_art: true,
        }),
{
    let album_art_url = match reported {
        Some(u) => u,
        None => path,
    };
    Mpris::TransferringArt { player, album_art_url, transferring_album_art: true }
}

/// A text with everything but letters and digits replaced.
pub open spec fn sanitized(s: Seq<char>) -> Seq<char> {
    s.map_values(
        |c: char|
            if text::alphanumeric(c) {
                c
            } else {
                '_'
            },
    )
}

/// The text with everything but letters and digits replaced by `_`.
pub fn sanitize_player(s: &str) -> (r: String)
    ensures
        r@ == sanitized(s@),
{
    let v = chars_of(s);
    let mut r = String::new();
    let mut i: usize = 0;
    while i < v.len()
        invariant
            i <= v@.len(),
            r@ == sanitized(v@.take(i as int)),
        decreases v@.len() - i,
    {
        let c = v[i];
        let ghost before = r@;
        r.push(
            if is_alphanumeric(c) {
                c
            } else {
                '_'
            },
        );
        proof {
            assert(sanitized(v@.take(i + 1)) =~= before.push(r@.last()));
        }
        i = i + 1;
    }
    proof {
        assert(v@.take(i as int) == v@);
    }
    r
}

/// The hash that tells the art of different tracks apart.
pub open spec fn art_hash(b: Seq<u8>) -> nat
    decreases b.len(),
{
    if b.len() == 0 {
        0
    } else {
        (((art_hash(b.drop_last()) * 31) % 0x1_0000_0000_0000_0000 + b.last() as nat)
            % 0x1_0000_0000_0000_0000) as nat
    }
}

fn hash_url(url: &str) -> (h: u64)
    ensures
        h == art_hash(vstd::utf8::encode_utf8(url@)),
{
    let b = url.as_bytes();
    let mut h: u64 = 0;
    let mut i: usize = 0;
    while i < b.len()
        invariant
            i <= b@.len(),
            h == art_hash(b@.take(i as int)),
        decreases b@.len() - i,
    {
        proof {
            assert(b@.take(i + 1).drop_last() == b@.take(i as int));
            assert(b@.take(i + 1).last() == b@[i as int]);
        }
        h = h.wrapping_mul(31).wrapping_add(b[i] as u64);
        i = i + 1;
    }
    proof {
        assert(b@.take(i as int) == b@);
    }
    h
}

/// The name of the file that holds the art of a track.
pub open spec fn art_name(device: Seq<char>, player: Seq<char>, url: Seq<char>) -> Seq<char> {
    device + "_"@ + sanitized(player) + "_"@ + text::digits(
        art_hash(vstd::utf8::encode_utf8(url)),
        16,
    ) + ".art"@
}

/// The name of the file that holds the art at the URL.
pub fn art_file_name(device_id: &str, player: &str, album_art_url: &str) -> (r: String)
    ensures
        r@ == art_name(device_id@, player@, album_art_url@),
{
    let mut r = device_id.to_owned();
    r.append("_");
    r.append(&sanitize_player(player));
    r.append("_");
    r.append(&digits_text(hash_url(album_art_url) as u128, 16));
    r.append(".art");
    r
}

/// The directory for album art, below the cache directory or `/tmp`.
pub open spec fn art_path(cache_dir: Option<Seq<char>>) -> Seq<char> {
    paths::joined(
        if cache_dir is Some {
            cache_dir->0
        } else {
            "/tmp"@
        },
        "kdeconnect/album_art"@,
    )
}

/// Where the art at the URL goes: into the album art cache, in place of an
/// earlier file of the same track.
pub fn download_album_art(
    cache_dir: &Option<String>,
    device_id: &str,
    player: &str,
    album_art_url: &str,
) -> (r: Result<Download, DownloadError>)
    ensures
        r is Ok <==> download::valid_name(art_name(device_id@, player@, album_art_url@)),
        r is Err ==> r->Err_0 == DownloadError::InvalidFilename,
        r is Ok ==> {
            let d = r->Ok_0;
            &&& d.wf()
            &&& d.dir() == art_path(cache_dir.deep_view())
            &&& cache_dir is Some ==> d.dir() == paths::joined(
                cache_dir->0@,
                "kdeconnect/album_art"@,
            )
            &&& cache_dir is None ==> d.dir() == paths::joined("/tmp"@, "kdeconnect/album_art"@)
            &&& d.name() == art_name(device_id@, player@, album_art_url@)
            &&& !d.is_unique()
            &&& d.tried() == 0
        },
{
    let dir = match cache_dir {
        Some(d) => join_path(d, "kdeconnect/album_art"),
        None => join_path("/tmp", "kdeconnect/album_art"),
    };
    Download::new(&dir, &art_file_name(device_id, player, album_art_url), false)
}

proof fn lemma_hex_digits(n: nat, i: int)
    requires
        0 <= i < text::digits(n, 16).len(),
    ensures
        text::ascii_alphanumeric(text::digits(n, 16)[i]),
    decreases n,
{
    if n >= 16 {
        let head = text::digits(n / 16, 16);
        assert(text::digits(n, 16) == head.push(text::digit((n % 16) as int)));
        if i < head.len() {
            lemma_hex_digits(n / 16, i);
        }
    }
}

/// The art of a device with a valid identifier always has a valid file name,
/// whatever the phone calls its player and its track.
pub proof fn lemma_art_name_is_valid(device: Seq<char>, player: Seq<char>, url: Seq<char>)
    requires
        device::valid_id(device),
    ensures
        download::valid_name(art_name(device, player, url)),
{
    reveal_strlit("_");
    reveal_strlit(".art");
    reveal_strlit(".");
    reveal_strlit("..");
    let n = art_hash(vstd::utf8::encode_utf8(url));
    let name = art_name(device, player, url);
    let a = device.len() as int;
    let b = a + 1 + player.len();
    let h = text::digits(n, 16);
    assert(sanitized(player).len() == player.len());
    assert(name.len() == b + 1 + h.len() + 4);
    assert forall|i: int| 0 <= i < name.len() implies name[i] != '/' && name[i] != '\\' && name[i]
        != '\0' by {
        if i < a {
            assert(name[i] == device[i]);
        } else if i == a {
            assert(name[i] == '_');
        } else if i < b {
            assert(name[i] == sanitized(player)[i - a - 1]);
        } else if i == b {
            assert(name[i] == '_');
        } else if i < b + 1 + h.len() {
            assert(name[i] == h[i - b - 1]);
            lemma_hex_digits(n, i - b - 1);
        } else {
            assert(name[i] == ".art"@[i - b - 1 - h.len()]);
        }
    }
}

/// What a media player on the session bus shows of its track.
#[derive(Debug, PartialEq, Eq)]
pub struct TrackMetadata {
    pub title: Option<String>,
    pub artist: Option<String>,
    pub album: Option<String>,
    pub length_us: Option<i64>,
    pub art_url: Option<String>,
}

/// A path as a `file://` URL, unless it is one.
pub open spec fn file_url(path: Seq<char>) -> Seq<char> {
    if text::begins(path, "file://"@) {
        path
    } else {
        "file://"@ + path
    }
}

impl MprisPlayer {
    /// Whether the player is known to play.
    pub open spec fn playing(&self) -> bool {
        or_false(self.is_playing)
    }

    /// The `Play` button: a playing player is paused. What the player shows is
    /// turned over at once.
    pub fn play(&mut self) -> (r: MprisRequest)
        ensures
            *final(self) == (MprisPlayer {
                is_playing: Some(!old(self).playing()),
                ..*old(self)
            }),
            r == (MprisRequest {
                player: Some(old(self).player),
                action: Some(
                    if old(self).playing() {
                        MprisAction::Pause
                    } else {
                        MprisAction::Play
                    },
                ),
                ..no_request()
            }),
    {
        let playing = flag(self.is_playing);
        self.is_playing = Some(!playing);
        action_request(
            self.player.clone(),
            if playing {
                MprisAction::Pause
            } else {
                MprisAction::Play
            },
        )
    }

    /// The `Pause` button.
    pub fn pause(&mut self) -> (r: MprisRequest)
        ensures
            *final(self) == (MprisPlayer { is_playing: Some(false), ..*old(self) }),
            r == (MprisRequest {
                player: Some(old(self).player),
                action: Some(MprisAction::Pause),
                ..no_request()
            }),
    {
        self.is_playing = Some(false);
        action_request(self.player.clone(), MprisAction::Pause)
    }

    /// The button that turns playing over.
    pub fn play_pause(&mut self) -> (r: MprisRequest)
        ensures
            *final(self) == (MprisPlayer {
                is_playing: Some(!old(self).playing()),
                ..*old(self)
            }),
            r == (MprisRequest {
                player: Some(old(self).player),
                action: Some(MprisAction::PlayPause),
                ..no_request()
            }),
    {
        let playing = flag(self.is_playing);
        self.is_playing = Some(!playing);
        action_request(self.player.clone(), MprisAction::PlayPause)
    }

    /// The button for the next track.
    pub fn next(&self) -> (r: MprisRequest)
        ensures
            r == (MprisRequest {
                player: Some(self.player),
                action: Some(MprisAction::Next),
                ..no_request()
            }),
    {
        action_request(self.player.clone(), MprisAction::Next)
    }

    /// The button for the previous track.
    pub fn previous(&self) -> (r: MprisRequest)
        ensures
            r == (MprisRequest {
                player: Some(self.player),
                action: Some(MprisAction::Previous),
                ..no_request()
            }),
    {
        action_request(self.player.clone(), MprisAction::Previous)
    }

    /// The `Stop` button.
    pub fn stop(&self) -> (r: MprisRequest)
        ensures
            r == (MprisRequest {
                player: Some(self.player),
                action: Some(MprisAction::Stop),
                ..no_request()
            }),
    {
        action_request(self.player.clone(), MprisAction::Stop)
    }

    /// The playback status that is shown.
    pub fn playback_status(&self) -> (r: String)
        ensures
            r@ == (if self.playing() {
                "Playing"@
            } else {
                "Paused"@
            }),
    {
        if flag(self.is_playing) {
            "Playing".to_owned()
        } else {
            "Paused".to_owned()
        }
    }

    /// The metadata that is shown: lengths in microseconds, art as a URL.
    pub fn metadata(&self) -> (r: TrackMetadata)
        ensures
            r.title == self.title,
            r.artist == self.artist,
            r.album == self.album,
            r.length_us == (if self.length is Some {
                Some((self.length->0 * 1000) as i64)
            } else {
                None
            }),
            r.art_url is Some <==> self.album_art_url is Some,
            r.art_url is Some ==> r.art_url->0@ == file_url(self.album_art_url->0@),
    {
        let length_us = match self.length {
            Some(l) => Some(l as i64 * 1000),
            None => None,
        };
        let art_url = match &self.album_art_url {
            Some(p) => {
                if starts_with(p, "file://") {
                    Some(p.clone())
                } else {
                    Some(join2("file://", p))
                }
            },
            None => None,
        };
        TrackMetadata {
            title: copy_text(&self.title),
            artist: copy_text(&self.artist),
            album: copy_text(&self.album),
            length_us,
            art_url,
        }
    }

    /// Whether the button for an unknown ability is offered: it is, unless the
    /// player says otherwise.
    pub fn offered(ability: Option<bool>) -> (r: bool)
        ensures
            r == (ability != Some(false)),
    {
        match ability {
            Some(b) => b,
            None => true,
        }
    }

    /// The position that is shown, in microseconds.
    pub fn position(&self) -> (r: i64)
        ensures
            r == (if self.pos is Some {
                self.pos->0 * 1000
            } else {
                0
            }),
    {
        match self.pos {
            Some(p) => p as i64 * 1000,
            None => 0,
        }
    }

    /// The volume that is shown, in percent.
    pub fn volume_percent(&self) -> (r: i32)
        ensures
            r == (if self.volume is Some {
                self.volume->0
            } else {
                50
            }),
    {
        match self.volume {
            Some(v) => v,
            None => 50,
        }
    }
}

/// Pressing `Play` twice shows what it showed before, and asks for the
/// opposite of the first press.
pub proof fn lemma_play_twice(p: MprisPlayer)
    ensures
        ({
            let once = MprisPlayer { is_playing: Some(!p.playing()), ..p };
            let twice = MprisPlayer { is_playing: Some(!once.playing()), ..once };
            twice.playing() == p.playing() && once.playing() != p.playing()
        }),
{
}

/// A request that asks for nothing has nothing in it.
pub proof fn lemma_empty_requests()
    ensures
        ({
            let q = no_request();
            &&& q.player is None && q.request_now_playing is None && q.request_player_list is None
                && q.request_volume is None && q.seek is None && q.set_loop_status is None
                && q.set_position is None && q.set_shuffle is None && q.set_volume is None
                && q.action is None && q.album_art_url is None
        }),
{
}

/// Everything that a request asks of a player is done, once and with its value,
/// and nothing else is: seeking first, then the settings, and the action last.
pub proof fn lemma_requests_are_carried_out(q: MprisRequest)
    ensures
        ({
            let c = controls_of(q);
            &&& q.seek matches Some(x) ==> c.len() > 0 && c[0] == PlayerControl::Seek(x)
            &&& q.set_volume matches Some(x) ==> c.contains(PlayerControl::SetVolume(x))
            &&& q.set_loop_status matches Some(x) ==> c.contains(PlayerControl::SetLoop(x))
            &&& q.set_position matches Some(x) ==> c.contains(PlayerControl::SetPosition(x as u64))
            &&& q.set_shuffle matches Some(x) ==> c.contains(PlayerControl::SetShuffle(x))
            &&& q.action matches Some(x) ==> c.len() > 0 && c.last() == PlayerControl::Do(x)
            &&& c.len() == (if q.seek is Some {
                1int
            } else {
                0
            }) + (if q.set_volume is Some {
                1int
            } else {
                0
            }) + (if q.set_loop_status is Some {
                1int
            } else {
                0
            }) + (if q.set_position is Some {
                1int
            } else {
                0
            }) + (if q.set_shuffle is Some {
                1int
            } else {
                0
            }) + (if q.action is Some {
                1int
            } else {
                0
            })
        }),
{
    let c = controls_of(q);
    let a: int = if q.seek is Some {
        1
    } else {
        0
    };
    let b: int = a + if q.set_volume is Some {
        1int
    } else {
        0
    };
    let d: int = b + if q.set_loop_status is Some {
        1int
    } else {
        0
    };
    let e: int = d + if q.set_position is Some {
        1int
    } else {
        0
    };
    if q.set_volume is Some {
        assert(c[a] == PlayerControl::SetVolume(q.set_volume->0));
    }
    if q.set_loop_status is Some {
        assert(c[b] == PlayerControl::SetLoop(q.set_loop_status->0));
    }
    if q.set_position is Some {
        assert(c[d] == PlayerControl::SetPosition(q.set_position->0 as u64));
    }
    if q.set_shuffle is Some {
        assert(c[e] == PlayerControl::SetShuffle(q.set_shuffle->0));
    }
}

/// A player plays only where it says so.
pub proof fn lemma_playing_is_said(p: MprisPlayer)
    ensures
        p.playing() <==> p.is_playing == Some(true),
{
}

/// A path becomes a file URL, and a file URL stays as it is.
pub proof fn lemma_file_urls(path: Seq<char>)
    ensures
        file_url("file://"@ + path) == "file://"@ + path,
        !text::begins(path, "file://"@) ==> file_url(path) == "file://"@ + path,
{
    text::lemma_prefixes("file://"@, path, path);
}

/// Letters and digits of a player's name stay, and every other character becomes
/// an underscore.
pub proof fn lemma_player_names_are_made_safe(s: Seq<char>, i: int)
    requires
        0 <= i < s.len(),
    ensures
        sanitized(s).len() == s.len(),
        text::alphanumeric(s[i]) ==> sanitized(s)[i] == s[i],
        !text::alphanumeric(s[i]) ==> sanitized(s)[i] == '_',
{
}

/// The file of a track is named after the device, the player and the hash of the
/// art's URL, in this order.
pub proof fn lemma_art_is_named_after_its_track(device: Seq<char>, player: Seq<char>, url: Seq<char>)
    ensures
        ({
            let n = art_name(device, player, url);
            let h = text::digits(art_hash(vstd::utf8::encode_utf8(url)), 16);
            &&& text::begins(n, device)
            &&& n == device + "_"@ + sanitized(player) + "_"@ + h + ".art"@
        }),
        art_hash(Seq::empty()) == 0,
{
    let n = art_name(device, player, url);
    assert(n.take(device.len() as int) =~= device);
}

/// Every byte of the URL counts for the hash.
pub proof fn lemma_every_byte_counts(b: Seq<u8>, x: u8)
    ensures
        art_hash(b.push(x)) == ((art_hash(b) * 31) % 0x1_0000_0000_0000_0000 + x)
            % 0x1_0000_0000_0000_0000,
{
    assert(b.push(x).drop_last() =~= b);
}

/// A flag holds where it was read as set, and nowhere else.
pub proof fn lemma_flags(b: bool)
    ensures
        or_false(Some(b)) == b,
        !or_false(None),
{
}

} // verus!
