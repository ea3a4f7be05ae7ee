//! Watching the media players of this desktop.

use vstd::prelude::*;

use crate::mpris::Mpris;
use crate::text::{copy_texts, same};

verus! {

/// Pauses players for the length of a phone call. Players are known by handles.
#[derive(Debug, PartialEq, Eq)]
pub struct CallPause {
    paused: Vec<u64>,
}

impl CallPause {
    /// The handles of the players that were paused for the call.
    pub closed spec fn waiting(&self) -> Seq<u64> {
        self.paused@
    }

    /// No call.
    pub fn new() -> (r: CallPause)
        ensures
            r.waiting() == Seq::<u64>::empty(),
    {
        CallPause { paused: Vec::new() }
    }

    /// A call has begun: the players that play now are to be paused. `players`
    /// holds the handle of each player and whether it plays.
    pub fn call_started(&mut self, players: &Vec<(u64, bool)>) -> (r: Vec<u64>)
        ensures
            final(self).waiting() == Seq::<u64>::empty(),
            r@ == players@.filter(|p: (u64, bool)| p.1).map_values(|p: (u64, bool)| p.0),
    {
        self.paused.clear();
        let mut r: Vec<u64> = Vec::new();
        let ghost plays = |p: (u64, bool)| p.1;
        let ghost handle = |p: (u64, bool)| p.0;
        let mut i: usize = 0;
        while i < players.len()
            invariant
                i <= players@.len(),
                plays == (|p: (u64, bool)| p.1),
                handle == (|p: (u64, bool)| p.0),
                r@ == players@.take(i as int).filter(plays).map_values(handle),
            decreases players@.len() - i,
        {
            let ghost done = players@.take(i as int);
            proof {
                assert(players@.take(i + 1) == done.push(players@[i as int]));
                done.lemma_filter_push(players@[i as int], plays);
            }
            if players[i].1 {
                r.push(players[i].0);
                proof {
                    assert(done.filter(plays).push(players@[i as int]).map_values(handle) =~= r@);
                }
            }
            i = i + 1;
        }
        proof {
            assert(players@.take(i as int) == players@);
        }
        r
    }

    /// A player could be paused.
    pub fn pause_succeeded(&mut self, player: u64)
        ensures
            final(self).waiting() == old(self).waiting().push(player),
    {
        self.paused.push(player);
    }

    /// The call is over: the players that were paused are to play again.
    pub fn call_ended(&mut self) -> (r: Vec<u64>)
        ensures
            r@ == old(self).waiting(),
            final(self).waiting() == Seq::<u64>::empty(),
    {
        let mut r: Vec<u64> = Vec::new();
        std::mem::swap(&mut r, &mut self.paused);
        r
    }
}

/// What a poll of the players leads to.
#[derive(Debug, PartialEq, Eq)]
pub struct PollResult {
    /// The list to send to all devices, where it has changed.
    pub announce: Option<Mpris>,
    /// The players that need a watcher.
    pub watch: Vec<String>,
}

/// Keeps track of the players that exist and of those that have a watcher.
#[derive(Debug, PartialEq, Eq)]
pub struct PlayerMonitor {
    known: Vec<String>,
    watched: Vec<String>,
}

/// A text list holds the text.
pub open spec fn holds(list: Seq<String>, s: Seq<char>) -> bool {
    exists|i: int| 0 <= i < list.len() && (#[trigger] list[i])@ == s
}

fn has_name(list: &Vec<String>, s: &str) -> (r: bool)
    ensures
        r == holds(list@, s@),
{
    let mut i: usize = 0;
    while i < list.len()
        invariant
            i <= list@.len(),
            forall|j: int| 0 <= j < i ==> (#[trigger] list@[j])@ != s@,
        decreases list@.len() - i,
    {
        if same(&list[i], s) {
            return true;
        }
        i = i + 1;
    }
    false
}

/// Whether two lists hold the same texts in the same order.
pub fn same_list(a: &Vec<String>, b: &Vec<String>) -> (r: bool)
    ensures
        r == (a.deep_view() == b.deep_view()),
{
    if a.len() != b.len() {
        proof {
            assert(a.deep_view().len() != b.deep_view().len());
        }
        return false;
    }
    let mut i: usize = 0;
    while i < a.len()
        invariant
            i <= a@.len(),
            a@.len() == b@.len(),
            forall|j: int| 0 <= j < i ==> a.deep_view()[j] == b.deep_view()[j],
        decreases a@.len() - i,
    {
        if !same(&a[i], &b[i]) {
            proof {
                assert(a.deep_view()[i as int] != b.deep_view()[i as int]);
            }
            return false;
        }
        proof {
            assert(a.deep_view()[i as int] == b.deep_view()[i as int]);
        }
        i = i + 1;
    }
    proof {
        assert(a.deep_view() =~= b.deep_view());
    }
    true
}

/// No text stands in the list twice.
pub open spec fn all_different(list: Seq<String>) -> bool {
    forall|i: int, j: int|
        #![trigger list[i], list[j]]
        0 <= i < j < list.len() ==> list[i]@ != list[j]@
}

impl PlayerMonitor {
    /// The names at the last poll.
    pub closed spec fn names(&self) -> Seq<Seq<char>> {
        self.known.deep_view()
    }

    /// The names that have a watcher.
    pub closed spec fn watchers(&self) -> Seq<String> {
        self.watched@
    }

    /// Every player that exists has exactly one watcher, and no other has one.
    pub open spec fn wf(&self) -> bool {
        &&& all_different(self.watchers())
        &&& forall|s: Seq<char>| #[trigger] holds(self.watchers(), s) <==> self.names().contains(s)
    }

    /// No players yet.
    pub fn new() -> (r: PlayerMonitor)
        ensures
            r.wf(),
            r.names() == Seq::<Seq<char>>::empty(),
    {
        let r = PlayerMonitor { known: Vec::new(), watched: Vec::new() };
        proof {
            assert(r.names() =~= Seq::<Seq<char>>::empty());
        }
        r
    }

    /// Takes in the names of the players that exist now. A changed list is
    /// announced, and players without a watcher get one.
    pub fn poll(&mut self, current: Vec<String>) -> (r: PollResult)
        requires
            old(self).wf(),
        ensures
            final(self).wf(),
            final(self).names() == current.deep_view(),
            r.announce is Some <==> current.deep_view() != old(self).names(),
            r.announce is Some ==> (r.announce->0 matches Mpris::List {
                player_list,
                supports_album_art_payload,
            } && player_list@ == current@ && supports_album_art_payload),
            all_different(r.watch@),
            forall|s: Seq<char>| #[trigger]
                holds(r.watch@, s) <==> current.deep_view().contains(s) && !old(self).names().contains(s),
    {
        if same_list(&current, &self.known) {
            let r = PollResult { announce: None, watch: Vec::new() };
            proof {
                assert forall|s: Seq<char>| !#[trigger] holds(r.watch@, s) by {}
            }
            return r;
        }
        let announce = Some(
            Mpris::List { player_list: copy_texts(&current), supports_album_art_payload: true },
        );
        let mut watch: Vec<String> = Vec::new();
        let mut watched: Vec<String> = Vec::new();
        let mut i: usize = 0;
        let ghost cur = current.deep_view();
        let ghost had = self.names();
        while i < current.len()
            invariant
                i <= current@.len(),
                cur == current.deep_view(),
                had == old(self).names(),
                *self == *old(self),
                self.wf(),
                all_different(watch@),
                all_different(watched@),
                forall|s: Seq<char>| #[trigger] holds(watched@, s) <==> cur.take(i as int).contains(s),
                forall|s: Seq<char>| #[trigger]
                    holds(watch@, s) <==> cur.take(i as int).contains(s) && !had.contains(s),
            decreases current@.len() - i,
        {
            let name = &current[i];
            let ghost w0 = watched@;
            let ghost n0 = watch@;
            proof {
                assert(cur.take(i + 1) == cur.take(i as int).push(name@));
            }
            if !has_name(&watched, name) {
                if !has_name(&self.watched, name) {
                    watch.push(name.clone());
                }
                watched.push(name.clone());
            }
            proof {
                assert forall|s: Seq<char>| #[trigger]
                    holds(watched@, s) <==> cur.take(i + 1).contains(s) by {
                    crate::table::lemma_push_contains(cur.take(i as int), name@, s);
                    assert(holds(w0, s) <==> cur.take(i as int).contains(s));
                    if !holds(w0, name@) {
                        lemma_holds_push(w0, *name, s);
                    }
                }
                assert forall|s: Seq<char>| #[trigger]
                    holds(watch@, s) <==> cur.take(i + 1).contains(s) && !had.contains(s) by {
                    crate::table::lemma_push_contains(cur.take(i as int), name@, s);
                    assert(holds(n0, s) <==> cur.take(i as int).contains(s) && !had.contains(s));
                    assert(holds(self.watched@, name@) <==> had.contains(name@));
                    assert(holds(w0, name@) <==> cur.take(i as int).contains(name@));
                    if !holds(w0, name@) && !holds(self.watched@, name@) {
                        lemma_holds_push(n0, *name, s);
                    }
                }
                if !holds(w0, name@) {
                    lemma_different_push(w0, *name);
                    assert(holds(n0, name@) ==> cur.take(i as int).contains(name@));
                    assert(holds(w0, name@) <==> cur.take(i as int).contains(name@));
                    lemma_different_push(n0, *name);
                }
            }
            i = i + 1;
        }
        proof {
            assert(cur.take(i as int) == cur);
        }
        self.known = current;
        self.watched = watched;
        PollResult { announce, watch }
    }
}

/// A list holds the texts that stand in it, and nothing else.
pub proof fn lemma_holds_push(list: Seq<String>, x: String, s: Seq<char>)
    ensures
        holds(list.push(x), s) <==> holds(list, s) || s == x@,
        !holds(Seq::empty(), s),
{
    if holds(list, s) {
        let i = choose|i: int| 0 <= i < list.len() && (#[trigger] list[i])@ == s;
        assert(list.push(x)[i]@ == s);
    }
    if s == x@ {
        assert(list.push(x)[list.len() as int]@ == s);
    }
    if holds(list.push(x), s) {
        let i = choose|i: int| 0 <= i < list.push(x).len() && (#[trigger] list.push(x)[i])@ == s;
        if i < list.len() {
            assert(list[i]@ == s);
        }
    }
}

proof fn lemma_different_push(list: Seq<String>, x: String)
    requires
        all_different(list),
        !holds(list, x@),
    ensures
        all_different(list.push(x)),
{
    let now = list.push(x);
    assert forall|i: int, j: int|
        #![trigger now[i], now[j]]
        0 <= i < j < now.len() implies now[i]@ != now[j]@ by {
        assert(list[i]@ == now[i]@);
        if j < list.len() {
            assert(list[i]@ != list[j]@);
        }
    }
}

} // verus!
