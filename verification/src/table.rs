//! A map from texts to values, kept as a list of entries with distinct keys.

use vstd::prelude::*;

use crate::text::{copy_texts, same};

verus! {

/// A value that can be copied through its view.
pub trait Duplicate: View + Sized {
    /// A second value with the same view.
    fn duplicate(&self) -> (r: Self)
        ensures
            r@ == self@,
    ;
}

impl Duplicate for String {
    fn duplicate(&self) -> (r: Self) {
        self.clone()
    }
}

impl Duplicate for bool {
    fn duplicate(&self) -> (r: Self) {
        *self
    }
}

impl Duplicate for i64 {
    fn duplicate(&self) -> (r: Self) {
        *self
    }
}

/// A map from texts to values. Entries keep the order in which their keys
/// came in.
#[derive(Debug)]
pub struct TextMap<V> {
    entries: Vec<(String, V)>,
}

/// The map that a list of entries stands for, the last entry of a key
/// counting.
pub open spec fn map_of<V: View>(entries: Seq<(String, V)>) -> Map<Seq<char>, V::V>
    decreases entries.len(),
{
    if entries.len() == 0 {
        Map::empty()
    } else {
        map_of(entries.drop_last()).insert(entries.last().0@, entries.last().1@)
    }
}

/// No key stands in two entries.
pub open spec fn distinct<V>(entries: Seq<(String, V)>) -> bool {
    forall|i: int, j: int|
        #![trigger entries[i], entries[j]]
        0 <= i < j < entries.len() ==> entries[i].0@ != entries[j].0@
}

/// Some entry has the key.
pub open spec fn has<V>(entries: Seq<(String, V)>, k: Seq<char>) -> bool {
    exists|i: int| 0 <= i < entries.len() && (#[trigger] entries[i]).0@ == k
}

proof fn lemma_has<V: View>(entries: Seq<(String, V)>, k: Seq<char>)
    ensures
        map_of(entries).contains_key(k) <==> has(entries, k),
    decreases entries.len(),
{
    if entries.len() > 0 {
        let init = entries.drop_last();
        lemma_has(init, k);
        if has(init, k) {
            let i = choose|i: int| 0 <= i < init.len() && (#[trigger] init[i]).0@ == k;
            assert(entries[i].0@ == k);
        }
        if has(entries, k) {
            let i = choose|i: int| 0 <= i < entries.len() && (#[trigger] entries[i]).0@ == k;
            if i < init.len() {
                assert(init[i].0@ == k);
            }
        }
        if k == entries.last().0@ {
            assert(entries[entries.len() - 1].0@ == k);
        }
    }
}

proof fn lemma_map_value<V: View>(entries: Seq<(String, V)>, i: int)
    requires
        distinct(entries),
        0 <= i < entries.len(),
    ensures
        map_of(entries).contains_key(entries[i].0@),
        map_of(entries)[entries[i].0@] == entries[i].1@,
    decreases entries.len(),
{
    let init = entries.drop_last();
    if i < init.len() {
        assert(distinct(init)) by {
            assert forall|a: int, b: int|
                #![trigger init[a], init[b]]
                0 <= a < b < init.len() implies init[a].0@ != init[b].0@ by {
                assert(entries[a].0@ != entries[b].0@);
            }
        }
        lemma_map_value(init, i);
        assert(init[i] == entries[i]);
        assert(entries[i].0@ != entries[entries.len() - 1].0@);
    }
}

proof fn lemma_map_len<V: View>(entries: Seq<(String, V)>)
    requires
        distinct(entries),
    ensures
        map_of(entries).dom().finite(),
        map_of(entries).dom().len() == entries.len(),
    decreases entries.len(),
{
    if entries.len() > 0 {
        let init = entries.drop_last();
        assert(distinct(init)) by {
            assert forall|a: int, b: int|
                #![trigger init[a], init[b]]
                0 <= a < b < init.len() implies init[a].0@ != init[b].0@ by {
                assert(entries[a].0@ != entries[b].0@);
            }
        }
        lemma_map_len(init);
        lemma_has(init, entries.last().0@);
        assert(!(has(init, entries.last().0@))) by {
            if has(init, entries.last().0@) {
                let i = choose|i: int|
                    0 <= i < init.len() && (#[trigger] init[i]).0@ == entries.last().0@;
                assert(entries[i].0@ != entries[entries.len() - 1].0@);
            }
        }
        assert(map_of(entries).dom() =~= map_of(init).dom().insert(entries.last().0@));
    } else {
        assert(map_of(entries).dom() =~= Set::empty());
    }
}

impl<V: View> View for TextMap<V> {
    type V = Map<Seq<char>, V::V>;

    closed spec fn view(&self) -> Map<Seq<char>, V::V> {
        map_of(self.entries@)
    }
}

impl<V> TextMap<V> {
    /// The entries in the order in which their keys came in.
    pub closed spec fn list(&self) -> Seq<(String, V)> {
        self.entries@
    }

    /// The keys are distinct.
    pub closed spec fn wf(&self) -> bool {
        distinct(self.entries@)
    }
}

impl<V: View> TextMap<V> {
    /// The list of entries and the map agree.
    pub proof fn lemma_list(&self)
        ensures
            self@ == map_of(self.list()),
            self.wf() == distinct(self.list()),
            self.wf() ==> forall|i: int|
                0 <= i < self.list().len() ==> {
                    &&& self@.contains_key(#[trigger] self.list()[i].0@)
                    &&& self@[self.list()[i].0@] == self.list()[i].1@
                },
            forall|k: Seq<char>| #[trigger] self@.contains_key(k) <==> has(self.list(), k),
    {
        assert forall|k: Seq<char>| #[trigger] self@.contains_key(k) <==> has(self.list(), k) by {
            lemma_has(self.entries@, k);
        }
        if self.wf() {
            assert forall|i: int| 0 <= i < self.list().len() implies {
                &&& self@.contains_key(#[trigger] self.list()[i].0@)
                &&& self@[self.list()[i].0@] == self.list()[i].1@
            } by {
                lemma_map_value(self.entries@, i);
            }
        }
    }

    /// The map has as many keys as the list has entries.
    pub proof fn lemma_len(&self)
        requires
            self.wf(),
        ensures
            self@.dom().finite(),
            self@.dom().len() == self.list().len(),
    {
        lemma_map_len(self.entries@);
    }

    /// The empty map.
    pub fn new() -> (r: Self)
        ensures
            r.wf(),
            r@ == Map::<Seq<char>, V::V>::empty(),
            r.list().len() == 0,
    {
        TextMap { entries: Vec::new() }
    }

    /// The map with the given entries.
    pub fn from_entries(entries: Vec<(String, V)>) -> (r: Self)
        requires
            distinct(entries@),
        ensures
            r.wf(),
            r@ == map_of(entries@),
            r.list() == entries@,
    {
        TextMap { entries }
    }

    /// The number of entries.
    pub fn len(&self) -> (n: usize)
        ensures
            n == self.list().len(),
    {
        self.entries.len()
    }

    /// The key of an entry.
    pub fn key_at(&self, i: usize) -> (k: &String)
        requires
            i < self.list().len(),
        ensures
            *k == self.list()[i as int].0,
    {
        &self.entries[i].0
    }

    /// The value of an entry.
    pub fn value_at(&self, i: usize) -> (v: &V)
        requires
            i < self.list().len(),
        ensures
            *v == self.list()[i as int].1,
    {
        &self.entries[i].1
    }

    fn position(&self, key: &str) -> (r: Option<usize>)
        ensures
            r is Some ==> r->0 < self.entries@.len() && self.entries@[r->0 as int].0@ == key@,
            r is None ==> forall|i: int|
                0 <= i < self.entries@.len() ==> #[trigger] self.entries@[i].0@ != key@,
    {
        let mut i: usize = 0;
        while i < self.entries.len()
            invariant
                i <= self.entries@.len(),
                forall|j: int| 0 <= j < i ==> #[trigger] self.entries@[j].0@ != key@,
            decreases self.entries@.len() - i,
        {
            if same(&self.entries[i].0, key) {
                return Some(i);
            }
            i = i + 1;
        }
        None
    }

    /// Whether the key has an entry.
    pub fn contains_key(&self, key: &str) -> (r: bool)
        ensures
            r == self@.contains_key(key@),
    {
        proof {
            lemma_has(self.entries@, key@);
        }
        self.position(key).is_some()
    }

    /// The value of the key.
    pub fn get(&self, key: &str) -> (r: Option<&V>)
        requires
            self.wf(),
        ensures
            r is Some <==> self@.contains_key(key@),
            r is Some ==> r->0@ == self@[key@],
    {
        proof {
            lemma_has(self.entries@, key@);
        }
        match self.position(key) {
            Some(i) => {
                proof {
                    lemma_map_value(self.entries@, i as int);
                }
                Some(&self.entries[i].1)
            },
            None => None,
        }
    }

    /// Gives the key the value, in place of an earlier one.
    pub fn insert(&mut self, key: String, value: V)
        requires
            old(self).wf(),
        ensures
            final(self).wf(),
            final(self)@ == old(self)@.insert(key@, value@),
    {
        let ghost before = self.entries@;
        let ghost k = key@;
        let ghost v = value@;
        match self.position(&key) {
            Some(i) => {
                self.entries.set(i, (key, value));
                proof {
                    let now = self.entries@;
                    assert(distinct(now)) by {
                        assert forall|a: int, b: int|
                            #![trigger now[a], now[b]]
                            0 <= a < b < now.len() implies now[a].0@ != now[b].0@ by {
                            assert(before[a].0@ != before[b].0@);
                        }
                    }
                    lemma_same_entries(before, now, k, v, i as int);
                }
            },
            None => {
                self.entries.push((key, value));
                proof {
                    assert(self.entries@.drop_last() == before);
                }
            },
        }
    }

    /// Takes the key out.
    pub fn remove(&mut self, key: &str)
        requires
            old(self).wf(),
        ensures
            final(self).wf(),
            final(self)@ == old(self)@.remove(key@),
    {
        let ghost before = self.entries@;
        proof {
            lemma_has(before, key@);
        }
        match self.position(key) {
            Some(i) => {
                let _ = self.entries.remove(i);
                proof {
                    let now = self.entries@;
                    assert(now == before.remove(i as int));
                    assert(distinct(now)) by {
                        assert forall|a: int, b: int|
                            #![trigger now[a], now[b]]
                            0 <= a < b < now.len() implies now[a].0@ != now[b].0@ by {
                            let a2 = if a < i { a } else { a + 1 };
                            let b2 = if b < i { b } else { b + 1 };
                            assert(before[a2].0@ != before[b2].0@);
                        }
                    }
                    lemma_removed(before, key@, i as int);
                }
            },
            None => {
                proof {
                    assert(old(self)@.remove(key@) =~= old(self)@);
                }
            },
        }
    }
}

proof fn lemma_same_entries<V: View>(
    before: Seq<(String, V)>,
    now: Seq<(String, V)>,
    k: Seq<char>,
    v: V::V,
    at: int,
)
    requires
        distinct(before),
        distinct(now),
        0 <= at < before.len(),
        now.len() == before.len(),
        now[at].0@ == k,
        now[at].1@ == v,
        before[at].0@ == k,
        forall|i: int| 0 <= i < before.len() && i != at ==> now[i] == before[i],
    ensures
        map_of(now) == map_of(before).insert(k, v),
{
    let m = map_of(before).insert(k, v);
    assert forall|q: Seq<char>| #[trigger] m.contains_key(q) <==> map_of(now).contains_key(q) by {
        lemma_has(before, q);
        lemma_has(now, q);
        if has(now, q) {
            let i = choose|i: int| 0 <= i < now.len() && (#[trigger] now[i]).0@ == q;
            assert(before[i].0@ == q);
        }
        if has(before, q) {
            let i = choose|i: int| 0 <= i < before.len() && (#[trigger] before[i]).0@ == q;
            assert(now[i].0@ == q);
        }
        if q == k {
            assert(now[at].0@ == q);
        }
    }
    assert forall|q: Seq<char>| #[trigger] m.contains_key(q) implies map_of(now)[q] == m[q] by {
        lemma_has(now, q);
        let i = choose|i: int| 0 <= i < now.len() && (#[trigger] now[i]).0@ == q;
        lemma_map_value(now, i);
        if i != at {
            lemma_map_value(before, i);
            assert(q != k) by {
                assert(now[i].0@ != now[at].0@);
            }
        }
    }
    assert(map_of(now) =~= m);
}

proof fn lemma_removed<V: View>(before: Seq<(String, V)>, k: Seq<char>, at: int)
    requires
        distinct(before),
        distinct(before.remove(at)),
        0 <= at < before.len(),
        before[at].0@ == k,
    ensures
        map_of(before.remove(at)) == map_of(before).remove(k),
{
    let now = before.remove(at);
    let m = map_of(before).remove(k);
    assert forall|q: Seq<char>| #[trigger] m.contains_key(q) <==> map_of(now).contains_key(q) by {
        lemma_has(before, q);
        lemma_has(now, q);
        if has(now, q) {
            let i = choose|i: int| 0 <= i < now.len() && (#[trigger] now[i]).0@ == q;
            let i2 = if i < at { i } else { i + 1 };
            assert(before[i2].0@ == q);
            assert(before[i2].0@ != before[at].0@);
        }
        if m.contains_key(q) {
            let i = choose|i: int| 0 <= i < before.len() && (#[trigger] before[i]).0@ == q;
            let i2 = if i < at { i } else { i - 1 };
            assert(now[i2].0@ == q);
        }
    }
    assert forall|q: Seq<char>| #[trigger] m.contains_key(q) implies map_of(now)[q] == m[q] by {
        lemma_has(now, q);
        let i = choose|i: int| 0 <= i < now.len() && (#[trigger] now[i]).0@ == q;
        lemma_map_value(now, i);
        let i2 = if i < at { i } else { i + 1 };
        lemma_map_value(before, i2);
        assert(before[i2] == now[i]);
    }
    assert(map_of(now) =~= m);
}

impl<V: View> TextMap<V> {
    /// Takes all the keys out.
    pub fn remove_all(&mut self, keys: &Vec<String>)
        requires
            old(self).wf(),
        ensures
            final(self).wf(),
            final(self)@ == old(self)@.remove_keys(keys.deep_view().to_set()),
    {
        let ghost first = self@;
        let mut n: usize = 0;
        proof {
            assert(keys.deep_view().take(0).to_set() =~= Set::empty());
            assert(first.remove_keys(Set::empty()) =~= first);
        }
        while n < keys.len()
            invariant
                n <= keys@.len(),
                self.wf(),
                self@ == first.remove_keys(keys.deep_view().take(n as int).to_set()),
            decreases keys@.len() - n,
        {
            let ghost done = keys.deep_view().take(n as int);
            self.remove(&keys[n]);
            proof {
                let next = keys.deep_view().take(n + 1);
                let k = keys@[n as int]@;
                assert(next == done.push(k));
                assert forall|x: Seq<char>|
                    next.to_set().contains(x) <==> (done.to_set().contains(x) || x == k) by {
                    lemma_push_contains(done, k, x);
                }
                assert(first.remove_keys(done.to_set()).remove(k) =~= first.remove_keys(
                    next.to_set(),
                ));
            }
            n = n + 1;
        }
        proof {
            assert(keys.deep_view().take(n as int) == keys.deep_view());
        }
    }
}

impl TextMap<String> {
    /// The entries of a map of texts.
    pub fn to_entries(&self) -> (r: Vec<(String, String)>)
        ensures
            r@ == self.list(),
            self@ == map_of(r@),
    {
        let mut r: Vec<(String, String)> = Vec::new();
        let mut i: usize = 0;
        while i < self.entries.len()
            invariant
                i <= self.entries@.len(),
                r@ == self.entries@.take(i as int),
            decreases self.entries@.len() - i,
        {
            r.push((self.entries[i].0.clone(), self.entries[i].1.clone()));
            proof {
                assert(self.entries@.take(i + 1) == self.entries@.take(i as int).push(
                    self.entries@[i as int],
                ));
            }
            i = i + 1;
        }
        proof {
            assert(self.entries@.take(i as int) == self.entries@);
        }
        r
    }
}

/// A set of texts.
#[derive(Debug)]
pub struct TextSet {
    ids: Vec<String>,
}

impl View for TextSet {
    type V = Set<Seq<char>>;

    closed spec fn view(&self) -> Set<Seq<char>> {
        self.ids.deep_view().to_set()
    }
}

impl TextSet {
    /// The empty set.
    pub fn new() -> (r: TextSet)
        ensures
            r@ == Set::<Seq<char>>::empty(),
    {
        let ids: Vec<String> = Vec::new();
        proof {
            assert(ids.deep_view().to_set() =~= Set::empty());
        }
        TextSet { ids }
    }

    /// The texts of the set, in some order and each at least once.
    pub fn list(&self) -> (r: &Vec<String>)
        ensures
            r.deep_view().to_set() == self@,
    {
        &self.ids
    }

    /// Adds a text to the set.
    pub fn insert(&mut self, id: String)
        ensures
            final(self)@ == old(self)@.insert(id@),
    {
        let ghost before = self.ids.deep_view();
        if !self.contains(&id) {
            self.ids.push(id);
            proof {
                let now = self.ids.deep_view();
                assert(now =~= before.push(id@));
                assert forall|x: Seq<char>| now.contains(x) <==> before.contains(x) || x == id@ by {
                    lemma_push_contains(before, id@, x);
                }
                assert(now.to_set() =~= before.to_set().insert(id@));
            }
        } else {
            proof {
                assert(before.to_set() =~= before.to_set().insert(id@));
            }
        }
    }

    /// Takes a text out of the set.
    pub fn remove(&mut self, id: &str)
        ensures
            final(self)@ == old(self)@.remove(id@),
    {
        let ghost first = self.ids.deep_view();
        let mut kept: Vec<String> = Vec::new();
        let mut i: usize = 0;
        proof {
            assert(kept.deep_view().to_set() =~= first.take(0).to_set().remove(id@));
        }
        while i < self.ids.len()
            invariant
                i <= self.ids@.len(),
                first == self.ids.deep_view(),
                kept.deep_view().to_set() == first.take(i as int).to_set().remove(id@),
            decreases self.ids@.len() - i,
        {
            let ghost before = kept.deep_view();
            let ghost x = first[i as int];
            if !same(&self.ids[i], id) {
                kept.push(self.ids[i].clone());
                proof {
                    assert(kept.deep_view() =~= before.push(x));
                }
            }
            proof {
                let done = first.take(i as int);
                assert(first.take(i + 1) =~= done.push(x));
                let now = kept.deep_view();
                assert forall|y: Seq<char>|
                    now.to_set().contains(y) <==> done.push(x).to_set().remove(id@).contains(y) by {
                    lemma_push_contains(done, x, y);
                    lemma_push_contains(before, x, y);
                    assert(before.to_set().contains(y) <==> done.to_set().remove(id@).contains(y));
                }
                assert(now.to_set() =~= done.push(x).to_set().remove(id@));
            }
            i = i + 1;
        }
        proof {
            assert(first.take(i as int) =~= first);
        }
        self.ids = kept;
    }

    /// The set of the texts in a list.
    pub fn of(ids: Vec<String>) -> (r: TextSet)
        ensures
            r@ == ids.deep_view().to_set(),
    {
        TextSet { ids }
    }

    /// Whether the text is in the set.
    pub fn contains(&self, id: &str) -> (r: bool)
        ensures
            r == self@.contains(id@),
    {
        let mut i: usize = 0;
        let ghost all = self.ids.deep_view();
        while i < self.ids.len()
            invariant
                i <= self.ids@.len(),
                all == self.ids.deep_view(),
                forall|j: int| 0 <= j < i ==> #[trigger] all[j] != id@,
            decreases self.ids@.len() - i,
        {
            proof {
                assert(all[i as int] == self.ids@[i as int]@);
            }
            if same(&self.ids[i], id) {
                proof {
                    assert(all.contains(id@));
                }
                return true;
            }
            i = i + 1;
        }
        false
    }
}

impl Duplicate for TextSet {
    fn duplicate(&self) -> (r: Self) {
        TextSet { ids: copy_texts(&self.ids) }
    }
}

/// What stands in a sequence after a push.
pub proof fn lemma_push_contains(s: Seq<Seq<char>>, x: Seq<char>, k: Seq<char>)
    ensures
        s.push(x).contains(k) <==> (s.contains(k) || k == x),
{
    if s.contains(k) {
        let i = choose|i: int| 0 <= i < s.len() && s[i] == k;
        assert(s.push(x)[i] == k);
    }
    if k == x {
        assert(s.push(x)[s.len() as int] == k);
    }
    if s.push(x).contains(k) {
        let i = choose|i: int| 0 <= i < s.push(x).len() && s.push(x)[i] == k;
        if i < s.len() {
            assert(s[i] == k);
        }
    }
}

/// Which keys the first entries have, with one more entry.
pub proof fn lemma_has_next<V>(list: Seq<(String, V)>, i: int, k: Seq<char>)
    requires
        0 <= i < list.len(),
    ensures
        has(list.take(i + 1), k) <==> (has(list.take(i), k) || list[i].0@ == k),
{
    let now = list.take(i + 1);
    let before = list.take(i);
    if has(now, k) {
        let n = choose|n: int| 0 <= n < now.len() && (#[trigger] now[n]).0@ == k;
        if n < i {
            assert(before[n].0@ == k);
        }
    }
    if has(before, k) {
        let n = choose|n: int| 0 <= n < before.len() && (#[trigger] before[n]).0@ == k;
        assert(now[n].0@ == k);
    }
    if list[i].0@ == k {
        assert(now[i].0@ == k);
    }
}

} // verus!
