//! Ordering texts and sorting lists.

use vstd::prelude::*;

use crate::text::chars_of;

verus! {

/// The views of the items of a list.
pub open spec fn views<T: View>(s: Seq<T>) -> Seq<T::V> {
    s.map_values(|x: T| x@)
}

/// Where the first item with a property stands, or the length of the list.
pub open spec fn first_where<A>(s: Seq<A>, p: spec_fn(A) -> bool) -> int
    decreases s.len(),
{
    if s.len() == 0 || p(s[0]) {
        0
    } else {
        1 + first_where(s.skip(1), p)
    }
}

/// An item that has the property, with none before it that has, is the first.
pub proof fn lemma_first_where<A>(s: Seq<A>, p: spec_fn(A) -> bool, i: int)
    requires
        0 <= i <= s.len(),
        i < s.len() ==> p(s[i]),
        forall|j: int| 0 <= j < i ==> !p(#[trigger] s[j]),
    ensures
        first_where(s, p) == i,
    decreases s.len(),
{
    if s.len() > 0 && i > 0 {
        let rest = s.skip(1);
        assert(!p(s[0]));
        assert forall|j: int| 0 <= j < i - 1 implies !p(#[trigger] rest[j]) by {
            assert(rest[j] == s[j + 1]);
        }
        lemma_first_where(rest, p, i - 1);
    }
}

/// A value that lists are sorted by.
pub trait Ranked: View + Sized {
    /// Whether `a` may stand before `b`.
    spec fn precedes(a: Self::V, b: Self::V) -> bool;

    /// Whether this value may stand before the other.
    fn may_precede(&self, other: &Self) -> (r: bool)
        ensures
            r == Self::precedes(self@, other@),
    ;
}

/// A sorted list with one more item, which comes after those that may stand
/// before it.
pub open spec fn placed<T: Ranked>(s: Seq<T::V>, x: T::V) -> Seq<T::V>
    decreases s.len(),
{
    if s.len() == 0 || T::precedes(s.last(), x) {
        s.push(x)
    } else {
        placed::<T>(s.drop_last(), x).push(s.last())
    }
}

/// The items of a list in order. Items that are equal in rank keep their order.
pub open spec fn sorted<T: Ranked>(s: Seq<T::V>) -> Seq<T::V>
    decreases s.len(),
{
    if s.len() == 0 {
        s
    } else {
        placed::<T>(sorted::<T>(s.drop_last()), s.last())
    }
}

/// Each item may stand before every later one.
pub open spec fn in_order<T: Ranked>(s: Seq<T::V>) -> bool {
    forall|i: int, j: int|
        #![trigger s[i], s[j]]
        0 <= i < j < s.len() ==> T::precedes(s[i], s[j])
}

/// The order is total and transitive.
pub open spec fn ranks<T: Ranked>() -> bool {
    &&& forall|a: T::V, b: T::V|
        #![trigger T::precedes(a, b)]
        T::precedes(a, b) || T::precedes(b, a)
    &&& forall|a: T::V, b: T::V, c: T::V|
        #![trigger T::precedes(a, b), T::precedes(b, c)]
        T::precedes(a, b) && T::precedes(b, c) ==> T::precedes(a, c)
}

proof fn lemma_placed<T: Ranked>(s: Seq<T::V>, x: T::V)
    requires
        ranks::<T>(),
        in_order::<T>(s),
    ensures
        in_order::<T>(placed::<T>(s, x)),
        placed::<T>(s, x).to_multiset() == s.to_multiset().insert(x),
        placed::<T>(s, x).len() == s.len() + 1,
        forall|i: int|
            0 <= i < placed::<T>(s, x).len() ==> s.contains(#[trigger] placed::<T>(s, x)[i])
                || placed::<T>(s, x)[i] == x,
    decreases s.len(),
{
    broadcast use vstd::seq_lib::group_to_multiset_ensures;

    let r = placed::<T>(s, x);
    if s.len() == 0 || T::precedes(s.last(), x) {
        assert forall|i: int, j: int|
            #![trigger r[i], r[j]]
            0 <= i < j < r.len() implies T::precedes(r[i], r[j]) by {
            if j == s.len() {
                if i < s.len() - 1 {
                    assert(T::precedes(s[i], s[s.len() - 1]));
                }
            } else {
                assert(T::precedes(s[i], s[j]));
            }
        }
        assert forall|i: int| 0 <= i < r.len() implies s.contains(#[trigger] r[i]) || r[i] == x by {
            if i < s.len() {
                assert(s[i] == r[i]);
            }
        }
    } else {
        let init = s.drop_last();
        assert forall|i: int, j: int|
            #![trigger init[i], init[j]]
            0 <= i < j < init.len() implies T::precedes(init[i], init[j]) by {
            assert(T::precedes(s[i], s[j]));
        }
        lemma_placed::<T>(init, x);
        let rest = placed::<T>(init, x);
        assert(T::precedes(x, s.last()));
        assert forall|i: int, j: int|
            #![trigger r[i], r[j]]
            0 <= i < j < r.len() implies T::precedes(r[i], r[j]) by {
            if j == rest.len() {
                assert(r[i] == rest[i]);
                if r[i] != x {
                    assert(init.contains(rest[i]));
                    let k = choose|k: int| 0 <= k < init.len() && init[k] == rest[i];
                    assert(T::precedes(s[k], s[s.len() - 1]));
                }
            } else {
                assert(T::precedes(rest[i], rest[j]));
            }
        }
        assert(init.push(s.last()) =~= s);
        assert(s.to_multiset() =~= init.to_multiset().insert(s.last()));
        assert(r.to_multiset() =~= rest.to_multiset().insert(s.last()));
        assert(r.to_multiset() =~= s.to_multiset().insert(x));
        assert forall|i: int| 0 <= i < r.len() implies s.contains(#[trigger] r[i]) || r[i] == x by {
            if i < rest.len() {
                assert(r[i] == rest[i]);
                if rest[i] != x {
                    let k = choose|k: int| 0 <= k < init.len() && init[k] == rest[i];
                    assert(s[k] == rest[i]);
                }
            } else {
                assert(r[i] == s[s.len() - 1]);
            }
        }
    }
}

/// Sorting keeps the items and puts them in order.
pub proof fn lemma_sorted<T: Ranked>(s: Seq<T::V>)
    requires
        ranks::<T>(),
    ensures
        in_order::<T>(sorted::<T>(s)),
        sorted::<T>(s).to_multiset() == s.to_multiset(),
        sorted::<T>(s).len() == s.len(),
    decreases s.len(),
{
    broadcast use vstd::seq_lib::group_to_multiset_ensures;

    if s.len() > 0 {
        lemma_sorted::<T>(s.drop_last());
        lemma_placed::<T>(sorted::<T>(s.drop_last()), s.last());
        assert(s.drop_last().push(s.last()) =~= s);
        assert(s.to_multiset() =~= s.drop_last().to_multiset().insert(s.last()));
    }
}

/// Sorting brings in no item that was not there.
pub proof fn lemma_sorted_contains<T: Ranked>(s: Seq<T::V>, i: int)
    requires
        ranks::<T>(),
        0 <= i < sorted::<T>(s).len(),
    ensures
        s.contains(sorted::<T>(s)[i]),
{
    broadcast use vstd::seq_lib::group_to_multiset_ensures;

    lemma_sorted::<T>(s);
    let r = sorted::<T>(s);
    assert(r.contains(r[i]));
    assert(r.to_multiset().count(r[i]) > 0);
    assert(s.to_multiset().count(r[i]) > 0);
}

/// A list that is in order stays as it is.
pub proof fn lemma_sorted_stays<T: Ranked>(s: Seq<T::V>)
    requires
        in_order::<T>(s),
    ensures
        sorted::<T>(s) == s,
    decreases s.len(),
{
    if s.len() > 0 {
        let init = s.drop_last();
        assert forall|i: int, j: int|
            #![trigger init[i], init[j]]
            0 <= i < j < init.len() implies T::precedes(init[i], init[j]) by {
            assert(T::precedes(s[i], s[j]));
        }
        lemma_sorted_stays::<T>(init);
        if init.len() > 0 {
            assert(T::precedes(s[s.len() - 2], s[s.len() - 1]));
            assert(init.last() == s[s.len() - 2]);
        }
        assert(init.push(s.last()) =~= s);
    }
}

/// Sorts the list. Items that are equal in rank keep their order.
pub fn sort<T: Ranked>(items: &mut Vec<T>)
    ensures
        views(final(items)@) == sorted::<T>(views(old(items)@)),
{
    let ghost before = items@;
    let ghost all = views(before);
    let n: usize = items.len();
    let mut i: usize = 0;
    proof {
        assert(all.take(0) =~= Seq::empty());
        assert(views(items@.take(0)) =~= Seq::empty());
    }
    while i < n
        invariant
            i <= n,
            n == before.len(),
            items@.len() == n,
            all == views(before),
            views(items@.take(i as int)) == sorted::<T>(all.take(i as int)),
            forall|k: int| i <= k < n ==> #[trigger] items@[k] == before[k],
        decreases n - i,
    {
        let ghost start = items@;
        let ghost head = views(start.take(i as int));
        let ghost x = before[i as int]@;
        let mut j: usize = i;
        proof {
            assert(all.take(i + 1).drop_last() == all.take(i as int));
            assert(all.take(i + 1).last() == x);
            assert(head.take(i as int) =~= head);
            assert(placed::<T>(head, x) =~= placed::<T>(head.take(i as int), x) + head.skip(
                i as int,
            ));
        }
        while j > 0 && !items[j - 1].may_precede(&items[i])
            invariant
                j <= i < n,
                items@ == start,
                start.len() == n,
                n == before.len(),
                head == views(start.take(i as int)),
                start[i as int] == before[i as int],
                x == before[i as int]@,
                placed::<T>(head, x) == placed::<T>(head.take(j as int), x) + head.skip(j as int),
            decreases j,
        {
            proof {
                let h = head.take(j as int);
                assert(h.last() == start[j - 1]@);
                assert(h.drop_last() =~= head.take(j - 1));
                assert(placed::<T>(h, x) == placed::<T>(head.take(j - 1), x).push(h.last()));
                assert(placed::<T>(head.take(j - 1), x).push(h.last()) + head.skip(j as int)
                    =~= placed::<T>(head.take(j - 1), x) + head.skip(j - 1));
            }
            j = j - 1;
        }
        proof {
            let h = head.take(j as int);
            if j > 0 {
                assert(h.last() == start[j - 1]@);
            }
            assert(placed::<T>(h, x) == h.push(x));
        }
        if j < i {
            let item = items.remove(i);
            items.insert(j, item);
        }
        proof {
            assert forall|k: int| i + 1 <= k < n implies #[trigger] items@[k] == before[k] by {
                assert(items@[k] == start[k]);
            }
            assert(views(items@.take(i + 1)) =~= head.take(j as int).push(x) + head.skip(j as int));
        }
        i = i + 1;
    }
    proof {
        assert(all.take(n as int) =~= all);
        assert(items@.take(n as int) =~= items@);
    }
}

/// Whether a text comes before another or is equal to it, by the numbers of
/// their characters.
pub open spec fn text_before(a: Seq<char>, b: Seq<char>) -> bool
    decreases a.len(),
{
    if a.len() == 0 {
        true
    } else if b.len() == 0 {
        false
    } else if a[0] == b[0] {
        text_before(a.skip(1), b.skip(1))
    } else {
        (a[0] as u32) < (b[0] as u32)
    }
}

/// Whether the text comes before the other or is equal to it.
pub fn text_le(a: &str, b: &str) -> (r: bool)
    ensures
        r == text_before(a@, b@),
{
    let x = chars_of(a);
    let y = chars_of(b);
    let mut i: usize = 0;
    proof {
        assert(x@.skip(0) =~= a@);
        assert(y@.skip(0) =~= b@);
    }
    while i < x.len() && i < y.len() && x[i] == y[i]
        invariant
            i <= x@.len(),
            i <= y@.len(),
            text_before(a@, b@) == text_before(x@.skip(i as int), y@.skip(i as int)),
        decreases x@.len() - i,
    {
        proof {
            assert(x@.skip(i as int).skip(1) =~= x@.skip(i + 1));
            assert(y@.skip(i as int).skip(1) =~= y@.skip(i + 1));
        }
        i = i + 1;
    }
    if i >= x.len() {
        true
    } else if i >= y.len() {
        false
    } else {
        (x[i] as u32) < (y[i] as u32)
    }
}

proof fn lemma_char_number(a: char, b: char)
    requires
        a as u32 == b as u32,
    ensures
        a == b,
{
}

/// The order of texts is total.
pub proof fn lemma_text_total(a: Seq<char>, b: Seq<char>)
    ensures
        text_before(a, b) || text_before(b, a),
    decreases a.len(),
{
    if a.len() > 0 && b.len() > 0 {
        if a[0] == b[0] {
            lemma_text_total(a.skip(1), b.skip(1));
        } else if a[0] as u32 == b[0] as u32 {
            lemma_char_number(a[0], b[0]);
        }
    }
}

/// The order of texts is transitive.
pub proof fn lemma_text_transitive(a: Seq<char>, b: Seq<char>, c: Seq<char>)
    requires
        text_before(a, b),
        text_before(b, c),
    ensures
        text_before(a, c),
    decreases a.len(),
{
    if a.len() > 0 {
        if a[0] == b[0] && b[0] == c[0] {
            lemma_text_transitive(a.skip(1), b.skip(1), c.skip(1));
        }
    }
}

/// A sorted list holds the items of the list, each as often as before, and each
/// may stand before every later one.
pub proof fn lemma_sorting<T: Ranked>(s: Seq<T::V>, x: T::V)
    requires
        ranks::<T>(),
    ensures
        sorted::<T>(s).to_multiset().count(x) == s.to_multiset().count(x),
        forall|i: int, j: int|
            #![trigger sorted::<T>(s)[i], sorted::<T>(s)[j]]
            0 <= i < j < sorted::<T>(s).len() ==> T::precedes(sorted::<T>(s)[i], sorted::<T>(s)[j]),
{
    lemma_sorted::<T>(s);
}

proof fn lemma_place<T: Ranked>(s: Seq<T::V>, x: T::V) -> (k: int)
    ensures
        0 <= k <= s.len(),
        placed::<T>(s, x) == s.insert(k, x),
        k > 0 ==> T::precedes(s[k - 1], x),
        forall|i: int| k <= i < s.len() ==> !T::precedes(#[trigger] s[i], x),
    decreases s.len(),
{
    if s.len() == 0 || T::precedes(s.last(), x) {
        assert(s.push(x) =~= s.insert(s.len() as int, x));
        s.len() as int
    } else {
        let init = s.drop_last();
        let k = lemma_place::<T>(init, x);
        assert(init.insert(k, x).push(s.last()) =~= s.insert(k, x));
        assert forall|i: int| k <= i < s.len() implies !T::precedes(#[trigger] s[i], x) by {
            if i < init.len() {
                assert(init[i] == s[i]);
            }
        }
        k
    }
}

/// An item that comes last is put before the items that may not stand before it
/// and behind all others: items of one rank keep their order, and nothing else
/// moves.
pub proof fn lemma_later_items_stand_behind<T: Ranked>(s: Seq<T::V>, x: T::V) -> (k: int)
    ensures
        0 <= k <= sorted::<T>(s).len(),
        sorted::<T>(s.push(x)) == sorted::<T>(s).insert(k, x),
        k > 0 ==> T::precedes(sorted::<T>(s)[k - 1], x),
        forall|i: int|
            k <= i < sorted::<T>(s).len() ==> !T::precedes(#[trigger] sorted::<T>(s)[i], x),
{
    assert(s.push(x).drop_last() =~= s);
    lemma_place::<T>(sorted::<T>(s), x)
}

/// Texts go by the first character in which they differ, and a text stands
/// before what it begins.
pub proof fn lemma_texts_go_by_their_characters(
    start: Seq<char>,
    x: char,
    y: char,
    a: Seq<char>,
    b: Seq<char>,
)
    ensures
        text_before(start, start + a),
        a.len() > 0 ==> !text_before(start + a, start),
        (x as u32) < (y as u32) ==> text_before(start + seq![x] + a, start + seq![y] + b),
        (x as u32) < (y as u32) ==> !text_before(start + seq![y] + b, start + seq![x] + a),
    decreases start.len(),
{
    let p = start + seq![x] + a;
    let q = start + seq![y] + b;
    if start.len() == 0 {
        assert(start + a =~= a);
        assert(p[0] == x && q[0] == y);
    } else {
        let rest = start.skip(1);
        lemma_texts_go_by_their_characters(rest, x, y, a, b);
        assert(p.skip(1) =~= rest + seq![x] + a);
        assert(q.skip(1) =~= rest + seq![y] + b);
        assert((start + a).skip(1) =~= rest + a);
        assert(p[0] == start[0] && q[0] == start[0] && (start + a)[0] == start[0]);
    }
}

} // verus!
