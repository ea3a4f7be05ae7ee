//! Contacts by phone number.

use vstd::prelude::*;

use crate::encode;
use crate::encode::decode_base64;
use crate::json;
use crate::mpris;
use crate::mpris::join_with;
use crate::order;
use crate::order::{text_le, Ranked};
use crate::table::TextMap;
use crate::text::{chars_of, same};

verus! {

/// Numbers with fewer digits than this are not looked up: short codes and
/// extensions would meet contacts that they do not belong to.
pub const MIN_LOOKUP_DIGITS: usize = 7;

/// Whether a character is a digit.
pub open spec fn is_digit(c: char) -> bool {
    '0' <= c <= '9'
}

/// The digits of a phone number.
pub open spec fn normalized(phone: Seq<char>) -> Seq<char> {
    phone.filter(|c: char| is_digit(c))
}

/// The digits of the phone number.
pub fn normalize_phone_number(phone: &str) -> (r: String)
    ensures
        r@ == normalized(phone@),
{
    let v = chars_of(phone);
    let mut r = String::new();
    let ghost keep = |c: char| is_digit(c);
    let mut i: usize = 0;
    while i < v.len()
        invariant
            i <= v@.len(),
            keep == (|c: char| is_digit(c)),
            r@ == v@.take(i as int).filter(keep),
        decreases v@.len() - i,
    {
        let c = v[i];
        proof {
            assert(v@.take(i + 1) == v@.take(i as int).push(c));
            v@.take(i as int).lemma_filter_push(c, keep);
        }
        if '0' <= c && c <= '9' {
            r.push(c);
        }
        i = i + 1;
    }
    proof {
        assert(v@.take(i as int) == v@);
    }
    r
}

/// Whether two phone numbers have the same digits.
pub fn phone_numbers_match(a: &str, b: &str) -> (r: bool)
    ensures
        r == (normalized(a@) == normalized(b@)),
{
    same(&normalize_phone_number(a), &normalize_phone_number(b))
}

/// The name of the contact with a phone number.
pub open spec fn name_of(by_phone: Map<Seq<char>, Seq<char>>, phone: Seq<char>) -> Option<Seq<char>> {
    let digits = normalized(phone);
    if digits.len() >= MIN_LOOKUP_DIGITS && by_phone.contains_key(digits) {
        Some(by_phone[digits])
    } else {
        None
    }
}

/// The name of the contact with the phone number.
pub fn contact_name(by_phone: &TextMap<String>, phone: &str) -> (r: Option<String>)
    requires
        by_phone.wf(),
    ensures
        r.deep_view() == name_of(by_phone@, phone@),
        normalized(phone@).len() >= 7 && by_phone@.contains_key(normalized(phone@))
            ==> r is Some && r->0@ == by_phone@[normalized(phone@)],
        normalized(phone@).len() < 7 || !by_phone@.contains_key(normalized(phone@))
            ==> r is None,
{
    let digits = normalize_phone_number(phone);
    if chars_of(&digits).len() < MIN_LOOKUP_DIGITS {
        return None;
    }
    match by_phone.get(&digits) {
        Some(name) => Some(name.clone()),
        None => None,
    }
}

/// The name of a participant: that of its contact, or its address.
pub open spec fn participant(by_phone: Map<Seq<char>, Seq<char>>, address: Seq<char>) -> Seq<char> {
    match name_of(by_phone, address) {
        Some(name) => name,
        None => address,
    }
}

/// The name of a group: those of everyone in it.
pub open spec fn group_name(by_phone: Map<Seq<char>, Seq<char>>, addresses: Seq<Seq<char>>) -> Seq<
    char,
> {
    mpris::joined_with(
        addresses.map_values(|a: Seq<char>| participant(by_phone, a)),
        ", "@,
    )
}

/// The name of the group.
pub fn name_group(by_phone: &TextMap<String>, addresses: &Vec<String>) -> (r: String)
    requires
        by_phone.wf(),
    ensures
        r@ == group_name(by_phone@, addresses.deep_view()),
{
    let mut names: Vec<String> = Vec::new();
    let mut i: usize = 0;
    while i < addresses.len()
        invariant
            i <= addresses@.len(),
            by_phone.wf(),
            names@.len() == i,
            forall|k: int|
                0 <= k < i ==> (#[trigger] names@[k])@ == participant(by_phone@, addresses@[k]@),
        decreases addresses@.len() - i,
    {
        let name = match contact_name(by_phone, &addresses[i]) {
            Some(n) => n,
            None => addresses[i].clone(),
        };
        names.push(name);
        i = i + 1;
    }
    proof {
        assert(names.deep_view() =~= addresses.deep_view().map_values(
            |a: Seq<char>| participant(by_phone@, a),
        ));
    }
    join_with(&names, ", ")
}

impl Ranked for (String, String) {
    /// Contacts, each a number and a name, go by their names.
    open spec fn precedes(a: (Seq<char>, Seq<char>), b: (Seq<char>, Seq<char>)) -> bool {
        order::text_before(a.1, b.1)
    }

    fn may_precede(&self, other: &Self) -> (r: bool) {
        text_le(&self.1, &other.1)
    }
}

/// Names by the digits of the phone numbers, the last of a number counting.
pub open spec fn by_digits(contacts: Seq<(Seq<char>, Seq<char>)>) -> Map<Seq<char>, Seq<char>>
    decreases contacts.len(),
{
    if contacts.len() == 0 {
        Map::empty()
    } else {
        by_digits(contacts.drop_last()).insert(normalized(contacts.last().0), contacts.last().1)
    }
}

/// The contacts by the digits of their phone numbers.
pub fn index_contacts(contacts: &TextMap<String>) -> (r: TextMap<String>)
    ensures
        r.wf(),
        r@ == by_digits(order::views(contacts.list())),
{
    let ghost all = order::views(contacts.list());
    let mut r: TextMap<String> = TextMap::new();
    let mut i: usize = 0;
    proof {
        assert(all.take(0) =~= Seq::empty());
    }
    while i < contacts.len()
        invariant
            i <= contacts.list().len(),
            all == order::views(contacts.list()),
            r.wf(),
            r@ == by_digits(all.take(i as int)),
        decreases contacts.list().len() - i,
    {
        proof {
            assert(all.take(i + 1).drop_last() == all.take(i as int));
            assert(all.take(i + 1).last() == contacts.list()[i as int]@);
        }
        r.insert(normalize_phone_number(contacts.key_at(i)), contacts.value_at(i).clone());
        i = i + 1;
    }
    proof {
        assert(all.take(i as int) == all);
    }
    r
}

/// The contacts in the order of their names.
pub fn sort_cached_contacts(contacts: &TextMap<String>) -> (r: Vec<(String, String)>)
    ensures
        order::views(r@) == order::sorted::<(String, String)>(order::views(contacts.list())),
{
    let mut r = contacts.to_entries();
    order::sort(&mut r);
    r
}

/// Photos that decode, by phone number.
pub open spec fn decoded_photos(entries: Seq<(Seq<char>, Seq<char>)>) -> Seq<(Seq<char>, Seq<u8>)>
    decreases entries.len(),
{
    if entries.len() == 0 {
        Seq::empty()
    } else {
        let before = decoded_photos(entries.drop_last());
        match encode::base64_bytes(entries.last().1) {
            Some(bytes) => before.push((entries.last().0, bytes)),
            None => before,
        }
    }
}

/// A photo as a value.
pub open spec fn photo_view(p: (String, Vec<u8>)) -> (Seq<char>, Seq<u8>) {
    (p.0@, p.1@)
}

/// The photos that decode, by phone number.
pub fn decode_photos(photos: &TextMap<String>) -> (r: Vec<(String, Vec<u8>)>)
    ensures
        r@.map_values(|p: (String, Vec<u8>)| photo_view(p)) == decoded_photos(
            order::views(photos.list()),
        ),
{
    let ghost all = order::views(photos.list());
    let ghost look = |p: (String, Vec<u8>)| photo_view(p);
    let mut r: Vec<(String, Vec<u8>)> = Vec::new();
    let mut i: usize = 0;
    proof {
        assert(all.take(0) =~= Seq::empty());
        assert(r@.map_values(look) =~= Seq::empty());
    }
    while i < photos.len()
        invariant
            i <= photos.list().len(),
            all == order::views(photos.list()),
            look == (|p: (String, Vec<u8>)| photo_view(p)),
            r@.map_values(look) == decoded_photos(all.take(i as int)),
        decreases photos.list().len() - i,
    {
        let ghost before = r@;
        proof {
            assert(all.take(i + 1).drop_last() == all.take(i as int));
            assert(all.take(i + 1).last() == photos.list()[i as int]@);
        }
        if let Some(bytes) = decode_base64(photos.value_at(i)) {
            r.push((photos.key_at(i).clone(), bytes));
            proof {
                assert(r@.map_values(look) =~= before.map_values(look).push(photo_view(r@.last())));
            }
        }
        i = i + 1;
    }
    proof {
        assert(all.take(i as int) == all);
    }
    r
}

/// The contacts in a reply of the service. What cannot be read holds none.
pub fn cached_contacts(json: &str) -> (r: TextMap<String>)
    ensures
        r.wf(),
        r@ == (match json::json_text_map(json@) {
            Some(m) => m,
            None => Map::empty(),
        }),
{
    json::text_map(json)
}

/// A contact whose number has too few digits gives no one its name.
pub proof fn lemma_short_numbers_have_no_name(
    by_phone: Map<Seq<char>, Seq<char>>,
    phone: Seq<char>,
)
    requires
        normalized(phone).len() < MIN_LOOKUP_DIGITS,
    ensures
        name_of(by_phone, phone) is None,
        participant(by_phone, phone) == phone,
{
}

/// How a number is written, apart from its digits, does not matter.
pub proof fn lemma_writing_does_not_matter(
    by_phone: Map<Seq<char>, Seq<char>>,
    a: Seq<char>,
    b: Seq<char>,
)
    requires
        normalized(a) == normalized(b),
    ensures
        name_of(by_phone, a) == name_of(by_phone, b),
{
}

/// The digits of a number are its digits in order, and nothing else is.
pub proof fn lemma_only_digits_count(phone: Seq<char>, c: char)
    ensures
        '0' <= c <= '9' ==> normalized(phone.push(c)) == normalized(phone).push(c),
        !('0' <= c <= '9') ==> normalized(phone.push(c)) == normalized(phone),
        normalized(Seq::empty()) == Seq::<char>::empty(),
{
    phone.lemma_filter_push(c, |x: char| is_digit(x));
    reveal(Seq::filter);
}

/// A participant with a known number goes by the name of the contact, any other
/// by the address.
pub proof fn lemma_participants(by_phone: Map<Seq<char>, Seq<char>>, address: Seq<char>)
    ensures
        normalized(address).len() >= MIN_LOOKUP_DIGITS && by_phone.contains_key(
            normalized(address),
        ) ==> participant(by_phone, address) == by_phone[normalized(address)],
        normalized(address).len() < MIN_LOOKUP_DIGITS || !by_phone.contains_key(
            normalized(address),
        ) ==> participant(by_phone, address) == address,
{
}

/// A group goes by the names of everyone in it: the name of one more is put
/// behind a comma.
pub proof fn lemma_groups_name_everyone(
    by_phone: Map<Seq<char>, Seq<char>>,
    addresses: Seq<Seq<char>>,
    address: Seq<char>,
)
    ensures
        group_name(by_phone, seq![address]) == participant(by_phone, address),
        addresses.len() > 0 ==> group_name(by_phone, addresses.push(address)) == group_name(
            by_phone,
            addresses,
        ) + ", "@ + participant(by_phone, address),
{
    let f = |a: Seq<char>| participant(by_phone, a);
    assert(seq![address].map_values(f) =~= seq![participant(by_phone, address)]);
    assert(addresses.push(address).map_values(f) =~= addresses.map_values(f).push(
        participant(by_phone, address),
    ));
    mpris::lemma_joining(addresses.map_values(f), participant(by_phone, address), ", "@);
}

/// Contacts are found by the digits of their numbers, the last contact of a
/// number counting.
pub proof fn lemma_contacts_are_found(contacts: Seq<(Seq<char>, Seq<char>)>, k: int)
    requires
        0 <= k < contacts.len(),
        forall|j: int|
            k < j < contacts.len() ==> normalized((#[trigger] contacts[j]).0) != normalized(
                contacts[k].0,
            ),
    ensures
        by_digits(contacts).contains_key(normalized(contacts[k].0)),
        by_digits(contacts)[normalized(contacts[k].0)] == contacts[k].1,
    decreases contacts.len(),
{
    if k < contacts.len() - 1 {
        let less = contacts.drop_last();
        assert(contacts[contacts.len() - 1] == contacts.last());
        assert(less[k] == contacts[k]);
        assert forall|j: int| k < j < less.len() implies normalized((#[trigger] less[j]).0)
            != normalized(less[k].0) by {
            assert(less[j] == contacts[j]);
        }
        lemma_contacts_are_found(less, k);
    }
}

/// A photo that decodes is kept with its number, and one that does not is left
/// out; the others stay.
pub proof fn lemma_photos_that_decode(
    entries: Seq<(Seq<char>, Seq<char>)>,
    number: Seq<char>,
    data: Seq<char>,
)
    ensures
        encode::base64_bytes(data) matches Some(bytes) ==> decoded_photos(
            entries.push((number, data)),
        ) == decoded_photos(entries).push((number, bytes)),
        encode::base64_bytes(data) is None ==> decoded_photos(entries.push((number, data)))
            == decoded_photos(entries),
        decoded_photos(Seq::empty()).len() == 0,
{
    assert(entries.push((number, data)).drop_last() =~= entries);
}

} // verus!
