//! Reading and writing JSON texts.

use vstd::prelude::*;

use crate::table;
use crate::table::TextMap;

verus! {

/// The texts that a JSON object of texts maps its keys to. No other value
/// counts as one.
pub uninterp spec fn json_text_map(json: Seq<char>) -> Option<Map<Seq<char>, Seq<char>>>;

/// The JSON text that is written for a map of texts.
pub uninterp spec fn text_map_json(map: Map<Seq<char>, Seq<char>>) -> Seq<char>;

/// The items of the array under a key of a JSON object, each written out again.
pub uninterp spec fn json_array_items(json: Seq<char>, key: Seq<char>) -> Option<Seq<Seq<char>>>;

/// The items of the array under a key of a JSON object, as far as they are
/// texts.
pub uninterp spec fn json_array_texts(json: Seq<char>, key: Seq<char>) -> Option<
    Seq<Option<Seq<char>>>,
>;

/// The text under a key of a JSON object.
pub uninterp spec fn json_text_member(json: Seq<char>, key: Seq<char>) -> Option<Seq<char>>;

/// For each key of a JSON object, the texts under two keys of its value.
pub uninterp spec fn json_members(json: Seq<char>, a: Seq<char>, b: Seq<char>) -> Option<
    Map<Seq<char>, (Option<Seq<char>>, Option<Seq<char>>)>,
>;

/// The JSON text that is written for an object of objects with two texts each.
pub uninterp spec fn members_json(
    entries: Map<Seq<char>, (Seq<char>, Seq<char>)>,
    a: Seq<char>,
    b: Seq<char>,
) -> Seq<char>;

/// For each item of a JSON array, the texts under two of its keys.
pub uninterp spec fn json_list_members(json: Seq<char>, a: Seq<char>, b: Seq<char>) -> Option<
    Seq<(Option<Seq<char>>, Option<Seq<char>>)>,
>;

/// The JSON text that is written for an array of objects with three texts each.
pub uninterp spec fn list_json(
    items: Seq<(Seq<char>, Seq<char>, Seq<char>)>,
    a: Seq<char>,
    b: Seq<char>,
    c: Seq<char>,
) -> Seq<char>;

/// Calls `serde_json::from_str` for a map from texts to texts. It succeeds or
/// fails, and gives the entries, by the text alone; no key comes twice.
#[verifier::external_body]
fn parse_text_map(json: &str) -> (r: Option<Vec<(String, String)>>)
    ensures
        r is Some <==> json_text_map(json@) is Some,
        r is Some ==> table::distinct(r->0@) && table::map_of(r->0@) == json_text_map(json@)->0,
{
    let map: Option<std::collections::BTreeMap<String, String>> = serde_json::from_str(json).ok();
    map.map(|m| m.into_iter().collect())
}

/// Calls `serde_json::to_string` for a map from texts to texts, which never
/// fails. What is written depends on the map alone, and reading it gives the
/// map back.
#[verifier::external_body]
fn write_text_map(entries: &Vec<(String, String)>) -> (r: String)
    ensures
        r@ == text_map_json(table::map_of(entries@)),
        json_text_map(r@) == Some(table::map_of(entries@)),
{
    let map: std::collections::BTreeMap<String, String> = entries.iter().cloned().collect();
    serde_json::to_string(&map).unwrap_or_default()
}

/// Calls `serde_json::from_str` for any value, `Value::get`, `Value::as_array`
/// and, for each item, `to_string`. The result depends on the text and the key
/// alone.
#[verifier::external_body]
fn array_items(json: &str, key: &str) -> (r: Option<Vec<String>>)
    ensures
        r.deep_view() == json_array_items(json@, key@),
{
    let value: serde_json::Value = serde_json::from_str(json).ok()?;
    let items = value.get(key)?.as_array()?;
    Some(items.iter().map(|v| v.to_string()).collect())
}

/// Calls `serde_json::from_str` for any value, `Value::get`, `Value::as_array`
/// and, for each item, `Value::as_str`. The result depends on the text and the
/// key alone.
#[verifier::external_body]
fn array_texts(json: &str, key: &str) -> (r: Option<Vec<Option<String>>>)
    ensures
        r.deep_view() == json_array_texts(json@, key@),
{
    let value: serde_json::Value = serde_json::from_str(json).ok()?;
    let items = value.get(key)?.as_array()?;
    Some(items.iter().map(|v| v.as_str().map(str::to_owned)).collect())
}

/// Calls `serde_json::from_str` for any value, `Value::get` and
/// `Value::as_str`. The result depends on the text and the key alone.
#[verifier::external_body]
fn text_member(json: &str, key: &str) -> (r: Option<String>)
    ensures
        r.deep_view() == json_text_member(json@, key@),
{
    let value: serde_json::Value = serde_json::from_str(json).ok()?;
    value.get(key)?.as_str().map(str::to_owned)
}

/// An entry with two optional texts, as a value.
pub open spec fn entry_view(e: (String, Option<String>, Option<String>)) -> (
    Option<Seq<char>>,
    Option<Seq<char>>,
) {
    (e.1.deep_view(), e.2.deep_view())
}

/// The map that entries with two optional texts stand for.
pub open spec fn member_map(entries: Seq<(String, Option<String>, Option<String>)>) -> Map<
    Seq<char>,
    (Option<Seq<char>>, Option<Seq<char>>),
>
    decreases entries.len(),
{
    if entries.len() == 0 {
        Map::empty()
    } else {
        member_map(entries.drop_last()).insert(entries.last().0@, entry_view(entries.last()))
    }
}

/// Calls `serde_json::from_str` for a map from texts to values and, for each
/// value, indexes it by the two keys and calls `Value::as_str`. The result
/// depends on the arguments alone, and no key comes twice.
#[verifier::external_body]
fn parse_members(json: &str, a: &str, b: &str) -> (r: Option<
    Vec<(String, Option<String>, Option<String>)>,
>)
    ensures
        r is Some <==> json_members(json@, a@, b@) is Some,
        r is Some ==> member_map(r->0@) == json_members(json@, a@, b@)->0,
        r is Some ==> forall|i: int, j: int|
            0 <= i < j < r->0@.len() ==> (#[trigger] r->0@[i]).0@ != (#[trigger] r->0@[j]).0@,
{
    let map: std::collections::BTreeMap<String, serde_json::Value> = serde_json::from_str(
        json,
    ).ok()?;
    let pick = |v: &serde_json::Value, k: &str| v[k].as_str().map(str::to_owned);
    Some(map.into_iter().map(|(k, v)| (k, pick(&v, a), pick(&v, b))).collect())
}

/// The map that entries with two texts stand for.
pub open spec fn pair_map(entries: Seq<(String, String, String)>) -> Map<
    Seq<char>,
    (Seq<char>, Seq<char>),
>
    decreases entries.len(),
{
    if entries.len() == 0 {
        Map::empty()
    } else {
        pair_map(entries.drop_last()).insert(
            entries.last().0@,
            (entries.last().1@, entries.last().2@),
        )
    }
}

/// Calls `serde_json::to_string` for an object of objects with two texts each,
/// which never fails. What is written depends on the entries, the last of a key
/// counting, and on the two keys; reading it gives the entries back.
#[verifier::external_body]
fn write_members(entries: &Vec<(String, String, String)>, a: &str, b: &str) -> (r: String)
    requires
        a@ != b@,
    ensures
        r@ == members_json(pair_map(entries@), a@, b@),
        json_members(r@, a@, b@) == Some(
            pair_map(entries@).map_values(
                |p: (Seq<char>, Seq<char>)| (Some(p.0), Some(p.1)),
            ),
        ),
{
    let mut map = std::collections::BTreeMap::new();
    for (k, x, y) in entries {
        let mut value = serde_json::Map::new();
        value.insert(a.to_owned(), serde_json::Value::from(x.as_str()));
        value.insert(b.to_owned(), serde_json::Value::from(y.as_str()));
        map.insert(k.clone(), serde_json::Value::Object(value));
    }
    serde_json::to_string(&map).unwrap_or_default()
}

/// Calls `serde_json::from_str` for a list of values and, for each, indexes it
/// by the two keys and calls `Value::as_str`. The result depends on the
/// arguments alone.
#[verifier::external_body]
fn parse_list_members(json: &str, a: &str, b: &str) -> (r: Option<
    Vec<(Option<String>, Option<String>)>,
>)
    ensures
        r.deep_view() == json_list_members(json@, a@, b@),
{
    let list: Vec<serde_json::Value> = serde_json::from_str(json).ok()?;
    let pick = |v: &serde_json::Value, k: &str| v[k].as_str().map(str::to_owned);
    Some(list.iter().map(|v| (pick(v, a), pick(v, b))).collect())
}

/// Calls `serde_json::to_string` for a list of objects with three texts each,
/// which never fails. What is written depends on the arguments alone, and
/// reading it gives the first two texts of each item back.
#[verifier::external_body]
fn write_list(items: &Vec<(String, String, String)>, a: &str, b: &str, c: &str) -> (r: String)
    requires
        a@ != b@,
        a@ != c@,
        b@ != c@,
    ensures
        r@ == list_json(items.deep_view(), a@, b@, c@),
        json_list_members(r@, a@, b@) == Some(
            items.deep_view().map_values(
                |p: (Seq<char>, Seq<char>, Seq<char>)| (Some(p.0), Some(p.1)),
            ),
        ),
{
    let mut list = Vec::new();
    for (x, y, z) in items {
        let mut value = serde_json::Map::new();
        value.insert(a.to_owned(), serde_json::Value::from(x.as_str()));
        value.insert(b.to_owned(), serde_json::Value::from(y.as_str()));
        value.insert(c.to_owned(), serde_json::Value::from(z.as_str()));
        list.push(serde_json::Value::Object(value));
    }
    serde_json::to_string(&list).unwrap_or_default()
}

/// Reads a JSON object of texts, where the text is one.
pub fn read_text_map(json: &str) -> (r: Option<TextMap<String>>)
    ensures
        r is Some <==> json_text_map(json@) is Some,
        r is Some ==> r->0.wf() && r->0@ == json_text_map(json@)->0,
{
    match parse_text_map(json) {
        Some(entries) => Some(TextMap::from_entries(entries)),
        None => None,
    }
}

/// Reads a JSON object of texts. What cannot be read stands for no entries.
pub fn text_map(json: &str) -> (r: TextMap<String>)
    ensures
        r.wf(),
        r@ == (match json_text_map(json@) {
            Some(m) => m,
            None => Map::empty(),
        }),
{
    match read_text_map(json) {
        Some(map) => map,
        None => TextMap::new(),
    }
}

/// Writes a map of texts as a JSON object.
pub fn text_map_text(map: &TextMap<String>) -> (r: String)
    requires
        map.wf(),
    ensures
        r@ == text_map_json(map@),
        json_text_map(r@) == Some(map@),
{
    write_text_map(&map.to_entries())
}

/// The items of the array under the key, each as JSON; none where there is no
/// such array.
pub fn items_under(json: &str, key: &str) -> (r: Vec<String>)
    ensures
        r.deep_view() == (match json_array_items(json@, key@) {
            Some(items) => items,
            None => Seq::empty(),
        }),
{
    match array_items(json, key) {
        Some(items) => items,
        None => {
            let r: Vec<String> = Vec::new();
            proof {
                assert(r.deep_view() =~= Seq::<Seq<char>>::empty());
            }
            r
        },
    }
}

/// The texts that stand in a sequence of optional texts.
pub open spec fn present(items: Seq<Option<Seq<char>>>) -> Seq<Seq<char>>
    decreases items.len(),
{
    if items.len() == 0 {
        Seq::empty()
    } else {
        let before = present(items.drop_last());
        match items.last() {
            Some(s) => before.push(s),
            None => before,
        }
    }
}

/// The texts in the array under the key, where there is such an array.
pub fn texts_under(json: &str, key: &str) -> (r: Option<Vec<String>>)
    ensures
        r.deep_view() == (match json_array_texts(json@, key@) {
            Some(items) => Some(present(items)),
            None => None,
        }),
{
    match array_texts(json, key) {
        Some(items) => {
            let mut r: Vec<String> = Vec::new();
            let ghost all = items.deep_view();
            let mut i: usize = 0;
            proof {
                assert(all.take(0) =~= Seq::empty());
                assert(r.deep_view() =~= Seq::<Seq<char>>::empty());
            }
            while i < items.len()
                invariant
                    i <= items@.len(),
                    all == items.deep_view(),
                    r.deep_view() == present(all.take(i as int)),
                decreases items@.len() - i,
            {
                let ghost before = r.deep_view();
                proof {
                    assert(all.take(i + 1).drop_last() == all.take(i as int));
                    assert(all.take(i + 1).last() == items@[i as int].deep_view());
                }
                if let Some(s) = &items[i] {
                    r.push(s.clone());
                    proof {
                        assert(r.deep_view() =~= before.push(s@));
                    }
                }
                i = i + 1;
            }
            proof {
                assert(all.take(i as int) == all);
            }
            Some(r)
        },
        None => None,
    }
}

/// The text under the key of the object.
pub fn text_under(json: &str, key: &str) -> (r: Option<String>)
    ensures
        r.deep_view() == json_text_member(json@, key@),
{
    text_member(json, key)
}

/// For each key of the object, the texts under two keys of its value.
pub fn members_of(json: &str, a: &str, b: &str) -> (r: Option<
    Vec<(String, Option<String>, Option<String>)>,
>)
    ensures
        r is Some <==> json_members(json@, a@, b@) is Some,
        r is Some ==> member_map(r->0@) == json_members(json@, a@, b@)->0,
        r is Some ==> forall|i: int, j: int|
            0 <= i < j < r->0@.len() ==> (#[trigger] r->0@[i]).0@ != (#[trigger] r->0@[j]).0@,
{
    parse_members(json, a, b)
}

/// Writes an object of objects with two texts each.
pub fn members_text(entries: &Vec<(String, String, String)>, a: &str, b: &str) -> (r: String)
    requires
        a@ != b@,
    ensures
        r@ == members_json(pair_map(entries@), a@, b@),
        json_members(r@, a@, b@) == Some(
            pair_map(entries@).map_values(
                |p: (Seq<char>, Seq<char>)| (Some(p.0), Some(p.1)),
            ),
        ),
{
    write_members(entries, a, b)
}

/// For each item of the array, the texts under two of its keys.
pub fn list_members(json: &str, a: &str, b: &str) -> (r: Option<
    Vec<(Option<String>, Option<String>)>,
>)
    ensures
        r.deep_view() == json_list_members(json@, a@, b@),
{
    parse_list_members(json, a, b)
}

/// Writes an array of objects with three texts each.
pub fn list_text(items: &Vec<(String, String, String)>, a: &str, b: &str, c: &str) -> (r: String)
    requires
        a@ != b@,
        a@ != c@,
        b@ != c@,
    ensures
        r@ == list_json(items.deep_view(), a@, b@, c@),
        json_list_members(r@, a@, b@) == Some(
            items.deep_view().map_values(
                |p: (Seq<char>, Seq<char>, Seq<char>)| (Some(p.0), Some(p.1)),
            ),
        ),
{
    write_list(items, a, b, c)
}

/// Every text of a list counts, in its place, and nothing else does.
pub proof fn lemma_texts_are_kept(items: Seq<Option<Seq<char>>>, s: Seq<char>)
    ensures
        present(items.push(Some(s))) == present(items).push(s),
        present(items.push(None)) == present(items),
        present(Seq::empty()).len() == 0,
{
    assert(items.push(Some(s)).drop_last() =~= items);
    assert(items.push(None).drop_last() =~= items);
}

/// The last entry of a key counts, and an entry leaves all other keys alone.
pub proof fn lemma_last_entries_count(
    entries: Seq<(String, String, String)>,
    e: (String, String, String),
    members: Seq<(String, Option<String>, Option<String>)>,
    m: (String, Option<String>, Option<String>),
    key: Seq<char>,
)
    ensures
        pair_map(entries.push(e)).contains_key(key) <==> pair_map(entries).contains_key(key) || key
            == e.0@,
        pair_map(entries.push(e))[e.0@] == (e.1@, e.2@),
        key != e.0@ ==> pair_map(entries.push(e))[key] == pair_map(entries)[key],
        member_map(members.push(m)).contains_key(key) <==> member_map(members).contains_key(key)
            || key == m.0@,
        member_map(members.push(m))[m.0@] == (m.1.deep_view(), m.2.deep_view()),
        key != m.0@ ==> member_map(members.push(m))[key] == member_map(members)[key],
{
    assert(entries.push(e).drop_last() =~= entries);
    assert(members.push(m).drop_last() =~= members);
}

} // verus!
