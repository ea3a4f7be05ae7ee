//! Reading the contact cards that a phone sends.

use vstd::prelude::*;

use crate::text;
use crate::text::{
    chars_of, contains, from_utf8_lossy, hex_digit, join3, lines_of, same, split_at_each,
    starts_with, text_of_range, to_uppercase, trim, trim_start, without_spaces,
};

verus! {

/// The bytes that quoted-printable text stands for: `=` with two hexadecimal
/// digits is one byte, and every other byte is itself.
pub open spec fn unquoted(b: Seq<u8>) -> Seq<u8>
    decreases b.len(),
{
    if b.len() == 0 {
        Seq::empty()
    } else if b[0] == 61 && b.len() > 2 && text::hex_value(b[1]) is Some && text::hex_value(b[2]) is Some {
        seq![(16 * text::hex_value(b[1])->0 + text::hex_value(b[2])->0) as u8] + unquoted(b.skip(3))
    } else {
        seq![b[0]] + unquoted(b.skip(1))
    }
}

/// The text that quoted-printable text stands for.
pub open spec fn decoded_quoted_printable(s: Seq<char>) -> Seq<char> {
    text::utf8_lossy(unquoted(vstd::utf8::encode_utf8(s)))
}

/// Bytes without `=` stand for themselves.
pub proof fn lemma_unquoted_plain(b: Seq<u8>)
    requires
        !b.contains(61),
    ensures
        unquoted(b) == b,
    decreases b.len(),
{
    if b.len() > 0 {
        assert(b.contains(b[0]));
        assert forall|x: u8| b.skip(1).contains(x) implies b.contains(x) by {
            let i = choose|i: int| 0 <= i < b.skip(1).len() && b.skip(1)[i] == x;
            assert(b[i + 1] == x);
        }
        lemma_unquoted_plain(b.skip(1));
        assert(seq![b[0]] + b.skip(1) =~= b);
    }
}

/// Text without `=` stands for itself.
pub proof fn lemma_plain_text_is_itself(s: Seq<char>)
    requires
        !vstd::utf8::encode_utf8(s).contains(61),
    ensures
        decoded_quoted_printable(s) == s,
{
    broadcast use vstd::utf8::group_utf8_lib;

    lemma_unquoted_plain(vstd::utf8::encode_utf8(s));
}

/// The hexadecimal digit of a value.
pub open spec fn quoted_digit(n: u8) -> u8 {
    if n < 10 {
        (48 + n) as u8
    } else {
        (55 + n) as u8
    }
}

/// A byte as it is quoted: as itself where it is plain, or else as `=` and two
/// hexadecimal digits.
pub open spec fn quoted_byte(x: u8, plain: spec_fn(u8) -> bool) -> Seq<u8> {
    if plain(x) && x != 61 {
        seq![x]
    } else {
        seq![61u8, quoted_digit(x / 16), quoted_digit(x % 16)]
    }
}

/// Bytes as they are quoted, whichever are left plain. A `=` never is.
pub open spec fn quoted(b: Seq<u8>, plain: spec_fn(u8) -> bool) -> Seq<u8>
    decreases b.len(),
{
    if b.len() == 0 {
        Seq::empty()
    } else {
        quoted_byte(b[0], plain) + quoted(b.skip(1), plain)
    }
}

/// Decoding undoes quoting, whatever the bytes and whichever were left plain.
pub proof fn lemma_unquoting_undoes_quoting(b: Seq<u8>, plain: spec_fn(u8) -> bool)
    ensures
        unquoted(quoted(b, plain)) == b,
    decreases b.len(),
{
    if b.len() > 0 {
        let rest = quoted(b.skip(1), plain);
        let q = quoted(b, plain);
        lemma_unquoting_undoes_quoting(b.skip(1), plain);
        if plain(b[0]) && b[0] != 61 {
            assert(q.skip(1) =~= rest);
        } else {
            let x = b[0];
            assert(q.skip(3) =~= rest);
            assert(q[0] == 61 && q[1] == quoted_digit(x / 16) && q[2] == quoted_digit(x % 16));
            assert(text::hex_value(q[1]) == Some((x / 16) as u8));
            assert(text::hex_value(q[2]) == Some((x % 16) as u8));
            assert(16 * (x / 16) + x % 16 == x);
        }
        assert(seq![b[0]] + b.skip(1) =~= b);
    }
}

/// A text comes back out of its quoted form.
pub proof fn lemma_quoted_text_reads_back(
    s: Seq<char>,
    written: Seq<char>,
    plain: spec_fn(u8) -> bool,
)
    requires
        vstd::utf8::encode_utf8(written) == quoted(vstd::utf8::encode_utf8(s), plain),
    ensures
        decoded_quoted_printable(written) == s,
{
    broadcast use vstd::utf8::group_utf8_lib;

    lemma_unquoting_undoes_quoting(vstd::utf8::encode_utf8(s), plain);
}

/// Decodes quoted-printable text.
pub fn decode_quoted_printable(input: &str) -> (r: String)
    ensures
        r@ == decoded_quoted_printable(input@),
{
    let bytes = input.as_bytes();
    let mut out: Vec<u8> = Vec::new();
    let mut i: usize = 0;
    proof {
        assert(bytes@.skip(0) == bytes@);
        assert(out@ + unquoted(bytes@) =~= unquoted(bytes@));
    }
    while i < bytes.len()
        invariant
            i <= bytes@.len(),
            out@ + unquoted(bytes@.skip(i as int)) == unquoted(bytes@),
        decreases bytes@.len() - i,
    {
        let ghost rest = bytes@.skip(i as int);
        let ghost done = out@;
        proof {
            assert(rest.skip(1) == bytes@.skip(i + 1));
        }
        if bytes[i] == 61 && bytes.len() - i > 2 {
            proof {
                assert(rest[1] == bytes@[i + 1] && rest[2] == bytes@[i + 2]);
                assert(rest.skip(3) == bytes@.skip(i + 3));
            }
            match (hex_digit(bytes[i + 1]), hex_digit(bytes[i + 2])) {
                (Some(h), Some(l)) => {
                    out.push(16 * h + l);
                    proof {
                        assert(out@ + unquoted(bytes@.skip(i + 3)) =~= done + unquoted(rest));
                    }
                    i = i + 3;
                    continue;
                },
                _ => {},
            }
        }
        out.push(bytes[i]);
        proof {
            assert(out@ + unquoted(bytes@.skip(i + 1)) =~= done + unquoted(rest));
        }
        i = i + 1;
    }
    proof {
        assert(bytes@.skip(i as int).len() == 0);
        assert(out@ =~= unquoted(bytes@));
    }
    from_utf8_lossy(&out)
}

/// What unfolding has put together after some lines: the finished lines and
/// the one that may still go on.
pub struct Unfolding {
    pub done: Seq<Seq<char>>,
    pub current: Seq<char>,
}

/// Unfolding takes one more line: a line that begins with a blank continues
/// the current one, as does any line after a trailing `=`, which goes.
pub open spec fn unfold_line(u: Unfolding, line: Seq<char>) -> Unfolding {
    if line.len() > 0 && (line[0] == ' ' || line[0] == '\t') {
        Unfolding { current: u.current + text::trimmed_start(line), ..u }
    } else if u.current.len() > 0 && u.current.last() == '=' {
        Unfolding { current: u.current.drop_last() + text::trimmed_start(line), ..u }
    } else {
        Unfolding {
            done: if u.current.len() == 0 {
                u.done
            } else {
                u.done.push(u.current)
            },
            current: line,
        }
    }
}

/// Unfolding over all the lines.
pub open spec fn unfold(ls: Seq<Seq<char>>) -> Unfolding
    decreases ls.len(),
{
    if ls.len() == 0 {
        Unfolding { done: Seq::empty(), current: Seq::empty() }
    } else {
        unfold_line(unfold(ls.drop_last()), ls.last())
    }
}

/// The logical lines of a card.
pub open spec fn unfolded(content: Seq<char>) -> Seq<Seq<char>> {
    let u = unfold(text::lines(content));
    if u.current.len() == 0 {
        u.done
    } else {
        u.done.push(u.current)
    }
}

/// A line that begins with a blank goes on with the line before it, without the
/// blanks it begins with. A line after one that ends with `=` goes on with it
/// too, and the `=` goes. Any other line starts anew, and the one before it is
/// finished, unless it was empty.
pub proof fn lemma_folded_lines_join(ls: Seq<Seq<char>>, line: Seq<char>)
    ensures
        line.len() > 0 && (line[0] == ' ' || line[0] == '\t') ==> unfold(ls.push(line)).done == unfold(
            ls,
        ).done && unfold(ls.push(line)).current == unfold(ls).current + text::trimmed_start(line),
        (line.len() == 0 || (line[0] != ' ' && line[0] != '\t')) && unfold(ls).current.len() > 0
            && unfold(ls).current.last() == '=' ==> unfold(ls.push(line)).done == unfold(ls).done
            && unfold(ls.push(line)).current == unfold(ls).current.drop_last()
            + text::trimmed_start(line),
        (line.len() == 0 || (line[0] != ' ' && line[0] != '\t')) && unfold(ls).current.len() > 0
            && unfold(ls).current.last() != '=' ==> unfold(ls.push(line)).done == unfold(
            ls,
        ).done.push(unfold(ls).current) && unfold(ls.push(line)).current == line,
        (line.len() == 0 || (line[0] != ' ' && line[0] != '\t')) && unfold(ls).current.len() == 0
            ==> unfold(ls.push(line)).done == unfold(ls).done && unfold(ls.push(line)).current
            == line,
{
    assert(ls.push(line).drop_last() =~= ls);
}

/// A card whose lines are not folded has its lines as logical lines, all of them
/// and in order.
pub proof fn lemma_unfolded_lines_stay(content: Seq<char>)
    requires
        forall|i: int|
            0 <= i < text::lines(content).len() ==> (#[trigger] text::lines(content)[i]).len() > 0
                && text::lines(content)[i][0] != ' ' && text::lines(content)[i][0] != '\t'
                && text::lines(content)[i].last() != '=',
    ensures
        unfolded(content) == text::lines(content),
{
    lemma_plain_lines(text::lines(content));
}

proof fn lemma_plain_lines(ls: Seq<Seq<char>>)
    requires
        forall|i: int|
            0 <= i < ls.len() ==> (#[trigger] ls[i]).len() > 0 && ls[i][0] != ' ' && ls[i][0] != '\t'
                && ls[i].last() != '=',
    ensures
        ls.len() == 0 ==> unfold(ls).done.len() == 0 && unfold(ls).current.len() == 0,
        ls.len() > 0 ==> unfold(ls).current.len() > 0 && unfold(ls).current == ls.last()
            && unfold(ls).done.push(unfold(ls).current) == ls,
    decreases ls.len(),
{
    if ls.len() > 0 {
        let less = ls.drop_last();
        assert forall|i: int| 0 <= i < less.len() implies (#[trigger] less[i]).len() > 0
            && less[i][0] != ' ' && less[i][0] != '\t' && less[i].last() != '=' by {
            assert(less[i] == ls[i]);
        }
        lemma_plain_lines(less);
        assert(ls.last() == ls[ls.len() - 1]);
        if less.len() > 0 {
            assert(less.last() == ls[less.len() - 1]);
            assert(unfold(ls).done =~= less);
        }
        assert(unfold(ls).done.push(unfold(ls).current) =~= ls);
    }
}

/// Joins folded lines into logical lines.
pub fn unfold_vcard_lines(content: &str) -> (r: Vec<String>)
    ensures
        r.deep_view() == unfolded(content@),
        unfold(text::lines(content@)).current.len() == 0 ==> r.deep_view() == unfold(
            text::lines(content@),
        ).done,
        unfold(text::lines(content@)).current.len() > 0 ==> r.deep_view() == unfold(
            text::lines(content@),
        ).done.push(unfold(text::lines(content@)).current),
{
    let ls = lines_of(content);
    let ghost all = ls.deep_view();
    let mut done: Vec<String> = Vec::new();
    let mut current = String::new();
    let mut i: usize = 0;
    proof {
        assert(all.take(0) =~= Seq::empty());
        assert(done.deep_view() =~= Seq::<Seq<char>>::empty());
    }
    while i < ls.len()
        invariant
            i <= ls@.len(),
            all == ls.deep_view(),
            done.deep_view() == unfold(all.take(i as int)).done,
            current@ == unfold(all.take(i as int)).current,
        decreases ls@.len() - i,
    {
        let ghost u = unfold(all.take(i as int));
        proof {
            assert(all.take(i + 1).drop_last() == all.take(i as int));
            assert(all.take(i + 1).last() == all[i as int]);
            assert(all[i as int] == ls@[i as int]@);
        }
        let line = &ls[i];
        let v = chars_of(line);
        let cur = chars_of(&current);
        if v.len() > 0 && (v[0] == ' ' || v[0] == '\t') {
            current.append(&trim_start(line));
        } else if cur.len() > 0 && cur[cur.len() - 1] == '=' {
            current = text_of_range(&cur, 0, cur.len() - 1);
            proof {
                assert(current@ =~= u.current.drop_last());
            }
            current.append(&trim_start(line));
        } else {
            if cur.len() > 0 {
                done.push(current);
                proof {
                    assert(done.deep_view() =~= u.done.push(u.current));
                }
            }
            current = line.clone();
        }
        i = i + 1;
    }
    proof {
        assert(all.take(i as int) == all);
    }
    if !current.as_str().is_empty() {
        let ghost before = done.deep_view();
        let ghost last = current@;
        done.push(current);
        proof {
            assert(done.deep_view() =~= before.push(last));
        }
    }
    done
}

/// What a card says of its photo.
#[derive(Debug, PartialEq, Eq)]
pub enum VcardPhoto {
    Inline(String),
    Remote(String),
    Unrecognized,
    Absent,
}

/// The photo of a card, as a value.
pub enum Photo {
    Inline(Seq<char>),
    Remote(Seq<char>),
    Unrecognized,
    Absent,
}

impl View for VcardPhoto {
    type V = Photo;

    open spec fn view(&self) -> Photo {
        match self {
            VcardPhoto::Inline(s) => Photo::Inline(s@),
            VcardPhoto::Remote(s) => Photo::Remote(s@),
            VcardPhoto::Unrecognized => Photo::Unrecognized,
            VcardPhoto::Absent => Photo::Absent,
        }
    }
}

/// The number of bytes before the first occurrence of the pattern, or the
/// number of all bytes where there is none.
pub open spec fn find_bytes(b: Seq<u8>, p: Seq<u8>) -> int
    decreases b.len(),
{
    if b.len() < p.len() || b.len() == 0 {
        b.len() as int
    } else if b.take(p.len() as int) == p {
        0
    } else {
        1 + find_bytes(b.skip(1), p)
    }
}

proof fn lemma_find_bytes(b: Seq<u8>, p: Seq<u8>)
    ensures
        0 <= find_bytes(b, p) <= b.len(),
    decreases b.len(),
{
    if b.len() >= p.len() && b.len() > 0 && b.take(p.len() as int) != p {
        lemma_find_bytes(b.skip(1), p);
    }
}

/// The bytes of the marker that stands before the data of a data URI.
pub open spec fn base64_marker() -> Seq<u8> {
    seq![66u8, 65u8, 83u8, 69u8, 54u8, 52u8, 44u8]
}

/// The data behind a `base64,` marker in any case. The marker is looked for in
/// the upper-case form, and the data is what follows at the same byte offset.
pub open spec fn data_uri_payload(value: Seq<char>) -> Option<Seq<char>> {
    let upper = vstd::utf8::encode_utf8(text::uppercased(value));
    let bytes = vstd::utf8::encode_utf8(value);
    let start = find_bytes(upper, base64_marker()) + 7;
    if start > upper.len() || !vstd::utf8::is_char_boundary(bytes, start) {
        None
    } else {
        Some(vstd::utf8::decode_utf8(bytes.skip(start)))
    }
}

/// Whether the parameters of a property say that its value is base64.
pub open spec fn base64_param(prop_upper: Seq<char>) -> bool {
    let params = text::split(prop_upper, ';').skip(1);
    ||| params.contains("BASE64"@)
    ||| params.contains("B"@)
    ||| params.contains("ENCODING=BASE64"@)
    ||| params.contains("ENCODING=B"@)
}

/// The characters of a text that are not white space.
pub open spec fn packed(s: Seq<char>) -> Seq<char> {
    s.filter(|c: char| !text::is_space(c))
}

/// What a `PHOTO` property with these parameters and this value says.
pub open spec fn photo_of(prop_upper: Seq<char>, value: Seq<char>) -> Photo {
    let uri = data_uri_payload(value);
    let plain = text::trimmed(value);
    if uri is Some && packed(uri->0).len() > 0 {
        Photo::Inline(packed(uri->0))
    } else if base64_param(prop_upper) && packed(value).len() > 0 {
        Photo::Inline(packed(value))
    } else if text::begins(plain, "http://"@) || text::begins(plain, "https://"@) {
        Photo::Remote(plain)
    } else if plain.len() > 0 {
        Photo::Unrecognized
    } else {
        Photo::Absent
    }
}

fn find_marker(b: &[u8]) -> (r: usize)
    ensures
        r == find_bytes(b@, base64_marker()),
{
    let mut i: usize = 0;
    proof {
        assert(b@.skip(0) == b@);
    }
    while i < b.len() && b.len() - i >= 7
        invariant
            i <= b@.len(),
            find_bytes(b@, base64_marker()) == i + find_bytes(b@.skip(i as int), base64_marker()),
        decreases b@.len() - i,
    {
        let ghost rest = b@.skip(i as int);
        if b[i] == 66 && b[i + 1] == 65 && b[i + 2] == 83 && b[i + 3] == 69 && b[i + 4] == 54
            && b[i + 5] == 52 && b[i + 6] == 44 {
            proof {
                assert(rest.take(7) =~= base64_marker());
            }
            return i;
        }
        proof {
            if rest.take(7) == base64_marker() {
                assert(rest.take(7)[0] == 66 && rest.take(7)[1] == 65 && rest.take(7)[2] == 83
                    && rest.take(7)[3] == 69 && rest.take(7)[4] == 54 && rest.take(7)[5] == 52
                    && rest.take(7)[6] == 44);
            }
            assert(rest.skip(1) == b@.skip(i + 1));
        }
        i = i + 1;
    }
    b.len()
}

fn data_payload(value: &str) -> (r: Option<String>)
    ensures
        r.deep_view() == data_uri_payload(value@),
{
    broadcast use vstd::utf8::group_utf8_lib;

    let upper = to_uppercase(value);
    let ub = upper.as_str().as_bytes();
    let at = find_marker(ub);
    proof {
        lemma_find_bytes(ub@, base64_marker());
    }
    if ub.len() - at < 7 {
        return None;
    }
    let start = at + 7;
    if !value.is_char_boundary(start) {
        return None;
    }
    let parts = value.split_at(start);
    proof {
        let bytes = vstd::utf8::encode_utf8(value@);
        assert(bytes.subrange(start as int, bytes.len() as int) == bytes.skip(start as int));
        assert(vstd::utf8::decode_utf8(vstd::utf8::encode_utf8(parts.1@)) == parts.1@);
    }
    Some(parts.1.to_owned())
}

fn has_param(params: &Vec<String>, name: &str) -> (r: bool)
    requires
        params@.len() >= 1,
    ensures
        r == params.deep_view().skip(1).contains(name@),
{
    let mut i: usize = 1;
    let ghost all = params.deep_view().skip(1);
    while i < params.len()
        invariant
            1 <= i <= params@.len(),
            all == params.deep_view().skip(1),
            forall|j: int| 0 <= j < i - 1 ==> all[j] != name@,
        decreases params@.len() - i,
    {
        if same(&params[i], name) {
            proof {
                assert(all[i - 1] == name@);
            }
            return true;
        }
        proof {
            assert(all[i - 1] == params@[i as int]@);
        }
        i = i + 1;
    }
    false
}

/// Reads the photo out of a `PHOTO` property. Photos that are given by a link
/// are told apart and left alone.
pub fn extract_vcard_photo(prop_upper: &str, value: &str) -> (r: VcardPhoto)
    ensures
        r@ == photo_of(prop_upper@, value@),
{
    match data_payload(value) {
        Some(data) => {
            let p = without_spaces(&data);
            if !p.as_str().is_empty() {
                return VcardPhoto::Inline(p);
            }
        },
        None => {},
    }
    let params = split_at_each(prop_upper, ';');
    if has_param(&params, "BASE64") || has_param(&params, "B") || has_param(&params, "ENCODING=BASE64")
        || has_param(&params, "ENCODING=B") {
        let p = without_spaces(value);
        if !p.as_str().is_empty() {
            return VcardPhoto::Inline(p);
        }
    }
    let plain = trim(value);
    if starts_with(&plain, "http://") || starts_with(&plain, "https://") {
        return VcardPhoto::Remote(plain);
    }
    if !plain.as_str().is_empty() {
        return VcardPhoto::Unrecognized;
    }
    VcardPhoto::Absent
}

/// What a card holds.
pub struct Card {
    pub name: Option<Seq<char>>,
    pub phones: Seq<Seq<char>>,
    pub photo: Photo,
}

/// A card before its first line.
pub open spec fn blank_card() -> Card {
    Card { name: None, phones: Seq::empty(), photo: Photo::Absent }
}

/// The number of characters before the first `c`, or of all characters.
pub open spec fn first_at(s: Seq<char>, c: char) -> int
    decreases s.len(),
{
    if s.len() == 0 || s[0] == c {
        0
    } else {
        1 + first_at(s.skip(1), c)
    }
}

/// The upper-case property part of a logical line.
pub open spec fn property_of(line: Seq<char>) -> Seq<char> {
    text::uppercased(line.take(first_at(line, ':')))
}

/// The decoded value of a logical line.
pub open spec fn value_of(line: Seq<char>) -> Seq<char> {
    let raw = line.skip(first_at(line, ':') + 1);
    if text::occurs(property_of(line), "ENCODING=QUOTED-PRINTABLE"@) {
        decoded_quoted_printable(raw)
    } else {
        text::trimmed(raw)
    }
}

/// The name that an `N` property gives: given name, then family name.
pub open spec fn structured_name(value: Seq<char>) -> Option<Seq<char>> {
    let parts = text::split(value, ';');
    if parts.len() < 2 {
        None
    } else {
        let full = text::trimmed(text::trimmed(parts[1]) + " "@ + text::trimmed(parts[0]));
        if full.len() == 0 {
            None
        } else {
            Some(full)
        }
    }
}

/// A card takes in one more logical line.
pub open spec fn card_line(card: Card, raw: Seq<char>) -> Card {
    let line = text::trimmed(raw);
    let prop = text::trimmed(text::split(property_of(line), ';')[0]);
    let value = value_of(line);
    if first_at(line, ':') == line.len() {
        card
    } else if prop == "FN"@ {
        Card { name: Some(text::trimmed(value)), ..card }
    } else if card.name is None && prop == "N"@ {
        Card { name: structured_name(value), ..card }
    } else if prop == "TEL"@ {
        if text::trimmed(value).len() == 0 {
            card
        } else {
            Card { phones: card.phones.push(text::trimmed(value)), ..card }
        }
    } else if prop == "PHOTO"@ && card.photo is Absent {
        Card { photo: photo_of(property_of(line), value), ..card }
    } else {
        card
    }
}

/// A card after all its logical lines.
pub open spec fn card_lines(ls: Seq<Seq<char>>) -> Card
    decreases ls.len(),
{
    if ls.len() == 0 {
        blank_card()
    } else {
        card_line(card_lines(ls.drop_last()), ls.last())
    }
}

/// What the text of a card says.
pub open spec fn card_of(content: Seq<char>) -> Card {
    card_lines(unfolded(content))
}

proof fn lemma_first_at(a: Seq<char>, c: char, b: Seq<char>)
    requires
        !a.contains(c),
    ensures
        first_at(a.push(c) + b, c) == a.len(),
        first_at(a, c) == a.len(),
    decreases a.len(),
{
    let s = a.push(c) + b;
    if a.len() > 0 {
        assert(a.contains(a[0]));
        assert(s[0] == a[0]);
        assert(s.skip(1) =~= a.skip(1).push(c) + b);
        assert forall|x: char| a.skip(1).contains(x) implies a.contains(x) by {
            let i = choose|i: int| 0 <= i < a.skip(1).len() && a.skip(1)[i] == x;
            assert(a[i + 1] == x);
        }
        lemma_first_at(a.skip(1), c, b);
    }
}

/// A line is its property, a colon and its value: the property is what stands
/// before the first colon, in upper case, and the value what stands behind it,
/// trimmed, or decoded where the property says so.
pub proof fn lemma_lines_are_read(property: Seq<char>, value: Seq<char>)
    requires
        !property.contains(':'),
    ensures
        property_of(property.push(':') + value) == text::uppercased(property),
        !text::occurs(text::uppercased(property), "ENCODING=QUOTED-PRINTABLE"@) ==> value_of(
            property.push(':') + value,
        ) == text::trimmed(value),
        text::occurs(text::uppercased(property), "ENCODING=QUOTED-PRINTABLE"@) ==> value_of(
            property.push(':') + value,
        ) == decoded_quoted_printable(value),
{
    let line = property.push(':') + value;
    lemma_first_at(property, ':', value);
    assert(line.take(property.len() as int) =~= property);
    assert(line.skip(property.len() as int + 1) =~= value);
}

/// The name of a property with parameters is what stands before the first
/// semicolon.
pub proof fn lemma_parameters_are_set_aside(name: Seq<char>, parameters: Seq<char>)
    requires
        !name.contains(';'),
    ensures
        text::split(name, ';')[0] == name,
        text::split(name.push(';') + parameters, ';')[0] == name,
{
    text::lemma_split_unbroken(name, ';');
    text::lemma_split_joined(name, parameters, ';');
}

/// The phone numbers of a card are the trimmed values of its `TEL` lines, in
/// order: each such line with a value adds it, whatever came before, and no
/// other line changes the numbers.
pub proof fn lemma_every_phone_counts(ls: Seq<Seq<char>>, raw: Seq<char>)
    ensures
        text::trimmed(raw).contains(':') && text::trimmed(
            text::split(property_of(text::trimmed(raw)), ';')[0],
        ) == "TEL"@ && text::trimmed(value_of(text::trimmed(raw))).len() > 0 ==> card_lines(
            ls.push(raw),
        ).phones == card_lines(ls).phones.push(text::trimmed(value_of(text::trimmed(raw)))),
        !(text::trimmed(raw).contains(':') && text::trimmed(
            text::split(property_of(text::trimmed(raw)), ';')[0],
        ) == "TEL"@ && text::trimmed(value_of(text::trimmed(raw))).len() > 0) ==> card_lines(
            ls.push(raw),
        ).phones == card_lines(ls).phones,
        card_lines(Seq::empty()).phones.len() == 0,
{
    reveal_strlit("TEL");
    reveal_strlit("FN");
    reveal_strlit("N");
    assert(ls.push(raw).drop_last() =~= ls);
    assert("TEL"@.len() == 3 && "FN"@.len() == 2 && "N"@.len() == 1);
    lemma_colon(text::trimmed(raw));
}

proof fn lemma_colon(line: Seq<char>)
    ensures
        first_at(line, ':') == line.len() <==> !line.contains(':'),
        0 <= first_at(line, ':') <= line.len(),
    decreases line.len(),
{
    if line.len() > 0 {
        if line[0] == ':' {
            assert(line.contains(':'));
        } else {
            lemma_colon(line.skip(1));
            if line.contains(':') {
                let i = choose|i: int| 0 <= i < line.len() && line[i] == ':';
                assert(line.skip(1)[i - 1] == ':');
            }
            if line.skip(1).contains(':') {
                let i = choose|i: int| 0 <= i < line.skip(1).len() && line.skip(1)[i] == ':';
                assert(line[i + 1] == ':');
            }
        }
    }
}

/// The name of a card: an `FN` line gives it whatever came before; an `N` line
/// gives it where none is known yet; no other line changes it.
pub proof fn lemma_names_are_taken(ls: Seq<Seq<char>>, raw: Seq<char>)
    ensures
        text::trimmed(raw).contains(':') && text::trimmed(
            text::split(property_of(text::trimmed(raw)), ';')[0],
        ) == "FN"@ ==> card_lines(ls.push(raw)).name == Some(
            text::trimmed(value_of(text::trimmed(raw))),
        ),
        text::trimmed(raw).contains(':') && text::trimmed(
            text::split(property_of(text::trimmed(raw)), ';')[0],
        ) == "N"@ && card_lines(ls).name is None ==> card_lines(ls.push(raw)).name
            == structured_name(value_of(text::trimmed(raw))),
        text::trimmed(raw).contains(':') && text::trimmed(
            text::split(property_of(text::trimmed(raw)), ';')[0],
        ) == "N"@ && card_lines(ls).name is Some ==> card_lines(ls.push(raw)).name == card_lines(
            ls,
        ).name,
        !text::trimmed(raw).contains(':') || (text::trimmed(
            text::split(property_of(text::trimmed(raw)), ';')[0],
        ) != "FN"@ && text::trimmed(text::split(property_of(text::trimmed(raw)), ';')[0]) != "N"@)
            ==> card_lines(ls.push(raw)).name == card_lines(ls).name,
        card_lines(Seq::empty()).name is None,
{
    reveal_strlit("FN");
    reveal_strlit("N");
    assert(ls.push(raw).drop_last() =~= ls);
    assert("FN"@.len() == 2 && "N"@.len() == 1);
    lemma_colon(text::trimmed(raw));
}

/// The photo of a card: a `PHOTO` line gives it as long as no line before did,
/// and no other line changes it.
pub proof fn lemma_photos_are_taken(ls: Seq<Seq<char>>, raw: Seq<char>)
    ensures
        text::trimmed(raw).contains(':') && text::trimmed(
            text::split(property_of(text::trimmed(raw)), ';')[0],
        ) == "PHOTO"@ && card_lines(ls).photo is Absent ==> card_lines(ls.push(raw)).photo
            == photo_of(property_of(text::trimmed(raw)), value_of(text::trimmed(raw))),
        !text::trimmed(raw).contains(':') || text::trimmed(
            text::split(property_of(text::trimmed(raw)), ';')[0],
        ) != "PHOTO"@ || !(card_lines(ls).photo is Absent) ==> card_lines(ls.push(raw)).photo
            == card_lines(ls).photo,
        card_lines(Seq::empty()).photo is Absent,
{
    reveal_strlit("FN");
    reveal_strlit("N");
    reveal_strlit("TEL");
    reveal_strlit("PHOTO");
    assert(ls.push(raw).drop_last() =~= ls);
    assert("FN"@.len() == 2 && "N"@.len() == 1 && "TEL"@.len() == 3 && "PHOTO"@.len() == 5);
    lemma_colon(text::trimmed(raw));
}

/// A structured name is written given name first: of `family;given`, with or
/// without more parts behind, it makes `given family`.
pub proof fn lemma_structured_names(family: Seq<char>, given: Seq<char>, more: Seq<char>)
    requires
        !family.contains(';'),
        !given.contains(';'),
        family.len() > 0,
        !text::is_space(family[0]),
        !text::is_space(family.last()),
        given.len() > 0,
        !text::is_space(given[0]),
        !text::is_space(given.last()),
    ensures
        structured_name(family.push(';') + given) == Some(given + " "@ + family),
        structured_name(family.push(';') + (given.push(';') + more)) == Some(
            given + " "@ + family,
        ),
        structured_name(family) is None,
{
    reveal_strlit(" ");
    text::lemma_split_unbroken(family, ';');
    text::lemma_split_unbroken(given, ';');
    text::lemma_split_joined(family, given, ';');
    text::lemma_split_joined(given, more, ';');
    text::lemma_split_joined(family, given.push(';') + more, ';');
    let none = Seq::<char>::empty();
    text::lemma_trimming(none, family, none);
    text::lemma_trimming(none, given, none);
    assert(none + family + none =~= family);
    assert(none + given + none =~= given);
    let full = given + " "@ + family;
    assert(full[0] == given[0]);
    assert(full.last() == family.last());
    text::lemma_trimming(none, full, none);
    assert(none + full + none =~= full);
}

/// A photo given by a link is told by its link, and nothing but a link is.
/// Where there is neither data nor a link, something is still there exactly when
/// the value is not blank.
pub proof fn lemma_linked_photos(parameters: Seq<char>, value: Seq<char>)
    requires
        data_uri_payload(value) is None,
        !base64_param(parameters),
    ensures
        text::begins(text::trimmed(value), "http://"@) || text::begins(
            text::trimmed(value),
            "https://"@,
        ) ==> photo_of(parameters, value) == Photo::Remote(text::trimmed(value)),
        !(text::begins(text::trimmed(value), "http://"@) || text::begins(
            text::trimmed(value),
            "https://"@,
        )) ==> (photo_of(parameters, value) is Unrecognized <==> text::trimmed(value).len() > 0)
            && (photo_of(parameters, value) is Absent <==> text::trimmed(value).len() == 0),
{
}

/// A photo that comes with the card is its data without white space, whether a
/// data URI or a parameter says that it is base64. A data URI wins.
pub proof fn lemma_inline_photos(parameters: Seq<char>, value: Seq<char>)
    ensures
        data_uri_payload(value) is Some && packed(data_uri_payload(value)->0).len() > 0
            ==> photo_of(parameters, value) == Photo::Inline(packed(data_uri_payload(value)->0)),
        data_uri_payload(value) is None && packed(value).len() > 0 && text::split(
            parameters,
            ';',
        ).skip(1).contains("ENCODING=B"@) ==> photo_of(parameters, value) == Photo::Inline(
            packed(value),
        ),
        data_uri_payload(value) is None && packed(value).len() > 0 && text::split(
            parameters,
            ';',
        ).skip(1).contains("ENCODING=BASE64"@) ==> photo_of(parameters, value) == Photo::Inline(
            packed(value),
        ),
        data_uri_payload(value) is None && packed(value).len() > 0 && text::split(
            parameters,
            ';',
        ).skip(1).contains("BASE64"@) ==> photo_of(parameters, value) == Photo::Inline(
            packed(value),
        ),
        data_uri_payload(value) is None && packed(value).len() > 0 && text::split(
            parameters,
            ';',
        ).skip(1).contains("B"@) ==> photo_of(parameters, value) == Photo::Inline(packed(value)),
        photo_of(parameters, value) is Inline ==> data_uri_payload(value) is Some || base64_param(
            parameters,
        ),
        forall|i: int|
            0 <= i < packed(value).len() ==> !text::is_space(#[trigger] packed(value)[i])
                && value.contains(packed(value)[i]),
{
    let keep = |c: char| !text::is_space(c);
    assert forall|i: int| 0 <= i < packed(value).len() implies !text::is_space(
        #[trigger] packed(value)[i],
    ) && value.contains(packed(value)[i]) by {
        value.lemma_filter_pred(keep, i);
        value.lemma_filter_contains_rev(keep, packed(value)[i]);
    }
}

proof fn lemma_found_bytes(b: Seq<u8>, p: Seq<u8>, n: int)
    requires
        p.len() > 0,
        0 <= n <= b.len() - p.len(),
        b.subrange(n, n + p.len()) == p,
        forall|k: int| 0 <= k < n ==> #[trigger] b.subrange(k, k + p.len()) != p,
    ensures
        find_bytes(b, p) == n,
    decreases b.len(),
{
    assert(b.take(p.len() as int) =~= b.subrange(0, 0 + p.len() as int));
    if n > 0 {
        let c = b.skip(1);
        assert(c.subrange(n - 1, n - 1 + p.len()) =~= b.subrange(n, n + p.len()));
        assert forall|k: int| 0 <= k < n - 1 implies #[trigger] c.subrange(k, k + p.len()) != p by {
            assert(c.subrange(k, k + p.len()) =~= b.subrange(k + 1, k + 1 + p.len()));
        }
        lemma_found_bytes(c, p, n - 1);
    }
}

/// The data of a data URI is what stands behind its first `base64,`, in whatever
/// case that is written.
pub proof fn lemma_data_uris_are_read(head: Seq<char>, marker: Seq<char>, data: Seq<char>)
    requires
        vstd::utf8::is_ascii_chars(head),
        vstd::utf8::is_ascii_chars(marker),
        vstd::utf8::is_ascii_chars(data),
        text::uppercased(marker) == "BASE64,"@,
        forall|k: int|
            0 <= k < head.len() ==> #[trigger] text::uppercased(head + marker + data).subrange(
                k,
                k + 7,
            ) != "BASE64,"@,
    ensures
        data_uri_payload(head + marker + data) == Some(data),
{
    broadcast use vstd::utf8::group_utf8_lib;

    reveal_strlit("BASE64,");
    let value = head + marker + data;
    let m = "BASE64,"@;
    assert(m.len() == 7);
    assert(text::uppercased(marker).len() == marker.len());
    assert(m[0] == 'B' && m[1] == 'A' && m[2] == 'S' && m[3] == 'E' && m[4] == '6' && m[5] == '4'
        && m[6] == ',');
    assert(vstd::utf8::is_ascii_chars(head + marker));
    assert(vstd::utf8::is_ascii_chars(value));
    let up = text::uppercased(value);
    assert forall|i: int| 0 <= i < up.len() implies (#[trigger] up[i]) as nat <= 127 by {
        assert(value[i] as nat <= 127);
    }
    assert(vstd::utf8::is_ascii_chars(up));
    let b = vstd::utf8::encode_utf8(up);
    let bytes = vstd::utf8::encode_utf8(value);
    assert(b.len() == up.len());
    assert(up.len() == value.len());
    let n = head.len() as int;
    assert forall|i: int| 0 <= i < 7 implies #[trigger] up[n + i] == m[i] by {
        assert(value[n + i] == marker[i]);
        assert(text::uppercased(marker)[i] == text::ascii_upper(marker[i]));
    }
    assert(b.subrange(n, n + 7) =~= base64_marker()) by {
        assert forall|i: int| 0 <= i < 7 implies b.subrange(n, n + 7)[i] == base64_marker()[i] by {
            assert(b[n + i] == up[n + i] as u8);
            assert(base64_marker()[i] == m[i] as u8);
        }
    }
    assert forall|k: int| 0 <= k < n implies #[trigger] b.subrange(k, k + 7) != base64_marker() by {
        if b.subrange(k, k + 7) == base64_marker() {
            assert forall|i: int| 0 <= i < 7 implies #[trigger] up[k + i] == m[i] by {
                assert(b.subrange(k, k + 7)[i] == b[k + i]);
                assert(b[k + i] == up[k + i] as u8);
                assert(base64_marker()[i] == m[i] as u8);
            }
            assert(up.subrange(k, k + 7) =~= m);
        }
    }
    lemma_found_bytes(b, base64_marker(), n);
    assert(bytes.skip(n + 7) =~= vstd::utf8::encode_utf8(data)) by {
        assert(bytes.len() == value.len());
        assert forall|i: int| 0 <= i < data.len() implies bytes[n + 7 + i] == vstd::utf8::encode_utf8(data)[i] by {
            assert(value[n + 7 + i] == data[i]);
        }
    }
    assert(vstd::utf8::is_char_boundary(bytes, n + 7)) by {
        if n + 7 == bytes.len() {
            vstd::utf8::is_char_boundary_start_end_of_seq(bytes);
        } else {
            vstd::utf8::is_char_boundary_iff_is_leading_byte(bytes, n + 7);
            assert(bytes[n + 7] == value[n + 7] as u8);
            assert(vstd::utf8::is_leading_byte_width_1(bytes[n + 7]));
        }
    }
}

/// The first photo of a card is the one that counts: once a line has given
/// one, no further line changes it.
pub proof fn lemma_first_photo_counts(card: Card, line: Seq<char>)
    requires
        !(card.photo is Absent),
    ensures
        card_line(card, line).photo == card.photo,
{
}

/// A name that a card already has is changed by an `FN` line only, so a
/// structured name never replaces a formatted one.
pub proof fn lemma_structured_name_yields(card: Card, raw: Seq<char>)
    requires
        card.name is Some,
        text::trimmed(text::split(property_of(text::trimmed(raw)), ';')[0]) != "FN"@,
    ensures
        card_line(card, raw).name == card.name,
{
}

/// The phone numbers of a card only grow, and none is empty.
pub proof fn lemma_phones_are_not_empty(ls: Seq<Seq<char>>)
    ensures
        forall|i: int|
            0 <= i < card_lines(ls).phones.len() ==> (#[trigger] card_lines(ls).phones[i]).len() > 0,
    decreases ls.len(),
{
    if ls.len() > 0 {
        lemma_phones_are_not_empty(ls.drop_last());
    }
}

fn find_char(v: &Vec<char>, c: char) -> (r: usize)
    ensures
        r <= v@.len(),
        r == first_at(v@, c),
{
    let mut i: usize = 0;
    proof {
        assert(v@.skip(0) == v@);
    }
    while i < v.len() && v[i] != c
        invariant
            i <= v@.len(),
            first_at(v@, c) == i + first_at(v@.skip(i as int), c),
        decreases v@.len() - i,
    {
        proof {
            assert(v@.skip(i as int).skip(1) == v@.skip(i + 1));
        }
        i = i + 1;
    }
    i
}

fn full_name(value: &str) -> (r: Option<String>)
    ensures
        r.deep_view() == structured_name(value@),
{
    let parts = split_at_each(value, ';');
    proof {
        assert(forall|i: int| 0 <= i < parts@.len() ==> parts.deep_view()[i] == #[trigger] parts@[i]@);
    }
    if parts.len() < 2 {
        return None;
    }
    let full = trim(&join3(&trim(&parts[1]), " ", &trim(&parts[0])));
    if full.as_str().is_empty() {
        None
    } else {
        Some(full)
    }
}

/// Reads the name, the phone numbers and the photo out of a card.
pub fn parse_vcard(content: &str) -> (r: (Option<String>, Vec<String>, VcardPhoto))
    ensures
        r.0.deep_view() == card_of(content@).name,
        r.1.deep_view() == card_of(content@).phones,
        r.2@ == card_of(content@).photo,
        r.0.deep_view() == card_lines(unfolded(content@)).name,
        r.1.deep_view() == card_lines(unfolded(content@)).phones,
        r.2@ == card_lines(unfolded(content@)).photo,
{
    let ls = unfold_vcard_lines(content);
    let ghost all = ls.deep_view();
    let mut name: Option<String> = None;
    let mut phones: Vec<String> = Vec::new();
    let mut photo = VcardPhoto::Absent;
    let mut i: usize = 0;
    proof {
        assert(all.take(0) =~= Seq::empty());
        assert(phones.deep_view() =~= Seq::<Seq<char>>::empty());
    }
    while i < ls.len()
        invariant
            i <= ls@.len(),
            all == ls.deep_view(),
            name.deep_view() == card_lines(all.take(i as int)).name,
            phones.deep_view() == card_lines(all.take(i as int)).phones,
            photo@ == card_lines(all.take(i as int)).photo,
        decreases ls@.len() - i,
    {
        let ghost card = card_lines(all.take(i as int));
        proof {
            assert(all.take(i + 1).drop_last() == all.take(i as int));
            assert(all.take(i + 1).last() == ls@[i as int]@);
        }
        let line = trim(&ls[i]);
        let v = chars_of(&line);
        let pos = find_char(&v, ':');
        i = i + 1;
        if pos == v.len() {
            continue;
        }
        let prop_upper = to_uppercase(&text_of_range(&v, 0, pos));
        let raw = text_of_range(&v, pos + 1, v.len());
        proof {
            assert(v@.subrange(0, pos as int) == v@.take(pos as int));
            assert(v@.subrange(pos + 1, v@.len() as int) == v@.skip(pos + 1));
        }
        let value = if contains(&prop_upper, "ENCODING=QUOTED-PRINTABLE") {
            decode_quoted_printable(&raw)
        } else {
            trim(&raw)
        };
        let heads = split_at_each(&prop_upper, ';');
        proof {
            assert(heads.deep_view()[0] == heads@[0]@);
        }
        let prop = trim(&heads[0]);
        if same(&prop, "FN") {
            name = Some(trim(&value));
        } else if name.is_none() && same(&prop, "N") {
            name = full_name(&value);
        } else if same(&prop, "TEL") {
            let phone = trim(&value);
            if !phone.as_str().is_empty() {
                let ghost number = phone@;
                phones.push(phone);
                proof {
                    assert(phones.deep_view() =~= card.phones.push(number));
                }
            }
        } else if same(&prop, "PHOTO") {
            if let VcardPhoto::Absent = photo {
                photo = extract_vcard_photo(&prop_upper, &value);
            }
        }
    }
    proof {
        assert(all.take(i as int) == all);
    }
    (name, phones, photo)
}

} // verus!
