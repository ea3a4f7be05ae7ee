//! Base64, percent encoding and fresh identifiers.

use base64::engine::Engine;
use vstd::prelude::*;

use crate::text;

verus! {

/// The base64 text of bytes.
pub uninterp spec fn base64_text(bytes: Seq<u8>) -> Seq<char>;

/// The bytes that a base64 text stands for, where it is one.
pub uninterp spec fn base64_bytes(text: Seq<char>) -> Option<Seq<u8>>;

/// Calls `Engine::encode` of the padded standard alphabet. The text depends on
/// the bytes alone, and decoding it gives them back. The bound on the length
/// keeps the text within what memory can hold.
#[verifier::external_body]
pub(crate) fn encode_base64(bytes: &Vec<u8>) -> (r: String)
    requires
        bytes@.len() <= usize::MAX / 4,
    ensures
        r@ == base64_text(bytes@),
        base64_bytes(r@) == Some(bytes@),
{
    base64::engine::general_purpose::STANDARD.encode(bytes)
}

/// Calls `Engine::decode` of the padded standard alphabet. Whether it succeeds,
/// and what it gives, depends on the text alone.
#[verifier::external_body]
pub(crate) fn decode_base64(s: &str) -> (r: Option<Vec<u8>>)
    ensures
        r is Some <==> base64_bytes(s@) is Some,
        r is Some ==> base64_bytes(s@) == Some(r->0@),
{
    base64::engine::general_purpose::STANDARD.decode(s).ok()
}

/// Bytes with each `%` and its two hexadecimal digits replaced by the byte that
/// they stand for. Any other `%` stands for itself.
pub open spec fn percent_decoded(b: Seq<u8>) -> Seq<u8>
    decreases b.len(),
{
    if b.len() == 0 {
        Seq::empty()
    } else if b[0] == 37 && b.len() > 2 && text::hex_value(b[1]) is Some && text::hex_value(
        b[2],
    ) is Some {
        seq![(16 * text::hex_value(b[1])->0 + text::hex_value(b[2])->0) as u8] + percent_decoded(
            b.skip(3),
        )
    } else {
        seq![b[0]] + percent_decoded(b.skip(1))
    }
}

/// Calls `percent_encoding::percent_decode` and `PercentDecode::decode_utf8`:
/// the text of the decoded bytes, where they are UTF-8.
#[verifier::external_body]
pub(crate) fn percent_decode_text(s: &str) -> (r: Option<String>)
    ensures
        r is Some <==> vstd::utf8::valid_utf8(percent_decoded(vstd::utf8::encode_utf8(s@))),
        r is Some ==> r->0@ == vstd::utf8::decode_utf8(
            percent_decoded(vstd::utf8::encode_utf8(s@)),
        ),
{
    percent_encoding::percent_decode(s.as_bytes()).decode_utf8().ok().map(|t| t.into_owned())
}

/// Bytes without `%` stand for themselves.
pub proof fn lemma_percent_plain(b: Seq<u8>)
    requires
        !b.contains(37),
    ensures
        percent_decoded(b) == b,
    decreases b.len(),
{
    if b.len() > 0 {
        assert(b.contains(b[0]));
        assert forall|x: u8| b.skip(1).contains(x) implies b.contains(x) by {
            let i = choose|i: int| 0 <= i < b.skip(1).len() && b.skip(1)[i] == x;
            assert(b[i + 1] == x);
        }
        lemma_percent_plain(b.skip(1));
        assert(seq![b[0]] + b.skip(1) =~= b);
    }
}

/// Calls `uuid::Uuid::new_v4` and writes it with hyphens: a text of 36
/// characters. Which one it is depends on chance.
#[verifier::external_body]
pub(crate) fn fresh_id() -> (r: String)
    ensures
        r@.len() == 36,
{
    uuid::Uuid::new_v4().to_string()
}

/// An escape stands for the byte that its digits write in base sixteen, and
/// what follows it is decoded on its own.
pub proof fn lemma_escapes_are_decoded(high: u8, low: u8, rest: Seq<u8>)
    requires
        text::hex_value(high) is Some,
        text::hex_value(low) is Some,
    ensures
        percent_decoded(seq![37u8, high, low] + rest) == seq![
            (16 * text::hex_value(high)->0 + text::hex_value(low)->0) as u8,
        ] + percent_decoded(rest),
{
    let b = seq![37u8, high, low] + rest;
    assert(b[0] == 37 && b[1] == high && b[2] == low);
    assert(b.skip(3) =~= rest);
}

/// A byte that begins no escape stands for itself.
pub proof fn lemma_other_bytes_stay(byte: u8, rest: Seq<u8>)
    requires
        byte != 37 || rest.len() < 2 || text::hex_value(rest[0]) is None || text::hex_value(
            rest[1],
        ) is None,
    ensures
        percent_decoded(seq![byte] + rest) == seq![byte] + percent_decoded(rest),
{
    let b = seq![byte] + rest;
    assert(b[0] == byte);
    assert(b.skip(1) =~= rest);
    if rest.len() >= 2 {
        assert(b[1] == rest[0] && b[2] == rest[1]);
    }
}

} // verus!
