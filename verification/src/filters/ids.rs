//! The identifiers that new folders receive: random UUIDs, written in
//! braces.

use vstd::prelude::*;
use crate::chance::random_bytes;
use uuid::{Builder, Variant, Version};

verus! {

/// The lower-case character of the hexadecimal digit `d`.
pub open spec fn hex_digit(d: int) -> char
    recommends
        0 <= d < 16,
{
    if d == 0 {
        '0'
    } else if d == 1 {
        '1'
    } else if d == 2 {
        '2'
    } else if d == 3 {
        '3'
    } else if d == 4 {
        '4'
    } else if d == 5 {
        '5'
    } else if d == 6 {
        '6'
    } else if d == 7 {
        '7'
    } else if d == 8 {
        '8'
    } else if d == 9 {
        '9'
    } else if d == 10 {
        'a'
    } else if d == 11 {
        'b'
    } else if d == 12 {
        'c'
    } else if d == 13 {
        'd'
    } else if d == 14 {
        'e'
    } else {
        'f'
    }
}

/// `bytes` in hexadecimal, two digits for each byte.
pub open spec fn hex_of(bytes: Seq<u8>) -> Seq<char>
    decreases bytes.len(),
{
    if bytes.len() == 0 {
        Seq::empty()
    } else {
        hex_of(bytes.drop_last()).push(hex_digit(bytes.last() as int / 16)).push(
            hex_digit(bytes.last() as int % 16),
        )
    }
}

/// `bytes` marked as a random UUID: the version is set to 4 and the
/// variant to that of RFC 4122.
pub open spec fn marked(bytes: Seq<u8>) -> Seq<u8>
    recommends
        bytes.len() == 16,
{
    bytes.update(8, (bytes[8] & 0x3f) | 0x80).update(6, (bytes[6] & 0x0f) | 0x40)
}

/// The sixteen bytes `u` as a UUID in five hyphenated groups.
pub open spec fn hyphenated(u: Seq<u8>) -> Seq<char>
    recommends
        u.len() == 16,
{
    hex_of(u.subrange(0, 4)) + seq!['-'] + hex_of(u.subrange(4, 6)) + seq!['-'] + hex_of(
        u.subrange(6, 8),
    ) + seq!['-'] + hex_of(u.subrange(8, 10)) + seq!['-'] + hex_of(u.subrange(10, 16))
}

/// The URN of the random UUID made of `bytes`.
pub open spec fn urn_text(bytes: Seq<u8>) -> Seq<char>
    recommends
        bytes.len() == 16,
{
    "urn:uuid:"@ + hyphenated(marked(bytes))
}

/// The identifier made of `bytes`: the first thirty-two characters of the
/// hyphenated UUID, in braces.
pub open spec fn id_text(bytes: Seq<u8>) -> Seq<char>
    recommends
        bytes.len() == 16,
{
    "{"@ + urn_text(bytes).subrange(9, 41) + "}"@
}

/// `id` is an identifier made of some sixteen bytes.
pub open spec fn is_id(id: Seq<char>) -> bool {
    exists|bytes: Seq<u8>| bytes.len() == 16 && id == #[trigger] id_text(bytes)
}

/// The URN of the UUID that `uuid::Builder` makes of `bytes` with the
/// variant of RFC 4122 and the version for random UUIDs, as
/// `Urn::encode_lower` writes it: `urn:uuid:` and the bytes, with those two
/// fields overwritten, in lower-case hexadecimal in groups of 8, 4, 4, 4
/// and 12 digits.
#[verifier::external_body]
fn urn_of(bytes: [u8; 16]) -> (text: String)
    ensures
        text@ == urn_text(bytes@),
{
    let uuid = Builder::from_bytes(bytes)
        .with_variant(Variant::RFC4122)
        .with_version(Version::Random)
        .into_uuid();
    let mut buf = [b'!'; 49];
    uuid.urn().encode_lower(&mut buf).to_owned()
}

/// Every byte is written with two digits.
proof fn lemma_hex_len(bytes: Seq<u8>)
    ensures
        hex_of(bytes).len() == 2 * bytes.len(),
    decreases bytes.len(),
{
    if bytes.len() > 0 {
        lemma_hex_len(bytes.drop_last());
    }
}

/// The URN of a UUID has forty-five characters.
pub proof fn lemma_urn_len(bytes: Seq<u8>)
    requires
        bytes.len() == 16,
    ensures
        urn_text(bytes).len() == 45,
{
    reveal_strlit("urn:uuid:");
    let u = marked(bytes);
    lemma_hex_len(u.subrange(0, 4));
    lemma_hex_len(u.subrange(4, 6));
    lemma_hex_len(u.subrange(6, 8));
    lemma_hex_len(u.subrange(8, 10));
    lemma_hex_len(u.subrange(10, 16));
}

/// The identifier made of `bytes`.
pub fn filter_id(bytes: [u8; 16]) -> (id: String)
    ensures
        id@ == id_text(bytes@),
        is_id(id@),
{
    let urn = urn_of(bytes);
    proof {
        lemma_urn_len(bytes@);
    }
    let mut id = String::from_str("{");
    id.append(urn.as_str().substring_char(9, 41));
    id.append("}");
    assert(bytes@.len() == 16 && id@ == id_text(bytes@));
    id
}

/// A new identifier, made of random bytes.
pub fn urn_uuid() -> (id: String)
    ensures
        is_id(id@),
{
    filter_id(random_bytes())
}

} // verus!
