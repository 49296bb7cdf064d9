//! The character by which a name is judged to start with a capital.

use vstd::prelude::*;
use vstd::utf8::encode_utf8;
use crate::text::chars_of;

verus! {

/// The byte that stands for a colon.
pub const COLON: u8 = 58;

/// Whether `c` is an uppercase character in the sense of Unicode.
pub uninterp spec fn is_uppercase(c: char) -> bool;

/// Asks `char::is_uppercase` whether `c` is an uppercase character. The
/// answer depends on `c` alone.
#[verifier::external_body]
fn char_is_uppercase(c: char) -> (upper: bool)
    ensures
        upper == is_uppercase(c),
{
    c.is_uppercase()
}

/// `p` is the place of the last colon in `bytes`.
pub open spec fn is_last_colon(bytes: Seq<u8>, p: int) -> bool {
    &&& 0 <= p < bytes.len()
    &&& bytes[p] == COLON
    &&& forall|j: int| p < j < bytes.len() ==> bytes[j] != COLON
}

/// The place of the character by which a possibly qualified name is
/// judged: the byte offset just behind the last colon of the encoded name,
/// or of its last byte where the colon ends the name, is taken as a
/// character index; it is 0 for a name without colon.
pub open spec fn initial_place(name: Seq<char>) -> int {
    let bytes = encode_utf8(name);
    if exists|p: int| is_last_colon(bytes, p) {
        let p = choose|p: int| is_last_colon(bytes, p);
        if p + 1 <= bytes.len() - 1 {
            p + 1
        } else {
            bytes.len() - 1
        }
    } else {
        0
    }
}

/// The name is not empty and has a character at its `initial_place`.
pub open spec fn has_initial(name: Seq<char>) -> bool {
    name.len() > 0 && initial_place(name) < name.len()
}

/// The character at the `initial_place` of `name` is uppercase.
pub open spec fn initial_upper(name: Seq<char>) -> bool {
    is_uppercase(name[initial_place(name)])
}

/// The first character of `name` is uppercase.
pub open spec fn starts_upper(name: Seq<char>) -> bool {
    is_uppercase(name[0])
}

/// A name without a colon, and a name of plain ASCII characters, is judged by
/// one of its own characters.
pub proof fn lemma_plain_name_has_initial(name: Seq<char>)
    requires
        name.len() > 0,
        encode_utf8(name).len() == name.len() || forall|j: int|
            0 <= j < encode_utf8(name).len() ==> encode_utf8(name)[j] != COLON,
    ensures
        has_initial(name),
{
}

/// Computes the `initial_place` of a name that is not empty.
pub fn initial_place_of(name: &str) -> (place: usize)
    requires
        name@.len() > 0,
    ensures
        place == initial_place(name@),
{
    let bytes = name.as_bytes();
    proof {
        assert(encode_utf8(name@).len() > 0);
    }
    let mut p: usize = bytes.len();
    while p > 0
        invariant
            bytes@ == encode_utf8(name@),
            bytes@.len() > 0,
            0 <= p <= bytes@.len(),
            forall|j: int| p <= j < bytes@.len() ==> bytes@[j] != COLON,
        decreases p,
    {
        if bytes[p - 1] == COLON {
            proof {
                assert(is_last_colon(bytes@, p - 1));
                let q = choose|q: int| is_last_colon(bytes@, q);
                assert(q == p - 1);
            }
            if p <= bytes.len() - 1 {
                return p;
            } else {
                return bytes.len() - 1;
            }
        }
        p -= 1;
    }
    0
}

/// Whether `name` can be judged by its initial.
pub fn has_initial_place(name: &str) -> (ok: bool)
    ensures
        ok == has_initial(name@),
{
    let chars = chars_of(name);
    if chars.len() == 0 {
        return false;
    }
    initial_place_of(name) < chars.len()
}

/// Whether the character by which `name` is judged is uppercase.
pub fn initial_is_uppercase(name: &str) -> (upper: bool)
    requires
        has_initial(name@),
    ensures
        upper == initial_upper(name@),
{
    let chars = chars_of(name);
    let place = initial_place_of(name);
    char_is_uppercase(chars[place])
}

/// Whether the first character of `name` is uppercase.
pub fn first_is_uppercase(name: &str) -> (upper: bool)
    requires
        name@.len() > 0,
    ensures
        upper == starts_upper(name@),
{
    let chars = chars_of(name);
    char_is_uppercase(chars[0])
}

} // verus!
