//! File names as paths: the folder a file lies in and the extension it
//! ends with.

use vstd::prelude::*;
use crate::text::chars_of;

verus! {

/// The index of the last `c` in `text`, or -1 where there is none.
pub open spec fn last_index(text: Seq<char>, c: char) -> int
    decreases text.len(),
{
    if text.len() == 0 {
        -1
    } else if text.last() == c {
        text.len() - 1
    } else {
        last_index(text.drop_last(), c)
    }
}

/// `last_index` is the index of a `c` behind which no other `c` stands.
pub proof fn lemma_last_index(text: Seq<char>, c: char)
    ensures
        -1 <= last_index(text, c) < text.len(),
        last_index(text, c) >= 0 ==> text[last_index(text, c)] == c,
        forall|j: int| last_index(text, c) < j < text.len() ==> text[j] != c,
    decreases text.len(),
{
    if text.len() > 0 && text.last() != c {
        let init = text.drop_last();
        lemma_last_index(init, c);
        assert forall|j: int| last_index(text, c) < j < text.len() implies text[j] != c by {
            if j < init.len() {
                assert(init[j] == text[j]);
            }
        }
    }
}

/// The index that stands last among the places of `c` is `last_index`.
proof fn lemma_last_index_found(text: Seq<char>, c: char, at: int)
    requires
        0 <= at < text.len(),
        text[at] == c,
        forall|j: int| at < j < text.len() ==> text[j] != c,
    ensures
        last_index(text, c) == at,
    decreases text.len(),
{
    if text.last() != c {
        lemma_last_index_found(text.drop_last(), c, at);
    }
}

/// A text without `c` has no last `c`.
proof fn lemma_last_index_none(text: Seq<char>, c: char)
    requires
        forall|j: int| 0 <= j < text.len() ==> text[j] != c,
    ensures
        last_index(text, c) == -1,
    decreases text.len(),
{
    if text.len() > 0 {
        lemma_last_index_none(text.drop_last(), c);
    }
}

/// The folder part of `file`: what stands before its last backslash.
pub open spec fn folder_of(file: Seq<char>) -> Option<Seq<char>> {
    let at = last_index(file, '\\');
    if at >= 0 {
        Some(file.take(at))
    } else {
        None
    }
}

/// The extension of `file`: its last dot and what follows.
pub open spec fn extension_of(file: Seq<char>) -> Option<Seq<char>> {
    let at = last_index(file, '.');
    if at >= 0 {
        Some(file.skip(at))
    } else {
        None
    }
}

/// Finds the last `c` in `text`.
pub fn rfind(text: &Vec<char>, c: char) -> (at: Option<usize>)
    ensures
        match at {
            Some(i) => i == last_index(text@, c),
            None => last_index(text@, c) == -1,
        },
{
    let mut i: usize = text.len();
    while i > 0
        invariant
            0 <= i <= text@.len(),
            forall|j: int| i <= j < text@.len() ==> text@[j] != c,
        decreases i,
    {
        if text[i - 1] == c {
            proof {
                lemma_last_index_found(text@, c, i - 1);
            }
            return Some(i - 1);
        }
        i -= 1;
    }
    proof {
        lemma_last_index_none(text@, c);
    }
    None
}

/// The folder that `file` lies in, where its name holds a backslash.
pub fn file_filter(file: &str) -> (folder: Option<String>)
    ensures
        match folder {
            Some(f) => folder_of(file@) == Some(f@),
            None => folder_of(file@) is None,
        },
{
    let chars = chars_of(file);
    proof {
        lemma_last_index(file@, '\\');
    }
    match rfind(&chars, '\\') {
        Some(at) => Some(String::from_str(file.substring_char(0, at))),
        None => Option::None,
    }
}

/// The extension of `filename`, with its dot, where it has one.
pub fn get_extension(filename: &str) -> (ext: Option<String>)
    ensures
        match ext {
            Some(e) => extension_of(filename@) == Some(e@),
            None => extension_of(filename@) is None,
        },
{
    let chars = chars_of(filename);
    proof {
        lemma_last_index(filename@, '.');
    }
    match rfind(&chars, '.') {
        Some(at) => Some(String::from_str(filename.substring_char(at, chars.len()))),
        None => None,
    }
}

} // verus!
