//! Deciding which source files are formatted and what becomes of the
//! formatter's output.

use vstd::prelude::*;
use ring::digest::{digest, SHA256};
use crate::text::{
    decimal, decimal_text, ends_with, finishes_with, glue, glued, split, split_text,
    string_views, texts,
};

verus! {

/// What the tool was asked to do.
#[derive(Debug)]
pub struct Config {
    pub verbose: bool,
    pub dry_run: bool,
    pub extensions: Vec<String>,
}

/// The endings of the files that are formatted unless others are asked
/// for, separated by commas.
pub const CPP_EXT: &'static str = ".cpp,.hpp,.tpp,.h,.c,ipp";

/// The file name ends with one of the first `upto` endings.
pub open spec fn ends_with_one(filename: Seq<char>, endings: Seq<String>, upto: int) -> bool {
    exists|i: int| 0 <= i < upto && finishes_with(filename, (#[trigger] endings[i])@)
}

/// Whether the file is one of those that are formatted: its name ends
/// with one of the endings.
pub fn has_extension(filename: &str, extensions: &Vec<String>) -> (found: bool)
    ensures
        found == ends_with_one(filename@, extensions@, extensions@.len() as int),
{
    let mut i: usize = 0;
    while i < extensions.len()
        invariant
            0 <= i <= extensions@.len(),
            !ends_with_one(filename@, extensions@, i as int),
        decreases extensions@.len() - i,
    {
        if ends_with(filename, extensions[i].as_str()) {
            return true;
        }
        i += 1;
    }
    false
}

/// The endings that a comma-separated list names, or those of `CPP_EXT`
/// where no list is given.
pub fn extensions_of(list: Option<&str>) -> (extensions: Vec<String>)
    ensures
        string_views(extensions@) == split_text(
            match list {
                Some(text) => text@,
                None => CPP_EXT@,
            },
            ',',
        ),
{
    match list {
        Some(text) => split(text, ','),
        None => split(CPP_EXT, ','),
    }
}

/// The states of a file that make it a candidate for formatting: new,
/// modified or renamed, in the index or in the working tree. The bits are
/// those of the status flags of libgit2.
pub const TOUCHED: u32 = 1 | 2 | 8 | 128 | 256 | 2048;

/// Whether a file with the given status flags has been touched.
pub fn is_touched(status: u32) -> (touched: bool)
    ensures
        touched == (status & TOUCHED != 0),
{
    status & TOUCHED != 0
}

/// The SHA-256 digest of `bytes`.
pub uninterp spec fn sha256_of(bytes: Seq<u8>) -> Seq<u8>;

/// The number of bytes from which on no digest is computed.
pub const TOO_LONG: u64 = 0x2000_0000_0000_0000;

/// The SHA-256 digest of `bytes` as `ring::digest::digest` computes it: 32
/// bytes that depend on `bytes` alone. It panics on 2^61 bytes or more.
#[verifier::external_body]
fn sha256(bytes: &[u8]) -> (hash: Vec<u8>)
    requires
        bytes@.len() < TOO_LONG,
    ensures
        hash@ == sha256_of(bytes@),
        hash@.len() == 32,
{
    digest(&SHA256, bytes).as_ref().to_vec()
}

/// Whether two digests are the same.
pub fn same_digest(a: &Vec<u8>, b: &Vec<u8>) -> (same: bool)
    ensures
        same == (a@ == b@),
{
    if a.len() != b.len() {
        return false;
    }
    let mut i: usize = 0;
    while i < a.len()
        invariant
            0 <= i <= a@.len(),
            a@.len() == b@.len(),
            forall|j: int| 0 <= j < i ==> a@[j] == b@[j],
        decreases a@.len() - i,
    {
        if a[i] != b[i] {
            return false;
        }
        i += 1;
    }
    assert(a@ =~= b@);
    true
}

/// Whether the formatter left a file as it was, judged by the digests of
/// the file and of the formatter's output.
pub fn is_unchanged(old: &[u8], formatted: &[u8]) -> (same: bool)
    requires
        old@.len() < TOO_LONG,
        formatted@.len() < TOO_LONG,
    ensures
        same == (sha256_of(old@) == sha256_of(formatted@)),
{
    let old_hash = sha256(old);
    let new_hash = sha256(formatted);
    same_digest(&old_hash, &new_hash)
}

/// Whether the formatter left a file as it was, where both the file and
/// the output are short enough to be compared.
pub fn try_is_unchanged(old: &[u8], formatted: &[u8]) -> (same: Option<bool>)
    ensures
        same is Some <==> old@.len() < TOO_LONG && formatted@.len() < TOO_LONG,
        same matches Some(s) ==> s == (sha256_of(old@) == sha256_of(formatted@)),
{
    if (old.len() as u64) < TOO_LONG && (formatted.len() as u64) < TOO_LONG {
        Some(is_unchanged(old, formatted))
    } else {
        None
    }
}

/// What becomes of a file.
#[derive(Debug, Clone, Copy, PartialEq, Eq, Structural)]
pub enum Outcome {
    /// The file is formatted already.
    Unchanged,
    /// The file would be rewritten if this were no dry run.
    WouldFormat,
    /// The file is rewritten with the formatter's output.
    Formatted,
}

/// Why a file could not be formatted.
#[derive(Debug, Clone, Copy, PartialEq, Eq, Structural)]
pub enum FormatError {
    /// The formatter ended with the given exit code.
    Failed(i32),
    /// The formatter was ended by a signal.
    Killed,
}

/// What becomes of a file whose formatting ended with the given exit
/// code, `unchanged` telling whether the output is the file as it was.
pub open spec fn outcome_of(code: Option<i32>, unchanged: bool, dry_run: bool) -> Result<
    Outcome,
    FormatError,
> {
    match code {
        Some(c) => if c == 0 {
            if unchanged {
                Ok(Outcome::Unchanged)
            } else if dry_run {
                Ok(Outcome::WouldFormat)
            } else {
                Ok(Outcome::Formatted)
            }
        } else {
            Err(FormatError::Failed(c))
        },
        None => Err(FormatError::Killed),
    }
}

/// Decides what becomes of a file.
pub fn outcome(code: Option<i32>, unchanged: bool, dry_run: bool) -> (res: Result<
    Outcome,
    FormatError,
>)
    ensures
        res == outcome_of(code, unchanged, dry_run),
{
    match code {
        Some(c) => {
            if c == 0 {
                if unchanged {
                    Ok(Outcome::Unchanged)
                } else if dry_run {
                    Ok(Outcome::WouldFormat)
                } else {
                    Ok(Outcome::Formatted)
                }
            } else {
                Err(FormatError::Failed(c))
            }
        },
        None => Err(FormatError::Killed),
    }
}

/// What is said of a failure.
pub open spec fn failure_text(error: FormatError) -> Seq<char> {
    match error {
        FormatError::Failed(code) => glue(
            seq!["Clang-format process returns error "@, decimal_text(code as int)],
        ),
        FormatError::Killed => "Clang-format process terminated by signal"@,
    }
}

impl FormatError {
    /// What is said of this failure.
    pub fn message(&self) -> (text: String)
        ensures
            text@ == failure_text(*self),
    {
        match self {
            FormatError::Failed(code) => {
                let number = decimal(*code);
                let parts = vec!["Clang-format process returns error ", number.as_str()];
                assert(texts(parts@) =~= seq![
                    "Clang-format process returns error "@,
                    decimal_text(*code as int),
                ]);
                glued(&parts)
            },
            FormatError::Killed => "Clang-format process terminated by signal".to_owned(),
        }
    }
}

} // verus!
