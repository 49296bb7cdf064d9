//! How a finding is written down: as a line that the error list of Visual
//! Studio understands, or as a record of a semicolon-separated file.

use vstd::prelude::*;
use crate::cpp::common::Location;
use crate::text::{decimal, decimal_text, glue, glued, texts};

verus! {

/// Writes findings as warnings in the form `file(line):warning:text`.
#[derive(Debug)]
pub struct VisualStudioErrorWriter {}

/// The name under which the writer of warnings was known at first.
pub type VisualErrorWriter = VisualStudioErrorWriter;

/// The warning line for `error` found at `location`. It ends with a line
/// break.
pub open spec fn warning_line(error: Seq<char>, location: Option<Location>) -> Seq<char> {
    match location {
        Some(l) => glue(
            seq![l.file@, "("@, decimal_text(l.line as int), "):"@, "warning"@, ":"@, error, "\n"@],
        ),
        None => glue(seq![":"@, "warning"@, ":"@, error, "\n"@]),
    }
}

/// The record for `error` found at `location`: the text, the file and the
/// line, each closed by a semicolon, and a line break.
pub open spec fn csv_line(error: Seq<char>, location: Option<Location>) -> Seq<char> {
    match location {
        Some(l) => glue(seq![error, ";"@, l.file@, ";"@, decimal_text(l.line as int), ";\n"@]),
        None => glue(seq![error, ";"@, ";;\n"@]),
    }
}

impl VisualStudioErrorWriter {
    /// The name of this format.
    pub fn name(&self) -> (name: &'static str)
        ensures
            name@ == "Visual-Studio"@,
    {
        "Visual-Studio"
    }

    /// The line that reports `error` at `location`.
    pub fn line(&self, error: &str, location: &Option<Location>) -> (line: String)
        ensures
            line@ == warning_line(error@, *location),
    {
        match location {
            Some(l) => {
                let number = decimal(l.line);
                let parts = vec![
                    l.file.as_str(),
                    "(",
                    number.as_str(),
                    "):",
                    "warning",
                    ":",
                    error,
                    "\n",
                ];
                assert(texts(parts@) =~= seq![
                    l.file@,
                    "("@,
                    decimal_text(l.line as int),
                    "):"@,
                    "warning"@,
                    ":"@,
                    error@,
                    "\n"@,
                ]);
                glued(&parts)
            },
            None => {
                let parts = vec![":", "warning", ":", error, "\n"];
                assert(texts(parts@) =~= seq![":"@, "warning"@, ":"@, error@, "\n"@]);
                glued(&parts)
            },
        }
    }
}

/// The record of a semicolon-separated file that reports `error` at
/// `location`.
pub fn csv_record(error: &str, location: &Option<Location>) -> (line: String)
    ensures
        line@ == csv_line(error@, *location),
{
    match location {
        Some(l) => {
            let number = decimal(l.line);
            let parts = vec![error, ";", l.file.as_str(), ";", number.as_str(), ";\n"];
            assert(texts(parts@) =~= seq![
                error@,
                ";"@,
                l.file@,
                ";"@,
                decimal_text(l.line as int),
                ";\n"@,
            ]);
            glued(&parts)
        },
        None => {
            let parts = vec![error, ";", ";;\n"];
            assert(texts(parts@) =~= seq![error@, ";"@, ";;\n"@]);
            glued(&parts)
        },
    }
}

} // verus!
