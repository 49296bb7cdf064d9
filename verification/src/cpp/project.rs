//! A set of sources that is analysed together.

use vstd::prelude::*;
use crate::cpp::class::Class;
use crate::text::{begins_with, contains, contains_text, ends_with, finishes_with, starts_with};

verus! {

/// The classes, structs and enumerations found in one source tree.
#[derive(Debug)]
pub struct Project {
    pub name: String,
    pub folder: String,
    pub doxygen_output: String,
    pub classes: Vec<Class>,
    pub objects: Vec<Class>,
    pub enums: Vec<String>,
}

impl Project {
    /// A project in which nothing has been found yet.
    pub fn new() -> (p: Project)
        ensures
            p.name@ == Seq::<char>::empty(),
            p.folder@ == Seq::<char>::empty(),
            p.doxygen_output@ == Seq::<char>::empty(),
            p.classes@ == Seq::<Class>::empty(),
            p.objects@ == Seq::<Class>::empty(),
            p.enums@ == Seq::<String>::empty(),
    {
        Project {
            name: String::new(),
            folder: String::new(),
            doxygen_output: String::new(),
            classes: Vec::new(),
            objects: Vec::new(),
            enums: Vec::new(),
        }
    }
}

/// What a file of the documentation describes, judged by its path and
/// its name: a class where the name begins with `class`, a struct where
/// it begins with `struct`, provided the path ends with `.xml`.
pub open spec fn described_by(path: Seq<char>, file_name: Seq<char>) -> Option<bool> {
    if !finishes_with(path, ".xml"@) {
        None
    } else if begins_with(file_name, "class"@) {
        Some(false)
    } else if begins_with(file_name, "struct"@) {
        Some(true)
    } else {
        None
    }
}

/// Tells whether a file of the documentation describes a class or a
/// struct: `Some(true)` stands for a struct.
pub fn describes(path: &str, file_name: &str) -> (is_struct: Option<bool>)
    ensures
        is_struct == described_by(path@, file_name@),
{
    if !ends_with(path, ".xml") {
        None
    } else if starts_with(file_name, "class") {
        Some(false)
    } else if starts_with(file_name, "struct") {
        Some(true)
    } else {
        None
    }
}

/// Whether a path is that of the documentation of a class: it ends with
/// `.xml` and holds `class_`.
pub fn is_class_xml(path: &str) -> (found: bool)
    ensures
        found == (finishes_with(path@, ".xml"@) && contains_text(path@, "class_"@)),
{
    ends_with(path, ".xml") && contains(path, "class_")
}

} // verus!
