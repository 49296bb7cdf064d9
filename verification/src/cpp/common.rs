//! Values shared by the descriptions of classes, members and parameters.

use vstd::prelude::*;
use crate::text::{contains, contains_text, same_text};

verus! {

/// Who may reach a member.
#[derive(Debug, Clone, Copy, PartialEq, Eq, Structural)]
pub enum Access {
    Unknown,
    Public,
    Protected,
    Private,
}

/// Which way a parameter carries data.
#[derive(Debug, Clone, Copy, PartialEq, Eq, Structural)]
pub enum Direction {
    In,
    Out,
    InOut,
}

/// Where something is declared.
#[derive(Debug)]
pub struct Location {
    pub file: String,
    pub line: i32,
}

/// A location as plain values.
pub struct LocationView {
    pub file: Seq<char>,
    pub line: i32,
}

impl View for Location {
    type V = LocationView;

    open spec fn view(&self) -> LocationView {
        LocationView { file: self.file@, line: self.line }
    }
}

/// The location behind an optional location, as plain values.
pub open spec fn place_of(location: Option<Location>) -> Option<LocationView> {
    match location {
        Some(l) => Some(l@),
        None => None,
    }
}

/// One parameter of a function, as its declaration and its documentation
/// show it.
#[derive(Debug)]
pub struct Parameter {
    pub name: Option<String>,
    pub ctype: Option<String>,
    pub description: Option<String>,
    pub direction: Option<Direction>,
}

/// A parameter as plain values.
pub struct ParameterView {
    pub name: Option<Seq<char>>,
    pub ctype: Option<Seq<char>>,
    pub description: Option<Seq<char>>,
    pub direction: Option<Direction>,
}

/// The text behind an optional text.
pub open spec fn text_view(text: Option<String>) -> Option<Seq<char>> {
    match text {
        Some(t) => Some(t@),
        None => None,
    }
}

impl View for Parameter {
    type V = ParameterView;

    open spec fn view(&self) -> ParameterView {
        ParameterView {
            name: text_view(self.name),
            ctype: text_view(self.ctype),
            description: text_view(self.description),
            direction: self.direction,
        }
    }
}

/// The parameters of a list as plain values.
pub open spec fn parameter_views(parameters: Seq<Parameter>) -> Seq<ParameterView> {
    parameters.map_values(|p: Parameter| p@)
}

impl Parameter {
    /// A parameter of which nothing is known yet.
    pub fn new() -> (p: Parameter)
        ensures
            p.name is None,
            p.ctype is None,
            p.description is None,
            p.direction is None,
    {
        Parameter {
            name: Option::None,
            ctype: Option::None,
            description: Option::None,
            direction: Option::None,
        }
    }
}

/// The direction that `text` names: `in`, `out` or `inout`, and nothing
/// else.
pub open spec fn direction_named(text: Seq<char>) -> Option<Direction> {
    if text == "in"@ {
        Some(Direction::In)
    } else if text == "out"@ {
        Some(Direction::Out)
    } else if text == "inout"@ {
        Some(Direction::InOut)
    } else {
        None
    }
}

/// Reads a direction keyword.
pub fn direction_from_str(text: &str) -> (direction: Option<Direction>)
    ensures
        direction == direction_named(text@),
{
    if same_text(text, "in") {
        Some(Direction::In)
    } else if same_text(text, "out") {
        Some(Direction::Out)
    } else if same_text(text, "inout") {
        Some(Direction::InOut)
    } else {
        Option::None
    }
}

/// The access level that `text` mentions: the first of `public`,
/// `private` and `protected`, asked in this order, that stands anywhere
/// in it.
pub open spec fn access_mentioned(text: Seq<char>) -> Option<Access> {
    if contains_text(text, "public"@) {
        Some(Access::Public)
    } else if contains_text(text, "private"@) {
        Some(Access::Private)
    } else if contains_text(text, "protected"@) {
        Some(Access::Protected)
    } else {
        None
    }
}

/// Reads an access level out of a protection attribute.
pub fn access_from_str(text: &str) -> (access: Option<Access>)
    ensures
        access == access_mentioned(text@),
{
    if contains(text, "public") {
        Some(Access::Public)
    } else if contains(text, "private") {
        Some(Access::Private)
    } else if contains(text, "protected") {
        Some(Access::Protected)
    } else {
        Option::None
    }
}

} // verus!
