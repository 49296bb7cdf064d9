//! An enumeration declared inside a class.

use vstd::prelude::*;
use crate::cpp::common::{Location, LocationView, place_of, text_view};

verus! {

/// An enumeration, as its declaration and its documentation show it.
#[derive(Debug)]
pub struct Enumerated {
    pub name: String,
    pub full_name: String,
    pub brief: Option<String>,
    pub detailed: Option<String>,
    pub values: Vec<EnumValue>,
    pub location: Option<Location>,
}

/// One value of an enumeration.
#[derive(Debug)]
pub struct EnumValue {
    pub name: String,
    pub brief: Option<String>,
}

/// A value of an enumeration as plain values.
pub struct EnumValueView {
    pub name: Seq<char>,
    pub brief: Option<Seq<char>>,
}

/// An enumeration as plain values.
pub struct EnumeratedView {
    pub name: Seq<char>,
    pub full_name: Seq<char>,
    pub brief: Option<Seq<char>>,
    pub detailed: Option<Seq<char>>,
    pub values: Seq<EnumValueView>,
    pub location: Option<LocationView>,
}

impl View for EnumValue {
    type V = EnumValueView;

    open spec fn view(&self) -> EnumValueView {
        EnumValueView { name: self.name@, brief: text_view(self.brief) }
    }
}

/// The values of a list as plain values.
pub open spec fn value_views(values: Seq<EnumValue>) -> Seq<EnumValueView> {
    values.map_values(|v: EnumValue| v@)
}

impl View for Enumerated {
    type V = EnumeratedView;

    open spec fn view(&self) -> EnumeratedView {
        EnumeratedView {
            name: self.name@,
            full_name: self.full_name@,
            brief: text_view(self.brief),
            detailed: text_view(self.detailed),
            values: value_views(self.values@),
            location: place_of(self.location),
        }
    }
}

/// The enumerations of a list as plain values.
pub open spec fn enumerated_views(enums: Seq<Enumerated>) -> Seq<EnumeratedView> {
    enums.map_values(|e: Enumerated| e@)
}

impl Enumerated {
    /// An enumeration without name, values or documentation.
    pub fn new() -> (e: Enumerated)
        ensures
            e.name@ == Seq::<char>::empty(),
            e.full_name@ == Seq::<char>::empty(),
            e.brief is None,
            e.detailed is None,
            e.values@ == Seq::<EnumValue>::empty(),
            e.location is None,
    {
        Enumerated {
            name: String::new(),
            full_name: String::new(),
            brief: Option::None,
            detailed: Option::None,
            values: Vec::new(),
            location: Option::None,
        }
    }
}

} // verus!
