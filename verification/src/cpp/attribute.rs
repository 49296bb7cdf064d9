//! A data member of a class.

use vstd::prelude::*;
use crate::cpp::common::{Access, Location, LocationView, place_of, text_view};

verus! {

/// A data member, as its declaration and its documentation show it.
#[derive(Debug)]
pub struct Attribute {
    pub access: Access,
    pub is_static: bool,
    pub ctype: String,
    pub name: String,
    pub brief: Option<String>,
    pub detailed: Option<String>,
    pub location: Option<Location>,
}

/// A data member as plain values.
pub struct AttributeView {
    pub access: Access,
    pub is_static: bool,
    pub ctype: Seq<char>,
    pub name: Seq<char>,
    pub brief: Option<Seq<char>>,
    pub detailed: Option<Seq<char>>,
    pub location: Option<LocationView>,
}

impl View for Attribute {
    type V = AttributeView;

    open spec fn view(&self) -> AttributeView {
        AttributeView {
            access: self.access,
            is_static: self.is_static,
            ctype: self.ctype@,
            name: self.name@,
            brief: text_view(self.brief),
            detailed: text_view(self.detailed),
            location: place_of(self.location),
        }
    }
}

/// The data members of a list as plain values.
pub open spec fn attribute_views(attributes: Seq<Attribute>) -> Seq<AttributeView> {
    attributes.map_values(|a: Attribute| a@)
}

impl Attribute {
    /// A private, non-static member without name, type or documentation.
    pub fn new() -> (a: Attribute)
        ensures
            a.access == Access::Private,
            !a.is_static,
            a.ctype@ == Seq::<char>::empty(),
            a.name@ == Seq::<char>::empty(),
            a.brief is None,
            a.detailed is None,
            a.location is None,
    {
        Attribute {
            access: Access::Private,
            is_static: false,
            ctype: String::new(),
            name: String::new(),
            brief: Option::None,
            detailed: Option::None,
            location: Option::None,
        }
    }
}

} // verus!
