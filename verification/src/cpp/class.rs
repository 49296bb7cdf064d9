//! A class or struct with its members.

use vstd::prelude::*;
use crate::cpp::attribute::{Attribute, AttributeView, attribute_views};
use crate::cpp::common::{Location, LocationView, place_of, text_view};
use crate::cpp::enumerated::{Enumerated, EnumeratedView, enumerated_views};
use crate::cpp::function::{Function, FunctionView, function_views};

verus! {

/// A class or struct, as its declaration and its documentation show it.
#[derive(Debug)]
pub struct Class {
    pub name: String,
    pub brief: Option<String>,
    pub detailed: Option<String>,
    pub attributes: Vec<Attribute>,
    pub functions: Vec<Function>,
    pub enums: Vec<Enumerated>,
    pub location: Option<Location>,
    pub is_struct: bool,
}

/// A class as plain values.
pub struct ClassView {
    pub name: Seq<char>,
    pub brief: Option<Seq<char>>,
    pub detailed: Option<Seq<char>>,
    pub attributes: Seq<AttributeView>,
    pub functions: Seq<FunctionView>,
    pub enums: Seq<EnumeratedView>,
    pub location: Option<LocationView>,
    pub is_struct: bool,
}

impl View for Class {
    type V = ClassView;

    open spec fn view(&self) -> ClassView {
        ClassView {
            name: self.name@,
            brief: text_view(self.brief),
            detailed: text_view(self.detailed),
            attributes: attribute_views(self.attributes@),
            functions: function_views(self.functions@),
            enums: enumerated_views(self.enums@),
            location: place_of(self.location),
            is_struct: self.is_struct,
        }
    }
}

/// The keyword for a struct or for a class.
pub open spec fn keyword(is_struct: bool) -> Seq<char> {
    if is_struct {
        "struct"@
    } else {
        "class"@
    }
}

impl Class {
    /// A class without name, members or documentation.
    pub fn new() -> (c: Class)
        ensures
            c.name@ == Seq::<char>::empty(),
            c.brief is None,
            c.detailed is None,
            c.attributes@ == Seq::<Attribute>::empty(),
            c.functions@ == Seq::<Function>::empty(),
            c.enums@ == Seq::<Enumerated>::empty(),
            c.location is None,
            !c.is_struct,
    {
        Class {
            name: String::new(),
            brief: Option::None,
            detailed: Option::None,
            attributes: Vec::new(),
            functions: Vec::new(),
            enums: Vec::new(),
            location: Option::None,
            is_struct: false,
        }
    }

    /// The keyword this was declared with: `struct` or `class`.
    pub fn object_type(&self) -> (word: &'static str)
        ensures
            word@ == keyword(self.is_struct),
    {
        match self.is_struct {
            true => "struct",
            false => "class",
        }
    }
}

} // verus!
