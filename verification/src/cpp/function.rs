//! A member function of a class.

use vstd::prelude::*;
use crate::cpp::common::{
    Access, Location, LocationView, Parameter, ParameterView, parameter_views, place_of, text_view,
};

verus! {

/// A member function, as its declaration and its documentation show it.
#[derive(Debug)]
pub struct Function {
    pub access: Access,
    pub name: String,
    pub is_static: bool,
    pub ret_type: Option<String>,
    pub ret_description: Option<String>,
    pub brief: Option<String>,
    pub description: Option<String>,
    pub parameters: Vec<Parameter>,
    pub location: Option<Location>,
}

/// A member function as plain values.
pub struct FunctionView {
    pub access: Access,
    pub name: Seq<char>,
    pub is_static: bool,
    pub ret_type: Option<Seq<char>>,
    pub ret_description: Option<Seq<char>>,
    pub brief: Option<Seq<char>>,
    pub description: Option<Seq<char>>,
    pub parameters: Seq<ParameterView>,
    pub location: Option<LocationView>,
}

impl View for Function {
    type V = FunctionView;

    open spec fn view(&self) -> FunctionView {
        FunctionView {
            access: self.access,
            name: self.name@,
            is_static: self.is_static,
            ret_type: text_view(self.ret_type),
            ret_description: text_view(self.ret_description),
            brief: text_view(self.brief),
            description: text_view(self.description),
            parameters: parameter_views(self.parameters@),
            location: place_of(self.location),
        }
    }
}

/// The functions of a list as plain values.
pub open spec fn function_views(functions: Seq<Function>) -> Seq<FunctionView> {
    functions.map_values(|f: Function| f@)
}

impl Function {
    /// A non-static function of unknown access, without name, parameters
    /// or documentation.
    pub fn new() -> (f: Function)
        ensures
            f.access == Access::Unknown,
            f.name@ == Seq::<char>::empty(),
            !f.is_static,
            f.ret_type is None,
            f.ret_description is None,
            f.brief is None,
            f.description is None,
            f.parameters@ == Seq::<Parameter>::empty(),
            f.location is None,
    {
        Function {
            access: Access::Unknown,
            name: String::new(),
            is_static: false,
            ret_type: Option::None,
            ret_description: Option::None,
            brief: Option::None,
            description: Option::None,
            parameters: Vec::new(),
            location: Option::None,
        }
    }
}

} // verus!
