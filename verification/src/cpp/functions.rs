//! Reading member functions from the events of an XML document.

use vstd::prelude::*;
use crate::cpp::common::{
    Direction,
    Location,
    Parameter,
    ParameterView,
    direction_from_str,
    direction_named,
    text_view,
};
use crate::cpp::function::{Function, FunctionView};
use crate::cpp::members::{
    access_read, location_read, or_empty, read_access, read_static, static_read, text_or_empty,
};
use crate::cpp::reading::{
    ReadView, characters_read, description_read, read_characters_only, read_description,
};
use crate::markup::{
    Attr, AttrView, Event, EventView, ReadError, ReadErrorView, attr_views, event_views,
    read_xml_attribute, value_of,
};
use crate::text::same_text;

verus! {

/// The index of the first parameter with the given name, or the number of
/// parameters where there is none.
pub open spec fn first_param(parameters: Seq<ParameterView>, name: Seq<char>) -> int
    decreases parameters.len(),
{
    if parameters.len() == 0 {
        0
    } else {
        let before = first_param(parameters.drop_last(), name);
        if before < parameters.len() - 1 {
            before
        } else if parameters.last().name == Some(name) {
            parameters.len() - 1
        } else {
            parameters.len() as int
        }
    }
}

/// `first_param` is the least index of a parameter with the name.
pub proof fn lemma_first_param(parameters: Seq<ParameterView>, name: Seq<char>)
    ensures
        0 <= first_param(parameters, name) <= parameters.len(),
        first_param(parameters, name) < parameters.len() ==> parameters[first_param(
            parameters,
            name,
        )].name == Some(name),
        forall|i: int| 0 <= i < first_param(parameters, name) ==> parameters[i].name != Some(name),
    decreases parameters.len(),
{
    if parameters.len() > 0 {
        let init = parameters.drop_last();
        lemma_first_param(init, name);
        assert forall|i: int| 0 <= i < first_param(parameters, name) implies parameters[i].name
            != Some(name) by {
            if i < init.len() {
                assert(init[i] == parameters[i]);
            }
        }
        if first_param(init, name) < init.len() {
            assert(init[first_param(init, name)] == parameters[first_param(init, name)]);
        }
    }
}

/// The parameters with the one named `name`, which is added where it is
/// missing.
pub open spec fn with_param(parameters: Seq<ParameterView>, name: Seq<char>) -> Seq<ParameterView> {
    if first_param(parameters, name) < parameters.len() {
        parameters
    } else {
        parameters.push(
            ParameterView { name: Some(name), ctype: None, description: None, direction: None },
        )
    }
}

/// The parameters after the parameter `name` was found documented.
pub open spec fn with_documentation(
    parameters: Seq<ParameterView>,
    name: Seq<char>,
    description: Option<Seq<char>>,
    direction: Option<Direction>,
) -> Seq<ParameterView> {
    let all = with_param(parameters, name);
    let at = first_param(parameters, name);
    all.update(at, ParameterView { description: description, direction: direction, ..all[at] })
}

/// The parameters after the parameter `name` was found declared with the
/// type `ctype`.
pub open spec fn with_type(parameters: Seq<ParameterView>, name: Seq<char>, ctype: Seq<char>) -> Seq<
    ParameterView,
> {
    let all = with_param(parameters, name);
    let at = first_param(parameters, name);
    all.update(at, ParameterView { ctype: Some(ctype), ..all[at] })
}

/// The direction that the attributes of a parameter name give.
pub open spec fn direction_read(attributes: Seq<AttrView>) -> Option<Direction> {
    match value_of(attributes, "direction"@) {
        Some(text) => direction_named(text),
        None => None,
    }
}

/// What is known of a documented parameter.
pub struct ItemView {
    pub name: Option<Seq<char>>,
    pub direction: Option<Direction>,
    pub description: Option<Seq<char>>,
}

/// The documented parameter read from `pos` on.
pub open spec fn item_scan(events: Seq<EventView>, pos: int, item: ItemView, depth: nat) -> ReadView<
    ItemView,
>
    decreases events.len() - pos,
{
    if pos < 0 || pos >= events.len() {
        Err(ReadErrorView::Ended)
    } else {
        match events[pos] {
            EventView::Start { name, attributes } => if name == "parametername"@ {
                match characters_read(events, pos + 1) {
                    Ok((text, next)) => if pos < next <= events.len() {
                        item_scan(
                            events,
                            next,
                            ItemView { name: text, direction: direction_read(attributes), ..item },
                            depth,
                        )
                    } else {
                        Err(ReadErrorView::Ended)
                    },
                    Err(e) => Err(e),
                }
            } else if name == "parameterdescription"@ {
                match description_read(events, pos + 1) {
                    Ok((text, next)) => if pos < next <= events.len() {
                        item_scan(events, next, ItemView { description: text, ..item }, depth)
                    } else {
                        Err(ReadErrorView::Ended)
                    },
                    Err(e) => Err(e),
                }
            } else {
                item_scan(events, pos + 1, item, depth + 1)
            },
            EventView::End { .. } => if depth == 0 {
                Ok((item, pos + 1))
            } else {
                item_scan(events, pos + 1, item, (depth - 1) as nat)
            },
            EventView::Failed(message) => Err(ReadErrorView::Syntax(message)),
            _ => item_scan(events, pos + 1, item, depth),
        }
    }
}

/// The parameters once the documented parameter whose content begins at
/// `pos` has been read: where it has a name, the parameter of that name
/// has its description and its direction.
pub open spec fn parameter_item_read(
    events: Seq<EventView>,
    pos: int,
    parameters: Seq<ParameterView>,
) -> ReadView<Seq<ParameterView>> {
    match item_scan(
        events,
        pos,
        ItemView { name: None, direction: None, description: None },
        0,
    ) {
        Ok((item, next)) => match item.name {
            Some(name) => Ok(
                (with_documentation(parameters, name, item.description, item.direction), next),
            ),
            None => Ok((parameters, next)),
        },
        Err(e) => Err(e),
    }
}

/// The description of the returned value read from `pos` on.
pub open spec fn return_scan(
    events: Seq<EventView>,
    pos: int,
    described: Option<Seq<char>>,
    depth: nat,
) -> ReadView<Option<Seq<char>>>
    decreases events.len() - pos,
{
    if pos < 0 || pos >= events.len() {
        Err(ReadErrorView::Ended)
    } else {
        match events[pos] {
            EventView::Start { name, .. } => if name == "para"@ {
                match characters_read(events, pos + 1) {
                    Ok((text, next)) => if pos < next <= events.len() {
                        return_scan(events, next, text, depth)
                    } else {
                        Err(ReadErrorView::Ended)
                    },
                    Err(e) => Err(e),
                }
            } else {
                return_scan(events, pos + 1, described, depth + 1)
            },
            EventView::End { .. } => if depth == 0 {
                Ok((described, pos + 1))
            } else {
                return_scan(events, pos + 1, described, (depth - 1) as nat)
            },
            EventView::Failed(message) => Err(ReadErrorView::Syntax(message)),
            _ => return_scan(events, pos + 1, described, depth),
        }
    }
}

/// The type and the name of a declared parameter.
pub struct DeclaredView {
    pub ctype: Option<Seq<char>>,
    pub name: Option<Seq<char>>,
}

/// The declared parameter read from `pos` on.
pub open spec fn declared_scan(
    events: Seq<EventView>,
    pos: int,
    declared: DeclaredView,
    depth: nat,
) -> ReadView<DeclaredView>
    decreases events.len() - pos,
{
    if pos < 0 || pos >= events.len() {
        Err(ReadErrorView::Ended)
    } else {
        match events[pos] {
            EventView::Start { name, .. } => if name == "type"@ || name == "declname"@ {
                match characters_read(events, pos + 1) {
                    Ok((text, next)) => if pos < next <= events.len() {
                        if name == "type"@ {
                            declared_scan(events, next, DeclaredView { ctype: text, ..declared }, depth)
                        } else {
                            declared_scan(events, next, DeclaredView { name: text, ..declared }, depth)
                        }
                    } else {
                        Err(ReadErrorView::Ended)
                    },
                    Err(e) => Err(e),
                }
            } else {
                declared_scan(events, pos + 1, declared, depth + 1)
            },
            EventView::End { .. } => if depth == 0 {
                Ok((declared, pos + 1))
            } else {
                declared_scan(events, pos + 1, declared, (depth - 1) as nat)
            },
            EventView::Failed(message) => Err(ReadErrorView::Syntax(message)),
            _ => declared_scan(events, pos + 1, declared, depth),
        }
    }
}

/// The parameters once the declared parameter whose content begins at
/// `pos` has been read: where it has a name and a type, the parameter of
/// that name has the type.
pub open spec fn param_read(events: Seq<EventView>, pos: int, parameters: Seq<ParameterView>) -> ReadView<
    Seq<ParameterView>,
> {
    match declared_scan(events, pos, DeclaredView { ctype: None, name: None }, 0) {
        Ok((declared, next)) => match (declared.name, declared.ctype) {
            (Some(name), Some(ctype)) => Ok((with_type(parameters, name, ctype), next)),
            _ => Ok((parameters, next)),
        },
        Err(e) => Err(e),
    }
}

/// Whether the attributes of a section say that it describes the
/// returned value.
pub open spec fn is_return_section(attributes: Seq<AttrView>) -> bool {
    value_of(attributes, "kind"@) == Some("return"@)
}

/// The function read from `pos` on in its detailed description.
pub open spec fn detail_scan(events: Seq<EventView>, pos: int, f: FunctionView, depth: nat) -> ReadView<
    FunctionView,
>
    decreases events.len() - pos,
{
    if pos < 0 || pos >= events.len() {
        Err(ReadErrorView::Ended)
    } else {
        match events[pos] {
            EventView::Start { name, attributes } => if name == "parameteritem"@ {
                match parameter_item_read(events, pos + 1, f.parameters) {
                    Ok((parameters, next)) => if pos < next <= events.len() {
                        detail_scan(events, next, FunctionView { parameters: parameters, ..f }, depth)
                    } else {
                        Err(ReadErrorView::Ended)
                    },
                    Err(e) => Err(e),
                }
            } else if name == "simplesect"@ && is_return_section(attributes) {
                match return_scan(events, pos + 1, f.ret_description, 0) {
                    Ok((described, next)) => if pos < next <= events.len() {
                        detail_scan(
                            events,
                            next,
                            FunctionView { ret_description: described, ..f },
                            depth,
                        )
                    } else {
                        Err(ReadErrorView::Ended)
                    },
                    Err(e) => Err(e),
                }
            } else {
                detail_scan(events, pos + 1, f, depth + 1)
            },
            EventView::End { .. } => if depth == 0 {
                Ok((f, pos + 1))
            } else {
                detail_scan(events, pos + 1, f, (depth - 1) as nat)
            },
            EventView::Failed(message) => Err(ReadErrorView::Syntax(message)),
            _ => detail_scan(events, pos + 1, f, depth),
        }
    }
}

/// The function read from `pos` on, `f` being what is known of it and
/// `depth` elements being open.
pub open spec fn function_scan(events: Seq<EventView>, pos: int, f: FunctionView, depth: nat) -> ReadView<
    FunctionView,
>
    decreases events.len() - pos,
{
    if pos < 0 || pos >= events.len() {
        Err(ReadErrorView::Ended)
    } else {
        match events[pos] {
            EventView::Start { name, attributes } => if depth != 0 {
                function_scan(events, pos + 1, f, depth + 1)
            } else if name == "type"@ || name == "name"@ {
                match characters_read(events, pos + 1) {
                    Ok((text, next)) => if pos < next <= events.len() {
                        if name == "type"@ {
                            function_scan(events, next, FunctionView { ret_type: text, ..f }, depth)
                        } else {
                            function_scan(events, next, FunctionView { name: or_empty(text), ..f }, depth)
                        }
                    } else {
                        Err(ReadErrorView::Ended)
                    },
                    Err(e) => Err(e),
                }
            } else if name == "briefdescription"@ {
                match description_read(events, pos + 1) {
                    Ok((text, next)) => if pos < next <= events.len() {
                        function_scan(events, next, FunctionView { brief: text, ..f }, depth)
                    } else {
                        Err(ReadErrorView::Ended)
                    },
                    Err(e) => Err(e),
                }
            } else if name == "detaileddescription"@ {
                match detail_scan(events, pos + 1, f, 0) {
                    Ok((detailed, next)) => if pos < next <= events.len() {
                        function_scan(events, next, detailed, depth)
                    } else {
                        Err(ReadErrorView::Ended)
                    },
                    Err(e) => Err(e),
                }
            } else if name == "param"@ {
                match param_read(events, pos + 1, f.parameters) {
                    Ok((parameters, next)) => if pos < next <= events.len() {
                        function_scan(events, next, FunctionView { parameters: parameters, ..f }, depth)
                    } else {
                        Err(ReadErrorView::Ended)
                    },
                    Err(e) => Err(e),
                }
            } else if name == "location"@ {
                function_scan(
                    events,
                    pos + 1,
                    FunctionView { location: Some(location_read(attributes)), ..f },
                    depth + 1,
                )
            } else {
                function_scan(events, pos + 1, f, depth + 1)
            },
            EventView::End { .. } => if depth == 0 {
                Ok((f, pos + 1))
            } else {
                function_scan(events, pos + 1, f, (depth - 1) as nat)
            },
            EventView::Failed(message) => Err(ReadErrorView::Syntax(message)),
            _ => function_scan(events, pos + 1, f, depth),
        }
    }
}

/// What is known of a function from the attributes of its definition.
pub open spec fn function_begun(attributes: Seq<AttrView>) -> FunctionView {
    FunctionView {
        access: access_read(attributes),
        name: Seq::empty(),
        is_static: static_read(attributes),
        ret_type: None,
        ret_description: None,
        brief: None,
        description: None,
        parameters: Seq::empty(),
        location: None,
    }
}

/// The function whose definition has the given attributes and a content
/// that begins at `pos`: its name, its returned type, its brief
/// description and its place are those of the elements so named among its
/// children; its parameters are those declared and those documented; the
/// description of what it returns is that of its detailed description.
pub open spec fn function_read(events: Seq<EventView>, pos: int, attributes: Seq<AttrView>) -> ReadView<
    FunctionView,
> {
    function_scan(events, pos, function_begun(attributes), 0)
}

/// Whether an optional text is the text `name`.
fn is_named(text: &Option<String>, name: &str) -> (same: bool)
    ensures
        same == (text_view(*text) == Some(name@)),
{
    match text {
        Some(t) => same_text(t.as_str(), name),
        None => false,
    }
}

/// Reads the direction of a parameter from the attributes of its name.
pub fn read_direction(attributes: &Vec<Attr>) -> (direction: Option<Direction>)
    ensures
        direction == direction_read(attr_views(attributes@)),
{
    match read_xml_attribute(attributes, "direction") {
        Some(text) => direction_from_str(text.as_str()),
        None => Option::None,
    }
}

impl Function {
    /// Finds the first parameter named `name`, adding one of that name
    /// where there is none, and returns its index.
    pub fn parameter_named(&mut self, name: String) -> (at: usize)
        ensures
            at == first_param(old(self)@.parameters, name@),
            at < final(self).parameters@.len(),
            final(self)@ == (FunctionView {
                parameters: with_param(old(self)@.parameters, name@),
                ..old(self)@
            }),
    {
        let ghost before = self@.parameters;
        let mut i: usize = 0;
        while i < self.parameters.len()
            invariant
                0 <= i <= self.parameters@.len(),
                *self == *old(self),
                before == self@.parameters,
                forall|j: int| 0 <= j < i ==> before[j].name != Some(name@),
            decreases self.parameters@.len() - i,
        {
            assert(before[i as int] == self.parameters@[i as int]@);
            if is_named(&self.parameters[i].name, name.as_str()) {
                proof {
                    lemma_first_param(before, name@);
                }
                return i;
            }
            i += 1;
        }
        proof {
            lemma_first_param(before, name@);
        }
        let mut p = Parameter::new();
        p.name = Some(name);
        self.parameters.push(p);
        assert(self@.parameters =~= with_param(before, name@));
        i
    }

    /// Takes note that the parameter `name` is documented with the given
    /// description and direction.
    pub fn document_parameter(
        &mut self,
        name: String,
        description: Option<String>,
        direction: Option<Direction>,
    )
        ensures
            final(self)@ == (FunctionView {
                parameters: with_documentation(
                    old(self)@.parameters,
                    name@,
                    text_view(description),
                    direction,
                ),
                ..old(self)@
            }),
    {
        let at = self.parameter_named(name);
        let ghost all = self@.parameters;
        assert(all[at as int] == self.parameters@[at as int]@);
        self.parameters[at].description = description;
        self.parameters[at].direction = direction;
        assert(self@.parameters =~= all.update(
            at as int,
            ParameterView {
                description: text_view(description),
                direction: direction,
                ..all[at as int]
            },
        ));
    }

    /// Takes note that the parameter `name` is declared with the type
    /// `ctype`.
    pub fn declare_parameter(&mut self, name: String, ctype: String)
        ensures
            final(self)@ == (FunctionView {
                parameters: with_type(old(self)@.parameters, name@, ctype@),
                ..old(self)@
            }),
    {
        let at = self.parameter_named(name);
        let ghost all = self@.parameters;
        assert(all[at as int] == self.parameters@[at as int]@);
        self.parameters[at].ctype = Some(ctype);
        assert(self@.parameters =~= all.update(
            at as int,
            ParameterView { ctype: Some(ctype@), ..all[at as int] },
        ));
    }

    /// Reads the documented parameter whose content begins at `pos`.
    pub fn read_parameter_item(&mut self, events: &Vec<Event>, pos: usize) -> (res: Result<
        usize,
        ReadError,
    >)
        ensures
            match parameter_item_read(event_views(events@), pos as int, old(self)@.parameters) {
                Ok((parameters, next)) => res matches Ok(n) && n == next
                    && final(self)@ == (FunctionView { parameters: parameters, ..old(self)@ }),
                Err(e) => res matches Err(error) && error@ == e,
            },
            res matches Ok(next) ==> pos < next <= events@.len(),
    {
        let ghost all = event_views(events@);
        if pos >= events.len() {
            return Err(ReadError::Ended);
        }
        let mut param_name: Option<String> = Option::None;
        let mut direction: Option<Direction> = Option::None;
        let mut description: Option<String> = Option::None;
        let mut depth: usize = 0;
        let mut at: usize = pos;
        let ghost begun = ItemView { name: None, direction: None, description: None };
        while at < events.len()
            invariant
                pos <= at <= events@.len(),
                all == event_views(events@),
                *self == *old(self),
                depth <= at - pos,
                begun == (ItemView { name: None, direction: None, description: None }),
                item_scan(all, pos as int, begun, 0) == item_scan(
                    all,
                    at as int,
                    ItemView {
                        name: text_view(param_name),
                        direction: direction,
                        description: text_view(description),
                    },
                    depth as nat,
                ),
            decreases events@.len() - at,
        {
            assert(all[at as int] == events@[at as int]@);
            match &events[at] {
                Event::Start { name, attributes } => {
                    let name = name.as_str();
                    if same_text(name, "parametername") {
                        match read_characters_only(events, at + 1) {
                            Ok((text, next)) => {
                                direction = read_direction(attributes);
                                param_name = text;
                                at = next;
                            },
                            Err(error) => {
                                return Err(error);
                            },
                        }
                    } else if same_text(name, "parameterdescription") {
                        match read_description(events, at + 1) {
                            Ok((text, next)) => {
                                description = text;
                                at = next;
                            },
                            Err(error) => {
                                return Err(error);
                            },
                        }
                    } else {
                        depth += 1;
                        at += 1;
                    }
                },
                Event::End { .. } => {
                    if depth == 0 {
                        match param_name {
                            Some(name) => {
                                self.document_parameter(name, description, direction);
                            },
                            None => {},
                        }
                        return Ok(at + 1);
                    }
                    depth -= 1;
                    at += 1;
                },
                Event::Failed(message) => {
                    return Err(ReadError::Syntax(message.clone()));
                },
                _ => {
                    at += 1;
                },
            }
        }
        Err(ReadError::Ended)
    }

    /// Reads the description of the returned value from the section whose
    /// content begins at `pos`.
    pub fn read_return(&mut self, events: &Vec<Event>, pos: usize) -> (res: Result<
        usize,
        ReadError,
    >)
        ensures
            match return_scan(event_views(events@), pos as int, old(self)@.ret_description, 0) {
                Ok((described, next)) => res matches Ok(n) && n == next
                    && final(self)@ == (FunctionView { ret_description: described, ..old(self)@ }),
                Err(e) => res matches Err(error) && error@ == e,
            },
            res matches Ok(next) ==> pos < next <= events@.len(),
    {
        let ghost all = event_views(events@);
        let ghost begun = self@;
        if pos >= events.len() {
            return Err(ReadError::Ended);
        }
        let mut depth: usize = 0;
        let mut at: usize = pos;
        while at < events.len()
            invariant
                pos <= at <= events@.len(),
                all == event_views(events@),
                begun == old(self)@,
                depth <= at - pos,
                self@ == (FunctionView { ret_description: self@.ret_description, ..begun }),
                return_scan(all, pos as int, begun.ret_description, 0) == return_scan(
                    all,
                    at as int,
                    self@.ret_description,
                    depth as nat,
                ),
            decreases events@.len() - at,
        {
            assert(all[at as int] == events@[at as int]@);
            match &events[at] {
                Event::Start { name, .. } => {
                    if same_text(name.as_str(), "para") {
                        match read_characters_only(events, at + 1) {
                            Ok((text, next)) => {
                                self.ret_description = text;
                                at = next;
                            },
                            Err(error) => {
                                return Err(error);
                            },
                        }
                    } else {
                        depth += 1;
                        at += 1;
                    }
                },
                Event::End { .. } => {
                    if depth == 0 {
                        return Ok(at + 1);
                    }
                    depth -= 1;
                    at += 1;
                },
                Event::Failed(message) => {
                    return Err(ReadError::Syntax(message.clone()));
                },
                _ => {
                    at += 1;
                },
            }
        }
        Err(ReadError::Ended)
    }

    /// Reads the declared parameter whose content begins at `pos`.
    pub fn read_param(&mut self, events: &Vec<Event>, pos: usize) -> (res: Result<usize, ReadError>)
        ensures
            match param_read(event_views(events@), pos as int, old(self)@.parameters) {
                Ok((parameters, next)) => res matches Ok(n) && n == next
                    && final(self)@ == (FunctionView { parameters: parameters, ..old(self)@ }),
                Err(e) => res matches Err(error) && error@ == e,
            },
            res matches Ok(next) ==> pos < next <= events@.len(),
    {
        let ghost all = event_views(events@);
        if pos >= events.len() {
            return Err(ReadError::Ended);
        }
        let mut ctype: Option<String> = Option::None;
        let mut declname: Option<String> = Option::None;
        let mut depth: usize = 0;
        let mut at: usize = pos;
        let ghost begun = DeclaredView { ctype: None, name: None };
        while at < events.len()
            invariant
                pos <= at <= events@.len(),
                all == event_views(events@),
                *self == *old(self),
                depth <= at - pos,
                begun == (DeclaredView { ctype: None, name: None }),
                declared_scan(all, pos as int, begun, 0) == declared_scan(
                    all,
                    at as int,
                    DeclaredView { ctype: text_view(ctype), name: text_view(declname) },
                    depth as nat,
                ),
            decreases events@.len() - at,
        {
            assert(all[at as int] == events@[at as int]@);
            match &events[at] {
                Event::Start { name, .. } => {
                    let name = name.as_str();
                    if same_text(name, "type") {
                        match read_characters_only(events, at + 1) {
                            Ok((text, next)) => {
                                ctype = text;
                                at = next;
                            },
                            Err(error) => {
                                return Err(error);
                            },
                        }
                    } else if same_text(name, "declname") {
                        match read_characters_only(events, at + 1) {
                            Ok((text, next)) => {
                                declname = text;
                                at = next;
                            },
                            Err(error) => {
                                return Err(error);
                            },
                        }
                    } else {
                        depth += 1;
                        at += 1;
                    }
                },
                Event::End { .. } => {
                    if depth == 0 {
                        match declname {
                            Some(name) => match ctype {
                                Some(t) => {
                                    self.declare_parameter(name, t);
                                },
                                None => {},
                            },
                            None => {},
                        }
                        return Ok(at + 1);
                    }
                    depth -= 1;
                    at += 1;
                },
                Event::Failed(message) => {
                    return Err(ReadError::Syntax(message.clone()));
                },
                _ => {
                    at += 1;
                },
            }
        }
        Err(ReadError::Ended)
    }
}

/// Whether a section with the given attributes describes the returned
/// value.
pub fn describes_return(attributes: &Vec<Attr>) -> (is_return: bool)
    ensures
        is_return == is_return_section(attr_views(attributes@)),
{
    match read_xml_attribute(attributes, "kind") {
        Some(kind) => same_text(kind.as_str(), "return"),
        None => false,
    }
}

impl Function {
    /// Reads the detailed description whose content begins at `pos`: the
    /// documented parameters and the description of the returned value.
    pub fn read__detailed_description(&mut self, events: &Vec<Event>, pos: usize) -> (res: Result<
        usize,
        ReadError,
    >)
        ensures
            match detail_scan(event_views(events@), pos as int, old(self)@, 0) {
                Ok((f, next)) => res matches Ok(n) && n == next && final(self)@ == f,
                Err(e) => res matches Err(error) && error@ == e,
            },
            res matches Ok(next) ==> pos < next <= events@.len(),
    {
        let ghost all = event_views(events@);
        if pos >= events.len() {
            return Err(ReadError::Ended);
        }
        let mut depth: usize = 0;
        let mut at: usize = pos;
        while at < events.len()
            invariant
                pos <= at <= events@.len(),
                all == event_views(events@),
                depth <= at - pos,
                detail_scan(all, pos as int, old(self)@, 0) == detail_scan(
                    all,
                    at as int,
                    self@,
                    depth as nat,
                ),
            decreases events@.len() - at,
        {
            assert(all[at as int] == events@[at as int]@);
            match &events[at] {
                Event::Start { name, attributes } => {
                    let name = name.as_str();
                    if same_text(name, "parameteritem") {
                        match self.read_parameter_item(events, at + 1) {
                            Ok(next) => {
                                at = next;
                            },
                            Err(error) => {
                                return Err(error);
                            },
                        }
                    } else if same_text(name, "simplesect") && describes_return(attributes) {
                        match self.read_return(events, at + 1) {
                            Ok(next) => {
                                at = next;
                            },
                            Err(error) => {
                                return Err(error);
                            },
                        }
                    } else {
                        depth += 1;
                        at += 1;
                    }
                },
                Event::End { .. } => {
                    if depth == 0 {
                        return Ok(at + 1);
                    }
                    depth -= 1;
                    at += 1;
                },
                Event::Failed(message) => {
                    return Err(ReadError::Syntax(message.clone()));
                },
                _ => {
                    at += 1;
                },
            }
        }
        Err(ReadError::Ended)
    }

    /// Reads the function whose definition has the attributes
    /// `xml_attributes` and a content that begins at `pos`.
    pub fn read(events: &Vec<Event>, pos: usize, xml_attributes: &Vec<Attr>) -> (res: Result<
        (Function, usize),
        ReadError,
    >)
        ensures
            match function_read(event_views(events@), pos as int, attr_views(xml_attributes@)) {
                Ok((f, next)) => res matches Ok((read, n)) && read@ == f && n == next,
                Err(e) => res matches Err(error) && error@ == e,
            },
            res matches Ok((_, next)) ==> pos < next <= events@.len(),
    {
        let ghost all = event_views(events@);
        let ghost given = attr_views(xml_attributes@);
        if pos >= events.len() {
            return Err(ReadError::Ended);
        }
        let mut func = Function::new();
        func.is_static = read_static(xml_attributes);
        func.access = read_access(xml_attributes);
        assert(func@.parameters =~= function_begun(given).parameters);
        let mut depth: usize = 0;
        let mut at: usize = pos;
        while at < events.len()
            invariant
                pos <= at <= events@.len(),
                all == event_views(events@),
                given == attr_views(xml_attributes@),
                depth <= at - pos,
                function_read(all, pos as int, given) == function_scan(
                    all,
                    at as int,
                    func@,
                    depth as nat,
                ),
            decreases events@.len() - at,
        {
            assert(all[at as int] == events@[at as int]@);
            match &events[at] {
                Event::Start { name, attributes } => {
                    let name = name.as_str();
                    if depth != 0 {
                        depth += 1;
                        at += 1;
                    } else if same_text(name, "type") {
                        match read_characters_only(events, at + 1) {
                            Ok((text, next)) => {
                                func.ret_type = text;
                                at = next;
                            },
                            Err(error) => {
                                return Err(error);
                            },
                        }
                    } else if same_text(name, "name") {
                        match read_characters_only(events, at + 1) {
                            Ok((text, next)) => {
                                func.name = text_or_empty(text);
                                at = next;
                            },
                            Err(error) => {
                                return Err(error);
                            },
                        }
                    } else if same_text(name, "briefdescription") {
                        match read_description(events, at + 1) {
                            Ok((text, next)) => {
                                func.brief = text;
                                at = next;
                            },
                            Err(error) => {
                                return Err(error);
                            },
                        }
                    } else if same_text(name, "detaileddescription") {
                        match func.read__detailed_description(events, at + 1) {
                            Ok(next) => {
                                at = next;
                            },
                            Err(error) => {
                                return Err(error);
                            },
                        }
                    } else if same_text(name, "param") {
                        match func.read_param(events, at + 1) {
                            Ok(next) => {
                                at = next;
                            },
                            Err(error) => {
                                return Err(error);
                            },
                        }
                    } else if same_text(name, "location") {
                        func.location = Some(Location::read(attributes));
                        depth += 1;
                        at += 1;
                    } else {
                        depth += 1;
                        at += 1;
                    }
                },
                Event::End { .. } => {
                    if depth == 0 {
                        return Ok((func, at + 1));
                    }
                    depth -= 1;
                    at += 1;
                },
                Event::Failed(message) => {
                    return Err(ReadError::Syntax(message.clone()));
                },
                _ => {
                    at += 1;
                },
            }
        }
        Err(ReadError::Ended)
    }
}

} // verus!
