//! Reading a class from the events of an XML document.

use vstd::prelude::*;
use crate::cpp::attribute::{Attribute, AttributeView};
use crate::cpp::class::{Class, ClassView};
use crate::cpp::common::Location;
use crate::cpp::enumerated::{Enumerated, EnumeratedView};
use crate::cpp::function::{Function, FunctionView};
use crate::cpp::functions::function_read;
use crate::cpp::members::{attribute_read, enum_read, location_read, or_empty, text_or_empty};
use crate::cpp::reading::{
    ReadView, characters_read, description_read, read_characters_only, read_description,
};
use crate::markup::{
    Attr, AttrView, Event, EventView, ReadError, ReadErrorView, attr_views, event_views,
    events_of, read_xml_attribute, value_of, xml_events,
};
use crate::text::{contains, contains_text, ends_with, finishes_with, same_text};

verus! {

/// The kind that the attributes of a definition or section give.
pub open spec fn kind_read(attributes: Seq<AttrView>) -> Result<Seq<char>, ReadErrorView> {
    match value_of(attributes, "kind"@) {
        Some(kind) => Ok(kind),
        None => Err(ReadErrorView::NoKind),
    }
}

/// The data members read from `pos` on, `list` having been read before.
pub open spec fn attributes_scan(events: Seq<EventView>, pos: int, list: Seq<AttributeView>) -> ReadView<
    Seq<AttributeView>,
>
    decreases events.len() - pos,
{
    if pos < 0 || pos >= events.len() {
        Err(ReadErrorView::Ended)
    } else {
        match events[pos] {
            EventView::Start { name, attributes } => if name == "memberdef"@ {
                match attribute_read(events, pos + 1, attributes) {
                    Ok((a, next)) => if pos < next <= events.len() {
                        attributes_scan(events, next, list.push(a))
                    } else {
                        Err(ReadErrorView::Ended)
                    },
                    Err(e) => Err(e),
                }
            } else {
                attributes_scan(events, pos + 1, list)
            },
            EventView::End { name } => if name == "sectiondef"@ {
                Ok((list, pos + 1))
            } else {
                attributes_scan(events, pos + 1, list)
            },
            EventView::Failed(message) => Err(ReadErrorView::Syntax(message)),
            _ => attributes_scan(events, pos + 1, list),
        }
    }
}

/// The functions read from `pos` on, `list` having been read before.
pub open spec fn functions_scan(events: Seq<EventView>, pos: int, list: Seq<FunctionView>) -> ReadView<
    Seq<FunctionView>,
>
    decreases events.len() - pos,
{
    if pos < 0 || pos >= events.len() {
        Err(ReadErrorView::Ended)
    } else {
        match events[pos] {
            EventView::Start { name, attributes } => if name == "memberdef"@ {
                match function_read(events, pos + 1, attributes) {
                    Ok((f, next)) => if pos < next <= events.len() {
                        functions_scan(events, next, list.push(f))
                    } else {
                        Err(ReadErrorView::Ended)
                    },
                    Err(e) => Err(e),
                }
            } else {
                functions_scan(events, pos + 1, list)
            },
            EventView::End { name } => if name == "sectiondef"@ {
                Ok((list, pos + 1))
            } else {
                functions_scan(events, pos + 1, list)
            },
            EventView::Failed(message) => Err(ReadErrorView::Syntax(message)),
            _ => functions_scan(events, pos + 1, list),
        }
    }
}

/// The enumerations read from `pos` on, `list` having been read before
/// and `depth` elements being open. Definitions of other kinds are passed
/// over.
pub open spec fn types_scan(
    events: Seq<EventView>,
    pos: int,
    list: Seq<EnumeratedView>,
    depth: nat,
) -> ReadView<Seq<EnumeratedView>>
    decreases events.len() - pos,
{
    if pos < 0 || pos >= events.len() {
        Err(ReadErrorView::Ended)
    } else {
        match events[pos] {
            EventView::Start { name, attributes } => if depth != 0 {
                types_scan(events, pos + 1, list, depth + 1)
            } else if name == "memberdef"@ {
                match kind_read(attributes) {
                    Ok(kind) => if kind == "enum"@ {
                        match enum_read(events, pos + 1) {
                            Ok((e, next)) => if pos < next <= events.len() {
                                types_scan(events, next, list.push(e), depth)
                            } else {
                                Err(ReadErrorView::Ended)
                            },
                            Err(e) => Err(e),
                        }
                    } else {
                        types_scan(events, pos + 1, list, depth + 1)
                    },
                    Err(e) => Err(e),
                }
            } else {
                types_scan(events, pos + 1, list, depth)
            },
            EventView::End { .. } => if depth == 0 {
                Ok((list, pos + 1))
            } else {
                types_scan(events, pos + 1, list, (depth - 1) as nat)
            },
            EventView::Failed(message) => Err(ReadErrorView::Syntax(message)),
            _ => types_scan(events, pos + 1, list, depth),
        }
    }
}

/// What a section of the given kind holds.
pub enum Section {
    Attributes,
    Functions,
    Types,
    /// Friends and related functions, which are passed over.
    Skipped,
}

/// What a section holds, judged by its kind: data members where the kind
/// mentions `-attrib`, functions where it mentions `-func` or is `signal`,
/// types where it ends with `-type`; friends and related functions are
/// passed over. The first of these that applies decides.
pub open spec fn section_of(kind: Seq<char>) -> Option<Section> {
    if contains_text(kind, "-attrib"@) {
        Some(Section::Attributes)
    } else if contains_text(kind, "-func"@) {
        Some(Section::Functions)
    } else if finishes_with(kind, "-type"@) {
        Some(Section::Types)
    } else if kind == "friend"@ {
        Some(Section::Skipped)
    } else if kind == "signal"@ {
        Some(Section::Functions)
    } else if kind == "related"@ {
        Some(Section::Skipped)
    } else {
        None
    }
}

/// The class once the section of the given kind, whose content begins at
/// `pos`, has been read.
pub open spec fn section_read(events: Seq<EventView>, pos: int, c: ClassView, kind: Seq<char>) -> ReadView<
    ClassView,
> {
    match section_of(kind) {
        Some(Section::Attributes) => match attributes_scan(events, pos, c.attributes) {
            Ok((list, next)) => Ok((ClassView { attributes: list, ..c }, next)),
            Err(e) => Err(e),
        },
        Some(Section::Functions) => match functions_scan(events, pos, c.functions) {
            Ok((list, next)) => Ok((ClassView { functions: list, ..c }, next)),
            Err(e) => Err(e),
        },
        Some(Section::Types) => match types_scan(events, pos, c.enums, 0) {
            Ok((list, next)) => Ok((ClassView { enums: list, ..c }, next)),
            Err(e) => Err(e),
        },
        Some(Section::Skipped) => Ok((c, pos)),
        None => Err(ReadErrorView::UnknownKind(kind)),
    }
}

/// The class read from `pos` on in its definition, `c` being what is
/// known of it. The reading ends behind the event that closes the
/// definition, or at the end of the document.
pub open spec fn content_scan(events: Seq<EventView>, pos: int, c: ClassView) -> ReadView<ClassView>
    decreases events.len() - pos,
{
    if pos < 0 || pos >= events.len() {
        Err(ReadErrorView::Ended)
    } else {
        match events[pos] {
            EventView::Start { name, attributes } => if name == "compoundname"@ {
                match characters_read(events, pos + 1) {
                    Ok((text, next)) => if pos < next <= events.len() {
                        content_scan(events, next, ClassView { name: or_empty(text), ..c })
                    } else {
                        Err(ReadErrorView::Ended)
                    },
                    Err(e) => Err(e),
                }
            } else if name == "sectiondef"@ {
                match kind_read(attributes) {
                    Ok(kind) => match section_read(events, pos + 1, c, kind) {
                        Ok((read, next)) => if pos < next <= events.len() {
                            content_scan(events, next, read)
                        } else {
                            Err(ReadErrorView::Ended)
                        },
                        Err(e) => Err(e),
                    },
                    Err(e) => Err(e),
                }
            } else if name == "briefdescription"@ || name == "detaileddescription"@ {
                match description_read(events, pos + 1) {
                    Ok((text, next)) => if pos < next <= events.len() {
                        if name == "briefdescription"@ {
                            content_scan(events, next, ClassView { brief: text, ..c })
                        } else {
                            content_scan(events, next, ClassView { detailed: text, ..c })
                        }
                    } else {
                        Err(ReadErrorView::Ended)
                    },
                    Err(e) => Err(e),
                }
            } else if name == "location"@ {
                content_scan(
                    events,
                    pos + 1,
                    ClassView { location: Some(location_read(attributes)), ..c },
                )
            } else {
                content_scan(events, pos + 1, c)
            },
            EventView::End { name } => if name == "compounddef"@ {
                Ok((c, pos + 1))
            } else {
                content_scan(events, pos + 1, c)
            },
            EventView::EndDocument => Ok((c, pos)),
            EventView::Failed(message) => Err(ReadErrorView::Syntax(message)),
            _ => content_scan(events, pos + 1, c),
        }
    }
}

/// The class read from `pos` on in a document.
pub open spec fn class_scan(events: Seq<EventView>, pos: int, c: ClassView) -> Result<
    ClassView,
    ReadErrorView,
>
    decreases events.len() - pos,
{
    if pos < 0 || pos >= events.len() {
        Ok(c)
    } else {
        match events[pos] {
            EventView::Start { name, .. } => if name == "compounddef"@ {
                match content_scan(events, pos + 1, c) {
                    Ok((read, next)) => if pos < next <= events.len() {
                        class_scan(events, next, read)
                    } else {
                        Err(ReadErrorView::Ended)
                    },
                    Err(e) => Err(e),
                }
            } else {
                class_scan(events, pos + 1, c)
            },
            EventView::EndDocument => Ok(c),
            EventView::Failed(message) => Err(ReadErrorView::Syntax(message)),
            _ => class_scan(events, pos + 1, c),
        }
    }
}

/// A class or struct of which nothing else is known.
pub open spec fn class_begun(is_struct: bool) -> ClassView {
    ClassView {
        name: Seq::empty(),
        brief: None,
        detailed: None,
        attributes: Seq::empty(),
        functions: Seq::empty(),
        enums: Seq::empty(),
        location: None,
        is_struct: is_struct,
    }
}

/// The class that the events of a document describe: what its compound
/// definitions say of its name, its descriptions, its place and its
/// members.
pub open spec fn class_read(events: Seq<EventView>, is_struct: bool) -> Result<
    ClassView,
    ReadErrorView,
> {
    class_scan(events, 0, class_begun(is_struct))
}

/// Tells what a section of the given kind holds.
pub fn section_kind(kind: &str) -> (section: Option<Section>)
    ensures
        section == section_of(kind@),
{
    if contains(kind, "-attrib") {
        Some(Section::Attributes)
    } else if contains(kind, "-func") {
        Some(Section::Functions)
    } else if ends_with(kind, "-type") {
        Some(Section::Types)
    } else if same_text(kind, "friend") {
        Some(Section::Skipped)
    } else if same_text(kind, "signal") {
        Some(Section::Functions)
    } else if same_text(kind, "related") {
        Some(Section::Skipped)
    } else {
        None
    }
}

impl Class {
    /// Reads the name of the class from the element whose content begins
    /// at `pos`.
    pub fn read_compound_name(&mut self, events: &Vec<Event>, pos: usize) -> (res: Result<
        usize,
        ReadError,
    >)
        ensures
            match characters_read(event_views(events@), pos as int) {
                Ok((text, next)) => res matches Ok(n) && n == next && final(self)@ == (ClassView {
                    name: or_empty(text),
                    ..old(self)@
                }),
                Err(e) => res matches Err(error) && error@ == e,
            },
            res matches Ok(next) ==> pos < next <= events@.len(),
    {
        match read_characters_only(events, pos) {
            Ok((text, next)) => {
                self.name = text_or_empty(text);
                Ok(next)
            },
            Err(error) => Err(error),
        }
    }

    /// Looks up the kind of a definition or section among its attributes.
    pub fn get_kind_attr(attributes: &Vec<Attr>) -> (res: Result<String, ReadError>)
        ensures
            match kind_read(attr_views(attributes@)) {
                Ok(kind) => res matches Ok(k) && k@ == kind,
                Err(e) => res matches Err(error) && error@ == e,
            },
    {
        match read_xml_attribute(attributes, "kind") {
            Some(kind) => Ok(kind),
            None => Err(ReadError::NoKind),
        }
    }

    /// Reads the data members of the section whose content begins at
    /// `pos`.
    pub fn read_attributes(&mut self, events: &Vec<Event>, pos: usize) -> (res: Result<
        usize,
        ReadError,
    >)
        ensures
            match attributes_scan(event_views(events@), pos as int, old(self)@.attributes) {
                Ok((list, next)) => res matches Ok(n) && n == next && final(self)@ == (ClassView {
                    attributes: list,
                    ..old(self)@
                }),
                Err(e) => res matches Err(error) && error@ == e,
            },
            res matches Ok(next) ==> pos < next <= events@.len(),
    {
        let ghost all = event_views(events@);
        let ghost begun = self@;
        if pos >= events.len() {
            return Err(ReadError::Ended);
        }
        let mut at: usize = pos;
        while at < events.len()
            invariant
                pos <= at <= events@.len(),
                all == event_views(events@),
                begun == old(self)@,
                self@ == (ClassView { attributes: self@.attributes, ..begun }),
                attributes_scan(all, pos as int, begun.attributes) == attributes_scan(
                    all,
                    at as int,
                    self@.attributes,
                ),
            decreases events@.len() - at,
        {
            assert(all[at as int] == events@[at as int]@);
            match &events[at] {
                Event::Start { name, attributes } => {
                    if same_text(name.as_str(), "memberdef") {
                        match Attribute::read(events, at + 1, attributes) {
                            Ok((a, next)) => {
                                let ghost before = self@.attributes;
                                self.attributes.push(a);
                                assert(self@.attributes =~= before.push(a@));
                                at = next;
                            },
                            Err(error) => {
                                return Err(error);
                            },
                        }
                    } else {
                        at += 1;
                    }
                },
                Event::End { name } => {
                    if same_text(name.as_str(), "sectiondef") {
                        return Ok(at + 1);
                    }
                    at += 1;
                },
                Event::Failed(message) => {
                    return Err(ReadError::Syntax(message.clone()));
                },
                _ => {
                    at += 1;
                },
            }
        }
        Err(ReadError::Ended)
    }

    /// Reads the functions of the section whose content begins at `pos`.
    pub fn read_functions(&mut self, events: &Vec<Event>, pos: usize) -> (res: Result<
        usize,
        ReadError,
    >)
        ensures
            match functions_scan(event_views(events@), pos as int, old(self)@.functions) {
                Ok((list, next)) => res matches Ok(n) && n == next && final(self)@ == (ClassView {
                    functions: list,
                    ..old(self)@
                }),
                Err(e) => res matches Err(error) && error@ == e,
            },
            res matches Ok(next) ==> pos < next <= events@.len(),
    {
        let ghost all = event_views(events@);
        let ghost begun = self@;
        if pos >= events.len() {
            return Err(ReadError::Ended);
        }
        let mut at: usize = pos;
        while at < events.len()
            invariant
                pos <= at <= events@.len(),
                all == event_views(events@),
                begun == old(self)@,
                self@ == (ClassView { functions: self@.functions, ..begun }),
                functions_scan(all, pos as int, begun.functions) == functions_scan(
                    all,
                    at as int,
                    self@.functions,
                ),
            decreases events@.len() - at,
        {
            assert(all[at as int] == events@[at as int]@);
            match &events[at] {
                Event::Start { name, attributes } => {
                    if same_text(name.as_str(), "memberdef") {
                        match Function::read(events, at + 1, attributes) {
                            Ok((f, next)) => {
                                let ghost before = self@.functions;
                                self.functions.push(f);
                                assert(self@.functions =~= before.push(f@));
                                at = next;
                            },
                            Err(error) => {
                                return Err(error);
                            },
                        }
                    } else {
                        at += 1;
                    }
                },
                Event::End { name } => {
                    if same_text(name.as_str(), "sectiondef") {
                        return Ok(at + 1);
                    }
                    at += 1;
                },
                Event::Failed(message) => {
                    return Err(ReadError::Syntax(message.clone()));
                },
                _ => {
                    at += 1;
                },
            }
        }
        Err(ReadError::Ended)
    }

    /// Reads the enumerations of the section whose content begins at
    /// `pos`.
    pub fn read_types(&mut self, events: &Vec<Event>, pos: usize) -> (res: Result<usize, ReadError>)
        ensures
            match types_scan(event_views(events@), pos as int, old(self)@.enums, 0) {
                Ok((list, next)) => res matches Ok(n) && n == next && final(self)@ == (ClassView {
                    enums: list,
                    ..old(self)@
                }),
                Err(e) => res matches Err(error) && error@ == e,
            },
            res matches Ok(next) ==> pos < next <= events@.len(),
    {
        let ghost all = event_views(events@);
        let ghost begun = self@;
        if pos >= events.len() {
            return Err(ReadError::Ended);
        }
        let mut depth: usize = 0;
        let mut at: usize = pos;
        while at < events.len()
            invariant
                pos <= at <= events@.len(),
                all == event_views(events@),
                begun == old(self)@,
                depth <= at - pos,
                self@ == (ClassView { enums: self@.enums, ..begun }),
                types_scan(all, pos as int, begun.enums, 0) == types_scan(
                    all,
                    at as int,
                    self@.enums,
                    depth as nat,
                ),
            decreases events@.len() - at,
        {
            assert(all[at as int] == events@[at as int]@);
            match &events[at] {
                Event::Start { name, attributes } => {
                    if depth != 0 {
                        depth += 1;
                        at += 1;
                    } else if same_text(name.as_str(), "memberdef") {
                        let kind = match Class::get_kind_attr(attributes) {
                            Ok(kind) => kind,
                            Err(error) => {
                                return Err(error);
                            },
                        };
                        if same_text(kind.as_str(), "enum") {
                            match Enumerated::read(events, at + 1) {
                                Ok((e, next)) => {
                                    let ghost before = self@.enums;
                                    self.enums.push(e);
                                    assert(self@.enums =~= before.push(e@));
                                    at = next;
                                },
                                Err(error) => {
                                    return Err(error);
                                },
                            }
                        } else {
                            depth += 1;
                            at += 1;
                        }
                    } else {
                        at += 1;
                    }
                },
                Event::End { .. } => {
                    if depth == 0 {
                        return Ok(at + 1);
                    }
                    depth -= 1;
                    at += 1;
                },
                Event::Failed(message) => {
                    return Err(ReadError::Syntax(message.clone()));
                },
                _ => {
                    at += 1;
                },
            }
        }
        Err(ReadError::Ended)
    }

    /// Reads the section of the given kind whose content begins at `pos`.
    pub fn read_section(&mut self, events: &Vec<Event>, pos: usize, kind: String) -> (res: Result<
        usize,
        ReadError,
    >)
        requires
            pos <= events@.len(),
        ensures
            match section_read(event_views(events@), pos as int, old(self)@, kind@) {
                Ok((c, next)) => res matches Ok(n) && n == next && final(self)@ == c,
                Err(e) => res matches Err(error) && error@ == e,
            },
            res matches Ok(next) ==> pos <= next <= events@.len(),
    {
        match section_kind(kind.as_str()) {
            Some(Section::Attributes) => self.read_attributes(events, pos),
            Some(Section::Functions) => self.read_functions(events, pos),
            Some(Section::Types) => self.read_types(events, pos),
            Some(Section::Skipped) => Ok(pos),
            None => Err(ReadError::UnknownKind(kind)),
        }
    }

    /// Reads the definition of the class whose content begins at `pos`.
    pub fn read_content(&mut self, events: &Vec<Event>, pos: usize) -> (res: Result<
        usize,
        ReadError,
    >)
        ensures
            match content_scan(event_views(events@), pos as int, old(self)@) {
                Ok((c, next)) => res matches Ok(n) && n == next && final(self)@ == c,
                Err(e) => res matches Err(error) && error@ == e,
            },
            res matches Ok(next) ==> pos <= next <= events@.len(),
    {
        let ghost all = event_views(events@);
        if pos >= events.len() {
            return Err(ReadError::Ended);
        }
        let mut at: usize = pos;
        while at < events.len()
            invariant
                pos <= at <= events@.len(),
                all == event_views(events@),
                content_scan(all, pos as int, old(self)@) == content_scan(all, at as int, self@),
            decreases events@.len() - at,
        {
            assert(all[at as int] == events@[at as int]@);
            match &events[at] {
                Event::Start { name, attributes } => {
                    let name = name.as_str();
                    if same_text(name, "compoundname") {
                        match self.read_compound_name(events, at + 1) {
                            Ok(next) => {
                                at = next;
                            },
                            Err(error) => {
                                return Err(error);
                            },
                        }
                    } else if same_text(name, "sectiondef") {
                        let kind = match Class::get_kind_attr(attributes) {
                            Ok(kind) => kind,
                            Err(error) => {
                                return Err(error);
                            },
                        };
                        match self.read_section(events, at + 1, kind) {
                            Ok(next) => {
                                at = next;
                            },
                            Err(error) => {
                                return Err(error);
                            },
                        }
                    } else if same_text(name, "briefdescription") {
                        match read_description(events, at + 1) {
                            Ok((text, next)) => {
                                self.brief = text;
                                at = next;
                            },
                            Err(error) => {
                                return Err(error);
                            },
                        }
                    } else if same_text(name, "detaileddescription") {
                        match read_description(events, at + 1) {
                            Ok((text, next)) => {
                                self.detailed = text;
                                at = next;
                            },
                            Err(error) => {
                                return Err(error);
                            },
                        }
                    } else if same_text(name, "location") {
                        self.location = Some(Location::read(attributes));
                        at += 1;
                    } else {
                        at += 1;
                    }
                },
                Event::End { name } => {
                    if same_text(name.as_str(), "compounddef") {
                        return Ok(at + 1);
                    }
                    at += 1;
                },
                Event::EndDocument => {
                    return Ok(at);
                },
                Event::Failed(message) => {
                    return Err(ReadError::Syntax(message.clone()));
                },
                _ => {
                    at += 1;
                },
            }
        }
        Err(ReadError::Ended)
    }

    /// Reads a class from the events of its document.
    pub fn from_events(events: &Vec<Event>, is_struct: bool) -> (res: Result<Class, ReadError>)
        ensures
            match class_read(event_views(events@), is_struct) {
                Ok(c) => res matches Ok(class) && class@ == c,
                Err(e) => res matches Err(error) && error@ == e,
            },
    {
        let ghost all = event_views(events@);
        let mut class = Class::new();
        class.is_struct = is_struct;
        assert(class@.attributes =~= class_begun(is_struct).attributes);
        assert(class@.functions =~= class_begun(is_struct).functions);
        assert(class@.enums =~= class_begun(is_struct).enums);
        let mut at: usize = 0;
        while at < events.len()
            invariant
                0 <= at <= events@.len(),
                all == event_views(events@),
                class_read(all, is_struct) == class_scan(all, at as int, class@),
            decreases events@.len() - at,
        {
            assert(all[at as int] == events@[at as int]@);
            match &events[at] {
                Event::Start { name, .. } => {
                    if same_text(name.as_str(), "compounddef") {
                        match class.read_content(events, at + 1) {
                            Ok(next) => {
                                at = next;
                            },
                            Err(error) => {
                                return Err(error);
                            },
                        }
                    } else {
                        at += 1;
                    }
                },
                Event::EndDocument => {
                    return Ok(class);
                },
                Event::Failed(message) => {
                    return Err(ReadError::Syntax(message.clone()));
                },
                _ => {
                    at += 1;
                },
            }
        }
        Ok(class)
    }

    /// Reads a class from the text of its document.
    pub fn read(text: &str, is_struct: bool) -> (res: Result<Class, ReadError>)
        ensures
            match class_read(events_of(text@), is_struct) {
                Ok(c) => res matches Ok(class) && class@ == c,
                Err(e) => res matches Err(error) && error@ == e,
            },
    {
        let events = xml_events(text);
        Class::from_events(&events, is_struct)
    }
}

} // verus!
