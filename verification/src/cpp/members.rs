//! Reading data members and enumerations from the events of an XML
//! document.

use vstd::prelude::*;
use crate::cpp::attribute::{Attribute, AttributeView};
use crate::cpp::common::{
    Access, Location, LocationView, access_from_str, access_mentioned, text_view,
};
use crate::cpp::enumerated::{EnumValue, EnumValueView, Enumerated, EnumeratedView};
use crate::cpp::reading::{
    ReadView, characters_read, description_read, read_characters_only, read_description,
};
use crate::markup::{
    Attr, AttrView, Event, EventView, ReadError, ReadErrorView, attr_views, event_views,
    read_xml_attribute, value_of,
};
use crate::text::{parse_i32, parsed_i32, same_text};

verus! {

/// The text behind an optional text, nothing counting as empty text.
pub open spec fn or_empty(text: Option<Seq<char>>) -> Seq<char> {
    match text {
        Some(t) => t,
        None => Seq::empty(),
    }
}

/// The place that the attributes of a `location` element give: the file,
/// empty where it is not given, and the line, which is -1 where it is not
/// given and -2 where it is no number.
pub open spec fn location_read(attributes: Seq<AttrView>) -> LocationView {
    LocationView {
        file: or_empty(value_of(attributes, "file"@)),
        line: match value_of(attributes, "line"@) {
            Some(text) => match parsed_i32(text) {
                Some(line) => line,
                None => -2i32,
            },
            None => -1i32,
        },
    }
}

/// The access that the attributes of a member definition give: what the
/// `prot` attribute mentions, and private where it is missing or mentions
/// nothing.
pub open spec fn access_read(attributes: Seq<AttrView>) -> Access {
    match value_of(attributes, "prot"@) {
        Some(text) => match access_mentioned(text) {
            Some(access) => access,
            None => Access::Private,
        },
        None => Access::Private,
    }
}

/// Whether the attributes of a member definition say that it is static.
pub open spec fn static_read(attributes: Seq<AttrView>) -> bool {
    value_of(attributes, "static"@) == Some("yes"@)
}

/// The text that an optional text holds, the empty text for none.
pub fn text_or_empty(text: Option<String>) -> (t: String)
    ensures
        t@ == or_empty(text_view(text)),
{
    match text {
        Some(t) => t,
        None => String::new(),
    }
}

/// Reads the access of a member definition from its attributes.
pub fn read_access(attributes: &Vec<Attr>) -> (access: Access)
    ensures
        access == access_read(attr_views(attributes@)),
{
    match read_xml_attribute(attributes, "prot") {
        Some(text) => match access_from_str(text.as_str()) {
            Some(access) => access,
            None => Access::Private,
        },
        None => Access::Private,
    }
}

/// Reads from the attributes of a member definition whether it is static.
pub fn read_static(attributes: &Vec<Attr>) -> (is_static: bool)
    ensures
        is_static == static_read(attr_views(attributes@)),
{
    match read_xml_attribute(attributes, "static") {
        Some(text) => same_text(text.as_str(), "yes"),
        None => {
            proof {
                reveal_strlit("yes");
            }
            false
        },
    }
}

impl Location {
    /// Reads a place of declaration from the attributes of a `location`
    /// element.
    pub fn read(attributes: &Vec<Attr>) -> (location: Location)
        ensures
            location@ == location_read(attr_views(attributes@)),
    {
        let line = match read_xml_attribute(attributes, "line") {
            Some(text) => match parse_i32(text.as_str()) {
                Some(line) => line,
                None => -2,
            },
            None => -1,
        };
        let file = text_or_empty(read_xml_attribute(attributes, "file"));
        Location { file: file, line: line }
    }
}

/// The data member read from `pos` on, `a` being what is known of it.
pub open spec fn attribute_scan(events: Seq<EventView>, pos: int, a: AttributeView) -> ReadView<
    AttributeView,
>
    decreases events.len() - pos,
{
    if pos < 0 || pos >= events.len() {
        Err(ReadErrorView::Ended)
    } else {
        match events[pos] {
            EventView::Start { name, attributes } => if name == "type"@ || name == "name"@ {
                match characters_read(events, pos + 1) {
                    Ok((text, next)) => if pos < next <= events.len() {
                        if name == "type"@ {
                            attribute_scan(events, next, AttributeView { ctype: or_empty(text), ..a })
                        } else {
                            attribute_scan(events, next, AttributeView { name: or_empty(text), ..a })
                        }
                    } else {
                        Err(ReadErrorView::Ended)
                    },
                    Err(e) => Err(e),
                }
            } else if name == "briefdescription"@ || name == "detaileddescription"@ {
                match description_read(events, pos + 1) {
                    Ok((text, next)) => if pos < next <= events.len() {
                        if name == "briefdescription"@ {
                            attribute_scan(events, next, AttributeView { brief: text, ..a })
                        } else {
                            attribute_scan(events, next, AttributeView { detailed: text, ..a })
                        }
                    } else {
                        Err(ReadErrorView::Ended)
                    },
                    Err(e) => Err(e),
                }
            } else if name == "location"@ {
                attribute_scan(
                    events,
                    pos + 1,
                    AttributeView { location: Some(location_read(attributes)), ..a },
                )
            } else {
                attribute_scan(events, pos + 1, a)
            },
            EventView::End { name } => if name == "memberdef"@ {
                Ok((a, pos + 1))
            } else {
                attribute_scan(events, pos + 1, a)
            },
            EventView::Failed(message) => Err(ReadErrorView::Syntax(message)),
            _ => attribute_scan(events, pos + 1, a),
        }
    }
}

/// What is known of a data member from the attributes of its definition.
pub open spec fn attribute_begun(attributes: Seq<AttrView>) -> AttributeView {
    AttributeView {
        access: access_read(attributes),
        is_static: static_read(attributes),
        ctype: Seq::empty(),
        name: Seq::empty(),
        brief: None,
        detailed: None,
        location: None,
    }
}

/// The data member whose definition has the given attributes and a
/// content that begins at `pos`: its type, name, descriptions and place
/// are those of the elements so named, up to the event that closes the
/// definition.
pub open spec fn attribute_read(events: Seq<EventView>, pos: int, attributes: Seq<AttrView>) -> ReadView<
    AttributeView,
> {
    attribute_scan(events, pos, attribute_begun(attributes))
}

impl Attribute {
    /// Reads the data member whose definition has the attributes
    /// `xml_attributes` and a content that begins at `pos`.
    pub fn read(events: &Vec<Event>, pos: usize, xml_attributes: &Vec<Attr>) -> (res: Result<
        (Attribute, usize),
        ReadError,
    >)
        ensures
            match attribute_read(event_views(events@), pos as int, attr_views(xml_attributes@)) {
                Ok((a, next)) => res matches Ok((read, n)) && read@ == a && n == next,
                Err(e) => res matches Err(error) && error@ == e,
            },
            res matches Ok((_, next)) ==> pos < next <= events@.len(),
    {
        let ghost all = event_views(events@);
        let ghost given = attr_views(xml_attributes@);
        if pos >= events.len() {
            return Err(ReadError::Ended);
        }
        let mut attr = Attribute::new();
        attr.is_static = read_static(xml_attributes);
        attr.access = read_access(xml_attributes);
        let mut at: usize = pos;
        while at < events.len()
            invariant
                pos <= at <= events@.len(),
                all == event_views(events@),
                given == attr_views(xml_attributes@),
                attribute_read(all, pos as int, given) == attribute_scan(all, at as int, attr@),
            decreases events@.len() - at,
        {
            assert(all[at as int] == events@[at as int]@);
            match &events[at] {
                Event::Start { name, attributes } => {
                    let name = name.as_str();
                    if same_text(name, "type") {
                        match read_characters_only(events, at + 1) {
                            Ok((text, next)) => {
                                attr.ctype = text_or_empty(text);
                                at = next;
                            },
                            Err(error) => {
                                return Err(error);
                            },
                        }
                    } else if same_text(name, "name") {
                        match read_characters_only(events, at + 1) {
                            Ok((text, next)) => {
                                attr.name = text_or_empty(text);
                                at = next;
                            },
                            Err(error) => {
                                return Err(error);
                            },
                        }
                    } else if same_text(name, "briefdescription") {
                        match read_description(events, at + 1) {
                            Ok((text, next)) => {
                                attr.brief = text;
                                at = next;
                            },
                            Err(error) => {
                                return Err(error);
                            },
                        }
                    } else if same_text(name, "detaileddescription") {
                        match read_description(events, at + 1) {
                            Ok((text, next)) => {
                                attr.detailed = text;
                                at = next;
                            },
                            Err(error) => {
                                return Err(error);
                            },
                        }
                    } else if same_text(name, "location") {
                        attr.location = Some(Location::read(attributes));
                        at += 1;
                    } else {
                        at += 1;
                    }
                },
                Event::End { name } => {
                    if same_text(name.as_str(), "memberdef") {
                        return Ok((attr, at + 1));
                    }
                    at += 1;
                },
                Event::Failed(message) => {
                    return Err(ReadError::Syntax(message.clone()));
                },
                _ => {
                    at += 1;
                },
            }
        }
        Err(ReadError::Ended)
    }
}

/// The value of an enumeration read from `pos` on, `v` being what is
/// known of it and `depth` elements being open.
pub open spec fn value_scan(events: Seq<EventView>, pos: int, v: EnumValueView, depth: nat) -> ReadView<
    EnumValueView,
>
    decreases events.len() - pos,
{
    if pos < 0 || pos >= events.len() {
        Err(ReadErrorView::Ended)
    } else {
        match events[pos] {
            EventView::Start { name, .. } => if depth != 0 {
                value_scan(events, pos + 1, v, depth + 1)
            } else if name == "name"@ {
                match characters_read(events, pos + 1) {
                    Ok((text, next)) => if pos < next <= events.len() {
                        value_scan(events, next, EnumValueView { name: or_empty(text), ..v }, depth)
                    } else {
                        Err(ReadErrorView::Ended)
                    },
                    Err(e) => Err(e),
                }
            } else if name == "briefdescription"@ {
                match description_read(events, pos + 1) {
                    Ok((text, next)) => if pos < next <= events.len() {
                        value_scan(events, next, EnumValueView { brief: text, ..v }, depth)
                    } else {
                        Err(ReadErrorView::Ended)
                    },
                    Err(e) => Err(e),
                }
            } else {
                value_scan(events, pos + 1, v, depth + 1)
            },
            EventView::End { .. } => if depth == 0 {
                Ok((v, pos + 1))
            } else {
                value_scan(events, pos + 1, v, (depth - 1) as nat)
            },
            EventView::Failed(message) => Err(ReadErrorView::Syntax(message)),
            _ => value_scan(events, pos + 1, v, depth),
        }
    }
}

/// The value of an enumeration whose content begins at `pos`: its name
/// and its brief description are those of the elements so named among its
/// children, up to the event that closes it.
pub open spec fn value_read(events: Seq<EventView>, pos: int) -> ReadView<EnumValueView> {
    value_scan(events, pos, EnumValueView { name: Seq::empty(), brief: None }, 0)
}

/// The enumeration read from `pos` on, `e` being what is known of it and
/// `depth` elements being open.
pub open spec fn enum_scan(events: Seq<EventView>, pos: int, e: EnumeratedView, depth: nat) -> ReadView<
    EnumeratedView,
>
    decreases events.len() - pos,
{
    if pos < 0 || pos >= events.len() {
        Err(ReadErrorView::Ended)
    } else {
        match events[pos] {
            EventView::Start { name, attributes } => if depth != 0 {
                enum_scan(events, pos + 1, e, depth + 1)
            } else if name == "qualifiedname"@ || name == "name"@ {
                match characters_read(events, pos + 1) {
                    Ok((text, next)) => if pos < next <= events.len() {
                        if name == "qualifiedname"@ {
                            enum_scan(
                                events,
                                next,
                                EnumeratedView { full_name: or_empty(text), ..e },
                                depth,
                            )
                        } else {
                            enum_scan(events, next, EnumeratedView { name: or_empty(text), ..e }, depth)
                        }
                    } else {
                        Err(ReadErrorView::Ended)
                    },
                    Err(e) => Err(e),
                }
            } else if name == "briefdescription"@ {
                match description_read(events, pos + 1) {
                    Ok((text, next)) => if pos < next <= events.len() {
                        enum_scan(events, next, EnumeratedView { brief: text, ..e }, depth)
                    } else {
                        Err(ReadErrorView::Ended)
                    },
                    Err(e) => Err(e),
                }
            } else if name == "location"@ {
                enum_scan(
                    events,
                    pos + 1,
                    EnumeratedView { location: Some(location_read(attributes)), ..e },
                    depth + 1,
                )
            } else if name == "enumvalue"@ {
                match value_read(events, pos + 1) {
                    Ok((value, next)) => if pos < next <= events.len() {
                        enum_scan(
                            events,
                            next,
                            EnumeratedView { values: e.values.push(value), ..e },
                            depth,
                        )
                    } else {
                        Err(ReadErrorView::Ended)
                    },
                    Err(e) => Err(e),
                }
            } else {
                enum_scan(events, pos + 1, e, depth + 1)
            },
            EventView::End { .. } => if depth == 0 {
                Ok((e, pos + 1))
            } else {
                enum_scan(events, pos + 1, e, (depth - 1) as nat)
            },
            EventView::Failed(message) => Err(ReadErrorView::Syntax(message)),
            _ => enum_scan(events, pos + 1, e, depth),
        }
    }
}

/// An enumeration of which nothing is known.
pub open spec fn enum_begun() -> EnumeratedView {
    EnumeratedView {
        name: Seq::empty(),
        full_name: Seq::empty(),
        brief: None,
        detailed: None,
        values: Seq::empty(),
        location: None,
    }
}

/// The enumeration whose content begins at `pos`: its names, its brief
/// description, its place and its values are those of the elements so
/// named among its children, up to the event that closes it.
pub open spec fn enum_read(events: Seq<EventView>, pos: int) -> ReadView<EnumeratedView> {
    enum_scan(events, pos, enum_begun(), 0)
}

impl Enumerated {
    /// Reads the value of an enumeration whose content begins at `pos`.
    pub fn read_enum_value(events: &Vec<Event>, pos: usize) -> (res: Result<
        (EnumValue, usize),
        ReadError,
    >)
        ensures
            match value_read(event_views(events@), pos as int) {
                Ok((v, next)) => res matches Ok((read, n)) && read@ == v && n == next,
                Err(e) => res matches Err(error) && error@ == e,
            },
            res matches Ok((_, next)) ==> pos < next <= events@.len(),
    {
        let ghost all = event_views(events@);
        if pos >= events.len() {
            return Err(ReadError::Ended);
        }
        let mut value = EnumValue { name: String::new(), brief: Option::None };
        let mut depth: usize = 0;
        let mut at: usize = pos;
        while at < events.len()
            invariant
                pos <= at <= events@.len(),
                all == event_views(events@),
                depth <= at - pos,
                value_read(all, pos as int) == value_scan(all, at as int, value@, depth as nat),
            decreases events@.len() - at,
        {
            assert(all[at as int] == events@[at as int]@);
            match &events[at] {
                Event::Start { name, .. } => {
                    let name = name.as_str();
                    if depth != 0 {
                        depth += 1;
                        at += 1;
                    } else if same_text(name, "name") {
                        match read_characters_only(events, at + 1) {
                            Ok((text, next)) => {
                                value.name = text_or_empty(text);
                                at = next;
                            },
                            Err(error) => {
                                return Err(error);
                            },
                        }
                    } else if same_text(name, "briefdescription") {
                        match read_description(events, at + 1) {
                            Ok((text, next)) => {
                                value.brief = text;
                                at = next;
                            },
                            Err(error) => {
                                return Err(error);
                            },
                        }
                    } else {
                        depth += 1;
                        at += 1;
                    }
                },
                Event::End { .. } => {
                    if depth == 0 {
                        return Ok((value, at + 1));
                    }
                    depth -= 1;
                    at += 1;
                },
                Event::Failed(message) => {
                    return Err(ReadError::Syntax(message.clone()));
                },
                _ => {
                    at += 1;
                },
            }
        }
        Err(ReadError::Ended)
    }

    /// Reads the enumeration whose content begins at `pos`.
    pub fn read(events: &Vec<Event>, pos: usize) -> (res: Result<(Enumerated, usize), ReadError>)
        ensures
            match enum_read(event_views(events@), pos as int) {
                Ok((e, next)) => res matches Ok((read, n)) && read@ == e && n == next,
                Err(e) => res matches Err(error) && error@ == e,
            },
            res matches Ok((_, next)) ==> pos < next <= events@.len(),
    {
        let ghost all = event_views(events@);
        if pos >= events.len() {
            return Err(ReadError::Ended);
        }
        let mut enum_obj = Enumerated::new();
        let mut depth: usize = 0;
        let mut at: usize = pos;
        assert(enum_obj@.values =~= enum_begun().values);
        while at < events.len()
            invariant
                pos <= at <= events@.len(),
                all == event_views(events@),
                depth <= at - pos,
                enum_read(all, pos as int) == enum_scan(all, at as int, enum_obj@, depth as nat),
            decreases events@.len() - at,
        {
            assert(all[at as int] == events@[at as int]@);
            match &events[at] {
                Event::Start { name, attributes } => {
                    let name = name.as_str();
                    if depth != 0 {
                        depth += 1;
                        at += 1;
                    } else if same_text(name, "qualifiedname") {
                        match read_characters_only(events, at + 1) {
                            Ok((text, next)) => {
                                enum_obj.full_name = text_or_empty(text);
                                at = next;
                            },
                            Err(error) => {
                                return Err(error);
                            },
                        }
                    } else if same_text(name, "name") {
                        match read_characters_only(events, at + 1) {
                            Ok((text, next)) => {
                                enum_obj.name = text_or_empty(text);
                                at = next;
                            },
                            Err(error) => {
                                return Err(error);
                            },
                        }
                    } else if same_text(name, "briefdescription") {
                        match read_description(events, at + 1) {
                            Ok((text, next)) => {
                                enum_obj.brief = text;
                                at = next;
                            },
                            Err(error) => {
                                return Err(error);
                            },
                        }
                    } else if same_text(name, "location") {
                        enum_obj.location = Some(Location::read(attributes));
                        depth += 1;
                        at += 1;
                    } else if same_text(name, "enumvalue") {
                        match Enumerated::read_enum_value(events, at + 1) {
                            Ok((value, next)) => {
                                let ghost before = enum_obj@.values;
                                enum_obj.values.push(value);
                                assert(enum_obj@.values =~= before.push(value@));
                                at = next;
                            },
                            Err(error) => {
                                return Err(error);
                            },
                        }
                    } else {
                        depth += 1;
                        at += 1;
                    }
                },
                Event::End { .. } => {
                    if depth == 0 {
                        return Ok((enum_obj, at + 1));
                    }
                    depth -= 1;
                    at += 1;
                },
                Event::Failed(message) => {
                    return Err(ReadError::Syntax(message.clone()));
                },
                _ => {
                    at += 1;
                },
            }
        }
        Err(ReadError::Ended)
    }
}

} // verus!
