//! Reading the files of a project and its filter list from XML.

use vstd::prelude::*;
use crate::filters::paths::folder_of;
use crate::filters::{Entry, EntryView, entry_views};
use crate::markup::{AttrView, Event, EventView, attr_views, event_views, events_of, xml_events};
use crate::text::{chars_of, same_text};

verus! {

/// The entry of a project for the file `file`, listed by an element
/// named `kind`.
pub open spec fn listed(kind: Seq<char>, file: Seq<char>) -> EntryView {
    EntryView { kind: kind, file: file, filter: folder_of(file), used: true }
}

/// The element lists a file of the project itself: it names neither
/// another project nor a configuration.
pub open spec fn lists_files(name: Seq<char>) -> bool {
    name != "ProjectReference"@ && name != "ProjectConfiguration"@
}

/// The entries that an element named `name` lists through the first
/// `upto` of its attributes: one for every `Include` attribute, unless the
/// element is not one that lists files.
pub open spec fn element_entries(name: Seq<char>, attributes: Seq<AttrView>, upto: int) -> Seq<
    EntryView,
>
    decreases upto,
{
    if upto <= 0 {
        Seq::empty()
    } else {
        let before = element_entries(name, attributes, upto - 1);
        if attributes[upto - 1].name == "Include"@ && lists_files(name) {
            before.push(listed(name, attributes[upto - 1].value))
        } else {
            before
        }
    }
}

/// The entries that an event lists.
pub open spec fn event_entries(event: EventView) -> Seq<EntryView> {
    match event {
        EventView::Start { name, attributes } => element_entries(
            name,
            attributes,
            attributes.len() as int,
        ),
        _ => Seq::empty(),
    }
}

/// The files of a project, as the first `upto` events of its document
/// list them.
pub open spec fn project_entries(events: Seq<EventView>, upto: int) -> Seq<EntryView>
    decreases upto,
{
    if upto <= 0 {
        Seq::empty()
    } else {
        project_entries(events, upto - 1) + event_entries(events[upto - 1])
    }
}

/// `text` without the byte order mark that it may begin with.
pub open spec fn unmarked(text: Seq<char>) -> Seq<char> {
    if text.len() > 0 && text[0] == '\u{feff}' {
        text.skip(1)
    } else {
        text
    }
}

/// Takes the byte order mark from the beginning of `text`.
pub fn strip_mark(text: &str) -> (rest: &str)
    ensures
        rest@ == unmarked(text@),
{
    let chars = chars_of(text);
    if chars.len() > 0 && chars[0] == '\u{feff}' {
        text.substring_char(1, chars.len())
    } else {
        text
    }
}

/// Collects the files that the events of a project document list.
pub fn entries_from_events(events: &Vec<Event>) -> (entries: Vec<Entry>)
    ensures
        entry_views(entries@) == project_entries(event_views(events@), events@.len() as int),
{
    let mut entries: Vec<Entry> = Vec::new();
    let ghost all = event_views(events@);
    let mut i: usize = 0;
    assert(entry_views(entries@) =~= project_entries(all, 0));
    while i < events.len()
        invariant
            0 <= i <= events@.len(),
            all == event_views(events@),
            entry_views(entries@) == project_entries(all, i as int),
        decreases events@.len() - i,
    {
        let ghost before = entry_views(entries@);
        assert(all[i as int] == events@[i as int]@);
        match &events[i] {
            Event::Start { name, attributes } => {
                let ghost attrs = attr_views(attributes@);
                let mut k: usize = 0;
                assert(entry_views(entries@) =~= before + element_entries(name@, attrs, 0));
                while k < attributes.len()
                    invariant
                        0 <= k <= attributes@.len(),
                        attrs == attr_views(attributes@),
                        entry_views(entries@) == before + element_entries(name@, attrs, k as int),
                    decreases attributes@.len() - k,
                {
                    let a = &attributes[k];
                    assert(attrs[k as int] == a@);
                    let ghost sofar = entry_views(entries@);
                    if same_text(a.name.as_str(), "Include") {
                        if !same_text(name.as_str(), "ProjectReference") && !same_text(
                            name.as_str(),
                            "ProjectConfiguration",
                        ) {
                            let entry = Entry::new(name.as_str(), a.value.as_str());
                            entries.push(entry);
                            assert(entry_views(entries@) =~= sofar.push(listed(name@, a.value@)));
                        }
                    }
                    assert(entry_views(entries@) =~= before + element_entries(
                        name@,
                        attrs,
                        k + 1,
                    ));
                    k += 1;
                }
            },
            _ => {
                assert(entry_views(entries@) =~= before + event_entries(all[i as int]));
            },
        }
        i += 1;
    }
    entries
}

/// Reads the files of a project from the text of its document. What
/// stands behind the place where the document stops being well-formed is
/// left out.
pub fn read_vcxproj(text: &str) -> (entries: Vec<Entry>)
    ensures
        entry_views(entries@) == project_entries(
            events_of(unmarked(text@)),
            events_of(unmarked(text@)).len() as int,
        ),
{
    let events = xml_events(strip_mark(text));
    entries_from_events(&events)
}

} // verus!
