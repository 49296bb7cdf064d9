//! Reading a filter list from the events of its document.

use vstd::prelude::*;
use crate::filters::read::{listed, strip_mark, unmarked};
use crate::filters::{Entry, EntryView, Filter, FilterView, Filters, FiltersView, Group, GroupView};
use crate::markup::{
    Attr, AttrView, Event, EventView, ReadError, ReadErrorView, attr_views, event_views,
    events_of, read_xml_attribute, value_of, xml_events,
};
use crate::text::same_text;

verus! {

/// Where in a filters document the reader is.
#[derive(Debug)]
pub enum State {
    /// Outside every item group.
    Unknown,
    /// In an item group of which no child has been seen.
    NewGroup,
    /// In the item group of the folders.
    FilterGroup,
    /// In a folder.
    FilterItem,
    /// In the identifier of a folder.
    FilterUID,
    /// In an item group of files.
    ItemGroup,
    /// In a file listed by an element of the given name.
    ItemGroupItem(String),
    /// In the folder of a file listed by an element of the given name.
    ItemGroupItemFilter(String),
}

/// A state as plain values.
pub enum StateView {
    Unknown,
    NewGroup,
    FilterGroup,
    FilterItem,
    FilterUID,
    ItemGroup,
    ItemGroupItem(Seq<char>),
    ItemGroupItemFilter(Seq<char>),
}

impl View for State {
    type V = StateView;

    open spec fn view(&self) -> StateView {
        match self {
            State::Unknown => StateView::Unknown,
            State::NewGroup => StateView::NewGroup,
            State::FilterGroup => StateView::FilterGroup,
            State::FilterItem => StateView::FilterItem,
            State::FilterUID => StateView::FilterUID,
            State::ItemGroup => StateView::ItemGroup,
            State::ItemGroupItem(item) => StateView::ItemGroupItem(item@),
            State::ItemGroupItemFilter(item) => StateView::ItemGroupItemFilter(item@),
        }
    }
}

/// How far the reading of a filters document has come.
pub enum Progress {
    /// The reader is in the document, in the given state, with what it has
    /// read so far.
    Going(StateView, FiltersView),
    /// The document has ended.
    Done(FiltersView),
    /// The document cannot be read.
    Broken(ReadErrorView),
}

/// The list with one more folder, not in use, of the given path.
pub open spec fn with_folder(data: FiltersView, path: Seq<char>) -> FiltersView {
    FiltersView {
        filters: data.filters.push(
            FilterView { path: path, unique_id: Seq::empty(), used: false },
        ),
        ..data
    }
}

/// The list with one more group, without entries.
pub open spec fn with_group(data: FiltersView) -> FiltersView {
    FiltersView {
        item_groups: data.item_groups.push(
            GroupView { entries: Seq::empty(), ext: Seq::empty() },
        ),
        ..data
    }
}

/// The list with one more entry in its last group.
pub open spec fn with_entry(data: FiltersView, entry: EntryView) -> FiltersView {
    let g = data.item_groups.len() - 1;
    let group = data.item_groups[g];
    FiltersView {
        item_groups: data.item_groups.update(
            g,
            GroupView { entries: group.entries.push(entry), ..group },
        ),
        ..data
    }
}

/// The list with the identifier of its last folder set.
pub open spec fn with_id(data: FiltersView, id: Seq<char>) -> FiltersView {
    let f = data.filters.len() - 1;
    FiltersView {
        filters: data.filters.update(f, FilterView { unique_id: id, ..data.filters[f] }),
        ..data
    }
}

/// The list with the last entry of its last group shown under `folder`.
pub open spec fn with_shown(data: FiltersView, folder: Seq<char>) -> FiltersView {
    let g = data.item_groups.len() - 1;
    let group = data.item_groups[g];
    let e = group.entries.len() - 1;
    FiltersView {
        item_groups: data.item_groups.update(
            g,
            GroupView {
                entries: group.entries.update(
                    e,
                    EntryView { filter: Some(folder), ..group.entries[e] },
                ),
                ..group
            },
        ),
        ..data
    }
}

/// The state and the list fit together: where the state says that the
/// reader is in a folder, an item group or a file, the list has it.
pub open spec fn fits(state: StateView, data: FiltersView) -> bool {
    match state {
        StateView::FilterItem | StateView::FilterUID => data.filters.len() > 0,
        StateView::ItemGroup => data.item_groups.len() > 0,
        StateView::ItemGroupItem(_) | StateView::ItemGroupItemFilter(_) => data.item_groups.len()
            > 0 && data.item_groups.last().entries.len() > 0,
        _ => true,
    }
}

/// What the opening of an element named `name` does. The first child of
/// an item group decides whether the group holds folders or files; a
/// folder and a file are known by their `Include` attribute, without which
/// the document cannot be read.
pub open spec fn on_start(
    state: StateView,
    data: FiltersView,
    name: Seq<char>,
    attributes: Seq<AttrView>,
) -> Progress {
    let named = value_of(attributes, "Include"@);
    match state {
        StateView::Unknown => if name == "ItemGroup"@ {
            Progress::Going(StateView::NewGroup, data)
        } else {
            Progress::Going(state, data)
        },
        StateView::NewGroup => if name == "Filter"@ {
            match named {
                Some(path) => Progress::Going(StateView::FilterItem, with_folder(data, path)),
                None => Progress::Broken(ReadErrorView::NoInclude),
            }
        } else {
            match named {
                Some(file) => Progress::Going(
                    StateView::ItemGroupItem(name),
                    with_entry(with_group(data), listed(name, file)),
                ),
                None => Progress::Broken(ReadErrorView::NoInclude),
            }
        },
        StateView::FilterGroup => match named {
            Some(path) => Progress::Going(StateView::FilterItem, with_folder(data, path)),
            None => Progress::Broken(ReadErrorView::NoInclude),
        },
        StateView::FilterItem => if name == "UniqueIdentifier"@ {
            Progress::Going(StateView::FilterUID, data)
        } else {
            Progress::Going(state, data)
        },
        StateView::FilterUID => Progress::Going(state, data),
        StateView::ItemGroup => match named {
            Some(file) => Progress::Going(
                StateView::ItemGroupItem(name),
                with_entry(data, listed(name, file)),
            ),
            None => Progress::Broken(ReadErrorView::NoInclude),
        },
        StateView::ItemGroupItem(item) => if name == "Filter"@ {
            Progress::Going(StateView::ItemGroupItemFilter(item), data)
        } else {
            Progress::Going(state, data)
        },
        StateView::ItemGroupItemFilter(_) => Progress::Going(state, data),
    }
}

/// What text does: in the identifier of a folder it is the identifier,
/// in the folder of a file it is the folder.
pub open spec fn on_characters(state: StateView, data: FiltersView, text: Seq<char>) -> FiltersView {
    match state {
        StateView::FilterUID => with_id(data, text),
        StateView::ItemGroupItemFilter(_) => with_shown(data, text),
        _ => data,
    }
}

/// Where the closing of an element named `name` leads.
pub open spec fn on_end(state: StateView, name: Seq<char>) -> StateView {
    match state {
        StateView::Unknown => state,
        StateView::NewGroup => StateView::Unknown,
        StateView::FilterGroup => if name == "ItemGroup"@ {
            StateView::Unknown
        } else {
            state
        },
        StateView::FilterItem => if name == "Filter"@ {
            StateView::FilterGroup
        } else {
            state
        },
        StateView::FilterUID => if name == "UniqueIdentifier"@ {
            StateView::FilterItem
        } else {
            state
        },
        StateView::ItemGroup => if name == "ItemGroup"@ {
            StateView::Unknown
        } else {
            state
        },
        StateView::ItemGroupItem(item) => if name == item {
            StateView::ItemGroup
        } else {
            state
        },
        StateView::ItemGroupItemFilter(item) => StateView::ItemGroupItem(item),
    }
}

/// What one event does to the reading of a filters document.
pub open spec fn advance(progress: Progress, event: EventView) -> Progress {
    match progress {
        Progress::Going(state, data) => match event {
            EventView::Start { name, attributes } => on_start(state, data, name, attributes),
            EventView::Characters(text) => Progress::Going(
                state,
                on_characters(state, data, text),
            ),
            EventView::End { name } => Progress::Going(on_end(state, name), data),
            EventView::EndDocument => Progress::Done(data),
            EventView::Failed(message) => Progress::Broken(ReadErrorView::Syntax(message)),
            _ => progress,
        },
        _ => progress,
    }
}

/// How far the first `upto` events bring the reading of a filters
/// document.
pub open spec fn progress_after(events: Seq<EventView>, upto: int) -> Progress
    decreases upto,
{
    if upto <= 0 {
        Progress::Going(
            StateView::Unknown,
            FiltersView { filters: Seq::empty(), item_groups: Seq::empty() },
        )
    } else {
        advance(progress_after(events, upto - 1), events[upto - 1])
    }
}

/// The filter list that the events of a document describe, or why the
/// document cannot be read. Events that do not end with the end of a
/// document describe what they have described so far.
pub open spec fn filters_read(events: Seq<EventView>) -> Result<FiltersView, ReadErrorView> {
    match progress_after(events, events.len() as int) {
        Progress::Going(_, data) => Ok(data),
        Progress::Done(data) => Ok(data),
        Progress::Broken(error) => Err(error),
    }
}

/// Once the reading is over, further events change nothing.
pub proof fn lemma_progress_stays(events: Seq<EventView>, at: int, upto: int)
    requires
        0 <= at <= upto,
        !(progress_after(events, at) is Going),
    ensures
        progress_after(events, upto) == progress_after(events, at),
    decreases upto - at,
{
    if at < upto {
        lemma_progress_stays(events, at, upto - 1);
    }
}

/// What the opening of an element does to the state and the list.
pub fn start_element(state: State, data: &mut Filters, name: &str, attributes: &Vec<Attr>) -> (res:
    Result<State, ReadError>)
    requires
        fits(state@, old(data)@),
    ensures
        match on_start(state@, old(data)@, name@, attr_views(attributes@)) {
            Progress::Going(s, d) => res matches Ok(next) && next@ == s && final(data)@ == d
                && fits(s, d),
            Progress::Broken(e) => res matches Err(error) && error@ == e,
            Progress::Done(_) => false,
        },
{
    let ghost before = data@;
    match state {
        State::Unknown => {
            if same_text(name, "ItemGroup") {
                Ok(State::NewGroup)
            } else {
                Ok(State::Unknown)
            }
        },
        State::NewGroup => {
            if same_text(name, "Filter") {
                open_folder(data, attributes)
            } else {
                match read_xml_attribute(attributes, "Include") {
                    Some(file) => {
                        data.item_groups.push(Group::new());
                        assert(data@.item_groups =~= with_group(before).item_groups);
                        assert(data@.filters =~= before.filters);
                        list_file(data, name, file.as_str());
                        Ok(State::ItemGroupItem(name.to_owned()))
                    },
                    None => Err(ReadError::NoInclude),
                }
            }
        },
        State::FilterGroup => open_folder(data, attributes),
        State::FilterItem => {
            if same_text(name, "UniqueIdentifier") {
                Ok(State::FilterUID)
            } else {
                Ok(State::FilterItem)
            }
        },
        State::FilterUID => Ok(State::FilterUID),
        State::ItemGroup => {
            match read_xml_attribute(attributes, "Include") {
                Some(file) => {
                    list_file(data, name, file.as_str());
                    Ok(State::ItemGroupItem(name.to_owned()))
                },
                None => Err(ReadError::NoInclude),
            }
        },
        State::ItemGroupItem(item) => {
            if same_text(name, "Filter") {
                Ok(State::ItemGroupItemFilter(item))
            } else {
                Ok(State::ItemGroupItem(item))
            }
        },
        State::ItemGroupItemFilter(item) => Ok(State::ItemGroupItemFilter(item)),
    }
}

/// Adds the folder that an element with the given attributes stands for.
fn open_folder(data: &mut Filters, attributes: &Vec<Attr>) -> (res: Result<State, ReadError>)
    ensures
        match value_of(attr_views(attributes@), "Include"@) {
            Some(path) => res matches Ok(next) && next@ == StateView::FilterItem && final(data)@
                == with_folder(old(data)@, path),
            None => res matches Err(error) && error@ == ReadErrorView::NoInclude,
        },
{
    match read_xml_attribute(attributes, "Include") {
        Some(path) => {
            let ghost before = data@;
            data.filters.push(Filter { path: path, unique_id: String::new(), used: false });
            assert(data@.filters =~= with_folder(before, path@).filters);
            assert(data@.item_groups =~= before.item_groups);
            Ok(State::FilterItem)
        },
        None => Err(ReadError::NoInclude),
    }
}

/// Adds the file `file`, listed by an element named `kind`, to the last
/// group.
fn list_file(data: &mut Filters, kind: &str, file: &str)
    requires
        old(data)@.item_groups.len() > 0,
    ensures
        final(data)@ == with_entry(old(data)@, listed(kind@, file@)),
{
    let ghost before = data@;
    let g = data.item_groups.len() - 1;
    assert(before.item_groups[g as int] == data.item_groups@[g as int]@);
    data.item_groups[g].entries.push(Entry::new(kind, file));
    assert(data@.item_groups[g as int].entries =~= before.item_groups[g as int].entries.push(
        listed(kind@, file@),
    ));
    assert(data@.item_groups =~= with_entry(before, listed(kind@, file@)).item_groups);
    assert(data@.filters =~= before.filters);
}

/// What text does to the list.
pub fn characters(state: &State, data: &mut Filters, text: &str)
    requires
        fits(state@, old(data)@),
    ensures
        final(data)@ == on_characters(state@, old(data)@, text@),
        fits(state@, final(data)@),
{
    let ghost before = data@;
    match state {
        State::FilterUID => {
            let f = data.filters.len() - 1;
            assert(before.filters[f as int] == data.filters@[f as int]@);
            data.filters[f].unique_id = text.to_owned();
            assert(data@.filters =~= with_id(before, text@).filters);
            assert(data@.item_groups =~= before.item_groups);
        },
        State::ItemGroupItemFilter(_) => {
            let g = data.item_groups.len() - 1;
            assert(before.item_groups[g as int] == data.item_groups@[g as int]@);
            let e = data.item_groups[g].entries.len() - 1;
            assert(before.item_groups[g as int].entries[e as int]
                == data.item_groups@[g as int].entries@[e as int]@);
            data.item_groups[g].entries[e].filter = Some(text.to_owned());
            assert(data@.item_groups[g as int].entries =~= before.item_groups[g as int].entries.update(
                e as int,
                EntryView { filter: Some(text@), ..before.item_groups[g as int].entries[e as int] },
            ));
            assert(data@.item_groups =~= with_shown(before, text@).item_groups);
            assert(data@.filters =~= before.filters);
        },
        _ => {},
    }
}

/// Where the closing of an element leads.
pub fn end_element(state: State, name: &str) -> (next: State)
    ensures
        next@ == on_end(state@, name@),
        forall|data: FiltersView| fits(state@, data) ==> fits(next@, data),
{
    match state {
        State::Unknown => State::Unknown,
        State::NewGroup => State::Unknown,
        State::FilterGroup => {
            if same_text(name, "ItemGroup") {
                State::Unknown
            } else {
                State::FilterGroup
            }
        },
        State::FilterItem => {
            if same_text(name, "Filter") {
                State::FilterGroup
            } else {
                State::FilterItem
            }
        },
        State::FilterUID => {
            if same_text(name, "UniqueIdentifier") {
                State::FilterItem
            } else {
                State::FilterUID
            }
        },
        State::ItemGroup => {
            if same_text(name, "ItemGroup") {
                State::Unknown
            } else {
                State::ItemGroup
            }
        },
        State::ItemGroupItem(item) => {
            if same_text(name, item.as_str()) {
                State::ItemGroup
            } else {
                State::ItemGroupItem(item)
            }
        },
        State::ItemGroupItemFilter(item) => State::ItemGroupItem(item),
    }
}

/// Reads a filter list from the events of its document.
pub fn filters_from_events(events: &Vec<Event>) -> (res: Result<Filters, ReadError>)
    ensures
        match filters_read(event_views(events@)) {
            Ok(data) => res matches Ok(f) && f@ == data,
            Err(e) => res matches Err(error) && error@ == e,
        },
{
    let mut data = Filters::new();
    let mut state = State::Unknown;
    let ghost all = event_views(events@);
    let mut i: usize = 0;
    while i < events.len()
        invariant
            0 <= i <= events@.len(),
            all == event_views(events@),
            progress_after(all, i as int) == Progress::Going(state@, data@),
            fits(state@, data@),
        decreases events@.len() - i,
    {
        assert(all[i as int] == events@[i as int]@);
        match &events[i] {
            Event::Start { name, attributes } => {
                match start_element(state, &mut data, name.as_str(), attributes) {
                    Ok(next) => {
                        state = next;
                    },
                    Err(error) => {
                        proof {
                            lemma_progress_stays(all, i + 1, all.len() as int);
                        }
                        return Err(error);
                    },
                }
            },
            Event::Characters(text) => {
                characters(&state, &mut data, text.as_str());
            },
            Event::End { name } => {
                state = end_element(state, name.as_str());
            },
            Event::EndDocument => {
                proof {
                    lemma_progress_stays(all, i + 1, all.len() as int);
                }
                return Ok(data);
            },
            Event::Failed(message) => {
                proof {
                    lemma_progress_stays(all, i + 1, all.len() as int);
                }
                return Err(ReadError::Syntax(message.clone()));
            },
            _ => {},
        }
        i += 1;
    }
    Ok(data)
}

/// Reads a filter list from the text of its document.
pub fn read_filters(text: &str) -> (res: Result<Filters, ReadError>)
    ensures
        match filters_read(events_of(unmarked(text@))) {
            Ok(data) => res matches Ok(f) && f@ == data,
            Err(e) => res matches Err(error) && error@ == e,
        },
{
    let events = xml_events(strip_mark(text));
    filters_from_events(&events)
}

} // verus!
