//! The filter list of a project: which files a project holds, in which
//! folder of the solution explorer each is shown, and the identifiers of
//! those folders.

use vstd::prelude::*;
use crate::filters::paths::{extension_of, file_filter, folder_of, get_extension};

pub mod arrange;
pub mod files;
pub mod folders;
pub mod generate;
pub mod ids;
pub mod parse;
pub mod paths;
pub mod read;
pub mod render;

verus! {

/// A file of the project.
#[derive(Debug)]
pub struct Entry {
    /// The kind of item, such as `ClCompile` or `ClInclude`.
    pub kind: String,
    pub file: String,
    /// The folder under which the file is shown.
    pub filter: Option<String>,
    /// Whether the project still holds the file.
    pub used: bool,
}

/// A folder of the solution explorer.
#[derive(Debug)]
pub struct Filter {
    pub path: String,
    pub unique_id: String,
    /// Whether some file is shown in or below the folder.
    pub used: bool,
}

/// The files of one kind.
#[derive(Debug)]
pub struct Group {
    pub entries: Vec<Entry>,
    pub ext: String,
}

/// The folders and the grouped files of a project.
#[derive(Debug)]
pub struct Filters {
    pub filters: Vec<Filter>,
    pub item_groups: Vec<Group>,
}

/// An entry as plain values.
pub struct EntryView {
    pub kind: Seq<char>,
    pub file: Seq<char>,
    pub filter: Option<Seq<char>>,
    pub used: bool,
}

/// A filter as plain values.
pub struct FilterView {
    pub path: Seq<char>,
    pub unique_id: Seq<char>,
    pub used: bool,
}

/// A group as plain values.
pub struct GroupView {
    pub entries: Seq<EntryView>,
    pub ext: Seq<char>,
}

/// A filter list as plain values.
pub struct FiltersView {
    pub filters: Seq<FilterView>,
    pub item_groups: Seq<GroupView>,
}

/// The text behind an optional text.
pub open spec fn text_of(text: Option<String>) -> Option<Seq<char>> {
    match text {
        Some(t) => Some(t@),
        None => None,
    }
}

impl View for Entry {
    type V = EntryView;

    open spec fn view(&self) -> EntryView {
        EntryView {
            kind: self.kind@,
            file: self.file@,
            filter: text_of(self.filter),
            used: self.used,
        }
    }
}

impl View for Filter {
    type V = FilterView;

    open spec fn view(&self) -> FilterView {
        FilterView { path: self.path@, unique_id: self.unique_id@, used: self.used }
    }
}

/// The entries of a list as plain values.
pub open spec fn entry_views(entries: Seq<Entry>) -> Seq<EntryView> {
    entries.map_values(|e: Entry| e@)
}

/// The filters of a list as plain values.
pub open spec fn filter_views(filters: Seq<Filter>) -> Seq<FilterView> {
    filters.map_values(|f: Filter| f@)
}

impl View for Group {
    type V = GroupView;

    open spec fn view(&self) -> GroupView {
        GroupView { entries: entry_views(self.entries@), ext: self.ext@ }
    }
}

/// The groups of a list as plain values.
pub open spec fn group_views(groups: Seq<Group>) -> Seq<GroupView> {
    groups.map_values(|g: Group| g@)
}

impl View for Filters {
    type V = FiltersView;

    open spec fn view(&self) -> FiltersView {
        FiltersView {
            filters: filter_views(self.filters@),
            item_groups: group_views(self.item_groups@),
        }
    }
}

/// A copy of an optional text.
pub fn same_text_option(text: &Option<String>) -> (copy: Option<String>)
    ensures
        text_of(copy) == text_of(*text),
{
    match text {
        Some(t) => Some(t.clone()),
        None => None,
    }
}

impl Entry {
    /// A file of the project that is in use, shown under the folder that
    /// its name gives.
    pub fn new(kind: &str, filename: &str) -> (e: Entry)
        ensures
            e@ == (EntryView {
                kind: kind@,
                file: filename@,
                filter: folder_of(filename@),
                used: true,
            }),
    {
        Entry {
            kind: kind.to_owned(),
            file: filename.to_owned(),
            filter: file_filter(filename),
            used: true,
        }
    }

    /// A copy of this entry.
    pub fn copy(&self) -> (e: Entry)
        ensures
            e@ == self@,
    {
        Entry {
            kind: self.kind.clone(),
            file: self.file.clone(),
            filter: same_text_option(&self.filter),
            used: self.used,
        }
    }

    /// A copy of this entry, marked as in use.
    pub fn in_use(&self) -> (e: Entry)
        ensures
            e@ == (EntryView { used: true, ..self@ }),
    {
        Entry {
            kind: self.kind.clone(),
            file: self.file.clone(),
            filter: same_text_option(&self.filter),
            used: true,
        }
    }
}

impl Filter {
    /// A folder without path or identifier that nothing is shown in.
    pub fn new() -> (f: Filter)
        ensures
            f@ == (FilterView {
                path: Seq::<char>::empty(),
                unique_id: Seq::<char>::empty(),
                used: false,
            }),
    {
        Filter { path: String::new(), unique_id: String::new(), used: false }
    }
}

impl Group {
    /// A group without entries or extension.
    pub fn new() -> (g: Group)
        ensures
            g@ == (GroupView { entries: Seq::<EntryView>::empty(), ext: Seq::<char>::empty() }),
    {
        let g = Group { entries: Vec::new(), ext: String::new() };
        assert(g@.entries =~= Seq::<EntryView>::empty());
        g
    }

    /// The group of the given entries, known by the extension of the
    /// first of them.
    pub fn from_vec(vec: Vec<Entry>) -> (g: Group)
        requires
            vec@.len() > 0,
            extension_of(vec@[0].file@) is Some,
        ensures
            g.entries == vec,
            Some(g.ext@) == extension_of(vec@[0].file@),
    {
        let ext = get_extension(vec[0].file.as_str()).unwrap();
        Group { entries: vec, ext: ext }
    }
}

impl Filters {
    /// A filter list without folders or files.
    pub fn new() -> (f: Filters)
        ensures
            f@ == (FiltersView {
                filters: Seq::<FilterView>::empty(),
                item_groups: Seq::<GroupView>::empty(),
            }),
    {
        let f = Filters { filters: Vec::new(), item_groups: Vec::new() };
        assert(f@.filters =~= Seq::<FilterView>::empty());
        assert(f@.item_groups =~= Seq::<GroupView>::empty());
        f
    }
}

} // verus!
