//! Keeping the files of a filter list: a file that the list knows is
//! marked as in use and shown where the project shows it; a file that is
//! new joins the groups of its extension.

use vstd::prelude::*;
use crate::filters::folders::{add_path, ids_kept, keys};
use crate::filters::paths::{extension_of, get_extension};
use crate::filters::{Entry, EntryView, Filters, Group, GroupView, same_text_option};
use crate::text::same_text;

verus! {

/// The index of the first entry for `file`, or the number of entries
/// where there is none.
pub open spec fn first_file(entries: Seq<EntryView>, file: Seq<char>) -> int
    decreases entries.len(),
{
    if entries.len() == 0 {
        0
    } else {
        let before = first_file(entries.drop_last(), file);
        if before < entries.len() - 1 {
            before
        } else if entries.last().file == file {
            entries.len() - 1
        } else {
            entries.len() as int
        }
    }
}

/// `first_file` is the least index of an entry for the file.
pub proof fn lemma_first_file(entries: Seq<EntryView>, file: Seq<char>)
    ensures
        0 <= first_file(entries, file) <= entries.len(),
        first_file(entries, file) < entries.len() ==> entries[first_file(entries, file)].file
            == file,
        forall|i: int| 0 <= i < first_file(entries, file) ==> entries[i].file != file,
    decreases entries.len(),
{
    if entries.len() > 0 {
        let init = entries.drop_last();
        lemma_first_file(init, file);
        assert forall|i: int| 0 <= i < first_file(entries, file) implies entries[i].file
            != file by {
            if i < init.len() {
                assert(init[i] == entries[i]);
            }
        }
        if first_file(init, file) < init.len() {
            assert(init[first_file(init, file)] == entries[first_file(init, file)]);
        }
    }
}

/// The group has an entry for `file`.
pub open spec fn lists_file(group: GroupView, file: Seq<char>) -> bool {
    first_file(group.entries, file) < group.entries.len()
}

/// The index of the first group with an entry for `file`, or the number
/// of groups where there is none.
pub open spec fn first_group(groups: Seq<GroupView>, file: Seq<char>) -> int
    decreases groups.len(),
{
    if groups.len() == 0 {
        0
    } else {
        let before = first_group(groups.drop_last(), file);
        if before < groups.len() - 1 {
            before
        } else if lists_file(groups.last(), file) {
            groups.len() - 1
        } else {
            groups.len() as int
        }
    }
}

/// `first_group` is the least index of a group that lists the file.
pub proof fn lemma_first_group(groups: Seq<GroupView>, file: Seq<char>)
    ensures
        0 <= first_group(groups, file) <= groups.len(),
        first_group(groups, file) < groups.len() ==> lists_file(
            groups[first_group(groups, file)],
            file,
        ),
        forall|i: int| 0 <= i < first_group(groups, file) ==> !lists_file(groups[i], file),
    decreases groups.len(),
{
    if groups.len() > 0 {
        let init = groups.drop_last();
        lemma_first_group(init, file);
        assert forall|i: int| 0 <= i < first_group(groups, file) implies !lists_file(
            groups[i],
            file,
        ) by {
            if i < init.len() {
                assert(init[i] == groups[i]);
            }
        }
        if first_group(init, file) < init.len() {
            assert(init[first_group(init, file)] == groups[first_group(init, file)]);
        }
    }
}

/// Some group has an entry for `file`.
pub open spec fn holds_file(groups: Seq<GroupView>, file: Seq<char>) -> bool {
    first_group(groups, file) < groups.len()
}

/// The groups with the first entry for the file of `entry` marked as in
/// use and shown under the folder of `entry`.
pub open spec fn mark_file(groups: Seq<GroupView>, entry: EntryView) -> Seq<GroupView> {
    let g = first_group(groups, entry.file);
    if g < groups.len() {
        let e = first_file(groups[g].entries, entry.file);
        let marked = EntryView { used: true, filter: entry.filter, ..groups[g].entries[e] };
        groups.update(g, GroupView { entries: groups[g].entries.update(e, marked), ..groups[g] })
    } else {
        groups
    }
}

/// The group is one of files with the extension `ext`, judged by its
/// first entry.
pub open spec fn takes(group: GroupView, ext: Seq<char>) -> bool {
    extension_of(group.entries[0].file) == Some(ext)
}

/// One of the first `upto` groups takes the extension.
pub open spec fn some_takes(groups: Seq<GroupView>, ext: Seq<char>, upto: int) -> bool {
    exists|g: int| 0 <= g < upto && takes(#[trigger] groups[g], ext)
}

/// The group with `entry` added where it takes the extension.
pub open spec fn joined(group: GroupView, entry: EntryView, ext: Seq<char>) -> GroupView {
    if takes(group, ext) {
        GroupView { entries: group.entries.push(entry), ..group }
    } else {
        group
    }
}

/// The groups after a new file with the extension `ext` has been placed:
/// it joins every group that takes its extension, and where there is
/// none, a new group without extension is made for it.
pub open spec fn place_file(groups: Seq<GroupView>, entry: EntryView, ext: Seq<char>) -> Seq<
    GroupView,
> {
    if some_takes(groups, ext, groups.len() as int) {
        groups.map_values(|g: GroupView| joined(g, entry, ext))
    } else {
        groups.push(GroupView { entries: seq![entry], ext: Seq::empty() })
    }
}

/// The groups after the project was found to hold `entry`.
pub open spec fn add_file(groups: Seq<GroupView>, entry: EntryView) -> Seq<GroupView> {
    if holds_file(groups, entry.file) {
        mark_file(groups, entry)
    } else {
        place_file(groups, EntryView { used: true, ..entry }, extension_of(entry.file)->0)
    }
}

/// Every group has a first entry, and that entry has an extension.
pub open spec fn groups_sound(groups: Seq<GroupView>) -> bool {
    forall|g: int|
        0 <= g < groups.len() ==> (#[trigger] groups[g]).entries.len() > 0 && extension_of(
            groups[g].entries[0].file,
        ) is Some
}

/// The file of `entry` can be added: the list knows it, or it has an
/// extension to be grouped by and so has the first entry of every group.
pub open spec fn can_add(groups: Seq<GroupView>, entry: EntryView) -> bool {
    holds_file(groups, entry.file) || (extension_of(entry.file) is Some && groups_sound(groups))
}

/// The folders after the project was found to hold `entry`.
pub open spec fn add_folder(
    folders: Seq<crate::filters::folders::FolderKey>,
    entry: EntryView,
) -> Seq<crate::filters::folders::FolderKey> {
    match entry.filter {
        Some(path) => add_path(folders, path),
        None => folders,
    }
}

impl Group {
    /// Marks the first entry for the file of `entry` as in use, shows it
    /// under the folder of `entry`, and tells whether there is one.
    pub fn mark_entry(&mut self, entry: &Entry) -> (found: bool)
        ensures
            found == lists_file(old(self)@, entry.file@),
            found ==> final(self)@ == (GroupView {
                entries: old(self)@.entries.update(
                    first_file(old(self)@.entries, entry.file@),
                    EntryView {
                        used: true,
                        filter: entry@.filter,
                        ..old(self)@.entries[first_file(old(self)@.entries, entry.file@)]
                    },
                ),
                ..old(self)@
            }),
            !found ==> final(self)@ == old(self)@,
    {
        let mut i: usize = 0;
        while i < self.entries.len()
            invariant
                0 <= i <= self.entries@.len(),
                *self == *old(self),
                forall|j: int| 0 <= j < i ==> self@.entries[j].file != entry.file@,
            decreases self.entries@.len() - i,
        {
            if same_text(self.entries[i].file.as_str(), entry.file.as_str()) {
                proof {
                    lemma_first_file(self@.entries, entry.file@);
                }
                self.entries[i].used = true;
                self.entries[i].filter = same_text_option(&entry.filter);
                assert(self@.entries =~= old(self)@.entries.update(
                    i as int,
                    EntryView { used: true, filter: entry@.filter, ..old(self)@.entries[i as int] },
                ));
                return true;
            }
            i += 1;
        }
        proof {
            lemma_first_file(self@.entries, entry.file@);
        }
        false
    }
}

/// An index before which no group lists the file, and at which one
/// lists it or the groups end, is `first_group`.
proof fn lemma_first_group_is(groups: Seq<GroupView>, file: Seq<char>, at: int)
    requires
        0 <= at <= groups.len(),
        at < groups.len() ==> lists_file(groups[at], file),
        forall|i: int| 0 <= i < at ==> !lists_file(groups[i], file),
    ensures
        first_group(groups, file) == at,
{
    lemma_first_group(groups, file);
}

impl Filters {
    /// Marks the first entry for the file of `entry`, in the first group
    /// that has one, and tells whether there is one.
    pub fn mark_file(&mut self, entry: &Entry) -> (found: bool)
        ensures
            found == holds_file(old(self)@.item_groups, entry.file@),
            final(self)@.item_groups == mark_file(old(self)@.item_groups, entry@),
            final(self).filters == old(self).filters,
    {
        let mut g: usize = 0;
        while g < self.item_groups.len()
            invariant
                0 <= g <= self.item_groups@.len(),
                self.filters == old(self).filters,
                self@.item_groups == old(self)@.item_groups,
                forall|j: int| 0 <= j < g ==> !lists_file(old(self)@.item_groups[j], entry.file@),
            decreases self.item_groups@.len() - g,
        {
            let ghost before = self@.item_groups;
            assert(before[g as int] == self.item_groups@[g as int]@);
            if self.item_groups[g].mark_entry(entry) {
                proof {
                    lemma_first_group_is(before, entry.file@, g as int);
                    assert(self@.item_groups =~= mark_file(before, entry@));
                }
                return true;
            }
            assert(self@.item_groups =~= before);
            g += 1;
        }
        proof {
            lemma_first_group_is(self@.item_groups, entry.file@, g as int);
        }
        false
    }
}

impl Filters {
    /// Places a file that the list does not know yet: a copy of `entry`,
    /// marked as in use, joins every group that takes the extension `ext`,
    /// or a new group of its own where none does.
    pub fn place_file(&mut self, entry: &Entry, ext: &str)
        requires
            groups_sound(old(self)@.item_groups),
        ensures
            final(self)@.item_groups == place_file(
                old(self)@.item_groups,
                EntryView { used: true, ..entry@ },
                ext@,
            ),
            final(self).filters == old(self).filters,
    {
        let ghost groups = self@.item_groups;
        let ghost copy = EntryView { used: true, ..entry@ };
        let mut found = false;
        let mut g: usize = 0;
        while g < self.item_groups.len()
            invariant
                0 <= g <= self.item_groups@.len(),
                groups == old(self)@.item_groups,
                groups_sound(groups),
                self.filters == old(self).filters,
                self@.item_groups.len() == groups.len(),
                copy == (EntryView { used: true, ..entry@ }),
                found == some_takes(groups, ext@, g as int),
                forall|j: int| 0 <= j < g ==> (#[trigger] self@.item_groups[j]) == joined(groups[j], copy, ext@),
                forall|j: int| g <= j < groups.len() ==> (#[trigger] self@.item_groups[j]) == groups[j],
            decreases self.item_groups@.len() - g,
        {
            let ghost before = self@.item_groups;
            assert(before[g as int] == self.item_groups@[g as int]@);
            assert(before[g as int] == groups[g as int]);
            assert(self.item_groups@[g as int]@.entries[0] == self.item_groups@[g as int].entries@[0]@);
            let first = get_extension(self.item_groups[g].entries[0].file.as_str()).unwrap();
            if same_text(ext, first.as_str()) {
                self.item_groups[g].entries.push(entry.in_use());
                found = true;
                assert(self@.item_groups[g as int].entries =~= groups[g as int].entries.push(copy));
            }
            proof {
                assert(self@.item_groups[g as int] == joined(groups[g as int], copy, ext@));
                assert forall|j: int| 0 <= j < g + 1 implies (#[trigger] self@.item_groups[j])
                    == joined(groups[j], copy, ext@) by {
                    if j < g {
                        assert(self@.item_groups[j] == before[j]);
                    }
                }
                assert forall|j: int| g + 1 <= j < groups.len() implies (
                #[trigger] self@.item_groups[j]) == groups[j] by {
                    assert(self@.item_groups[j] == before[j]);
                }
            }
            g += 1;
        }
        if !found {
            let mut group = Group::new();
            group.entries.push(entry.in_use());
            assert(group@.entries =~= seq![copy]);
            assert(group@ == (GroupView { entries: seq![copy], ext: Seq::empty() }));
            let ghost before = self@.item_groups;
            self.item_groups.push(group);
            assert(self@.item_groups =~= before.push(group@));
            assert(before =~= groups);
        } else {
            assert(self@.item_groups =~= groups.map_values(|g: GroupView| joined(g, copy, ext@)));
        }
    }

    /// Takes note that the project holds `entry`: its folder and the
    /// folders above it are in use; the file is in use and shown in that
    /// folder.
    pub fn add_filter(&mut self, entry: &Entry)
        requires
            can_add(old(self)@.item_groups, entry@),
        ensures
            keys(final(self).filters@) == add_folder(keys(old(self).filters@), entry@),
            ids_kept(old(self).filters@, final(self).filters@),
            final(self)@.item_groups == add_file(old(self)@.item_groups, entry@),
    {
        match &entry.filter {
            Some(path) => {
                self.add_filter_only(path.as_str());
            },
            None => {},
        }
        if !self.mark_file(entry) {
            let ext = get_extension(entry.file.as_str()).unwrap();
            self.place_file(entry, ext.as_str());
        }
    }
}

} // verus!
