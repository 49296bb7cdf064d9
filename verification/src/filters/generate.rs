//! Bringing a filter list up to date with the files of a project.

use vstd::prelude::*;
use crate::filters::arrange::{
    arrange_entries,
    arrange_filters,
    arrange_groups,
    arranged,
    can_arrange,
    can_make_group,
    entries_in_use,
    files_of,
    filters_in_use,
    follows,
    group_made,
    groups_made,
    in_use,
    is_rewritten,
    is_written_order,
    leads,
    lemma_first_leads,
};
use crate::filters::files::{
    add_file,
    add_folder,
    can_add,
    groups_sound,
    holds_file,
    lemma_first_file,
    lemma_first_group,
    lists_file,
};
use crate::filters::folders::{FolderKey, ids_kept, keys};
use crate::filters::paths::{extension_of, get_extension};
use crate::filters::{Entry, EntryView, Filters, Group, GroupView, entry_views, group_views};
use crate::text::same_text;

verus! {

/// The groups after the project was found to hold the first `upto` of
/// `files`, one after the other.
pub open spec fn groups_after(groups: Seq<GroupView>, files: Seq<EntryView>, upto: int) -> Seq<
    GroupView,
>
    decreases upto,
{
    if upto <= 0 {
        groups
    } else {
        add_file(groups_after(groups, files, upto - 1), files[upto - 1])
    }
}

/// The folders after the project was found to hold the first `upto` of
/// `files`, one after the other.
pub open spec fn folders_after(folders: Seq<FolderKey>, files: Seq<EntryView>, upto: int) -> Seq<
    FolderKey,
>
    decreases upto,
{
    if upto <= 0 {
        folders
    } else {
        add_folder(folders_after(folders, files, upto - 1), files[upto - 1])
    }
}

/// Each of the first `upto` files can be added once those before it have
/// been.
pub open spec fn can_add_all(groups: Seq<GroupView>, files: Seq<EntryView>, upto: int) -> bool {
    forall|i: int| 0 <= i < upto ==> can_add(#[trigger] groups_after(groups, files, i), files[i])
}

/// A list with the given groups can be brought up to date with `files`:
/// every file can be added in its turn, and every group can be written
/// anew afterwards.
pub open spec fn can_generate(groups: Seq<GroupView>, files: Seq<EntryView>, sort: bool) -> bool {
    &&& can_add_all(groups, files, files.len() as int)
    &&& can_arrange(groups_after(groups, files, files.len() as int), sort)
}

/// Identifiers kept from one list to a second and from there to a third
/// are kept from the first to the third.
pub proof fn lemma_ids_kept_on(
    a: Seq<crate::filters::Filter>,
    b: Seq<crate::filters::Filter>,
    c: Seq<crate::filters::Filter>,
)
    requires
        ids_kept(a, b),
        ids_kept(b, c),
    ensures
        ids_kept(a, c),
{
    assert forall|i: int| 0 <= i < a.len() implies (#[trigger] c[i]).unique_id@
        == a[i].unique_id@ by {
        assert(b[i].unique_id@ == a[i].unique_id@);
    }
    assert forall|i: int| a.len() <= i < c.len() implies crate::filters::ids::is_id(
        (#[trigger] c[i]).unique_id@,
    ) by {
        if i < b.len() {
            assert(crate::filters::ids::is_id(b[i].unique_id@));
        }
    }
}

impl Group {
    /// Whether the group has an entry for `file`.
    pub fn lists(&self, file: &str) -> (found: bool)
        ensures
            found == lists_file(self@, file@),
    {
        let mut i: usize = 0;
        while i < self.entries.len()
            invariant
                0 <= i <= self.entries@.len(),
                forall|j: int| 0 <= j < i ==> self@.entries[j].file != file@,
            decreases self.entries@.len() - i,
        {
            if same_text(self.entries[i].file.as_str(), file) {
                proof {
                    lemma_first_file(self@.entries, file@);
                    assert(self@.entries[i as int].file == file@);
                }
                return true;
            }
            i += 1;
        }
        proof {
            lemma_first_file(self@.entries, file@);
        }
        false
    }
}

impl Filters {
    /// Whether some group has an entry for `file`.
    pub fn knows_file(&self, file: &str) -> (found: bool)
        ensures
            found == holds_file(self@.item_groups, file@),
    {
        let mut g: usize = 0;
        while g < self.item_groups.len()
            invariant
                0 <= g <= self.item_groups@.len(),
                forall|j: int| 0 <= j < g ==> !lists_file(self@.item_groups[j], file@),
            decreases self.item_groups@.len() - g,
        {
            assert(self@.item_groups[g as int] == self.item_groups@[g as int]@);
            if self.item_groups[g].lists(file) {
                proof {
                    lemma_first_group(self@.item_groups, file@);
                }
                return true;
            }
            g += 1;
        }
        proof {
            lemma_first_group(self@.item_groups, file@);
        }
        false
    }

    /// Whether every group has a first entry with an extension.
    pub fn is_sound(&self) -> (sound: bool)
        ensures
            sound == groups_sound(self@.item_groups),
    {
        let mut g: usize = 0;
        while g < self.item_groups.len()
            invariant
                0 <= g <= self.item_groups@.len(),
                forall|j: int|
                    0 <= j < g ==> (#[trigger] self@.item_groups[j]).entries.len() > 0
                        && extension_of(self@.item_groups[j].entries[0].file) is Some,
            decreases self.item_groups@.len() - g,
        {
            let group = &self.item_groups[g];
            assert(self@.item_groups[g as int] == group@);
            if group.entries.len() == 0 {
                return false;
            }
            assert(group@.entries[0] == group.entries@[0]@);
            if get_extension(group.entries[0].file.as_str()).is_none() {
                return false;
            }
            g += 1;
        }
        true
    }

    /// Whether `entry` can be added.
    pub fn can_add_file(&self, entry: &Entry) -> (ok: bool)
        ensures
            ok == can_add(self@.item_groups, entry@),
    {
        if self.knows_file(entry.file.as_str()) {
            return true;
        }
        get_extension(entry.file.as_str()).is_some() && self.is_sound()
    }

    /// This list written anew, where every group can be.
    pub fn rewritten(&self, sort: bool) -> (res: Option<Filters>)
        ensures
            res is Some <==> can_arrange(self@.item_groups, sort),
            res matches Some(f) ==> is_rewritten(self@, f@, sort),
    {
        let folders = filters_in_use(&self.filters);
        let filters = arrange_filters(&folders, sort);
        let ghost groups = self@.item_groups;
        let mut made: Vec<Group> = Vec::new();
        let mut g: usize = 0;
        while g < self.item_groups.len()
            invariant
                0 <= g <= self.item_groups@.len(),
                groups == self@.item_groups,
                groups_made(groups, group_views(made@), g as int, sort),
                forall|j: int| 0 <= j < g ==> can_make_group(#[trigger] groups[j], sort),
            decreases self.item_groups@.len() - g,
        {
            let group = &self.item_groups[g];
            assert(groups[g as int] == group@);
            let used = entries_in_use(&group.entries);
            let ghost names = files_of(in_use(group@));
            if used.len() > 0 {
                let entries = arrange_entries(&used, sort);
                proof {
                    let order = choose|order: Seq<usize>| #[trigger]
                        is_written_order(names, order, sort) && follows(
                            in_use(group@),
                            entry_views(entries@),
                            order,
                        );
                    assert(entry_views(entries@)[0] == in_use(group@)[order[0] as int]);
                    assert forall|i: int| #[trigger] leads(names, i, sort) implies i
                        == order[0] by {
                        lemma_first_leads(names, order, sort, i);
                    }
                    lemma_first_leads(names, order, sort, order[0] as int);
                    assert(entry_views(entries@)[0] == entries@[0]@);
                }
                if get_extension(entries[0].file.as_str()).is_none() {
                    return None;
                }
                let ghost before = group_views(made@);
                let new_group = Group::from_vec(entries);
                made.push(new_group);
                proof {
                    assert(group_views(made@).drop_last() =~= before);
                    assert(group_made(groups[g as int], group_views(made@).last(), sort));
                }
            } else {
                assert(names.len() == 0);
            }
            g += 1;
        }
        let item_groups = arrange_groups(&made, sort);
        let written = Filters { filters, item_groups };
        proof {
            let kept = group_views(made@);
            assert(groups_made(self@.item_groups, kept, self@.item_groups.len() as int, sort));
            assert(arranged(kept, written@.item_groups, crate::filters::arrange::exts_of(kept), sort));
        }
        Some(written)
    }
}

/// Brings `old_filters` up to date with `files`, the files that the
/// project holds, and writes the list anew, as far as that can be done.
///
/// Every file is added in its turn; then the folders and files in use are
/// copied into a new list, in alphabetical order where `sort` is set.
/// Where a file cannot be added or a group cannot be written anew, the
/// answer is `None` and `old_filters` is left as far as the work went.
pub fn try_generate_new_filters(old_filters: &mut Filters, files: &Vec<Entry>, sort: bool) -> (res:
    Option<Filters>)
    ensures
        res is Some <==> can_generate(old(old_filters)@.item_groups, entry_views(files@), sort),
        res matches Some(f) ==> {
            &&& keys(final(old_filters).filters@) == folders_after(
                keys(old(old_filters).filters@),
                entry_views(files@),
                files@.len() as int,
            )
            &&& ids_kept(old(old_filters).filters@, final(old_filters).filters@)
            &&& final(old_filters)@.item_groups == groups_after(
                old(old_filters)@.item_groups,
                entry_views(files@),
                files@.len() as int,
            )
            &&& is_rewritten(final(old_filters)@, f@, sort)
        },
{
    let ghost start = old_filters@.item_groups;
    let ghost all = entry_views(files@);
    let mut i: usize = 0;
    while i < files.len()
        invariant
            0 <= i <= files@.len(),
            start == old(old_filters)@.item_groups,
            all == entry_views(files@),
            can_add_all(start, all, i as int),
            keys(old_filters.filters@) == folders_after(
                keys(old(old_filters).filters@),
                all,
                i as int,
            ),
            ids_kept(old(old_filters).filters@, old_filters.filters@),
            old_filters@.item_groups == groups_after(start, all, i as int),
        decreases files@.len() - i,
    {
        assert(all[i as int] == files@[i as int]@);
        if !old_filters.can_add_file(&files[i]) {
            return None;
        }
        let ghost before = old_filters.filters@;
        old_filters.add_filter(&files[i]);
        proof {
            lemma_ids_kept_on(old(old_filters).filters@, before, old_filters.filters@);
        }
        i += 1;
    }
    old_filters.rewritten(sort)
}

/// Brings `old_filters` up to date with `files`, the files that the
/// project holds, and writes the list anew.
///
/// Every file is added in its turn; then the folders and files in use are
/// copied into a new list, in alphabetical order where `sort` is set.
pub fn generate_new_filters(old_filters: &mut Filters, files: &Vec<Entry>, sort: bool) -> (new_filters:
    Filters)
    requires
        can_generate(old(old_filters)@.item_groups, entry_views(files@), sort),
    ensures
        keys(final(old_filters).filters@) == folders_after(
            keys(old(old_filters).filters@),
            entry_views(files@),
            files@.len() as int,
        ),
        ids_kept(old(old_filters).filters@, final(old_filters).filters@),
        final(old_filters)@.item_groups == groups_after(
            old(old_filters)@.item_groups,
            entry_views(files@),
            files@.len() as int,
        ),
        is_rewritten(final(old_filters)@, new_filters@, sort),
{
    try_generate_new_filters(old_filters, files, sort).unwrap()
}

} // verus!
