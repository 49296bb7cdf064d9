//! Keeping the folders of a filter list: a folder is in use as soon as a
//! file is shown in it or below it, and a folder that is missing is
//! created together with the folders above it.

use vstd::prelude::*;
use crate::filters::ids::{is_id, urn_uuid};
use crate::filters::paths::{file_filter, last_index, lemma_last_index};
use crate::filters::{Filter, Filters};
use crate::text::same_text;

verus! {

/// What is known of a folder apart from its identifier.
pub struct FolderKey {
    pub path: Seq<char>,
    pub used: bool,
}

/// The folders of a list without their identifiers.
pub open spec fn keys(filters: Seq<Filter>) -> Seq<FolderKey> {
    filters.map_values(|f: Filter| FolderKey { path: f.path@, used: f.used })
}

/// The index of the first folder with the given path, or the number of
/// folders where there is none.
pub open spec fn first_path(keys: Seq<FolderKey>, path: Seq<char>) -> int
    decreases keys.len(),
{
    if keys.len() == 0 {
        0
    } else {
        let before = first_path(keys.drop_last(), path);
        if before < keys.len() - 1 {
            before
        } else if keys.last().path == path {
            keys.len() - 1
        } else {
            keys.len() as int
        }
    }
}

/// `first_path` is the least index of a folder with the path.
pub proof fn lemma_first_path(keys: Seq<FolderKey>, path: Seq<char>)
    ensures
        0 <= first_path(keys, path) <= keys.len(),
        first_path(keys, path) < keys.len() ==> keys[first_path(keys, path)].path == path,
        forall|i: int| 0 <= i < first_path(keys, path) ==> keys[i].path != path,
    decreases keys.len(),
{
    if keys.len() > 0 {
        let init = keys.drop_last();
        lemma_first_path(init, path);
        assert forall|i: int| 0 <= i < first_path(keys, path) implies keys[i].path != path by {
            if i < init.len() {
                assert(init[i] == keys[i]);
            }
        }
        if first_path(init, path) < init.len() {
            assert(init[first_path(init, path)] == keys[first_path(init, path)]);
        }
    }
}

/// An index before which no folder has the path, and at which one has it
/// or the list ends, is `first_path`.
proof fn lemma_first_path_is(keys: Seq<FolderKey>, path: Seq<char>, at: int)
    requires
        0 <= at <= keys.len(),
        at < keys.len() ==> keys[at].path == path,
        forall|i: int| 0 <= i < at ==> keys[i].path != path,
    ensures
        first_path(keys, path) == at,
{
    lemma_first_path(keys, path);
}

/// The folders with the first one of the given path marked as in use.
pub open spec fn mark_path(keys: Seq<FolderKey>, path: Seq<char>) -> Seq<FolderKey> {
    let at = first_path(keys, path);
    if at < keys.len() {
        keys.update(at, FolderKey { path: keys[at].path, used: true })
    } else {
        keys
    }
}

/// The folders after a file has been shown in the folder `path`: the
/// folder and every folder above it are marked as in use; those among
/// them that were missing are added behind the others, each behind the
/// folders above it.
pub open spec fn add_path(keys: Seq<FolderKey>, path: Seq<char>) -> Seq<FolderKey>
    decreases path.len(),
{
    let marked = mark_path(keys, path);
    let at = last_index(path, '\\');
    let above = if 0 <= at < path.len() {
        add_path(marked, path.take(at))
    } else {
        marked
    };
    if first_path(keys, path) < keys.len() {
        above
    } else {
        above.push(FolderKey { path: path, used: true })
    }
}

/// The folders of `before` are still there in `after`, each with its
/// identifier, and those that follow them have new identifiers.
pub open spec fn ids_kept(before: Seq<Filter>, after: Seq<Filter>) -> bool {
    &&& before.len() <= after.len()
    &&& forall|i: int|
        0 <= i < before.len() ==> (#[trigger] after[i]).unique_id@ == before[i].unique_id@
    &&& forall|i: int| before.len() <= i < after.len() ==> is_id((#[trigger] after[i]).unique_id@)
}

impl Filters {
    /// Marks the first folder with the given path as in use and tells
    /// whether there is one.
    pub fn mark_used(&mut self, path: &str) -> (found: bool)
        ensures
            found == (first_path(keys(old(self).filters@), path@) < old(self).filters@.len()),
            keys(final(self).filters@) == mark_path(keys(old(self).filters@), path@),
            ids_kept(old(self).filters@, final(self).filters@),
            final(self).filters@.len() == old(self).filters@.len(),
            final(self).item_groups == old(self).item_groups,
    {
        let mut i: usize = 0;
        while i < self.filters.len()
            invariant
                0 <= i <= self.filters@.len(),
                self.filters == old(self).filters,
                self.item_groups == old(self).item_groups,
                forall|j: int| 0 <= j < i ==> keys(self.filters@)[j].path != path@,
            decreases self.filters@.len() - i,
        {
            if same_text(self.filters[i].path.as_str(), path) {
                proof {
                    lemma_first_path_is(keys(self.filters@), path@, i as int);
                }
                self.filters[i].used = true;
                assert(keys(self.filters@) =~= mark_path(keys(old(self).filters@), path@));
                return true;
            }
            i += 1;
        }
        proof {
            lemma_first_path_is(keys(self.filters@), path@, i as int);
        }
        false
    }

    /// Shows a file in the folder `filter`: the folder and the folders
    /// above it are marked as in use, and created where they are missing.
    pub fn add_filter_only(&mut self, filter: &str)
        ensures
            keys(final(self).filters@) == add_path(keys(old(self).filters@), filter@),
            ids_kept(old(self).filters@, final(self).filters@),
            final(self).item_groups == old(self).item_groups,
        decreases filter@.len(),
    {
        let found = self.mark_used(filter);
        proof {
            lemma_last_index(filter@, '\\');
        }
        match file_filter(filter) {
            Some(above) => {
                self.add_filter_only(above.as_str());
            },
            None => {},
        }
        let ghost raised = self.filters@;
        if !found {
            let folder = Filter { path: filter.to_owned(), unique_id: urn_uuid(), used: true };
            self.filters.push(folder);
            assert(keys(self.filters@) =~= keys(raised).push(
                FolderKey { path: filter@, used: true },
            ));
        }
    }
}

} // verus!
