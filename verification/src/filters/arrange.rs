//! Writing a filter list anew: only what is in use is kept, and on
//! request folders, files and groups are put in alphabetical order.

use vstd::prelude::*;
use crate::order::Ranked;
use crate::filters::paths::extension_of;
use crate::filters::{
    Entry,
    EntryView,
    Filter,
    FilterView,
    FiltersView,
    Group,
    GroupView,
    entry_views,
    filter_views,
    group_views,
};
use crate::order::{
    Texts,
    indices,
    is_arrangement,
    placed_before,
    ranking,
    lemma_text_order_total,
    lemma_text_order_one_way,
};

verus! {

/// No element of `order` is placed before one that stands earlier in it.
pub open spec fn texts_ranked(keys: Seq<Seq<char>>, order: Seq<usize>) -> bool {
    forall|a: int, b: int|
        0 <= a < b < order.len() ==> !placed_before(
            keys,
            #[trigger] order[b] as int,
            #[trigger] order[a] as int,
        )
}

/// `order` is the order in which the elements with the given texts are
/// written: alphabetical, elements with the same text as they come, where
/// `sort` is set; as they come otherwise.
pub open spec fn is_written_order(keys: Seq<Seq<char>>, order: Seq<usize>, sort: bool) -> bool {
    &&& is_arrangement(order, keys.len())
    &&& if sort {
        texts_ranked(keys, order)
    } else {
        order == indices(keys.len())
    }
}

/// `dst` holds the elements of `src` in the order in which they are
/// written, `keys` being their texts.
pub open spec fn arranged<T>(src: Seq<T>, dst: Seq<T>, keys: Seq<Seq<char>>, sort: bool) -> bool {
    exists|order: Seq<usize>| #[trigger]
        is_written_order(keys, order, sort) && follows(src, dst, order)
}

/// `dst` holds the elements of `src` in the given order.
pub open spec fn follows<T>(src: Seq<T>, dst: Seq<T>, order: Seq<usize>) -> bool {
    &&& dst.len() == order.len()
    &&& forall|k: int| 0 <= k < order.len() ==> #[trigger] dst[k] == src[order[k] as int]
}

/// Element `i` is written first.
pub open spec fn leads(keys: Seq<Seq<char>>, i: int, sort: bool) -> bool {
    &&& 0 <= i < keys.len()
    &&& if sort {
        forall|j: int| 0 <= j < keys.len() && j != i ==> placed_before(keys, i, j)
    } else {
        i == 0
    }
}

/// The order in which the elements with the given texts are written.
pub fn written_order(keys: &Texts, sort: bool) -> (order: Vec<usize>)
    ensures
        is_written_order(keys.texts(), order@, sort),
{
    if sort {
        let order = ranking(keys);
        assert(texts_ranked(keys.texts(), order@)) by {
            assert forall|a: int, b: int| 0 <= a < b < order@.len() implies !placed_before(
                keys.texts(),
                #[trigger] order@[b] as int,
                #[trigger] order@[a] as int,
            ) by {
                assert(!keys.before(order@[b] as int, order@[a] as int));
            }
        }
        order
    } else {
        let n = keys.keys.len();
        let mut order: Vec<usize> = Vec::new();
        let mut i: usize = 0;
        while i < n
            invariant
                n == keys.keys@.len(),
                0 <= i <= n,
                order@ == indices(i as nat),
            decreases n - i,
        {
            order.push(i);
            assert(order@ =~= indices((i + 1) as nat));
            i += 1;
        }
        proof {
            let all = indices(n as nat);
            assert forall|k: usize| k < n implies #[trigger] all.contains(k) by {
                assert(all[k as int] == k);
            }
        }
        order
    }
}

/// The element that a written order begins with is the one that leads, and
/// no other does.
pub proof fn lemma_first_leads(keys: Seq<Seq<char>>, order: Seq<usize>, sort: bool, i: int)
    requires
        is_written_order(keys, order, sort),
        0 < keys.len() <= usize::MAX,
    ensures
        leads(keys, i, sort) <==> i == order[0],
{
    let first = order[0] as int;
    if sort {
        assert forall|j: int| 0 <= j < keys.len() && j != first implies placed_before(
            keys,
            first,
            j,
        ) by {
            assert(order.contains(j as usize));
            let b = choose|b: int| 0 <= b < order.len() && order[b] == j as usize;
            assert(!placed_before(keys, order[b] as int, order[0] as int));
            lemma_text_order_total(keys[first], keys[j]);
        }
        if leads(keys, i, sort) && i != first {
            assert(placed_before(keys, i, first));
            assert(placed_before(keys, first, i));
            if crate::order::text_less(keys[i], keys[first]) {
                lemma_text_order_one_way(keys[i], keys[first]);
            }
            if crate::order::text_less(keys[first], keys[i]) {
                lemma_text_order_one_way(keys[first], keys[i]);
            }
        }
    }
}

/// Of two elements, one is placed before the other.
proof fn lemma_placed_one_way_or_other(keys: Seq<Seq<char>>, i: int, j: int)
    requires
        0 <= i < keys.len(),
        0 <= j < keys.len(),
        i != j,
    ensures
        placed_before(keys, i, j) || placed_before(keys, j, i),
{
    lemma_text_order_total(keys[i], keys[j]);
}

/// Two written orders of the same texts begin with the same `k` elements.
proof fn lemma_orders_agree_upto(keys: Seq<Seq<char>>, a: Seq<usize>, b: Seq<usize>, k: int)
    requires
        is_written_order(keys, a, true),
        is_written_order(keys, b, true),
        keys.len() <= usize::MAX,
        0 <= k <= keys.len(),
    ensures
        a.take(k) == b.take(k),
    decreases k,
{
    if k > 0 {
        lemma_orders_agree_upto(keys, a, b, k - 1);
        let x = a[k - 1];
        let y = b[k - 1];
        if x != y {
            assert(a.contains(y));
            let p = choose|p: int| 0 <= p < a.len() && a[p] == y;
            if p < k - 1 {
                assert(a.take(k - 1)[p] == b.take(k - 1)[p]);
                assert(b[p] == b[k - 1]);
            }
            assert(!placed_before(keys, a[p] as int, a[k - 1] as int));
            assert(b.contains(x));
            let q = choose|q: int| 0 <= q < b.len() && b[q] == x;
            if q < k - 1 {
                assert(a.take(k - 1)[q] == b.take(k - 1)[q]);
                assert(a[q] == a[k - 1]);
            }
            assert(!placed_before(keys, b[q] as int, b[k - 1] as int));
            lemma_placed_one_way_or_other(keys, x as int, y as int);
        }
        assert(a.take(k) =~= a.take(k - 1).push(x));
        assert(b.take(k) =~= b.take(k - 1).push(y));
    }
}

/// There is one order only in which elements with given texts are
/// written.
pub proof fn lemma_written_order_is_unique(
    keys: Seq<Seq<char>>,
    a: Seq<usize>,
    b: Seq<usize>,
    sort: bool,
)
    requires
        is_written_order(keys, a, sort),
        is_written_order(keys, b, sort),
        keys.len() <= usize::MAX,
    ensures
        a == b,
{
    if sort {
        lemma_orders_agree_upto(keys, a, b, keys.len() as int);
        assert(a.take(keys.len() as int) =~= a);
        assert(b.take(keys.len() as int) =~= b);
    }
}

/// The folders in use among the first `upto` folders.
pub open spec fn used_filters(filters: Seq<FilterView>, upto: int) -> Seq<FilterView>
    decreases upto,
{
    if upto <= 0 {
        Seq::empty()
    } else if filters[upto - 1].used {
        used_filters(filters, upto - 1).push(filters[upto - 1])
    } else {
        used_filters(filters, upto - 1)
    }
}

/// The entries in use among the first `upto` entries.
pub open spec fn used_entries(entries: Seq<EntryView>, upto: int) -> Seq<EntryView>
    decreases upto,
{
    if upto <= 0 {
        Seq::empty()
    } else if entries[upto - 1].used {
        used_entries(entries, upto - 1).push(entries[upto - 1])
    } else {
        used_entries(entries, upto - 1)
    }
}

/// All entries of a group that are in use.
pub open spec fn in_use(group: GroupView) -> Seq<EntryView> {
    used_entries(group.entries, group.entries.len() as int)
}

/// The paths of folders.
pub open spec fn paths_of(filters: Seq<FilterView>) -> Seq<Seq<char>> {
    filters.map_values(|f: FilterView| f.path)
}

/// The file names of entries.
pub open spec fn files_of(entries: Seq<EntryView>) -> Seq<Seq<char>> {
    entries.map_values(|e: EntryView| e.file)
}

/// The extensions of groups.
pub open spec fn exts_of(groups: Seq<GroupView>) -> Seq<Seq<char>> {
    groups.map_values(|g: GroupView| g.ext)
}

/// The group can be written anew: where it has entries in use, the one
/// that is written first has an extension.
pub open spec fn can_make_group(group: GroupView, sort: bool) -> bool {
    forall|i: int| #[trigger]
        leads(files_of(in_use(group)), i, sort) ==> extension_of(in_use(group)[i].file) is Some
}

/// `made` is the group `group` written anew: its entries in use, in the
/// order in which they are written, under the extension of the first.
pub open spec fn group_made(group: GroupView, made: GroupView, sort: bool) -> bool {
    &&& in_use(group).len() > 0
    &&& arranged(in_use(group), made.entries, files_of(in_use(group)), sort)
    &&& extension_of(made.entries[0].file) == Some(made.ext)
}

/// `made` holds, for each of the first `upto` groups that has an entry in
/// use, that group written anew.
pub open spec fn groups_made(groups: Seq<GroupView>, made: Seq<GroupView>, upto: int, sort: bool) -> bool
    decreases upto,
{
    if upto <= 0 {
        made.len() == 0
    } else if in_use(groups[upto - 1]).len() == 0 {
        groups_made(groups, made, upto - 1, sort)
    } else {
        &&& made.len() > 0
        &&& groups_made(groups, made.drop_last(), upto - 1, sort)
        &&& group_made(groups[upto - 1], made.last(), sort)
    }
}

/// Every group can be written anew.
pub open spec fn can_arrange(groups: Seq<GroupView>, sort: bool) -> bool {
    forall|g: int| 0 <= g < groups.len() ==> can_make_group(#[trigger] groups[g], sort)
}

/// `dst` is `src` written anew: the folders in use, in the order in which
/// they are written by path; the groups with entries in use, each written
/// anew, in the order in which they are written by extension.
pub open spec fn is_rewritten(src: FiltersView, dst: FiltersView, sort: bool) -> bool {
    let folders = used_filters(src.filters, src.filters.len() as int);
    &&& arranged(folders, dst.filters, paths_of(folders), sort)
    &&& exists|made: Seq<GroupView>| #[trigger]
        groups_made(src.item_groups, made, src.item_groups.len() as int, sort) && arranged(
            made,
            dst.item_groups,
            exts_of(made),
            sort,
        )
}

impl Filter {
    /// A copy of this folder.
    pub fn copy(&self) -> (c: Filter)
        ensures
            c@ == self@,
    {
        Filter { path: self.path.clone(), unique_id: self.unique_id.clone(), used: self.used }
    }
}

impl Group {
    /// A copy of this group.
    pub fn copy(&self) -> (c: Group)
        ensures
            c@ == self@,
    {
        let mut entries: Vec<Entry> = Vec::new();
        let mut i: usize = 0;
        while i < self.entries.len()
            invariant
                0 <= i <= self.entries@.len(),
                entries@.len() == i,
                forall|j: int| 0 <= j < i ==> (#[trigger] entries@[j])@ == self.entries@[j]@,
            decreases self.entries@.len() - i,
        {
            entries.push(self.entries[i].copy());
            i += 1;
        }
        assert(entry_views(entries@) =~= entry_views(self.entries@));
        Group { entries, ext: self.ext.clone() }
    }
}

/// Copies of the folders that are in use.
pub fn filters_in_use(filters: &Vec<Filter>) -> (kept: Vec<Filter>)
    ensures
        filter_views(kept@) == used_filters(filter_views(filters@), filters@.len() as int),
{
    let mut kept: Vec<Filter> = Vec::new();
    let mut i: usize = 0;
    assert(filter_views(kept@) =~= used_filters(filter_views(filters@), 0));
    while i < filters.len()
        invariant
            0 <= i <= filters@.len(),
            filter_views(kept@) == used_filters(filter_views(filters@), i as int),
        decreases filters@.len() - i,
    {
        if filters[i].used {
            kept.push(filters[i].copy());
            assert(filter_views(kept@) =~= used_filters(filter_views(filters@), i + 1));
        }
        i += 1;
    }
    kept
}

/// Copies of the entries that are in use.
pub fn entries_in_use(entries: &Vec<Entry>) -> (kept: Vec<Entry>)
    ensures
        entry_views(kept@) == used_entries(entry_views(entries@), entries@.len() as int),
{
    let mut kept: Vec<Entry> = Vec::new();
    let mut i: usize = 0;
    assert(entry_views(kept@) =~= used_entries(entry_views(entries@), 0));
    while i < entries.len()
        invariant
            0 <= i <= entries@.len(),
            entry_views(kept@) == used_entries(entry_views(entries@), i as int),
        decreases entries@.len() - i,
    {
        if entries[i].used {
            kept.push(entries[i].copy());
            assert(entry_views(kept@) =~= used_entries(entry_views(entries@), i + 1));
        }
        i += 1;
    }
    kept
}

/// Copies of the folders in the order in which they are written.
pub fn arrange_filters(src: &Vec<Filter>, sort: bool) -> (dst: Vec<Filter>)
    ensures
        arranged(filter_views(src@), filter_views(dst@), paths_of(filter_views(src@)), sort),
{
    let mut keys = Texts::new();
    let mut i: usize = 0;
    while i < src.len()
        invariant
            0 <= i <= src@.len(),
            keys.texts() == paths_of(filter_views(src@)).take(i as int),
        decreases src@.len() - i,
    {
        keys.push(src[i].path.as_str());
        assert(keys.texts() =~= paths_of(filter_views(src@)).take(i + 1));
        i += 1;
    }
    assert(keys.texts() =~= paths_of(filter_views(src@)));
    let order = written_order(&keys, sort);
    let mut dst: Vec<Filter> = Vec::new();
    let mut k: usize = 0;
    while k < order.len()
        invariant
            0 <= k <= order@.len(),
            is_arrangement(order@, src@.len()),
            dst@.len() == k,
            forall|j: int| 0 <= j < k ==> (#[trigger] dst@[j])@ == src@[order@[j] as int]@,
        decreases order@.len() - k,
    {
        dst.push(src[order[k]].copy());
        k += 1;
    }
    assert(follows(filter_views(src@), filter_views(dst@), order@));
    dst
}

/// Copies of the entries in the order in which they are written.
pub fn arrange_entries(src: &Vec<Entry>, sort: bool) -> (dst: Vec<Entry>)
    ensures
        arranged(entry_views(src@), entry_views(dst@), files_of(entry_views(src@)), sort),
{
    let mut keys = Texts::new();
    let mut i: usize = 0;
    while i < src.len()
        invariant
            0 <= i <= src@.len(),
            keys.texts() == files_of(entry_views(src@)).take(i as int),
        decreases src@.len() - i,
    {
        keys.push(src[i].file.as_str());
        assert(keys.texts() =~= files_of(entry_views(src@)).take(i + 1));
        i += 1;
    }
    assert(keys.texts() =~= files_of(entry_views(src@)));
    let order = written_order(&keys, sort);
    let mut dst: Vec<Entry> = Vec::new();
    let mut k: usize = 0;
    while k < order.len()
        invariant
            0 <= k <= order@.len(),
            is_arrangement(order@, src@.len()),
            dst@.len() == k,
            forall|j: int| 0 <= j < k ==> (#[trigger] dst@[j])@ == src@[order@[j] as int]@,
        decreases order@.len() - k,
    {
        dst.push(src[order[k]].copy());
        k += 1;
    }
    assert(follows(entry_views(src@), entry_views(dst@), order@));
    dst
}

/// Copies of the groups in the order in which they are written.
pub fn arrange_groups(src: &Vec<Group>, sort: bool) -> (dst: Vec<Group>)
    ensures
        arranged(group_views(src@), group_views(dst@), exts_of(group_views(src@)), sort),
{
    let mut keys = Texts::new();
    let mut i: usize = 0;
    while i < src.len()
        invariant
            0 <= i <= src@.len(),
            keys.texts() == exts_of(group_views(src@)).take(i as int),
        decreases src@.len() - i,
    {
        keys.push(src[i].ext.as_str());
        assert(keys.texts() =~= exts_of(group_views(src@)).take(i + 1));
        i += 1;
    }
    assert(keys.texts() =~= exts_of(group_views(src@)));
    let order = written_order(&keys, sort);
    let mut dst: Vec<Group> = Vec::new();
    let mut k: usize = 0;
    while k < order.len()
        invariant
            0 <= k <= order@.len(),
            is_arrangement(order@, src@.len()),
            dst@.len() == k,
            forall|j: int| 0 <= j < k ==> (#[trigger] dst@[j])@ == src@[order@[j] as int]@,
        decreases order@.len() - k,
    {
        dst.push(src[order[k]].copy());
        k += 1;
    }
    assert(follows(group_views(src@), group_views(dst@), order@));
    dst
}

} // verus!
