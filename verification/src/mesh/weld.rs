//! Welding: reducing a sequence of points to its distinct points, kept in
//! order of first appearance.

use vstd::prelude::*;
use crate::mesh::Coords;

verus! {

/// `seen` with `p` added at the end unless it is already there.
pub open spec fn weld_step(seen: Seq<Coords>, p: Coords) -> Seq<Coords> {
    if seen.contains(p) {
        seen
    } else {
        seen.push(p)
    }
}

/// The distinct points of `points`, each at the place of its first
/// appearance relative to the others.
pub open spec fn weld(points: Seq<Coords>) -> Seq<Coords>
    decreases points.len(),
{
    if points.len() == 0 {
        Seq::empty()
    } else {
        weld_step(weld(points.drop_last()), points.last())
    }
}

/// Welding one more point extends the welding of those before it.
pub proof fn lemma_weld_take(points: Seq<Coords>, j: int)
    requires
        0 <= j < points.len(),
    ensures
        weld(points.take(j + 1)) == weld_step(weld(points.take(j)), points[j]),
{
    let head = points.take(j + 1);
    assert(head.drop_last() =~= points.take(j));
    assert(head.last() == points[j]);
}

/// A welded sequence holds no point twice and is no longer than its source.
pub proof fn lemma_weld_distinct(points: Seq<Coords>)
    ensures
        weld(points).no_duplicates(),
        weld(points).len() <= points.len(),
    decreases points.len(),
{
    if points.len() > 0 {
        lemma_weld_distinct(points.drop_last());
    }
}

/// A welded sequence holds exactly the points of its source.
pub proof fn lemma_weld_same_points(points: Seq<Coords>, p: Coords)
    ensures
        weld(points).contains(p) <==> points.contains(p),
    decreases points.len(),
{
    if points.len() > 0 {
        let init = points.drop_last();
        lemma_weld_same_points(init, p);
        let before = weld(init);
        if points.contains(p) {
            let i = choose|i: int| 0 <= i < points.len() && points[i] == p;
            if i < points.len() - 1 {
                assert(init[i] == p);
                assert(before.contains(p));
                if !before.contains(points.last()) {
                    let w = choose|w: int| 0 <= w < before.len() && before[w] == p;
                    assert(before.push(points.last())[w] == p);
                }
            } else {
                if !before.contains(points.last()) {
                    assert(before.push(p)[before.len() as int] == p);
                }
            }
        }
        if weld(points).contains(p) {
            let w = choose|w: int| 0 <= w < weld(points).len() && weld(points)[w] == p;
            if before.contains(points.last()) || w < before.len() {
                assert(before[w] == p);
                assert(init.contains(p));
                let i = choose|i: int| 0 <= i < init.len() && init[i] == p;
                assert(points[i] == p);
            } else {
                assert(points[points.len() - 1] == p);
            }
        }
    }
}

/// Points that are already pairwise distinct are left as they are: welding
/// merges nothing that differs and keeps every one of them.
pub proof fn lemma_weld_of_distinct(points: Seq<Coords>)
    requires
        points.no_duplicates(),
    ensures
        weld(points) == points,
    decreases points.len(),
{
    if points.len() > 0 {
        let init = points.drop_last();
        lemma_weld_of_distinct(init);
        if init.contains(points.last()) {
            let i = choose|i: int| 0 <= i < init.len() && init[i] == points.last();
            assert(points[i] == points[points.len() - 1]);
        }
        assert(init.push(points.last()) =~= points);
    }
}

/// Welding what is already welded changes nothing.
pub proof fn lemma_weld_idempotent(points: Seq<Coords>)
    ensures
        weld(weld(points)) == weld(points),
{
    lemma_weld_distinct(points);
    lemma_weld_of_distinct(weld(points));
}

/// The welded points come in the order in which the source first shows
/// them: of two welded points, the earlier one appears in the source
/// before the later one does.
pub proof fn lemma_weld_keeps_order(points: Seq<Coords>, a: int, b: int)
    requires
        0 <= a < b < weld(points).len(),
    ensures
        first_index(points, weld(points)[a]) < first_index(points, weld(points)[b]),
    decreases points.len(),
{
    let init = points.drop_last();
    let before = weld(init);
    let pa = weld(points)[a];
    let pb = weld(points)[b];
    lemma_weld_distinct(points);
    lemma_weld_same_points(points, pa);
    lemma_weld_same_points(points, pb);
    lemma_first_index(points, pa);
    lemma_first_index(points, pb);
    if b < before.len() {
        assert(before[a] == pa && before[b] == pb);
        lemma_weld_keeps_order(init, a, b);
        lemma_weld_same_points(init, pa);
        lemma_weld_same_points(init, pb);
        lemma_first_index(init, pa);
        lemma_first_index(init, pb);
        lemma_first_index_prefix(points, pa);
        lemma_first_index_prefix(points, pb);
    } else {
        // the last source point is new and was placed at the end
        assert(!before.contains(points.last()));
        assert(pb == points.last());
        assert(before[a] == pa);
        lemma_weld_same_points(init, pa);
        lemma_weld_same_points(init, pb);
        lemma_first_index(init, pa);
        lemma_first_index_prefix(points, pa);
        let fb = first_index(points, pb);
        if fb < points.len() - 1 {
            assert(init[fb] == pb);
        }
    }
}

/// The least index at which `p` stands in `points`; the length of `points`
/// where it stands nowhere.
pub open spec fn first_index(points: Seq<Coords>, p: Coords) -> int
    decreases points.len(),
{
    if points.len() == 0 {
        0
    } else if points.drop_last().contains(p) {
        first_index(points.drop_last(), p)
    } else if points.last() == p {
        points.len() - 1
    } else {
        points.len() as int
    }
}

/// `first_index` is the least index of `p` where there is one.
pub proof fn lemma_first_index(points: Seq<Coords>, p: Coords)
    ensures
        0 <= first_index(points, p) <= points.len(),
        points.contains(p) ==> first_index(points, p) < points.len() && points[first_index(
            points,
            p,
        )] == p,
        !points.contains(p) ==> first_index(points, p) == points.len(),
        forall|i: int| 0 <= i < first_index(points, p) ==> points[i] != p,
    decreases points.len(),
{
    if points.len() > 0 {
        let init = points.drop_last();
        lemma_first_index(init, p);
        if init.contains(p) {
            let i = choose|i: int| 0 <= i < init.len() && init[i] == p;
            assert(points[i] == p);
            assert forall|i: int| 0 <= i < first_index(points, p) implies points[i] != p by {
                assert(init[i] != p);
            }
        } else {
            assert forall|i: int| 0 <= i < points.len() - 1 implies points[i] != p by {
                assert(init[i] == points[i]);
            }
            if points.last() == p {
                assert(points[points.len() - 1] == p);
            } else {
                if points.contains(p) {
                    let i = choose|i: int| 0 <= i < points.len() && points[i] == p;
                    assert(init[i] == p);
                }
            }
        }
    }
}

/// A point that stands among all but the last stands first where it
/// stood first among them.
proof fn lemma_first_index_prefix(points: Seq<Coords>, p: Coords)
    requires
        points.len() > 0,
        points.drop_last().contains(p),
    ensures
        first_index(points, p) == first_index(points.drop_last(), p),
{
}

} // verus!
