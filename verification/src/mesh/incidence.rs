//! Which corners of which triangles meet at each vertex: the lists that
//! per-vertex normal estimation walks.

use vstd::prelude::*;
use crate::mesh::Mesh;
use crate::mesh::stl::{corner_points, describes, facet_corner};
use crate::mesh::weld::{lemma_weld_distinct, lemma_weld_same_points};

verus! {

/// One corner of one triangle.
#[derive(Clone, Copy, Debug, PartialEq, Eq, Structural)]
pub struct Corner {
    /// Index of the triangle.
    pub triangle: usize,
    /// Place of the corner in the triangle: 0, 1 or 2.
    pub place: usize,
}

/// The corners at vertex `v` among the first `upto` corners of the mesh,
/// counted triangle by triangle, in that order.
pub open spec fn corners_at(triangles: Seq<[usize; 3]>, v: usize, upto: int) -> Seq<Corner>
    decreases upto,
{
    if upto <= 0 {
        Seq::empty()
    } else {
        let before = corners_at(triangles, v, upto - 1);
        let t = (upto - 1) / 3;
        let k = (upto - 1) % 3;
        if triangles[t]@[k] == v {
            before.push(Corner { triangle: t as usize, place: k as usize })
        } else {
            before
        }
    }
}

/// All corners of the mesh at vertex `v`, in triangle order.
pub open spec fn incident(triangles: Seq<[usize; 3]>, v: usize) -> Seq<Corner> {
    corners_at(triangles, v, 3 * (triangles.len() as int))
}

/// Every listed corner is a corner of the mesh that lies at `v`.
pub proof fn lemma_corners_at_lie_at(triangles: Seq<[usize; 3]>, v: usize, upto: int)
    requires
        0 <= upto <= 3 * triangles.len(),
        triangles.len() <= usize::MAX,
    ensures
        forall|a: int|
            0 <= a < corners_at(triangles, v, upto).len() ==> {
                let c = #[trigger] corners_at(triangles, v, upto)[a];
                &&& c.triangle < triangles.len()
                &&& c.place < 3
                &&& 3 * c.triangle + c.place < upto
                &&& triangles[c.triangle as int]@[c.place as int] == v
            },
    decreases upto,
{
    if upto > 0 {
        lemma_corners_at_lie_at(triangles, v, upto - 1);
        let now = corners_at(triangles, v, upto);
        let before = corners_at(triangles, v, upto - 1);
        let t = (upto - 1) / 3;
        let k = (upto - 1) % 3;
        assert forall|a: int| 0 <= a < now.len() implies {
            let c = #[trigger] now[a];
            &&& c.triangle < triangles.len()
            &&& c.place < 3
            &&& 3 * c.triangle + c.place < upto
            &&& triangles[c.triangle as int]@[c.place as int] == v
        } by {
            if a < before.len() {
                assert(now[a] == before[a]);
            } else {
                assert(now[a] == Corner { triangle: t as usize, place: k as usize });
            }
        }
    }
}

/// A corner of the mesh that lies at `v` is listed.
pub proof fn lemma_corners_at_complete(
    triangles: Seq<[usize; 3]>,
    v: usize,
    upto: int,
    t: int,
    k: int,
)
    requires
        0 <= upto <= 3 * triangles.len(),
        triangles.len() <= usize::MAX,
        0 <= t < triangles.len(),
        0 <= k < 3,
        3 * t + k < upto,
        triangles[t]@[k] == v,
    ensures
        corners_at(triangles, v, upto).contains(Corner { triangle: t as usize, place: k as usize }),
    decreases upto,
{
    let c = Corner { triangle: t as usize, place: k as usize };
    let now = corners_at(triangles, v, upto);
    let before = corners_at(triangles, v, upto - 1);
    if 3 * t + k == upto - 1 {
        assert((upto - 1) / 3 == t && (upto - 1) % 3 == k);
        assert(now[now.len() - 1] == c);
    } else {
        lemma_corners_at_complete(triangles, v, upto - 1, t, k);
        let w = choose|w: int| 0 <= w < before.len() && before[w] == c;
        assert(now[w] == c);
    }
}

/// In a loaded mesh some triangle has a corner at every vertex.
pub proof fn lemma_loaded_vertices_are_used(buf: Seq<u8>, mesh: Mesh, v: usize)
    requires
        describes(buf, mesh),
        v < mesh.vertices@.len(),
    ensures
        incident(mesh.triangles@, v).len() > 0,
{
    let corners = corner_points(buf);
    let p = mesh.vertices@[v as int];
    assert(mesh.triangles@.len() <= usize::MAX) by {
        assert(mesh.triangles.len() == mesh.triangles@.len());
    }
    lemma_weld_distinct(corners);
    lemma_weld_same_points(corners, p);
    assert(mesh.vertices@.contains(p));
    let j = choose|j: int| 0 <= j < corners.len() && corners[j] == p;
    let t = j / 3;
    let k = j % 3;
    assert(corners[j] == facet_corner(buf, t, k));
    assert(mesh.vertices@[mesh.triangles@[t]@[k] as int] == p);
    lemma_corners_at_complete(mesh.triangles@, v, 3 * (mesh.triangles@.len() as int), t, k);
}

/// Lists, for every vertex, the corners that lie at it, in triangle order.
pub fn incident_corners(mesh: &Mesh) -> (lists: Vec<Vec<Corner>>)
    requires
        mesh.indexed(),
    ensures
        lists@.len() == mesh.vertices@.len(),
        forall|v: int|
            0 <= v < lists@.len() ==> (#[trigger] lists@[v])@ == incident(
                mesh.triangles@,
                v as usize,
            ),
{
    let n = mesh.vertices.len();
    let mut lists: Vec<Vec<Corner>> = Vec::new();
    let mut v: usize = 0;
    while v < n
        invariant
            n == mesh.vertices@.len(),
            0 <= v <= n,
            lists@.len() == v,
            forall|u: int| 0 <= u < v ==> (#[trigger] lists@[u])@ == Seq::<Corner>::empty(),
        decreases n - v,
    {
        lists.push(Vec::new());
        v += 1;
    }
    let count = mesh.triangles.len();
    let mut t: usize = 0;
    while t < count
        invariant
            mesh.indexed(),
            n == mesh.vertices@.len(),
            count == mesh.triangles@.len(),
            0 <= t <= count,
            lists@.len() == n,
            forall|u: int|
                0 <= u < n ==> (#[trigger] lists@[u])@ == corners_at(
                    mesh.triangles@,
                    u as usize,
                    3 * t,
                ),
        decreases count - t,
    {
        let mut k: usize = 0;
        while k < 3
            invariant
                mesh.indexed(),
                n == mesh.vertices@.len(),
                count == mesh.triangles@.len(),
                0 <= t < count,
                0 <= k <= 3,
                lists@.len() == n,
                forall|u: int|
                    0 <= u < n ==> (#[trigger] lists@[u])@ == corners_at(
                        mesh.triangles@,
                        u as usize,
                        3 * t + k,
                    ),
            decreases 3 - k,
        {
            let at = mesh.triangles[t][k];
            proof {
                let j = 3 * t + k;
                assert(j / 3 == t && j % 3 == k);
                assert(mesh.triangles@[t as int]@[k as int] < n);
            }
            lists[at].push(Corner { triangle: t, place: k });
            k += 1;
        }
        t += 1;
    }
    lists
}

} // verus!
