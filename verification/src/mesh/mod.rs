//! Triangulated surfaces: the welded mesh and the values it is made of,
//! its loading, the corners that meet at its vertices, and its sampling.

use vstd::prelude::*;

pub mod incidence;
pub mod ranking;
pub mod sampling;
pub mod stl;
pub mod weld;

verus! {

/// A coordinate triple, held as the bit patterns of three IEEE-754
/// single-precision numbers. Two triples are the same point exactly when
/// their bit patterns agree.
#[derive(Clone, Copy, Debug, PartialEq, Eq, Structural)]
pub struct Coords {
    pub x: u32,
    pub y: u32,
    pub z: u32,
}

/// Why a mesh could not be loaded or sampled.
#[derive(Clone, Copy, Debug, PartialEq, Eq, Structural)]
pub enum MeshError {
    /// The buffer ends before the header, the triangle count or the last
    /// announced facet record.
    Format,
    /// There is no surface to sample.
    DegenerateGeometry,
}

/// A triangulated surface whose vertices are shared between triangles.
#[derive(Debug)]
pub struct Mesh {
    /// The distinct points of the surface, in order of first appearance.
    pub vertices: Vec<Coords>,
    /// For each triangle, the indices of its three corners in `vertices`,
    /// in the winding order of the source.
    pub triangles: Vec<[usize; 3]>,
    /// For each triangle, the facet normal stored with it.
    pub facet_normals: Vec<Coords>,
}

impl Mesh {
    /// Every corner refers to a vertex.
    pub open spec fn indexed(&self) -> bool {
        forall|t: int, k: int|
            0 <= t < self.triangles@.len() && 0 <= k < 3 ==> #[trigger] self.triangles@[t]@[k]
                < self.vertices@.len()
    }

    /// Every corner refers to a vertex, every triangle has its facet
    /// normal, and no point is stored twice.
    pub open spec fn wf(&self) -> bool {
        &&& self.facet_normals@.len() == self.triangles@.len()
        &&& self.vertices@.no_duplicates()
        &&& self.indexed()
    }

    /// Whether every corner refers to a vertex.
    pub fn is_indexed(&self) -> (ok: bool)
        ensures
            ok == self.indexed(),
    {
        let n = self.vertices.len();
        let mut t: usize = 0;
        while t < self.triangles.len()
            invariant
                n == self.vertices@.len(),
                0 <= t <= self.triangles@.len(),
                forall|s: int, k: int|
                    0 <= s < t && 0 <= k < 3 ==> #[trigger] self.triangles@[s]@[k] < n,
            decreases self.triangles@.len() - t,
        {
            let triangle = &self.triangles[t];
            if triangle[0] >= n || triangle[1] >= n || triangle[2] >= n {
                return false;
            }
            assert forall|k: int| 0 <= k < 3 implies #[trigger] self.triangles@[t as int]@[k]
                < n by {
                assert(k == 0 || k == 1 || k == 2);
            }
            t += 1;
        }
        true
    }

    /// The number of triangles.
    pub fn triangle_count(&self) -> (n: usize)
        ensures
            n == self.triangles@.len(),
    {
        self.triangles.len()
    }

    /// The vertex at corner `k` of triangle `t`.
    pub fn corner(&self, t: usize, k: usize) -> (v: usize)
        requires
            t < self.triangles@.len(),
            k < 3,
        ensures
            v == self.triangles@[t as int]@[k as int],
    {
        self.triangles[t][k]
    }
}

} // verus!
