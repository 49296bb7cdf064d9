//! The binary surface format: an ignored header, a little-endian triangle
//! count, and one fixed-size record per triangle holding a facet normal,
//! three corner points and two bytes of padding.

use vstd::prelude::*;
use vstd::slice::slice_subrange;
use vstd::std_specs::hash::DefaultHasherAdditionalSpecFns;
use std::collections::HashMap;
use std::collections::hash_map::DefaultHasher;
use std::hash::Hasher;
use byteorder::{ByteOrder, LittleEndian};
use crate::mesh::{Coords, Mesh, MeshError};
use crate::mesh::weld::{
    weld, weld_step, lemma_weld_take, lemma_weld_distinct, lemma_weld_of_distinct,
};

verus! {

/// Bytes before the triangle count; their content is not read.
pub const HEADER_LEN: usize = 80;

/// Bytes before the first facet record.
pub const RECORDS_START: usize = 84;

/// Bytes of one facet record.
pub const RECORD_LEN: usize = 50;

/// Bytes of one coordinate triple.
pub const COORDS_LEN: usize = 12;

/// The number whose little-endian representation is the first four bytes
/// of `bytes`.
pub open spec fn le_u32(bytes: Seq<u8>) -> u32
    recommends
        bytes.len() >= 4,
{
    (bytes[0] as int + 0x100 * (bytes[1] as int) + 0x1_0000 * (bytes[2] as int) + 0x100_0000 * (
    bytes[3] as int)) as u32
}

/// The little-endian number at offset `at` of `buf`.
pub open spec fn u32_at(buf: Seq<u8>, at: int) -> u32
    recommends
        0 <= at,
        at + 4 <= buf.len(),
{
    le_u32(buf.subrange(at, at + 4))
}

/// The coordinate triple at offset `at` of `buf`.
pub open spec fn coords_at(buf: Seq<u8>, at: int) -> Coords
    recommends
        0 <= at,
        at + COORDS_LEN <= buf.len(),
{
    Coords { x: u32_at(buf, at), y: u32_at(buf, at + 4), z: u32_at(buf, at + 8) }
}

/// The triangle count that `buf` announces.
pub open spec fn declared_triangles(buf: Seq<u8>) -> nat
    recommends
        buf.len() >= RECORDS_START,
{
    u32_at(buf, HEADER_LEN as int) as nat
}

/// Offset of the record of triangle `t`.
pub open spec fn record_start(t: int) -> int {
    RECORDS_START + RECORD_LEN * t
}

/// `buf` holds the header, the count and every record it announces.
/// Bytes after the last record are allowed and ignored.
pub open spec fn is_complete(buf: Seq<u8>) -> bool {
    &&& buf.len() >= RECORDS_START
    &&& buf.len() >= record_start(declared_triangles(buf) as int)
}

/// The facet normal stored with triangle `t`.
pub open spec fn facet_normal(buf: Seq<u8>, t: int) -> Coords {
    coords_at(buf, record_start(t))
}

/// Corner `k` (0, 1 or 2) of triangle `t`, as stored.
pub open spec fn facet_corner(buf: Seq<u8>, t: int, k: int) -> Coords {
    coords_at(buf, record_start(t) + COORDS_LEN * (k + 1))
}

/// The facet normals of all triangles, in file order.
pub open spec fn facet_normals(buf: Seq<u8>) -> Seq<Coords> {
    Seq::new(declared_triangles(buf), |t: int| facet_normal(buf, t))
}

/// The corner points of all triangles, in file order: three per triangle.
pub open spec fn corner_points(buf: Seq<u8>) -> Seq<Coords> {
    Seq::new(3 * declared_triangles(buf), |j: int| facet_corner(buf, j / 3, j % 3))
}

/// `mesh` is what `buf` describes: its vertices are the welded corner
/// points, each triangle names the vertices that equal its stored corners,
/// and the facet normals are those stored.
pub open spec fn describes(buf: Seq<u8>, mesh: Mesh) -> bool {
    &&& mesh.vertices@ == weld(corner_points(buf))
    &&& mesh.triangles@.len() == declared_triangles(buf)
    &&& mesh.facet_normals@ == facet_normals(buf)
    &&& forall|t: int, k: int|
        0 <= t < mesh.triangles@.len() && 0 <= k < 3 ==> {
            &&& (#[trigger] mesh.triangles@[t]@[k]) < mesh.vertices@.len()
            &&& mesh.vertices@[mesh.triangles@[t]@[k] as int] == facet_corner(buf, t, k)
        }
}

/// Reads four bytes as a little-endian number with
/// `byteorder::LittleEndian::read_u32`, which decodes the first four bytes
/// of the slice it is given and panics on a shorter one.
#[verifier::external_body]
fn read_u32_le(bytes: &[u8]) -> (v: u32)
    requires
        bytes@.len() >= 4,
    ensures
        v == le_u32(bytes@),
{
    LittleEndian::read_u32(bytes)
}

/// Reads the little-endian number at offset `at`.
fn read_u32_at(buf: &[u8], at: usize) -> (v: u32)
    requires
        at + 4 <= buf.len(),
    ensures
        v == u32_at(buf@, at as int),
{
    read_u32_le(slice_subrange(buf, at, at + 4))
}

/// Reads the coordinate triple at offset `at`.
fn read_coords_at(buf: &[u8], at: usize) -> (p: Coords)
    requires
        at + COORDS_LEN <= buf.len(),
    ensures
        p == coords_at(buf@, at as int),
{
    Coords { x: read_u32_at(buf, at), y: read_u32_at(buf, at + 4), z: read_u32_at(buf, at + 8) }
}

/// The four bytes of `v`, most significant first.
pub open spec fn be_bytes(v: u32) -> Seq<u8> {
    seq![(v >> 24) as u8, (v >> 16) as u8, (v >> 8) as u8, v as u8]
}

/// The content hash under which a point is filed while welding.
pub open spec fn point_hash(p: Coords) -> u64 {
    DefaultHasher::spec_finish(seq![be_bytes(p.x), be_bytes(p.y), be_bytes(p.z)])
}

/// The four bytes of `v`, most significant first.
fn to_be_bytes(v: u32) -> (bytes: [u8; 4])
    ensures
        bytes@ == be_bytes(v),
{
    let bytes: [u8; 4] = [
        #[verifier::truncate]
        ((v >> 24) as u8),
        #[verifier::truncate]
        ((v >> 16) as u8),
        #[verifier::truncate]
        ((v >> 8) as u8),
        #[verifier::truncate]
        (v as u8),
    ];
    assert(bytes@ =~= be_bytes(v));
    bytes
}

/// Computes the content hash of a point.
fn hash_point(p: Coords) -> (h: u64)
    ensures
        h == point_hash(p),
{
    let mut hasher = DefaultHasher::new();
    let x = to_be_bytes(p.x);
    let y = to_be_bytes(p.y);
    let z = to_be_bytes(p.z);
    hasher.write(x.as_slice());
    hasher.write(y.as_slice());
    hasher.write(z.as_slice());
    proof {
        assert(hasher@ =~= seq![be_bytes(p.x), be_bytes(p.y), be_bytes(p.z)]);
    }
    hasher.finish()
}

/// The buckets file every stored vertex under its hash, and every entry
/// of a bucket is the index of a stored vertex.
spec fn files(buckets: Map<u64, Vec<usize>>, vertices: Seq<Coords>) -> bool {
    &&& forall|i: int|
        #![trigger vertices[i]]
        0 <= i < vertices.len() ==> buckets.contains_key(point_hash(vertices[i]))
            && buckets[point_hash(vertices[i])]@.contains(i as usize)
    &&& forall|h: u64, j: int|
        buckets.contains_key(h) && 0 <= j < buckets[h]@.len() ==> (#[trigger] buckets[h]@[j])
            < vertices.len()
}

/// Finds `p` among the stored vertices, or stores it as a new one, and
/// returns its index either way.
fn weld_point(
    vertices: &mut Vec<Coords>,
    buckets: &mut HashMap<u64, Vec<usize>>,
    p: Coords,
) -> (idx: usize)
    requires
        old(vertices)@.no_duplicates(),
        files(old(buckets)@, old(vertices)@),
    ensures
        final(vertices)@ == weld_step(old(vertices)@, p),
        final(vertices)@.no_duplicates(),
        files(final(buckets)@, final(vertices)@),
        idx < final(vertices)@.len(),
        final(vertices)@[idx as int] == p,
{
    let h = hash_point(p);
    let ghost filed = buckets@;
    let mut bucket = match buckets.remove(&h) {
        Some(b) => b,
        None => Vec::new(),
    };
    assert(filed.contains_key(h) ==> bucket == filed[h]);
    assert(!filed.contains_key(h) ==> bucket@.len() == 0);
    let mut found: Option<usize> = None;
    let mut j: usize = 0;
    while j < bucket.len()
        invariant_except_break
            found is None,
            forall|b: int| 0 <= b < j ==> vertices@[(#[trigger] bucket@[b]) as int] != p,
        invariant
            0 <= j <= bucket@.len(),
            forall|b: int| 0 <= b < bucket@.len() ==> (#[trigger] bucket@[b]) < vertices@.len(),
        ensures
            found matches Some(i) ==> i < vertices@.len() && vertices@[i as int] == p,
            found is None ==> forall|b: int|
                0 <= b < bucket@.len() ==> vertices@[(#[trigger] bucket@[b]) as int] != p,
        decreases bucket@.len() - j,
    {
        let candidate = bucket[j];
        if vertices[candidate] == p {
            found = Some(candidate);
            break ;
        }
        j += 1;
    }
    let idx = match found {
        Some(i) => i,
        None => {
            proof {
                if vertices@.contains(p) {
                    let i = choose|i: int| 0 <= i < vertices@.len() && vertices@[i] == p;
                    assert(filed[h]@.contains(i as usize));
                    let b = choose|b: int| 0 <= b < bucket@.len() && bucket@[b] == i as usize;
                    assert(vertices@[bucket@[b] as int] != p);
                }
            }
            let i = vertices.len();
            vertices.push(p);
            bucket.push(i);
            assert(bucket@[bucket@.len() - 1] == i);
            i
        },
    };
    proof {
        let ghost stored = vertices@;
        assert forall|i: int| 0 <= i < stored.len() implies bucket_holds(
            filed,
            h,
            bucket@,
            #[trigger] stored[i],
            i,
        ) by {
            if i < old(vertices)@.len() {
                assert(stored[i] == old(vertices)@[i]);
                if point_hash(stored[i]) == h {
                    let b = choose|b: int|
                        0 <= b < filed[h]@.len() && filed[h]@[b] == i as usize;
                    assert(bucket@[b] == i as usize);
                }
            } else {
                assert(bucket@[bucket@.len() - 1] == i as usize);
            }
        }
    }
    buckets.insert(h, bucket);
    idx
}

/// Vertex `i`, which is the point `v`, is filed: in `bucket` where its hash
/// is `h`, in the bucket that `filed` keeps for its hash otherwise.
spec fn bucket_holds(
    filed: Map<u64, Vec<usize>>,
    h: u64,
    bucket: Seq<usize>,
    v: Coords,
    i: int,
) -> bool {
    if point_hash(v) == h {
        bucket.contains(i as usize)
    } else {
        filed.contains_key(point_hash(v)) && filed[point_hash(v)]@.contains(i as usize)
    }
}

/// Parses a binary surface description and welds its corner points.
///
/// Succeeds exactly on buffers that hold every record they announce. The
/// mesh then has the distinct corner points as vertices, in order of first
/// appearance, one triangle per record with its corners in stored order,
/// and the stored facet normals.
pub fn load_stl(buffer: &[u8]) -> (res: Result<Mesh, MeshError>)
    ensures
        res is Ok <==> is_complete(buffer@),
        res matches Err(e) ==> e == MeshError::Format,
        res matches Ok(mesh) ==> describes(buffer@, mesh) && mesh.wf(),
        res matches Ok(mesh) ==> mesh.vertices@.len() <= 3 * mesh.triangles@.len(),
{
    if buffer.len() < RECORDS_START {
        return Err(MeshError::Format);
    }
    let declared = read_u32_at(buffer, HEADER_LEN);
    let needed: u64 = 84 + 50 * (declared as u64);
    if (buffer.len() as u64) < needed {
        return Err(MeshError::Format);
    }
    let count = declared as usize;
    let ghost buf = buffer@;
    let ghost corners = corner_points(buf);
    let mut vertices: Vec<Coords> = Vec::new();
    let mut triangles: Vec<[usize; 3]> = Vec::new();
    let mut normals: Vec<Coords> = Vec::new();
    let mut buckets: HashMap<u64, Vec<usize>> = HashMap::new();
    assert(corners.take(0) =~= Seq::<Coords>::empty());
    let mut t: usize = 0;
    while t < count
        invariant
            buf == buffer@,
            corners == corner_points(buf),
            count == declared_triangles(buf),
            RECORDS_START + RECORD_LEN * count <= buffer.len(),
            0 <= t <= count,
            triangles@.len() == t,
            normals@.len() == t,
            forall|s: int| 0 <= s < t ==> #[trigger] normals@[s] == facet_normal(buf, s),
            vertices@ == weld(corners.take(3 * t)),
            vertices@.no_duplicates(),
            files(buckets@, vertices@),
            forall|s: int, k: int|
                0 <= s < t && 0 <= k < 3 ==> {
                    &&& (#[trigger] triangles@[s]@[k]) < vertices@.len()
                    &&& vertices@[triangles@[s]@[k] as int] == facet_corner(buf, s, k)
                },
        decreases count - t,
    {
        let start = RECORDS_START + RECORD_LEN * t;
        let normal = read_coords_at(buffer, start);
        let mut triangle: [usize; 3] = [0, 0, 0];
        let mut k: usize = 0;
        while k < 3
            invariant
                buf == buffer@,
                corners == corner_points(buf),
                count == declared_triangles(buf),
                RECORDS_START + RECORD_LEN * count <= buffer.len(),
                0 <= t < count,
                start == RECORDS_START + RECORD_LEN * t,
                0 <= k <= 3,
                triangles@.len() == t,
                vertices@ == weld(corners.take(3 * t + k)),
                vertices@.no_duplicates(),
                files(buckets@, vertices@),
                forall|s: int, k: int|
                    0 <= s < t && 0 <= k < 3 ==> {
                        &&& (#[trigger] triangles@[s]@[k]) < vertices@.len()
                        &&& vertices@[triangles@[s]@[k] as int] == facet_corner(buf, s, k)
                    },
                forall|c: int|
                    0 <= c < k ==> {
                        &&& (#[trigger] triangle@[c]) < vertices@.len()
                        &&& vertices@[triangle@[c] as int] == facet_corner(buf, t as int, c)
                    },
            decreases 3 - k,
        {
            let p = read_coords_at(buffer, start + COORDS_LEN * (k + 1));
            let ghost stored = vertices@;
            proof {
                let j = 3 * t + k;
                assert(j / 3 == t && j % 3 == k);
                assert(corners[j] == p);
                lemma_weld_take(corners, j);
            }
            let idx = weld_point(&mut vertices, &mut buckets, p);
            proof {
                assert forall|i: int| 0 <= i < stored.len() implies vertices@[i] == stored[i] by {}
            }
            triangle[k] = idx;
            k += 1;
        }
        proof {
            assert(3 * t + 3 == 3 * (t + 1));
        }
        triangles.push(triangle);
        normals.push(normal);
        t += 1;
    }
    proof {
        assert(corners.take(3 * count) =~= corners);
        lemma_weld_distinct(corners);
        assert(normals@ =~= facet_normals(buf));
    }
    Ok(Mesh { vertices, triangles, facet_normals: normals })
}

/// Two corners share a vertex exactly when they are the same point:
/// welding merges every repetition of a point and never merges two points
/// that differ.
pub proof fn lemma_shared_vertex_iff_same_point(
    buf: Seq<u8>,
    mesh: Mesh,
    t1: int,
    k1: int,
    t2: int,
    k2: int,
)
    requires
        describes(buf, mesh),
        0 <= t1 < mesh.triangles@.len(),
        0 <= k1 < 3,
        0 <= t2 < mesh.triangles@.len(),
        0 <= k2 < 3,
    ensures
        mesh.triangles@[t1]@[k1] == mesh.triangles@[t2]@[k2] <==> facet_corner(buf, t1, k1)
            == facet_corner(buf, t2, k2),
{
    lemma_weld_distinct(corner_points(buf));
    let i1 = mesh.triangles@[t1]@[k1];
    let i2 = mesh.triangles@[t2]@[k2];
    assert(mesh.vertices@[i1 as int] == facet_corner(buf, t1, k1));
    assert(mesh.vertices@[i2 as int] == facet_corner(buf, t2, k2));
}

/// A description whose corner points are pairwise distinct loads without
/// any merge: there are three vertices per triangle, the vertices are the
/// corner points in stored order, and corner `k` of triangle `t` is vertex
/// `3 * t + k`.
pub proof fn lemma_distinct_corners_load_unmerged(buf: Seq<u8>, mesh: Mesh)
    requires
        describes(buf, mesh),
        corner_points(buf).no_duplicates(),
    ensures
        mesh.vertices@ == corner_points(buf),
        mesh.vertices@.len() == 3 * mesh.triangles@.len(),
        forall|t: int, k: int|
            0 <= t < mesh.triangles@.len() && 0 <= k < 3 ==> (#[trigger] mesh.triangles@[t]@[k])
                == 3 * t + k,
{
    let corners = corner_points(buf);
    lemma_weld_of_distinct(corners);
    assert forall|t: int, k: int| 0 <= t < mesh.triangles@.len() && 0 <= k < 3 implies (
    #[trigger] mesh.triangles@[t]@[k]) == 3 * t + k by {
        let i = mesh.triangles@[t]@[k] as int;
        let j = 3 * t + k;
        assert(j / 3 == t && j % 3 == k);
        assert(corners[j] == facet_corner(buf, t, k));
        assert(corners[i] == corners[j]);
    }
}

/// A buffer describes at most one mesh.
pub proof fn lemma_description_is_unique(buf: Seq<u8>, a: Mesh, b: Mesh)
    requires
        describes(buf, a),
        describes(buf, b),
    ensures
        a.vertices@ == b.vertices@,
        a.facet_normals@ == b.facet_normals@,
        a.triangles@.len() == b.triangles@.len(),
        forall|t: int| 0 <= t < a.triangles@.len() ==> (#[trigger] a.triangles@[t])@ == b.triangles@[t]@,
{
    lemma_weld_distinct(corner_points(buf));
    assert forall|t: int| 0 <= t < a.triangles@.len() implies (#[trigger] a.triangles@[t])@
        == b.triangles@[t]@ by {
        assert forall|k: int| 0 <= k < 3 implies a.triangles@[t]@[k] == b.triangles@[t]@[k] by {
            let i = a.triangles@[t]@[k];
            let j = b.triangles@[t]@[k];
            assert(a.vertices@[i as int] == facet_corner(buf, t, k));
            assert(b.vertices@[j as int] == facet_corner(buf, t, k));
        }
        assert(a.triangles@[t]@ =~= b.triangles@[t]@);
    }
}

} // verus!
