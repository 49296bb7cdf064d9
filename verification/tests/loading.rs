use devtools::mesh::stl::load_stl;
use devtools::mesh::{Coords, MeshError};

fn bits(x: f32, y: f32, z: f32) -> Coords {
    Coords { x: x.to_bits(), y: y.to_bits(), z: z.to_bits() }
}

fn push_triple(buf: &mut Vec<u8>, p: [f32; 3]) {
    for c in p {
        buf.extend_from_slice(&c.to_le_bytes());
    }
}

fn surface(declared: u32, facets: &[([f32; 3], [[f32; 3]; 3])]) -> Vec<u8> {
    let mut buf = vec![0x20u8; 80];
    buf.extend_from_slice(&declared.to_le_bytes());
    for (normal, corners) in facets {
        push_triple(&mut buf, *normal);
        for corner in corners {
            push_triple(&mut buf, *corner);
        }
        buf.extend_from_slice(&[0u8, 0u8]);
    }
    buf
}

fn right_triangle() -> Vec<u8> {
    surface(1, &[([0.0, 0.0, 1.0], [[0.0, 0.0, 0.0], [1.0, 0.0, 0.0], [0.0, 1.0, 0.0]])])
}

fn unit_cube() -> Vec<u8> {
    let p = [
        [0.0, 0.0, 0.0],
        [1.0, 0.0, 0.0],
        [1.0, 1.0, 0.0],
        [0.0, 1.0, 0.0],
        [0.0, 0.0, 1.0],
        [1.0, 0.0, 1.0],
        [1.0, 1.0, 1.0],
        [0.0, 1.0, 1.0],
    ];
    let quads: [([f32; 3], [usize; 4]); 6] = [
        ([0.0, 0.0, -1.0], [0, 3, 2, 1]),
        ([0.0, 0.0, 1.0], [4, 5, 6, 7]),
        ([0.0, -1.0, 0.0], [0, 1, 5, 4]),
        ([0.0, 1.0, 0.0], [3, 7, 6, 2]),
        ([-1.0, 0.0, 0.0], [0, 4, 7, 3]),
        ([1.0, 0.0, 0.0], [1, 2, 6, 5]),
    ];
    let mut facets = Vec::new();
    for (n, q) in quads {
        facets.push((n, [p[q[0]], p[q[1]], p[q[2]]]));
        facets.push((n, [p[q[0]], p[q[2]], p[q[3]]]));
    }
    surface(12, &facets)
}

#[test]
fn buffer_shorter_than_header_is_rejected() {
    let buf = vec![0u8; 83];
    assert_eq!(load_stl(&buf).unwrap_err(), MeshError::Format);
    assert_eq!(load_stl(&[]).unwrap_err(), MeshError::Format);
}

#[test]
fn missing_record_is_rejected() {
    let mut buf = right_triangle();
    buf[80] = 2;
    assert_eq!(load_stl(&buf).unwrap_err(), MeshError::Format);
}

#[test]
fn record_cut_in_its_padding_is_rejected() {
    let mut buf = right_triangle();
    buf.pop();
    assert_eq!(buf.len(), 84 + 49);
    assert_eq!(load_stl(&buf).unwrap_err(), MeshError::Format);
}

#[test]
fn huge_declared_count_is_rejected() {
    let mut buf = right_triangle();
    buf[80..84].copy_from_slice(&u32::MAX.to_le_bytes());
    assert_eq!(load_stl(&buf).unwrap_err(), MeshError::Format);
}

#[test]
fn empty_surface_loads_empty() {
    let buf = surface(0, &[]);
    let mesh = load_stl(&buf).unwrap();
    assert!(mesh.vertices.is_empty());
    assert!(mesh.triangles.is_empty());
    assert!(mesh.facet_normals.is_empty());
    assert_eq!(mesh.triangle_count(), 0);
}

#[test]
fn single_right_triangle_loads() {
    let mesh = load_stl(&right_triangle()).unwrap();
    assert_eq!(
        mesh.vertices,
        vec![bits(0.0, 0.0, 0.0), bits(1.0, 0.0, 0.0), bits(0.0, 1.0, 0.0)]
    );
    assert_eq!(mesh.triangles, vec![[0usize, 1, 2]]);
    assert_eq!(mesh.facet_normals, vec![bits(0.0, 0.0, 1.0)]);
    assert_eq!(mesh.triangle_count(), 1);
    assert_eq!(mesh.corner(0, 2), 2);
}

#[test]
fn numbers_are_read_least_significant_byte_first() {
    let mut buf = vec![0u8; 80];
    buf.extend_from_slice(&[1, 0, 0, 0]);
    let mut record = vec![0u8; 50];
    record[0..4].copy_from_slice(&[0x78, 0x56, 0x34, 0x12]);
    record[12..16].copy_from_slice(&[0x01, 0x02, 0x03, 0x04]);
    record[48] = 0xff;
    record[49] = 0xff;
    buf.extend_from_slice(&record);
    let mesh = load_stl(&buf).unwrap();
    assert_eq!(mesh.facet_normals[0], Coords { x: 0x12345678, y: 0, z: 0 });
    assert_eq!(mesh.vertices[0], Coords { x: 0x04030201, y: 0, z: 0 });
    assert_eq!(mesh.vertices, vec![Coords { x: 0x04030201, y: 0, z: 0 }, Coords { x: 0, y: 0, z: 0 }]);
    assert_eq!(mesh.triangles, vec![[0usize, 1, 1]]);
}

#[test]
fn header_content_is_ignored() {
    let mut buf = right_triangle();
    for (i, b) in buf.iter_mut().take(80).enumerate() {
        *b = i as u8;
    }
    let mesh = load_stl(&buf).unwrap();
    assert_eq!(mesh.triangles, vec![[0usize, 1, 2]]);
}

#[test]
fn bytes_after_the_last_record_are_ignored() {
    let mut buf = right_triangle();
    buf.extend_from_slice(&[7u8; 13]);
    let mesh = load_stl(&buf).unwrap();
    assert_eq!(mesh.vertices.len(), 3);
    assert_eq!(mesh.triangles, vec![[0usize, 1, 2]]);
}

#[test]
fn shared_corners_are_welded() {
    let a = [0.0, 0.0, 0.0];
    let b = [1.0, 0.0, 0.0];
    let c = [0.0, 1.0, 0.0];
    let d = [1.0, 1.0, 0.0];
    let n = [0.0, 0.0, 1.0];
    let buf = surface(2, &[(n, [a, b, c]), (n, [b, d, c])]);
    let mesh = load_stl(&buf).unwrap();
    assert_eq!(
        mesh.vertices,
        vec![bits(0.0, 0.0, 0.0), bits(1.0, 0.0, 0.0), bits(0.0, 1.0, 0.0), bits(1.0, 1.0, 0.0)]
    );
    assert_eq!(mesh.triangles, vec![[0usize, 1, 2], [1, 3, 2]]);
    assert_eq!(mesh.facet_normals.len(), 2);
}

#[test]
fn repeated_corner_within_one_triangle_is_welded() {
    let a = [2.0, 3.0, 4.0];
    let b = [5.0, 6.0, 7.0];
    let buf = surface(1, &[([0.0, 0.0, 0.0], [a, a, b])]);
    let mesh = load_stl(&buf).unwrap();
    assert_eq!(mesh.vertices, vec![bits(2.0, 3.0, 4.0), bits(5.0, 6.0, 7.0)]);
    assert_eq!(mesh.triangles, vec![[0usize, 0, 1]]);
}

#[test]
fn points_are_compared_by_bit_pattern() {
    let buf = surface(
        1,
        &[([0.0, 0.0, 1.0], [[0.0, 0.0, 0.0], [-0.0, 0.0, 0.0], [f32::NAN, 0.0, 0.0]])],
    );
    let mesh = load_stl(&buf).unwrap();
    assert_eq!(mesh.vertices.len(), 3);
    let again = surface(
        2,
        &[
            ([0.0, 0.0, 1.0], [[f32::NAN, 0.0, 0.0], [1.0, 0.0, 0.0], [2.0, 0.0, 0.0]]),
            ([0.0, 0.0, 1.0], [[f32::NAN, 0.0, 0.0], [1.0, 0.0, 0.0], [3.0, 0.0, 0.0]]),
        ],
    );
    let mesh = load_stl(&again).unwrap();
    assert_eq!(mesh.vertices.len(), 4);
    assert_eq!(mesh.triangles, vec![[0usize, 1, 2], [0, 1, 3]]);
}

#[test]
fn unit_cube_has_eight_vertices() {
    let mesh = load_stl(&unit_cube()).unwrap();
    assert_eq!(mesh.triangles.len(), 12);
    assert_eq!(mesh.facet_normals.len(), 12);
    assert_eq!(mesh.vertices.len(), 8);
}

#[test]
fn welded_vertices_are_bounded_and_indices_valid() {
    for buf in [right_triangle(), unit_cube(), surface(0, &[])] {
        let mesh = load_stl(&buf).unwrap();
        assert!(mesh.vertices.len() <= 3 * mesh.triangles.len());
        for t in &mesh.triangles {
            for k in 0..3 {
                assert!(t[k] < mesh.vertices.len());
            }
        }
        for (i, a) in mesh.vertices.iter().enumerate() {
            for b in mesh.vertices.iter().skip(i + 1) {
                assert_ne!(a, b);
            }
        }
    }
}

#[test]
fn distinct_corners_are_never_merged() {
    let mut facets = Vec::new();
    for t in 0..40 {
        let base = (9 * t) as f32;
        facets.push((
            [0.0, 0.0, 1.0],
            [
                [base, base + 1.0, base + 2.0],
                [base + 3.0, base + 4.0, base + 5.0],
                [base + 6.0, base + 7.0, base + 8.0],
            ],
        ));
    }
    let mesh = load_stl(&surface(40, &facets)).unwrap();
    assert_eq!(mesh.vertices.len(), 120);
    for (t, tri) in mesh.triangles.iter().enumerate() {
        assert_eq!(*tri, [3 * t, 3 * t + 1, 3 * t + 2]);
    }
}

#[test]
fn every_repetition_is_merged() {
    let p = [1.5, -2.5, 3.25];
    let mut facets = Vec::new();
    for _ in 0..25 {
        facets.push(([0.0, 1.0, 0.0], [p, p, p]));
    }
    let mesh = load_stl(&surface(25, &facets)).unwrap();
    assert_eq!(mesh.vertices, vec![bits(1.5, -2.5, 3.25)]);
    assert!(mesh.triangles.iter().all(|t| *t == [0, 0, 0]));
}

#[test]
fn corners_keep_their_points_after_welding() {
    let buf = unit_cube();
    let mesh = load_stl(&buf).unwrap();
    for (t, tri) in mesh.triangles.iter().enumerate() {
        for k in 0..3 {
            let at = 84 + 50 * t + 12 * (k + 1);
            let x = u32::from_le_bytes(buf[at..at + 4].try_into().unwrap());
            let y = u32::from_le_bytes(buf[at + 4..at + 8].try_into().unwrap());
            let z = u32::from_le_bytes(buf[at + 8..at + 12].try_into().unwrap());
            assert_eq!(mesh.vertices[tri[k]], Coords { x, y, z });
        }
    }
}
