use devtools::chance::number_from;
use devtools::mesh::ranking::Share;
use devtools::order::ranking;
use devtools::mesh::sampling::{
    allocate_samples, draw_samples, place_in, sample_owners, sample_plan, sample_point, Sample,
    UNIT,
};
use devtools::mesh::stl::load_stl;
use devtools::mesh::MeshError;

fn share(ideal: f64) -> Share {
    let whole = ideal.floor();
    Share { whole: whole as usize, rest: (ideal - whole).to_bits() }
}

fn shares_of(sample_count: usize, areas: &[f64]) -> Vec<Share> {
    let total: f64 = areas.iter().sum();
    areas.iter().map(|a| share(sample_count as f64 * a / total)).collect()
}

#[test]
fn no_triangles_and_no_samples_is_empty() {
    assert_eq!(allocate_samples(0, &vec![]), Ok(vec![]));
}

#[test]
fn samples_without_triangles_are_refused() {
    assert_eq!(allocate_samples(1, &vec![]), Err(MeshError::DegenerateGeometry));
    assert_eq!(allocate_samples(1000, &vec![]), Err(MeshError::DegenerateGeometry));
}

#[test]
fn zero_samples_give_zero_everywhere() {
    let shares = shares_of(0, &[0.5; 12]);
    assert_eq!(allocate_samples(0, &shares), Ok(vec![0; 12]));
}

#[test]
fn single_triangle_takes_everything() {
    let shares = shares_of(1000, &[0.5]);
    assert_eq!(allocate_samples(1000, &shares), Ok(vec![1000]));
}

#[test]
fn missing_samples_go_to_largest_rests() {
    // ideal shares 4.5, 3.3, 2.2: wholes 4 + 3 + 2, one sample missing
    let shares = vec![share(4.5), share(3.3), share(2.2)];
    assert_eq!(allocate_samples(10, &shares), Ok(vec![5, 3, 2]));
    // wholes 1 + 1 + 1 + 2 + 2, three missing: rests .8, .7 and .6 are served
    let shares = vec![share(1.4), share(1.8), share(1.7), share(2.6), share(2.5)];
    assert_eq!(allocate_samples(10, &shares), Ok(vec![1, 2, 2, 3, 2]));
}

#[test]
fn equal_rests_are_served_in_triangle_order() {
    let shares = vec![share(1.5), share(1.5), share(1.5), share(1.5)];
    assert_eq!(allocate_samples(6, &shares), Ok(vec![2, 2, 1, 1]));
    let thirds = shares_of(10, &[1.0, 1.0, 1.0]);
    assert_eq!(allocate_samples(10, &thirds), Ok(vec![4, 3, 3]));
}

#[test]
fn exact_shares_need_no_extra() {
    let shares = shares_of(12, &[1.0, 2.0, 3.0]);
    assert_eq!(allocate_samples(12, &shares), Ok(vec![2, 4, 6]));
}

#[test]
fn fewer_samples_than_triangles() {
    let shares = shares_of(3, &[1.0, 5.0, 2.0, 4.0, 3.0, 1.0, 1.0, 1.0]);
    let counts = allocate_samples(3, &shares).unwrap();
    assert_eq!(counts.iter().sum::<usize>(), 3);
    assert_eq!(counts, vec![0, 1, 0, 1, 1, 0, 0, 0]);
}

#[test]
fn many_more_samples_than_triangles() {
    let areas = [0.3, 1.7, 2.9, 0.01, 5.5, 0.09];
    for s in [1usize, 7, 100, 1001, 123_456, 10_000_019] {
        let shares = shares_of(s, &areas);
        let counts = allocate_samples(s, &shares).unwrap();
        assert_eq!(counts.len(), areas.len());
        assert_eq!(counts.iter().sum::<usize>(), s);
        for (c, sh) in counts.iter().zip(&shares) {
            assert!(*c == sh.whole || *c == sh.whole + 1);
        }
    }
}

#[test]
fn total_is_exact_over_many_triangles() {
    let mut areas = Vec::new();
    let mut x: u64 = 88172645463325252;
    for _ in 0..5000 {
        x ^= x << 13;
        x ^= x >> 7;
        x ^= x << 17;
        areas.push((x % 10_000) as f64 / 7.0 + 0.001);
    }
    for s in [0usize, 1, 4999, 5000, 5001, 77_777] {
        let shares = shares_of(s, &areas);
        let counts = allocate_samples(s, &shares).unwrap();
        assert_eq!(counts.iter().sum::<usize>(), s);
    }
}

#[test]
fn wholes_beyond_the_budget_are_cut_in_order() {
    let shares = vec![
        Share { whole: 4, rest: 0 },
        Share { whole: 4, rest: 9 },
        Share { whole: 4, rest: 5 },
    ];
    assert_eq!(allocate_samples(6, &shares), Ok(vec![4, 2, 0]));
    assert_eq!(allocate_samples(12, &shares), Ok(vec![4, 4, 4]));
}

#[test]
fn more_missing_than_triangles_goes_round() {
    let shares = vec![
        Share { whole: 1, rest: 1 },
        Share { whole: 0, rest: 3 },
        Share { whole: 2, rest: 2 },
    ];
    // wholes sum to 3; 8 are missing: two each all round, two more by rest
    assert_eq!(allocate_samples(11, &shares), Ok(vec![3, 3, 5]));
    // exactly one round
    assert_eq!(allocate_samples(6, &shares), Ok(vec![2, 1, 3]));
}

#[test]
fn ranking_orders_by_rest_then_index() {
    let shares = vec![
        Share { whole: 0, rest: 5 },
        Share { whole: 9, rest: 7 },
        Share { whole: 0, rest: 5 },
        Share { whole: 0, rest: 0 },
        Share { whole: 3, rest: 7 },
        Share { whole: 0, rest: u64::MAX },
    ];
    assert_eq!(ranking(&shares), vec![5, 1, 4, 0, 2, 3]);
    assert_eq!(ranking(&vec![]), Vec::<usize>::new());
    assert_eq!(ranking(&vec![Share { whole: 1, rest: 1 }]), vec![0]);
}

#[test]
fn ranking_is_an_arrangement() {
    let mut shares = Vec::new();
    let mut x: u64 = 0x9E3779B97F4A7C15;
    for _ in 0..1000 {
        x = x.wrapping_mul(6364136223846793005).wrapping_add(1442695040888963407);
        shares.push(Share { whole: 0, rest: (x >> 60) });
    }
    let order = ranking(&shares);
    let mut seen = vec![false; shares.len()];
    for i in &order {
        assert!(!seen[*i]);
        seen[*i] = true;
    }
    assert!(seen.iter().all(|s| *s));
    for w in order.windows(2) {
        let (a, b) = (w[0], w[1]);
        assert!(
            shares[a].rest > shares[b].rest || (shares[a].rest == shares[b].rest && a < b)
        );
    }
}

#[test]
fn owners_follow_the_counts() {
    assert_eq!(sample_owners(&vec![2, 0, 3, 1]), vec![0, 0, 2, 2, 2, 3]);
    assert_eq!(sample_owners(&vec![]), Vec::<usize>::new());
    assert_eq!(sample_owners(&vec![0, 0]), Vec::<usize>::new());
}

#[test]
fn plan_holds_exactly_the_samples_asked_for() {
    let areas = [2.5, 0.1, 7.0, 3.3, 0.0, 1.0];
    for s in [0usize, 1, 5, 6, 7, 1000, 99_999] {
        let owners = sample_plan(s, &shares_of(s, &areas)).unwrap();
        assert_eq!(owners.len(), s);
        assert!(owners.windows(2).all(|w| w[0] <= w[1]));
        assert!(owners.iter().all(|t| *t < areas.len() && *t != 4));
    }
    assert_eq!(sample_plan(4, &vec![share(1.5), share(2.5)]), Ok(vec![0, 0, 1, 1]));
    assert_eq!(sample_plan(0, &vec![]), Ok(vec![]));
    assert_eq!(sample_plan(3, &vec![]), Err(MeshError::DegenerateGeometry));
}

fn surface(facets: &[[[f32; 3]; 4]]) -> Vec<u8> {
    let mut buf = vec![0u8; 80];
    buf.extend_from_slice(&(facets.len() as u32).to_le_bytes());
    for facet in facets {
        for triple in facet {
            for c in triple {
                buf.extend_from_slice(&c.to_le_bytes());
            }
        }
        buf.extend_from_slice(&[0, 0]);
    }
    buf
}

fn areas_of(buf: &[u8]) -> Vec<f64> {
    let mesh = load_stl(buf).unwrap();
    let point = |i: usize| {
        let c = mesh.vertices[i];
        [f32::from_bits(c.x) as f64, f32::from_bits(c.y) as f64, f32::from_bits(c.z) as f64]
    };
    mesh.triangles
        .iter()
        .map(|t| {
            let (a, b, c) = (point(t[0]), point(t[1]), point(t[2]));
            let u = [b[0] - a[0], b[1] - a[1], b[2] - a[2]];
            let v = [c[0] - a[0], c[1] - a[1], c[2] - a[2]];
            let n = [u[1] * v[2] - u[2] * v[1], u[2] * v[0] - u[0] * v[2], u[0] * v[1] - u[1] * v[0]];
            (n[0] * n[0] + n[1] * n[1] + n[2] * n[2]).sqrt() / 2.0
        })
        .collect()
}

#[test]
fn right_triangle_takes_a_thousand_samples() {
    let buf = surface(&[[[0., 0., 1.], [0., 0., 0.], [1., 0., 0.], [0., 1., 0.]]]);
    let areas = areas_of(&buf);
    assert_eq!(areas, vec![0.5]);
    let owners = sample_plan(1000, &shares_of(1000, &areas)).unwrap();
    assert_eq!(owners, vec![0; 1000]);
}

#[test]
fn unit_cube_without_samples_gives_an_empty_plan() {
    let p: [[f32; 3]; 8] = [
        [0., 0., 0.],
        [1., 0., 0.],
        [1., 1., 0.],
        [0., 1., 0.],
        [0., 0., 1.],
        [1., 0., 1.],
        [1., 1., 1.],
        [0., 1., 1.],
    ];
    let quads: [[usize; 4]; 6] =
        [[0, 3, 2, 1], [4, 5, 6, 7], [0, 1, 5, 4], [3, 7, 6, 2], [0, 4, 7, 3], [1, 2, 6, 5]];
    let mut facets = Vec::new();
    for q in quads {
        facets.push([[0., 0., 0.], p[q[0]], p[q[1]], p[q[2]]]);
        facets.push([[0., 0., 0.], p[q[0]], p[q[2]], p[q[3]]]);
    }
    let buf = surface(&facets);
    let mesh = load_stl(&buf).unwrap();
    assert_eq!((mesh.triangles.len(), mesh.vertices.len()), (12, 8));
    let areas = areas_of(&buf);
    assert!(areas.iter().all(|a| *a == 0.5));
    assert_eq!(allocate_samples(0, &shares_of(0, &areas)), Ok(vec![0; 12]));
    assert!(sample_plan(0, &shares_of(0, &areas)).unwrap().is_empty());
    let counts = allocate_samples(30, &shares_of(30, &areas)).unwrap();
    assert_eq!(counts, vec![3, 3, 3, 3, 3, 3, 2, 2, 2, 2, 2, 2]);
}

#[test]
fn places_are_folded_into_the_triangle() {
    assert_eq!(UNIT, 1 << 53);
    assert_eq!(place_in(3, 0, 0), Sample { triangle: 3, s: 0, t: 0 });
    // a quarter and a half stay where they are
    assert_eq!(place_in(0, 1 << 62, 1 << 63), Sample { triangle: 0, s: UNIT / 4, t: UNIT / 2 });
    // three quarters and a half are mirrored to a quarter and a half
    assert_eq!(place_in(0, 3 << 62, 1 << 63), Sample { triangle: 0, s: UNIT / 4, t: UNIT / 2 });
    // one half and one half lie on the edge and are not mirrored
    assert_eq!(place_in(1, 1 << 63, 1 << 63), Sample { triangle: 1, s: UNIT / 2, t: UNIT / 2 });
    // the largest numbers are mirrored to the smallest step
    assert_eq!(place_in(9, u64::MAX, u64::MAX), Sample { triangle: 9, s: 1, t: 1 });
    // the low bits play no part
    assert_eq!(place_in(0, 2047, 2047), Sample { triangle: 0, s: 0, t: 0 });
    assert_eq!(place_in(0, 2048, 0), Sample { triangle: 0, s: 1, t: 0 });
    // one step over the edge
    assert_eq!(
        place_in(0, (1 << 63) + 2048, 1 << 63),
        Sample { triangle: 0, s: UNIT / 2 - 1, t: UNIT / 2 }
    );
}

#[test]
fn drawn_places_lie_in_their_triangles() {
    let owners = vec![0, 0, 1, 4, 4, 4, 7];
    let samples = draw_samples(&owners);
    assert_eq!(samples.iter().map(|s| s.triangle).collect::<Vec<_>>(), owners);
    assert!(samples.iter().all(|s| s.s + s.t <= UNIT));
    let many = draw_samples(&vec![2; 5000]);
    assert_eq!(many.len(), 5000);
    assert!(many.iter().all(|s| s.triangle == 2 && s.s <= UNIT && s.t <= UNIT && s.s + s.t <= UNIT));
    // the draws differ from each other and cover the triangle
    assert!(many.iter().any(|s| s.s > UNIT / 2));
    assert!(many.iter().any(|s| s.t > UNIT / 2));
    assert!(many.iter().any(|s| s.s < UNIT / 4 && s.t < UNIT / 4));
    assert!(many.windows(2).any(|w| w[0] != w[1]));
}

#[test]
fn surface_is_sampled_exactly() {
    let areas = [1.0, 3.0, 0.5];
    for s in [0usize, 1, 2, 9, 1000] {
        let samples = sample_point(s, &shares_of(s, &areas)).unwrap();
        assert_eq!(samples.len(), s);
        assert!(samples.iter().all(|p| p.s + p.t <= UNIT));
        assert!(samples.windows(2).all(|w| w[0].triangle <= w[1].triangle));
        let counts = allocate_samples(s, &shares_of(s, &areas)).unwrap();
        for (t, c) in counts.iter().enumerate() {
            assert_eq!(samples.iter().filter(|p| p.triangle == t).count(), *c);
        }
    }
    assert_eq!(sample_point(0, &vec![]), Ok(vec![]));
    assert_eq!(sample_point(5, &vec![]), Err(MeshError::DegenerateGeometry));
}

#[test]
fn number_is_made_of_the_first_eight_bytes() {
    assert_eq!(number_from(&[0; 16]), 0);
    assert_eq!(number_from(&[0xff; 16]), u64::MAX);
    let bytes: [u8; 16] = [1, 2, 3, 4, 5, 6, 7, 8, 9, 10, 11, 12, 13, 14, 15, 16];
    assert_eq!(number_from(&bytes), 0x0102030405060708);
    let mut low = [0u8; 16];
    low[7] = 1;
    assert_eq!(number_from(&low), 1);
    low[8] = 0xff;
    low[15] = 0xff;
    assert_eq!(number_from(&low), 1);
    let mut high = [0u8; 16];
    high[0] = 0x80;
    assert_eq!(number_from(&high), 1 << 63);
}
