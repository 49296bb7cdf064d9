//! Sampling a surface with exactly as many points as are asked for.
//!
//! The budget is apportioned over the triangles so that the counts add up
//! to it exactly: every triangle first receives the whole part of its
//! ideal share, and the samples still missing go, one each, to the
//! triangles whose shares have the largest fractional rest. Then a place
//! is drawn for every sample, uniformly in its triangle.

use vstd::prelude::*;
use crate::chance::random_number;
use crate::mesh::MeshError;
use crate::mesh::ranking::{Share, ranks_before};
use crate::order::{is_arrangement, ranking};

verus! {

/// The sum of `counts`.
pub open spec fn total_of(counts: Seq<usize>) -> nat
    decreases counts.len(),
{
    if counts.len() == 0 {
        0
    } else {
        total_of(counts.drop_last()) + counts.last() as nat
    }
}

/// What is left of `budget` for a triangle owed `whole` samples once the
/// triangles before it have received `given`: all it is owed, as far as
/// the budget reaches.
pub open spec fn capped(whole: usize, budget: nat, given: nat) -> usize {
    if whole <= budget - given {
        whole
    } else {
        (budget - given) as usize
    }
}

/// The whole parts of `shares`, handed out in triangle order for as long
/// as `budget` lasts. Where the whole parts fit into the budget, these are
/// the whole parts themselves.
pub open spec fn capped_wholes(shares: Seq<Share>, budget: nat) -> Seq<usize>
    decreases shares.len(),
{
    if shares.len() == 0 {
        Seq::empty()
    } else {
        let before = capped_wholes(shares.drop_last(), budget);
        before.push(capped(shares.last().whole, budget, total_of(before)))
    }
}

/// The sum of the whole parts of `shares`.
pub open spec fn total_whole(shares: Seq<Share>) -> nat
    decreases shares.len(),
{
    if shares.len() == 0 {
        0
    } else {
        total_whole(shares.drop_last()) + shares.last().whole as nat
    }
}

/// `counts` apportions `budget` over the triangles of `shares`: the counts
/// add up to the budget; every triangle holds its capped whole part plus an
/// equal number of further samples; and where one triangle holds one more
/// on top than another, it is ranked before the other.
pub open spec fn is_allocation(shares: Seq<Share>, budget: nat, counts: Seq<usize>) -> bool {
    let base = capped_wholes(shares, budget);
    let missing = budget - total_of(base);
    &&& counts.len() == shares.len()
    &&& total_of(counts) == budget
    &&& shares.len() > 0 ==> {
        let every = missing / (shares.len() as int);
        &&& forall|i: int|
            0 <= i < counts.len() ==> {
                ||| (#[trigger] counts[i]) == base[i] + every
                ||| counts[i] == base[i] + every + 1
            }
        &&& forall|i: int, j: int|
            0 <= i < counts.len() && 0 <= j < counts.len() && (#[trigger] counts[i]) - base[i] > (
            #[trigger] counts[j]) - base[j] ==> ranks_before(shares, i, j)
    }
}

/// Handing out to one more triangle extends what was handed out before.
proof fn lemma_capped_wholes_take(shares: Seq<Share>, budget: nat, i: int)
    requires
        0 <= i < shares.len(),
    ensures
        capped_wholes(shares.take(i + 1), budget) == capped_wholes(shares.take(i), budget).push(
            capped(shares[i].whole, budget, total_of(capped_wholes(shares.take(i), budget))),
        ),
{
    assert(shares.take(i + 1).drop_last() =~= shares.take(i));
}

/// The capped whole parts are as many as the triangles and never exceed
/// the budget in sum.
pub proof fn lemma_capped_wholes_fit(shares: Seq<Share>, budget: nat)
    ensures
        capped_wholes(shares, budget).len() == shares.len(),
        total_of(capped_wholes(shares, budget)) <= budget,
        forall|i: int|
            0 <= i < shares.len() ==> (#[trigger] capped_wholes(shares, budget)[i])
                <= shares[i].whole,
    decreases shares.len(),
{
    if shares.len() > 0 {
        let init = shares.drop_last();
        lemma_capped_wholes_fit(init, budget);
        let before = capped_wholes(init, budget);
        let now = capped_wholes(shares, budget);
        assert(now.drop_last() =~= before);
        assert forall|i: int| 0 <= i < shares.len() implies (#[trigger] now[i])
            <= shares[i].whole by {
            if i < init.len() {
                assert(now[i] == before[i]);
                assert(shares[i] == init[i]);
            }
        }
    }
}

/// Whole parts that fit into the budget are handed out in full.
pub proof fn lemma_wholes_within_budget(shares: Seq<Share>, budget: nat)
    requires
        total_whole(shares) <= budget,
    ensures
        total_of(capped_wholes(shares, budget)) == total_whole(shares),
        forall|i: int|
            0 <= i < shares.len() ==> (#[trigger] capped_wholes(shares, budget)[i])
                == shares[i].whole,
    decreases shares.len(),
{
    lemma_capped_wholes_fit(shares, budget);
    if shares.len() > 0 {
        let init = shares.drop_last();
        lemma_wholes_within_budget(init, budget);
        let before = capped_wholes(init, budget);
        let now = capped_wholes(shares, budget);
        assert(now.drop_last() =~= before);
        assert forall|i: int| 0 <= i < shares.len() implies (#[trigger] now[i])
            == shares[i].whole by {
            if i < init.len() {
                assert(now[i] == before[i]);
                assert(shares[i] == init[i]);
            }
        }
    }
}

/// Changing one count changes the sum by as much, and no count exceeds
/// the sum.
proof fn lemma_total_update(counts: Seq<usize>, i: int, v: usize)
    requires
        0 <= i < counts.len(),
    ensures
        total_of(counts.update(i, v)) == total_of(counts) - counts[i] + v,
        counts[i] <= total_of(counts),
    decreases counts.len(),
{
    let changed = counts.update(i, v);
    if i == counts.len() - 1 {
        assert(changed.drop_last() =~= counts.drop_last());
    } else {
        lemma_total_update(counts.drop_last(), i, v);
        assert(changed.drop_last() =~= counts.drop_last().update(i, v));
    }
}

/// Of two equally long sequences, one that is nowhere smaller and
/// somewhere larger has the larger sum.
proof fn lemma_total_grows(a: Seq<usize>, b: Seq<usize>, i: int)
    requires
        a.len() == b.len(),
        0 <= i < a.len(),
        a[i] > b[i],
        forall|j: int| 0 <= j < a.len() ==> a[j] >= b[j],
    ensures
        total_of(a) > total_of(b),
    decreases a.len(),
{
    lemma_total_nowhere_smaller(a.drop_last(), b.drop_last());
    if i < a.len() - 1 {
        lemma_total_grows(a.drop_last(), b.drop_last(), i);
    }
}

/// Of two equally long sequences, one that is nowhere smaller has no
/// smaller sum.
proof fn lemma_total_nowhere_smaller(a: Seq<usize>, b: Seq<usize>)
    requires
        a.len() == b.len(),
        forall|j: int| 0 <= j < a.len() ==> a[j] >= b[j],
    ensures
        total_of(a) >= total_of(b),
    decreases a.len(),
{
    if a.len() > 0 {
        lemma_total_nowhere_smaller(a.drop_last(), b.drop_last());
    }
}

/// A budget is apportioned over given shares in one way only.
pub proof fn lemma_allocation_is_unique(
    shares: Seq<Share>,
    budget: nat,
    a: Seq<usize>,
    b: Seq<usize>,
)
    requires
        is_allocation(shares, budget, a),
        is_allocation(shares, budget, b),
    ensures
        a == b,
{
    assert forall|i: int| 0 <= i < a.len() implies a[i] == b[i] by {
        lemma_allocation_nowhere_larger(shares, budget, a, b, i);
        lemma_allocation_nowhere_larger(shares, budget, b, a, i);
    }
    assert(a =~= b);
}

/// Of two ways to apportion a budget over the same shares, neither gives
/// any triangle more than the other does.
proof fn lemma_allocation_nowhere_larger(
    shares: Seq<Share>,
    budget: nat,
    a: Seq<usize>,
    b: Seq<usize>,
    i: int,
)
    requires
        is_allocation(shares, budget, a),
        is_allocation(shares, budget, b),
        0 <= i < a.len(),
    ensures
        a[i] <= b[i],
{
    if a[i] > b[i] {
        if forall|j: int| 0 <= j < a.len() ==> a[j] >= b[j] {
            lemma_total_grows(a, b, i);
        } else {
            let j = choose|j: int| 0 <= j < a.len() && a[j] < b[j];
            let base = capped_wholes(shares, budget);
            assert(a[i] - base[i] > a[j] - base[j]);
            assert(b[j] - base[j] > b[i] - base[i]);
            assert(ranks_before(shares, i, j));
            assert(ranks_before(shares, j, i));
        }
    }
}

/// Apportions `sample_count` samples over the triangles whose shares are
/// given, one count per triangle.
///
/// Fails only where samples are asked of no triangle at all. Otherwise the
/// counts add up to `sample_count` exactly, whatever the shares are.
pub fn allocate_samples(sample_count: usize, shares: &Vec<Share>) -> (res: Result<
    Vec<usize>,
    MeshError,
>)
    ensures
        res is Ok <==> (shares@.len() > 0 || sample_count == 0),
        res matches Err(e) ==> e == MeshError::DegenerateGeometry,
        res matches Ok(counts) ==> is_allocation(shares@, sample_count as nat, counts@),
        res matches Ok(counts) ==> total_of(counts@) == sample_count,
{
    let n = shares.len();
    let ghost budget = sample_count as nat;
    let mut counts: Vec<usize> = Vec::new();
    if n == 0 {
        if sample_count == 0 {
            return Ok(counts);
        }
        return Err(MeshError::DegenerateGeometry);
    }
    let mut given: usize = 0;
    let mut i: usize = 0;
    assert(shares@.take(0) =~= Seq::<Share>::empty());
    while i < n
        invariant
            n == shares@.len(),
            budget == sample_count,
            0 <= i <= n,
            counts@ == capped_wholes(shares@.take(i as int), budget),
            counts@.len() == i,
            given == total_of(counts@),
            given <= sample_count,
        decreases n - i,
    {
        let whole = shares[i].whole;
        let room = sample_count - given;
        let c = if whole <= room {
            whole
        } else {
            room
        };
        proof {
            lemma_capped_wholes_take(shares@, budget, i as int);
            assert(counts@.push(c).drop_last() =~= counts@);
        }
        counts.push(c);
        given += c;
        i += 1;
    }
    assert(shares@.take(n as int) =~= shares@);
    let ghost base = counts@;
    let missing = sample_count - given;
    let every = missing / n;
    let extra = missing % n;
    assert(missing == every * n + extra && every * n >= 0 && every <= missing) by (nonlinear_arith)
        requires
            every == missing / n,
            extra == missing % n,
            n > 0,
    ;
    if every > 0 {
        let mut i: usize = 0;
        while i < n
            invariant
                n == shares@.len(),
                0 <= i <= n,
                counts@.len() == n,
                base.len() == n,
                given == total_of(base),
                given + missing == sample_count,
                every <= missing,
                forall|a: int| 0 <= a < i ==> (#[trigger] counts@[a]) == base[a] + every,
                forall|a: int| i <= a < n ==> (#[trigger] counts@[a]) == base[a],
                total_of(counts@) == given + every * i,
            decreases n - i,
        {
            proof {
                lemma_total_update(base, i as int, base[i as int]);
                lemma_total_update(counts@, i as int, (counts@[i as int] + every) as usize);
                assert(every * (i + 1) == every * i + every) by (nonlinear_arith);
            }
            counts[i] = counts[i] + every;
            i += 1;
        }
    } else {
        assert(every * n == 0) by (nonlinear_arith)
            requires
                every == 0,
        ;
    }
    let ghost evened = counts@;
    if extra > 0 {
        let order = ranking(shares);
        let mut r: usize = 0;
        assert(order@.take(0) =~= Seq::<usize>::empty());
        while r < extra
            invariant
                n == shares@.len(),
                0 <= r <= extra < n,
                counts@.len() == n,
                evened.len() == n,
                is_arrangement(order@, n as nat),
                total_of(counts@) == given + every * n + r,
                given + every * n + extra == sample_count,
                forall|a: int|
                    0 <= a < n ==> (#[trigger] counts@[a]) == evened[a] + (if order@.take(
                        r as int,
                    ).contains(a as usize) {
                        1int
                    } else {
                        0int
                    }),
            decreases extra - r,
        {
            let idx = order[r];
            let ghost served = order@.take(r as int);
            proof {
                lemma_total_update(counts@, idx as int, (counts@[idx as int] + 1) as usize);
                if served.contains(idx) {
                    let w = choose|w: int| 0 <= w < served.len() && served[w] == idx;
                    assert(order@[w] == order@[r as int]);
                }
            }
            counts[idx] = counts[idx] + 1;
            proof {
                let now = order@.take(r + 1);
                assert(now =~= served.push(idx));
                assert forall|a: int| 0 <= a < n implies (#[trigger] counts@[a]) == evened[a] + (
                if now.contains(a as usize) {
                    1int
                } else {
                    0int
                }) by {
                    if a == idx {
                        assert(now[r as int] == idx);
                    } else {
                        if served.contains(a as usize) {
                            let w = choose|w: int| 0 <= w < served.len() && served[w] == a as usize;
                            assert(now[w] == a as usize);
                        }
                        if now.contains(a as usize) {
                            let w = choose|w: int| 0 <= w < now.len() && now[w] == a as usize;
                            assert(served[w] == a as usize);
                        }
                    }
                }
            }
            r += 1;
        }
        proof {
            let served = order@.take(extra as int);
            assert forall|i: int, j: int|
                0 <= i < n && 0 <= j < n && (#[trigger] counts@[i]) - base[i] > (
                #[trigger] counts@[j]) - base[j] implies ranks_before(shares@, i, j) by {
                assert(served.contains(i as usize));
                assert(!served.contains(j as usize));
                let a = choose|a: int| 0 <= a < served.len() && served[a] == i as usize;
                assert(order@.contains(j as usize));
                let b = choose|b: int| 0 <= b < order@.len() && order@[b] == j as usize;
                if b < extra {
                    assert(served[b] == j as usize);
                }
                assert(order@[a] == i as usize);
                assert(!ranks_before(shares@, order@[b] as int, order@[a] as int));
            }
        }
    }
    Ok(counts)
}

/// The triangle that each sample is drawn from, for the first `upto`
/// triangles: every triangle as often as it has samples, the triangles in
/// their order.
pub open spec fn owners_of(counts: Seq<usize>, upto: int) -> Seq<usize>
    decreases upto,
{
    if upto <= 0 {
        Seq::empty()
    } else {
        owners_of(counts, upto - 1) + Seq::new(
            counts[upto - 1] as nat,
            |k: int| (upto - 1) as usize,
        )
    }
}

/// There are as many owners as samples.
pub proof fn lemma_owners_len(counts: Seq<usize>, upto: int)
    requires
        0 <= upto <= counts.len(),
    ensures
        owners_of(counts, upto).len() == total_of(counts.take(upto)),
    decreases upto,
{
    if upto > 0 {
        lemma_owners_len(counts, upto - 1);
        assert(counts.take(upto).drop_last() =~= counts.take(upto - 1));
    }
}

/// Lists, sample by sample, the triangle that the sample is drawn from:
/// first the samples of the first triangle, then those of the second, and
/// so on.
pub fn sample_owners(counts: &Vec<usize>) -> (owners: Vec<usize>)
    ensures
        owners@ == owners_of(counts@, counts@.len() as int),
        owners@.len() == total_of(counts@),
{
    let mut owners: Vec<usize> = Vec::new();
    let mut t: usize = 0;
    while t < counts.len()
        invariant
            0 <= t <= counts@.len(),
            owners@ == owners_of(counts@, t as int),
        decreases counts@.len() - t,
    {
        let ghost before = owners@;
        let mut k: usize = 0;
        while k < counts[t]
            invariant
                0 <= t < counts@.len(),
                0 <= k <= counts@[t as int],
                owners@ == before + Seq::new(k as nat, |j: int| t),
            decreases counts@[t as int] - k,
        {
            owners.push(t);
            assert(owners@ =~= before + Seq::new((k + 1) as nat, |j: int| t));
            k += 1;
        }
        assert(owners@ =~= owners_of(counts@, t + 1));
        t += 1;
    }
    proof {
        lemma_owners_len(counts@, counts@.len() as int);
        assert(counts@.take(counts@.len() as int) =~= counts@);
    }
    owners
}

/// Plans the drawing of `sample_count` samples: lists, sample by sample,
/// the triangle to draw from, the budget being apportioned over the
/// triangles by their shares.
///
/// Fails only where samples are asked of no triangle at all. Otherwise the
/// plan holds exactly `sample_count` samples.
pub fn sample_plan(sample_count: usize, shares: &Vec<Share>) -> (res: Result<Vec<usize>, MeshError>)
    ensures
        res is Ok <==> (shares@.len() > 0 || sample_count == 0),
        res matches Err(e) ==> e == MeshError::DegenerateGeometry,
        res matches Ok(owners) ==> owners@.len() == sample_count,
        res matches Ok(owners) ==> exists|counts: Seq<usize>| #[trigger]
            is_allocation(shares@, sample_count as nat, counts) && owners@ == owners_of(
                counts,
                counts.len() as int,
            ),
{
    match allocate_samples(sample_count, shares) {
        Ok(counts) => {
            let owners = sample_owners(&counts);
            assert(is_allocation(shares@, sample_count as nat, counts@));
            Ok(owners)
        },
        Err(e) => Err(e),
    }
}

/// The number one, as a count of the steps in which coordinates inside a
/// triangle are measured: a coordinate `s` stands for `s / UNIT`.
pub const UNIT: u64 = 0x20_0000_0000_0000;

/// A place in a triangle: the point `origin + s * edge1 + t * edge2`, the
/// coordinates being counted in steps of `1 / UNIT`.
#[derive(Clone, Copy, Debug, PartialEq, Eq, Structural)]
pub struct Sample {
    pub triangle: usize,
    pub s: u64,
    pub t: u64,
}

/// The place lies in its triangle: its barycentric coordinates `s`, `t`
/// and `1 - s - t` are all between 0 and 1.
pub open spec fn is_inside(sample: Sample) -> bool {
    sample.s + sample.t <= UNIT
}

/// The coordinate below one that a random number stands for: its upper
/// 53 bits.
pub open spec fn fraction_of(raw: u64) -> u64 {
    raw >> 11
}

/// The coordinates `s` and `t` folded back into the triangle: where they
/// add up to more than one, both are mirrored, `s` becoming `1 - s` and
/// `t` becoming `1 - t`.
pub open spec fn folded(s: u64, t: u64) -> (u64, u64) {
    if s + t > UNIT {
        ((UNIT - s) as u64, (UNIT - t) as u64)
    } else {
        (s, t)
    }
}

/// The place in a triangle that two random numbers stand for.
pub fn place_in(triangle: usize, raw_s: u64, raw_t: u64) -> (sample: Sample)
    ensures
        sample.triangle == triangle,
        (sample.s, sample.t) == folded(fraction_of(raw_s), fraction_of(raw_t)),
        is_inside(sample),
{
    let s = raw_s >> 11;
    let t = raw_t >> 11;
    assert(raw_s >> 11 < 0x20_0000_0000_0000) by (bit_vector);
    assert(raw_t >> 11 < 0x20_0000_0000_0000) by (bit_vector);
    if s + t > UNIT {
        Sample { triangle, s: UNIT - s, t: UNIT - t }
    } else {
        Sample { triangle, s, t }
    }
}

/// Draws a place for every sample of a plan, at random, in the triangle
/// that the sample belongs to.
pub fn draw_samples(owners: &Vec<usize>) -> (samples: Vec<Sample>)
    ensures
        samples@.len() == owners@.len(),
        forall|i: int|
            0 <= i < samples@.len() ==> (#[trigger] samples@[i]).triangle == owners@[i]
                && is_inside(samples@[i]),
{
    let mut samples: Vec<Sample> = Vec::new();
    let mut i: usize = 0;
    while i < owners.len()
        invariant
            0 <= i <= owners@.len(),
            samples@.len() == i,
            forall|j: int|
                0 <= j < i ==> (#[trigger] samples@[j]).triangle == owners@[j] && is_inside(
                    samples@[j],
                ),
        decreases owners@.len() - i,
    {
        let raw_s = random_number();
        let raw_t = random_number();
        samples.push(place_in(owners[i], raw_s, raw_t));
        i += 1;
    }
    samples
}

/// Draws `sample_count` places on a surface at random: as many in each
/// triangle as the apportioning of the budget by the shares gives it, the
/// triangles in their order.
///
/// Fails only where samples are asked of no triangle at all. Otherwise
/// exactly `sample_count` places are drawn, each inside its triangle.
pub fn sample_point(sample_count: usize, shares: &Vec<Share>) -> (res: Result<
    Vec<Sample>,
    MeshError,
>)
    ensures
        res is Ok <==> (shares@.len() > 0 || sample_count == 0),
        res matches Err(e) ==> e == MeshError::DegenerateGeometry,
        res matches Ok(samples) ==> samples@.len() == sample_count,
        res matches Ok(samples) ==> forall|i: int|
            0 <= i < samples@.len() ==> is_inside(#[trigger] samples@[i]),
        res matches Ok(samples) ==> exists|counts: Seq<usize>| #[trigger]
            is_allocation(shares@, sample_count as nat, counts) && samples@.map_values(
                |sample: Sample| sample.triangle,
            ) == owners_of(counts, counts.len() as int),
{
    match sample_plan(sample_count, shares) {
        Ok(owners) => {
            let samples = draw_samples(&owners);
            proof {
                let counts = choose|counts: Seq<usize>| #[trigger]
                    is_allocation(shares@, sample_count as nat, counts) && owners@ == owners_of(
                        counts,
                        counts.len() as int,
                    );
                assert(samples@.map_values(|sample: Sample| sample.triangle) =~= owners@);
            }
            Ok(samples)
        },
        Err(e) => Err(e),
    }
}

} // verus!
