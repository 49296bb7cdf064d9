//! Ranking the triangles of a mesh by the fractional rest of their share:
//! larger rest first, lower index first among equal rests.

use vstd::prelude::*;
use crate::order::Ranked;

verus! {

/// What one triangle is owed of a sample budget: a whole number of
/// samples, and the fractional rest of its ideal share as a key that grows
/// with the rest.
#[derive(Clone, Copy, Debug, PartialEq, Eq, Structural)]
pub struct Share {
    pub whole: usize,
    pub rest: u64,
}

/// Triangle `i` is served before triangle `j` when samples are left over:
/// it has the larger rest, or the same rest and the lower index.
pub open spec fn ranks_before(shares: Seq<Share>, i: int, j: int) -> bool {
    shares[i].rest > shares[j].rest || (shares[i].rest == shares[j].rest && i < j)
}

impl Ranked for Vec<Share> {
    open spec fn count(&self) -> nat {
        self@.len()
    }

    open spec fn before(&self, i: int, j: int) -> bool {
        ranks_before(self@, i, j)
    }

    proof fn lemma_not_after(&self, i: int, j: int, k: int) {
    }

    proof fn lemma_one_way(&self, i: int, j: int) {
    }

    fn size(&self) -> (n: usize) {
        self.len()
    }

    fn goes_first(&self, i: usize, j: usize) -> (first: bool) {
        let ri = self[i].rest;
        let rj = self[j].rest;
        ri > rj || (ri == rj && i < j)
    }
}

} // verus!
