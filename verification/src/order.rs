//! Ordering by rank: a stable merge sort of the indices of a collection
//! whose elements are ranked among each other, and the alphabetical order
//! of texts.

use vstd::prelude::*;
use vstd::seq_lib::lemma_multiset_commutative;
use crate::text::chars_of;

verus! {

/// A collection whose elements, known by their indices, are ranked among
/// each other.
pub trait Ranked {
    /// The number of elements.
    spec fn count(&self) -> nat;

    /// Element `i` comes before element `j`.
    spec fn before(&self, i: int, j: int) -> bool;

    /// Where `i` does not come after `j`, nor `j` after `k`, `i` does not
    /// come after `k`.
    proof fn lemma_not_after(&self, i: int, j: int, k: int)
        requires
            0 <= i < self.count(),
            0 <= j < self.count(),
            0 <= k < self.count(),
            !self.before(j, i),
            !self.before(k, j),
        ensures
            !self.before(k, i),
    ;

    /// What comes before another does not come after it.
    proof fn lemma_one_way(&self, i: int, j: int)
        requires
            0 <= i < self.count(),
            0 <= j < self.count(),
            self.before(i, j),
        ensures
            !self.before(j, i),
    ;

    /// The number of elements.
    fn size(&self) -> (n: usize)
        ensures
            n == self.count(),
    ;

    /// Whether element `i` comes before element `j`.
    fn goes_first(&self, i: usize, j: usize) -> (first: bool)
        requires
            i < self.count(),
            j < self.count(),
        ensures
            first == self.before(i as int, j as int),
    ;
}

/// No element of `order` comes before one that stands earlier in it.
pub open spec fn is_ranked<R: Ranked>(items: &R, order: Seq<usize>) -> bool {
    forall|a: int, b: int|
        0 <= a < b < order.len() ==> !items.before(
            #[trigger] order[b] as int,
            #[trigger] order[a] as int,
        )
}

/// The indices `0, 1, .., n - 1`.
pub open spec fn indices(n: nat) -> Seq<usize> {
    Seq::new(n, |i: int| i as usize)
}

/// `order` lists every index below `n` exactly once.
pub open spec fn is_arrangement(order: Seq<usize>, n: nat) -> bool {
    &&& order.len() == n
    &&& order.no_duplicates()
    &&& forall|a: int| 0 <= a < order.len() ==> (#[trigger] order[a]) < n
    &&& forall|i: usize| i < n ==> #[trigger] order.contains(i)
}

/// Every element of `run` is an index into `items`.
pub open spec fn within<R: Ranked>(items: &R, run: Seq<usize>) -> bool {
    forall|a: int| 0 <= a < run.len() ==> (#[trigger] run[a]) < items.count()
}

/// Merges two ranked runs into one. Of two elements of which neither
/// comes before the other, the one from `left` is placed first.
fn merge<R: Ranked>(items: &R, left: &Vec<usize>, right: &Vec<usize>) -> (out: Vec<usize>)
    requires
        is_ranked(items, left@),
        is_ranked(items, right@),
        within(items, left@),
        within(items, right@),
        left@.len() + right@.len() <= usize::MAX,
    ensures
        is_ranked(items, out@),
        within(items, out@),
        out@.to_multiset() == left@.to_multiset().add(right@.to_multiset()),
        out@.len() == left@.len() + right@.len(),
{
    let mut out: Vec<usize> = Vec::new();
    let mut i: usize = 0;
    let mut j: usize = 0;
    proof {
        assert(left@.take(0) =~= Seq::<usize>::empty());
        assert(right@.take(0) =~= Seq::<usize>::empty());
        assert(out@ =~= out@ + out@);
        lemma_multiset_commutative(out@, out@);
    }
    while i < left.len() || j < right.len()
        invariant
            0 <= i <= left@.len(),
            0 <= j <= right@.len(),
            left@.len() + right@.len() <= usize::MAX,
            out@.len() == i + j,
            is_ranked(items, left@),
            is_ranked(items, right@),
            is_ranked(items, out@),
            within(items, left@),
            within(items, right@),
            within(items, out@),
            out@.to_multiset() == left@.take(i as int).to_multiset().add(
                right@.take(j as int).to_multiset(),
            ),
            forall|a: int, b: int|
                0 <= a < out@.len() && i <= b < left@.len() ==> !items.before(
                    #[trigger] left@[b] as int,
                    #[trigger] out@[a] as int,
                ),
            forall|a: int, b: int|
                0 <= a < out@.len() && j <= b < right@.len() ==> !items.before(
                    #[trigger] right@[b] as int,
                    #[trigger] out@[a] as int,
                ),
        decreases left@.len() - i + right@.len() - j,
    {
        let take_left = if i >= left.len() {
            false
        } else if j >= right.len() {
            true
        } else {
            !items.goes_first(right[j], left[i])
        };
        let ghost before = out@;
        if take_left {
            let x = left[i];
            out.push(x);
            proof {
                assert(left@.take(i + 1) =~= left@.take(i as int).push(x));
                left@.take(i as int).to_multiset_ensures();
                before.to_multiset_ensures();
                assert(out@.to_multiset() =~= left@.take(i + 1).to_multiset().add(
                    right@.take(j as int).to_multiset(),
                ));
                assert forall|a: int, b: int| 0 <= a < b < out@.len() implies !items.before(
                    #[trigger] out@[b] as int,
                    #[trigger] out@[a] as int,
                ) by {
                    if b == before.len() {
                        assert(out@[a] == before[a]);
                        assert(out@[b] == left@[i as int]);
                    } else {
                        assert(out@[a] == before[a] && out@[b] == before[b]);
                    }
                }
                assert forall|a: int, b: int|
                    0 <= a < out@.len() && i + 1 <= b < left@.len() implies !items.before(
                    #[trigger] left@[b] as int,
                    #[trigger] out@[a] as int,
                ) by {
                    if a == before.len() {
                        assert(out@[a] == left@[i as int]);
                    } else {
                        assert(out@[a] == before[a]);
                    }
                }
                assert forall|a: int, b: int|
                    0 <= a < out@.len() && j <= b < right@.len() implies !items.before(
                    #[trigger] right@[b] as int,
                    #[trigger] out@[a] as int,
                ) by {
                    if a == before.len() {
                        assert(out@[a] == left@[i as int]);
                        if b > j {
                            assert(!items.before(right@[b] as int, right@[j as int] as int));
                            items.lemma_not_after(x as int, right@[j as int] as int, right@[b] as int);
                        }
                    } else {
                        assert(out@[a] == before[a]);
                    }
                }
            }
            i += 1;
        } else {
            let x = right[j];
            out.push(x);
            proof {
                assert(right@.take(j + 1) =~= right@.take(j as int).push(x));
                right@.take(j as int).to_multiset_ensures();
                before.to_multiset_ensures();
                assert(out@.to_multiset() =~= left@.take(i as int).to_multiset().add(
                    right@.take(j + 1).to_multiset(),
                ));
                assert forall|a: int, b: int| 0 <= a < b < out@.len() implies !items.before(
                    #[trigger] out@[b] as int,
                    #[trigger] out@[a] as int,
                ) by {
                    if b == before.len() {
                        assert(out@[a] == before[a]);
                        assert(out@[b] == right@[j as int]);
                    } else {
                        assert(out@[a] == before[a] && out@[b] == before[b]);
                    }
                }
                assert forall|a: int, b: int|
                    0 <= a < out@.len() && j + 1 <= b < right@.len() implies !items.before(
                    #[trigger] right@[b] as int,
                    #[trigger] out@[a] as int,
                ) by {
                    if a == before.len() {
                        assert(out@[a] == right@[j as int]);
                    } else {
                        assert(out@[a] == before[a]);
                    }
                }
                assert forall|a: int, b: int|
                    0 <= a < out@.len() && i <= b < left@.len() implies !items.before(
                    #[trigger] left@[b] as int,
                    #[trigger] out@[a] as int,
                ) by {
                    if a == before.len() {
                        assert(out@[a] == right@[j as int]);
                        assert(items.before(x as int, left@[i as int] as int));
                        items.lemma_one_way(x as int, left@[i as int] as int);
                        if b > i {
                            assert(!items.before(left@[b] as int, left@[i as int] as int));
                            items.lemma_not_after(x as int, left@[i as int] as int, left@[b] as int);
                        }
                    } else {
                        assert(out@[a] == before[a]);
                    }
                }
            }
            j += 1;
        }
    }
    proof {
        assert(left@.take(left@.len() as int) =~= left@);
        assert(right@.take(right@.len() as int) =~= right@);
    }
    out
}

/// Sorts the run `from[start..end]` by rank, keeping the order of elements
/// of which neither comes before the other.
fn sort_run<R: Ranked>(items: &R, from: &Vec<usize>, start: usize, end: usize) -> (out: Vec<
    usize,
>)
    requires
        start <= end <= from@.len(),
        within(items, from@),
    ensures
        is_ranked(items, out@),
        within(items, out@),
        out@.to_multiset() == from@.subrange(start as int, end as int).to_multiset(),
        out@.len() == end - start,
    decreases end - start,
{
    let ghost run = from@.subrange(start as int, end as int);
    if end - start == 0 {
        let out: Vec<usize> = Vec::new();
        assert(out@ =~= run);
        out
    } else if end - start == 1 {
        let mut out: Vec<usize> = Vec::new();
        out.push(from[start]);
        assert(out@ =~= run);
        out
    } else {
        let mid = start + (end - start) / 2;
        let left = sort_run(items, from, start, mid);
        let right = sort_run(items, from, mid, end);
        proof {
            let l = from@.subrange(start as int, mid as int);
            let r = from@.subrange(mid as int, end as int);
            assert(run =~= l + r);
            lemma_multiset_commutative(l, r);
        }
        merge(items, &left, &right)
    }
}

/// The indices of `items`, sorted by rank.
pub fn ranking<R: Ranked>(items: &R) -> (order: Vec<usize>)
    ensures
        is_arrangement(order@, items.count()),
        is_ranked(items, order@),
{
    let n = items.size();
    let mut all: Vec<usize> = Vec::new();
    let mut i: usize = 0;
    while i < n
        invariant
            n == items.count(),
            0 <= i <= n,
            all@ == indices(i as nat),
        decreases n - i,
    {
        all.push(i);
        assert(all@ =~= indices((i + 1) as nat));
        i += 1;
    }
    let order = sort_run(items, &all, 0, n);
    proof {
        assert(all@.subrange(0, n as int) =~= indices(n as nat));
        lemma_same_elements_arrangement(order@, n as nat);
    }
    order
}

/// A sequence with the same elements as `0, 1, .., n - 1`, each as often,
/// lists every index below `n` exactly once.
proof fn lemma_same_elements_arrangement(order: Seq<usize>, n: nat)
    requires
        order.to_multiset() == indices(n).to_multiset(),
        n <= usize::MAX,
    ensures
        is_arrangement(order, n),
{
    let all = indices(n);
    order.to_multiset_ensures();
    all.to_multiset_ensures();
    assert(all.no_duplicates());
    all.lemma_multiset_has_no_duplicates();
    order.lemma_multiset_has_no_duplicates_conv();
    assert forall|a: int| 0 <= a < order.len() implies (#[trigger] order[a]) < n by {
        assert(order.contains(order[a]));
        assert(order.to_multiset().count(order[a]) > 0);
        assert(all.contains(order[a]));
        let w = choose|w: int| 0 <= w < all.len() && all[w] == order[a];
    }
    assert forall|i: usize| i < n implies #[trigger] order.contains(i) by {
        assert(all[i as int] == i);
        assert(all.contains(i));
        assert(all.to_multiset().count(i) > 0);
    }
}

/// `a` and `b` agree on their first `k` characters, and there `a` ends
/// while `b` goes on, or `a` has the character with the lower code.
pub open spec fn parts_at(a: Seq<char>, b: Seq<char>, k: int) -> bool {
    &&& 0 <= k <= a.len()
    &&& k < b.len()
    &&& a.take(k) == b.take(k)
    &&& k < a.len() ==> (a[k] as u32) < (b[k] as u32)
}

/// `a` stands before `b` in alphabetical order: the order of the code
/// points of the first characters in which they differ, a text standing
/// before every longer text that begins with it.
pub open spec fn text_less(a: Seq<char>, b: Seq<char>) -> bool {
    exists|k: int| parts_at(a, b, k)
}

/// Texts that agree on their first `k` characters agree on each of them.
proof fn lemma_agree(a: Seq<char>, b: Seq<char>, k: int, i: int)
    requires
        0 <= i < k <= a.len(),
        k <= b.len(),
        a.take(k) == b.take(k),
    ensures
        a[i] == b[i],
{
    assert(a.take(k)[i] == a[i]);
    assert(b.take(k)[i] == b[i]);
}

/// Characters that differ have codes that differ.
proof fn lemma_codes_differ(x: char, y: char)
    requires
        x != y,
    ensures
        x as u32 != y as u32,
{
    vstd::utf8::char_u32_cast(x, x as u32);
    vstd::utf8::char_u32_cast(y, y as u32);
}

/// Texts that agree on their first `k` characters agree on fewer.
proof fn lemma_agree_shorter(a: Seq<char>, b: Seq<char>, k: int, i: int)
    requires
        0 <= i <= k <= a.len(),
        k <= b.len(),
        a.take(k) == b.take(k),
    ensures
        a.take(i) == b.take(i),
{
    assert forall|x: int| 0 <= x < i implies a.take(i)[x] == b.take(i)[x] by {
        lemma_agree(a, b, k, x);
    }
    assert(a.take(i) =~= b.take(i));
}

/// Of two texts, one stands before the other or they are the same.
pub proof fn lemma_text_order_total(a: Seq<char>, b: Seq<char>)
    ensures
        text_less(a, b) || a == b || text_less(b, a),
{
    assert(a.take(0) =~= b.take(0));
    lemma_total_from(a, b, 0);
}

/// Texts that agree on their first `k` characters are the same, or one
/// stands before the other.
proof fn lemma_total_from(a: Seq<char>, b: Seq<char>, k: int)
    requires
        0 <= k <= a.len(),
        k <= b.len(),
        a.take(k) == b.take(k),
    ensures
        text_less(a, b) || a == b || text_less(b, a),
    decreases a.len() - k,
{
    if k == a.len() {
        if k == b.len() {
            assert(a.take(k) =~= a);
            assert(b.take(k) =~= b);
        } else {
            assert(parts_at(a, b, k));
        }
    } else if k == b.len() {
        assert(parts_at(b, a, k));
    } else if a[k] == b[k] {
        assert(a.take(k + 1) =~= a.take(k).push(a[k]));
        assert(b.take(k + 1) =~= b.take(k).push(b[k]));
        lemma_total_from(a, b, k + 1);
    } else if (a[k] as u32) < (b[k] as u32) {
        assert(parts_at(a, b, k));
    } else {
        lemma_codes_differ(a[k], b[k]);
        assert(parts_at(b, a, k));
    }
}

/// No text stands before itself, and of two texts at most one stands
/// before the other.
pub proof fn lemma_text_order_one_way(a: Seq<char>, b: Seq<char>)
    requires
        text_less(a, b),
    ensures
        !text_less(b, a),
        a != b,
{
    let k = choose|k: int| parts_at(a, b, k);
    if text_less(b, a) {
        let m = choose|m: int| parts_at(b, a, m);
        if k < m {
            lemma_agree(b, a, m, k);
        } else if m < k {
            lemma_agree(a, b, k, m);
        }
    }
}

/// What stands before a text stands before all that the text stands
/// before.
pub proof fn lemma_text_order_transitive(a: Seq<char>, b: Seq<char>, c: Seq<char>)
    requires
        text_less(a, b),
        text_less(b, c),
    ensures
        text_less(a, c),
{
    let k = choose|k: int| parts_at(a, b, k);
    let m = choose|m: int| parts_at(b, c, m);
    if k < m {
        lemma_agree_shorter(b, c, m, k);
        lemma_agree(b, c, m, k);
        assert(parts_at(a, c, k));
    } else if m < k {
        lemma_agree_shorter(a, b, k, m);
        lemma_agree(a, b, k, m);
        assert(parts_at(a, c, m));
    } else {
        assert(parts_at(a, c, k));
    }
}

/// Whether `a` stands before `b` in alphabetical order.
pub fn comes_before(a: &Vec<char>, b: &Vec<char>) -> (less: bool)
    ensures
        less == text_less(a@, b@),
{
    let mut k: usize = 0;
    assert(a@.take(0) =~= b@.take(0));
    while k < a.len() && k < b.len()
        invariant
            0 <= k <= a@.len(),
            k <= b@.len(),
            a@.take(k as int) == b@.take(k as int),
        decreases a@.len() - k,
    {
        if a[k] != b[k] {
            let less = (a[k] as u32) < (b[k] as u32);
            proof {
                if less {
                    assert(parts_at(a@, b@, k as int));
                } else {
                    lemma_codes_differ(a@[k as int], b@[k as int]);
                    assert(parts_at(b@, a@, k as int));
                    lemma_text_order_one_way(b@, a@);
                }
            }
            return less;
        }
        proof {
            assert(a@.take(k + 1) =~= a@.take(k as int).push(a@[k as int]));
            assert(b@.take(k + 1) =~= b@.take(k as int).push(b@[k as int]));
        }
        k += 1;
    }
    proof {
        if k < b@.len() {
            assert(parts_at(a@, b@, k as int));
        } else {
            if k < a@.len() {
                assert(parts_at(b@, a@, k as int));
                lemma_text_order_one_way(b@, a@);
            } else {
                assert(a@.take(k as int) =~= a@);
                assert(b@.take(k as int) =~= b@);
                if text_less(a@, b@) {
                    lemma_text_order_one_way(a@, b@);
                }
            }
        }
    }
    k < b.len()
}

/// Texts to sort by: each stands for the element with its index.
pub struct Texts {
    pub keys: Vec<Vec<char>>,
}

/// Element `i` is placed before element `j`: its text stands before the
/// other in alphabetical order, or they have the same text and `i` is the
/// earlier of the two.
pub open spec fn placed_before(keys: Seq<Seq<char>>, i: int, j: int) -> bool {
    text_less(keys[i], keys[j]) || (keys[i] == keys[j] && i < j)
}

impl Texts {
    /// The texts as plain values.
    pub open spec fn texts(&self) -> Seq<Seq<char>> {
        self.keys@.map_values(|key: Vec<char>| key@)
    }

    /// No texts yet.
    pub fn new() -> (texts: Texts)
        ensures
            texts.texts() == Seq::<Seq<char>>::empty(),
    {
        let texts = Texts { keys: Vec::new() };
        assert(texts.texts() =~= Seq::<Seq<char>>::empty());
        texts
    }

    /// Adds `text` as the text of the next element.
    pub fn push(&mut self, text: &str)
        ensures
            final(self).texts() == old(self).texts().push(text@),
    {
        self.keys.push(chars_of(text));
        assert(self.texts() =~= old(self).texts().push(text@));
    }
}

impl Ranked for Texts {
    open spec fn count(&self) -> nat {
        self.keys@.len()
    }

    open spec fn before(&self, i: int, j: int) -> bool {
        placed_before(self.texts(), i, j)
    }

    proof fn lemma_not_after(&self, i: int, j: int, k: int) {
        let t = self.texts();
        lemma_text_order_total(t[i], t[j]);
        lemma_text_order_total(t[j], t[k]);
        if text_less(t[i], t[j]) && text_less(t[j], t[k]) {
            lemma_text_order_transitive(t[i], t[j], t[k]);
        }
        if text_less(t[i], t[k]) {
            lemma_text_order_one_way(t[i], t[k]);
        }
    }

    proof fn lemma_one_way(&self, i: int, j: int) {
        let t = self.texts();
        if text_less(t[i], t[j]) {
            lemma_text_order_one_way(t[i], t[j]);
        }
        if text_less(t[j], t[i]) {
            lemma_text_order_one_way(t[j], t[i]);
        }
    }

    fn size(&self) -> (n: usize) {
        self.keys.len()
    }

    fn goes_first(&self, i: usize, j: usize) -> (first: bool) {
        if comes_before(&self.keys[i], &self.keys[j]) {
            return true;
        }
        if i < j {
            let later = comes_before(&self.keys[j], &self.keys[i]);
            proof {
                lemma_text_order_total(self.texts()[i as int], self.texts()[j as int]);
            }
            !later
        } else {
            false
        }
    }
}

} // verus!
