//! QUBO constraints as an intermediate language.
//!
//! QUBO (quadratic unconstrained binary optimization) asks for the binary
//! vector `x` minimizing `sum_{i, j} Q[i, j] * x[i] * x[j]` for a matrix of
//! weights `Q`. [`Constraints`] stores such a matrix densely, together with
//! one name per node. The matrix is symmetric by construction: only the
//! canonical half (`x <= y`) is ever written or read, and accesses to the
//! other half are transparently swapped.

use vstd::prelude::*;

verus! {

use vstd::multiset::Multiset;
use vstd::pervasive::VecAdditionalExecFns;

broadcast use {vstd::multiset::group_multiset_axioms, vstd::seq_lib::group_to_multiset_ensures};

/// Errors reported by matrix accesses, by the pre-layout validation pass, and
/// by the layout search.
#[derive(Debug, Clone, Copy, PartialEq, Eq, Structural)]
pub enum Error {
    /// A matrix access `(x, y)` fell outside the `num_nodes * num_nodes`
    /// square.
    IndexOutOfBounds { x: usize, y: usize, num_nodes: usize },
    /// A single seed's geometric optimization failed for numerical reasons;
    /// recoverable, the search simply moves on to the next seed.
    Layout,
    /// The whole seed space was exhausted without an accepted embedding.
    NoSolution,
    /// The layout algorithm cannot embed negative off-diagonal weights.
    NegativeValueOffDiagonal,
    /// The layout algorithm cannot embed positive diagonal weights.
    PositiveValueOnDiagonal,
    /// A weight is infinite or not a number. Integer-weighted matrices are
    /// always finite, so this variant is only ever produced by callers that
    /// ingest raw floating-point input and map their own validation onto this
    /// taxonomy.
    InfiniteValue,
}

/// The mathematical (unbounded) counterpart of a vector of machine weights.
pub open spec fn ints_of(s: Seq<i64>) -> Seq<int> {
    s.map(|_i: int, v: i64| v as int)
}

/// The character sequences of a vector of names.
pub open spec fn views_of(s: Seq<String>) -> Seq<Seq<char>> {
    s.map(|_i: int, n: String| n@)
}

/// The weight vector of a matrix grown from `n` to `n + 1` nodes: previous
/// weights keep their place in the new row-major layout, the fresh row and
/// column start out zero.
pub open spec fn grown(n: int, d: Seq<int>) -> Seq<int> {
    Seq::new(
        ((n + 1) * (n + 1)) as nat,
        |i: int|
            {
                let row = i / (n + 1);
                let col = i % (n + 1);
                if row < n && col < n {
                    d[row * n + col]
                } else {
                    0
                }
            },
    )
}

/// The flat position holding the canonical entry for the node pair `(x, y)`
/// of a matrix with `n` nodes.
pub open spec fn canonical_index(n: int, x: int, y: int) -> int {
    if x <= y {
        n * y + x
    } else {
        n * x + y
    }
}

/// Whether the flat position `i` of an `n * n` row-major square lies on the
/// diagonal.
pub open spec fn diagonal_flat(n: int, i: int) -> bool {
    i % n == i / n
}

/// Whether the weight at flat position `i` violates the sign discipline the
/// layout algorithm needs: weights must be non-positive on the diagonal and
/// non-negative off it.
pub open spec fn flat_violation(n: int, d: Seq<int>, i: int) -> bool {
    if diagonal_flat(n, i) {
        d[i] > 0
    } else {
        d[i] < 0
    }
}

/// How many weights of the pool lie strictly below `v`.
pub open spec fn count_below(m: Multiset<i64>, v: i64) -> nat {
    m.filter(|x: i64| x < v).len()
}

/// How many weights of the pool lie at or below `v`.
pub open spec fn count_through(m: Multiset<i64>, v: i64) -> nat {
    m.filter(|x: i64| x <= v).len()
}

/// `v` is the weight of rank `k` in the pool: were the pool laid out in
/// nondecreasing order, position `k` would hold exactly `v`.
pub open spec fn is_kth_smallest(m: Multiset<i64>, k: int, v: i64) -> bool {
    &&& m.contains(v)
    &&& count_below(m, v) <= k < count_through(m, v)
}

/// Splitting a pool in two splits both rank counts.
proof fn lemma_count_split(m1: Multiset<i64>, m2: Multiset<i64>, v: i64)
    ensures
        count_below(m1.add(m2), v) == count_below(m1, v) + count_below(m2, v),
        count_through(m1.add(m2), v) == count_through(m1, v) + count_through(m2, v),
{
    let below = |x: i64| x < v;
    let through = |x: i64| x <= v;
    assert(m1.add(m2).filter(below) =~= m1.filter(below).add(m2.filter(below)));
    assert(m1.add(m2).filter(through) =~= m1.filter(through).add(m2.filter(through)));
}

/// Lifts a bound that holds of every position of a sequence to the pool of
/// its weights.
proof fn lemma_all_elements(s: Seq<i64>, f: spec_fn(i64) -> bool)
    requires
        forall|j: int| 0 <= j < s.len() ==> f(s[j]),
    ensures
        forall|x: i64| s.to_multiset().count(x) > 0 ==> f(x),
{
    assert forall|x: i64| s.to_multiset().count(x) > 0 implies f(x) by {
        assert(s.contains(x));
        let j = choose|j: int| 0 <= j < s.len() && s[j] == x;
        assert(f(s[j]));
    }
}

/// A pool whose weights all satisfy the tested bound is kept whole by the
/// corresponding filter; one whose weights all fail it filters to nothing.
proof fn lemma_filter_homogeneous(m: Multiset<i64>, f: spec_fn(i64) -> bool)
    ensures
        (forall|x: i64| m.count(x) > 0 ==> f(x)) ==> m.filter(f) == m,
        (forall|x: i64| m.count(x) > 0 ==> !f(x)) ==> m.filter(f).len() == 0,
{
    if forall|x: i64| m.count(x) > 0 ==> f(x) {
        assert(m.filter(f) =~= m);
    }
    if forall|x: i64| m.count(x) > 0 ==> !f(x) {
        assert(m.filter(f) =~= Multiset::<i64>::empty());
    }
}

/// The weight of rank `k` among `values`, found by a three-way quickselect
/// around a deterministic pivot rather than by a full sort.
fn select_rank(values: &Vec<i64>, k: usize) -> (r: i64)
    requires
        k < values@.len(),
    ensures
        is_kth_smallest(values@.to_multiset(), k as int, r),
    decreases values@.len(),
{
    let pivot = values[values.len() / 2];
    let mut less: Vec<i64> = Vec::new();
    let mut equal: Vec<i64> = Vec::new();
    let mut greater: Vec<i64> = Vec::new();
    let mut i: usize = 0;
    while i < values.len()
        invariant
            i <= values@.len(),
            less@.to_multiset().add(equal@.to_multiset()).add(greater@.to_multiset())
                == values@.take(i as int).to_multiset(),
            forall|j: int| 0 <= j < less@.len() ==> less@[j] < pivot,
            forall|j: int| 0 <= j < equal@.len() ==> equal@[j] == pivot,
            forall|j: int| 0 <= j < greater@.len() ==> greater@[j] > pivot,
            i > values@.len() / 2 ==> equal@.len() > 0,
            pivot == values@[values@.len() as int / 2],
        decreases values@.len() - i,
    {
        let v = values[i];
        proof {
            assert(values@.take(i as int + 1) =~= values@.take(i as int).push(values@[i as int]));
        }
        if v < pivot {
            less.push(v);
        } else if v == pivot {
            equal.push(v);
        } else {
            greater.push(v);
        }
        i = i + 1;
    }
    proof {
        assert(values@.take(values@.len() as int) =~= values@);
    }
    let ghost m = values@.to_multiset();
    let ghost less_m = less@.to_multiset();
    let ghost equal_m = equal@.to_multiset();
    let ghost greater_m = greater@.to_multiset();
    proof {
        lemma_all_elements(less@, |x: i64| x < pivot);
        lemma_all_elements(equal@, |x: i64| x == pivot);
        lemma_all_elements(greater@, |x: i64| x > pivot);
        lemma_count_split(less_m.add(equal_m), greater_m, pivot);
        lemma_count_split(less_m, equal_m, pivot);
        lemma_filter_homogeneous(less_m, |x: i64| x < pivot);
        lemma_filter_homogeneous(equal_m, |x: i64| x < pivot);
        lemma_filter_homogeneous(greater_m, |x: i64| x < pivot);
        lemma_filter_homogeneous(less_m, |x: i64| x <= pivot);
        lemma_filter_homogeneous(equal_m, |x: i64| x <= pivot);
        lemma_filter_homogeneous(greater_m, |x: i64| x <= pivot);
        assert(count_below(m, pivot) == less_m.len());
        assert(count_through(m, pivot) == less_m.len() + equal_m.len());
    }
    let n_less = less.len();
    let n_equal = equal.len();
    proof {
        assert(less_m.len() == less@.len());
        assert(equal_m.len() == equal@.len());
        assert(greater_m.len() == greater@.len());
        assert(m.len() == values@.len());
        assert(less_m.add(equal_m).len() == less_m.len() + equal_m.len());
        assert(less_m.add(equal_m).add(greater_m).len() == less_m.add(equal_m).len()
            + greater_m.len());
        assert(less@.len() + equal@.len() + greater@.len() == values@.len());
    }
    if k < n_less {
        let r = select_rank(&less, k);
        proof {
            lemma_count_split(less_m.add(equal_m), greater_m, r);
            lemma_count_split(less_m, equal_m, r);
            assert(r < pivot);
            lemma_filter_homogeneous(equal_m, |x: i64| x < r);
            lemma_filter_homogeneous(greater_m, |x: i64| x < r);
            lemma_filter_homogeneous(equal_m, |x: i64| x <= r);
            lemma_filter_homogeneous(greater_m, |x: i64| x <= r);
        }
        r
    } else if k < n_less + n_equal {
        proof {
            assert(equal@[0] == pivot);
            assert(equal@.contains(pivot));
            assert(m.count(pivot) > 0);
        }
        pivot
    } else {
        let r = select_rank(&greater, k - n_less - n_equal);
        proof {
            lemma_count_split(less_m.add(equal_m), greater_m, r);
            lemma_count_split(less_m, equal_m, r);
            assert(r > pivot);
            lemma_filter_homogeneous(less_m, |x: i64| x < r);
            lemma_filter_homogeneous(equal_m, |x: i64| x < r);
            lemma_filter_homogeneous(less_m, |x: i64| x <= r);
            lemma_filter_homogeneous(equal_m, |x: i64| x <= r);
        }
        r
    }
}

/// A set of QUBO constraints: a dense symmetric `num_nodes * num_nodes`
/// matrix of integer weights, stored row-major, plus one name per node.
///
/// Only the canonical half of the matrix (entries `(x, y)` with `x <= y`,
/// stored at `num_nodes * y + x`) is ever read or written; the redundant
/// half is kept purely for indexing simplicity.
#[derive(Debug)]
pub struct Constraints {
    data: Vec<i64>,
    num_nodes: usize,
    names: Vec<String>,
}

impl Constraints {
    /// The number of nodes, in specifications.
    pub closed spec fn spec_num_nodes(self) -> int {
        self.num_nodes as int
    }

    /// The raw row-major weight vector, in specifications.
    pub closed spec fn spec_data(self) -> Seq<int> {
        ints_of(self.data@)
    }

    /// The node names, in specifications.
    pub closed spec fn spec_names(self) -> Seq<Seq<char>> {
        views_of(self.names@)
    }

    /// Structural validity: the weight vector is exactly an `n * n` square
    /// and there is exactly one name per node.
    pub open spec fn wf(self) -> bool {
        &&& self.spec_data().len() == self.spec_num_nodes() * self.spec_num_nodes()
        &&& self.spec_names().len() == self.spec_num_nodes()
        &&& 0 <= self.spec_num_nodes() <= usize::MAX
    }

    /// The weight of the node pair `(x, y)`: both halves of the matrix read
    /// the canonical entry.
    pub open spec fn spec_at(self, x: int, y: int) -> int {
        self.spec_data()[canonical_index(self.spec_num_nodes(), x, y)]
    }

    /// The matrix is symmetric: swapping the indices of a pair reads the
    /// same canonical entry.
    pub proof fn lemma_at_symmetric(self, x: int, y: int)
        ensures
            self.spec_at(x, y) == self.spec_at(y, x),
    {
    }

    /// A zero-initialized square matrix over the given nodes.
    pub fn new(num_nodes: usize, names: Vec<String>) -> (r: Self)
        requires
            names@.len() == num_nodes,
            num_nodes * num_nodes <= usize::MAX,
        ensures
            r.wf(),
            r.spec_num_nodes() == num_nodes,
            r.spec_names() == views_of(names@),
            r.spec_data() == Seq::new((num_nodes * num_nodes) as nat, |_i: int| 0int),
    {
        let data: Vec<i64> = vec![0i64; num_nodes * num_nodes];
        let r = Self { data, num_nodes, names };
        proof {
            assert(r.spec_data() =~= Seq::new((num_nodes * num_nodes) as nat, |_i: int| 0int));
        }
        r
    }

    /// A matrix over explicit row-major weights. Fails, rather than panics,
    /// when the weight vector is not exactly `num_nodes * num_nodes` long or
    /// the name list is not exactly `num_nodes` long.
    pub fn try_new(num_nodes: usize, data: Vec<i64>, names: Vec<String>) -> (r: Option<Self>)
        ensures
            r is Some <==> (data@.len() == num_nodes * num_nodes && names@.len() == num_nodes),
            r matches Some(m) ==> {
                &&& m.wf()
                &&& m.spec_num_nodes() == num_nodes
                &&& m.spec_data() == ints_of(data@)
                &&& m.spec_names() == views_of(names@)
            },
    {
        let square = match num_nodes.checked_mul(num_nodes) {
            Some(square) => square,
            None => {
                // `num_nodes * num_nodes` overflows `usize`, so no vector can
                // be that long and the size check below is doomed.
                let len = data.len();
                proof {
                    assert(len == data@.len());
                }
                return None;
            },
        };
        if data.len() != square {
            return None;
        }
        if names.len() != num_nodes {
            return None;
        }
        Some(Self { data, num_nodes, names })
    }

    /// A matrix over explicit rows of weights, given as a square table. The
    /// caller supplies exactly one name and one row per node, and each row
    /// holds one weight per node.
    pub fn from_const(data: Vec<Vec<i64>>, names: Vec<String>) -> (r: Self)
        requires
            names@.len() == data@.len(),
            forall|i: int| 0 <= i < data@.len() ==> (#[trigger] data@[i])@.len() == data@.len(),
            data@.len() * data@.len() <= usize::MAX,
        ensures
            r.wf(),
            r.spec_num_nodes() == data@.len(),
            r.spec_names() == views_of(names@),
            forall|i: int, j: int|
                0 <= i < data@.len() && 0 <= j < data@.len() ==> r.spec_data()[i * data@.len() + j]
                    == (#[trigger] data@[i]@[j]) as int,
    {
        let n = data.len();
        let mut flat: Vec<i64> = Vec::new();
        let mut i: usize = 0;
        while i < n
            invariant
                n == data@.len(),
                n * n <= usize::MAX,
                i <= n,
                flat@.len() == i * n,
                forall|a: int| 0 <= a < n ==> (#[trigger] data@[a])@.len() == n,
                forall|a: int, b: int|
                    0 <= a < i && 0 <= b < n ==> flat@[a * (n as int) + b] == #[trigger] data@[a]@[b],
            decreases n - i,
        {
            proof {
                assert(i * n + n <= n * n) by (nonlinear_arith)
                    requires
                        0 <= i < n,
                {}
            }
            let row = &data[i];
            let mut j: usize = 0;
            while j < n
                invariant
                    n == data@.len(),
                    n * n <= usize::MAX,
                    i < n,
                    j <= n,
                    i * n + n <= n * n,
                    row@ == data@[i as int]@,
                    row@.len() == n,
                    flat@.len() == i * n + j,
                    forall|a: int| 0 <= a < n ==> (#[trigger] data@[a])@.len() == n,
                    forall|a: int, b: int|
                        0 <= a < i && 0 <= b < n ==> flat@[a * (n as int) + b] == #[trigger] data@[
                            a]@[b],
                    forall|b: int|
                        0 <= b < j ==> flat@[(i as int) * (n as int) + b] == #[trigger] data@[
                            i as int]@[b],
                decreases n - j,
            {
                flat.push(row[j]);
                proof {
                    assert forall|a: int, b: int| 0 <= a < i && 0 <= b < n implies flat@[a * (
                    n as int) + b] == #[trigger] data@[a]@[b] by {
                        assert(0 <= a * (n as int) + b < (i as int) * (n as int))
                            by (nonlinear_arith)
                            requires
                                0 <= a < i,
                                0 <= b < n,
                        {}
                    }
                }
                j = j + 1;
            }
            i = i + 1;
            proof {
                assert(flat@.len() == i * n) by (nonlinear_arith)
                    requires
                        flat@.len() == (i - 1) * n + n,
                        0 < i <= n,
                {}
                assert forall|a: int, b: int| 0 <= a < i && 0 <= b < n implies flat@[a * (n as int)
                    + b] == #[trigger] data@[a]@[b] by {
                    if a < i - 1 {
                        assert(0 <= a * (n as int) + b < (i - 1) * (n as int)) by (nonlinear_arith)
                            requires
                                0 <= a < i - 1,
                                0 <= b < n,
                        {}
                    }
                }
            }
        }
        proof {
            assert(flat@.len() == n * n);
        }
        let r = Self { data: flat, num_nodes: n, names };
        proof {
            assert forall|a: int, b: int| 0 <= a < n && 0 <= b < n implies r.spec_data()[a * (
            n as int) + b] == (#[trigger] data@[a]@[b]) as int by {
                assert(0 <= a * (n as int) + b < n * n) by (nonlinear_arith)
                    requires
                        0 <= a < n,
                        0 <= b < n,
                {}
            }
        }
        r
    }

    /// The number of nodes of the matrix.
    pub fn num_nodes(&self) -> (r: usize)
        ensures
            r == self.spec_num_nodes(),
    {
        self.num_nodes
    }

    /// An abstract count of distinct pair slots, used only for progress
    /// reporting.
    pub fn num_constraints(&self) -> (r: usize)
        requires
            self.wf(),
        ensures
            r == self.spec_num_nodes() * self.spec_num_nodes() / 2,
    {
        self.data.len() / 2
    }

    /// The node names, one per node, in index order.
    pub fn names(&self) -> (r: &Vec<String>)
        ensures
            views_of(r@) == self.spec_names(),
    {
        &self.names
    }

    /// Validates the sign discipline the layout algorithm relies on: weights
    /// must be non-positive on the diagonal and non-negative off it. The
    /// scan walks the raw storage in row-major order and reports the first
    /// violation; integer weights are always finite, so the finiteness leg
    /// of the check never fires here.
    pub fn check_compilable_subset(&self) -> (r: Result<(), Error>)
        requires
            self.wf(),
        ensures
            r is Ok <==> (forall|i: int|
                0 <= i < self.spec_data().len() ==> !flat_violation(
                    self.spec_num_nodes(),
                    self.spec_data(),
                    i,
                )),
            r matches Err(e) ==> exists|i: int|
                {
                    &&& 0 <= i < self.spec_data().len()
                    &&& #[trigger] flat_violation(self.spec_num_nodes(), self.spec_data(), i)
                    &&& forall|j: int|
                        0 <= j < i ==> !flat_violation(self.spec_num_nodes(), self.spec_data(), j)
                    &&& e == if diagonal_flat(self.spec_num_nodes(), i) {
                        Error::PositiveValueOnDiagonal
                    } else {
                        Error::NegativeValueOffDiagonal
                    }
                },
    {
        let n = self.num_nodes;
        let len = self.data.len();
        let mut i: usize = 0;
        while i < len
            invariant
                self.wf(),
                n == self.spec_num_nodes(),
                len == self.spec_data().len(),
                i <= len,
                forall|j: int|
                    0 <= j < i ==> !flat_violation(self.spec_num_nodes(), self.spec_data(), j),
            decreases len - i,
        {
            proof {
                if n == 0 {
                    assert(self.spec_data().len() == 0);
                }
            }
            let x = self.data[i];
            let is_diagonal = i % n == i / n;
            if is_diagonal {
                if x > 0 {
                    proof {
                        assert(flat_violation(self.spec_num_nodes(), self.spec_data(), i as int));
                    }
                    return Err(Error::PositiveValueOnDiagonal);
                }
            } else {
                if x < 0 {
                    proof {
                        assert(flat_violation(self.spec_num_nodes(), self.spec_data(), i as int));
                    }
                    return Err(Error::NegativeValueOffDiagonal);
                }
            }
            i = i + 1;
        }
        Ok(())
    }

    /// The median of the strictly positive weights, or `None` when there is
    /// no positive weight at all. Downstream callers use this robust scale
    /// statistic to pick a default pulse amplitude. An even pool averages
    /// its two central weights (rounding towards negative infinity); the
    /// ranks are found by selection, not by a full sort.
    pub fn omega(&self) -> (r: Option<i64>)
        requires
            self.wf(),
        ensures
            ({
                let pool = self.spec_data().map(
                    |_i: int, v: int| v as i64,
                ).filter(|x: i64| x > 0).to_multiset();
                &&& (r is Some <==> pool.len() > 0)
                &&& r matches Some(v) ==> {
                    if pool.len() % 2 == 1 {
                        is_kth_smallest(pool, (pool.len() - 1) as int / 2, v)
                    } else {
                        exists|a: i64, b: i64|
                            {
                                &&& #[trigger] is_kth_smallest(pool, pool.len() as int / 2 - 1, a)
                                &&& #[trigger] is_kth_smallest(pool, pool.len() as int / 2, b)
                                &&& v == ((a + b) as int) / 2
                            }
                    }
                }
            }),
    {
        let ghost pool_seq = self.spec_data().map(|_i: int, v: int| v as i64).filter(
            |x: i64| x > 0,
        );
        let mut positives: Vec<i64> = Vec::new();
        let len = self.data.len();
        let mut i: usize = 0;
        while i < len
            invariant
                self.wf(),
                len == self.spec_data().len(),
                i <= len,
                positives@ == self.spec_data().take(i as int).map(|_i: int, v: int| v as i64)
                    .filter(|x: i64| x > 0),
            decreases len - i,
        {
            let x = self.data[i];
            proof {
                let mapped = self.spec_data().take(i as int).map(|_i: int, v: int| v as i64);
                let mapped_next = self.spec_data().take(i as int + 1).map(
                    |_i: int, v: int| v as i64,
                );
                assert(mapped_next =~= mapped.push(x));
                mapped.lemma_filter_push(x, |y: i64| y > 0);
            }
            if x > 0 {
                positives.push(x);
            }
            i = i + 1;
        }
        proof {
            assert(self.spec_data().take(len as int) =~= self.spec_data());
            assert(positives@ == pool_seq);
        }
        let count = positives.len();
        if count == 0 {
            proof {
                assert(pool_seq.to_multiset().len() == pool_seq.len());
            }
            return None;
        }
        if count % 2 == 1 {
            Some(select_rank(&positives, count / 2))
        } else {
            let a = select_rank(&positives, count / 2 - 1);
            let b = select_rank(&positives, count / 2);
            let mid = ((a as i128 + b as i128) / 2) as i64;
            proof {
                let lo = if a <= b {
                    a
                } else {
                    b
                };
                let hi = if a <= b {
                    b
                } else {
                    a
                };
                assert(lo <= ((a + b) as int) / 2 <= hi);
            }
            Some(mid)
        }
    }

    /// Grows the matrix by one node: previously accumulated weights are all
    /// preserved, the fresh row and column are zero-initialized, and the new
    /// node is named `name`. Returns the new node's index for the caller to
    /// reference.
    pub fn add_variable(&mut self, name: String) -> (idx: usize)
        requires
            old(self).wf(),
            (old(self).spec_num_nodes() + 1) * (old(self).spec_num_nodes() + 1) <= usize::MAX,
        ensures
            final(self).wf(),
            final(self).spec_num_nodes() == old(self).spec_num_nodes() + 1,
            idx == old(self).spec_num_nodes(),
            final(self).spec_names() == old(self).spec_names().push(name@),
            final(self).spec_data() == grown(old(self).spec_num_nodes(), old(self).spec_data()),
    {
        let n = self.num_nodes;
        let ghost model = grown(n as int, self.spec_data());
        let data_len = self.data.len();
        proof {
            assert(data_len == self.data@.len());
        }
        proof {
            let m = n as int + 1;
            assert(m <= m * m) by (nonlinear_arith)
                requires
                    1 <= m,
            {}
        }
        let new_n = n + 1;
        let size = new_n * new_n;
        let mut data: Vec<i64> = Vec::with_capacity(size);
        let mut row: usize = 0;
        while row < new_n
            invariant
                new_n == n + 1,
                self == old(self),
                self.wf(),
                n == self.spec_num_nodes(),
                new_n * new_n <= usize::MAX,
                n * n <= usize::MAX,
                n * n == self.spec_data().len(),
                model == grown(n as int, self.spec_data()),
                row <= new_n,
                data@.len() == row * new_n,
                forall|i: int| 0 <= i < data@.len() ==> ints_of(data@)[i] == model[i],
            decreases new_n - row,
        {
            let mut col: usize = 0;
            proof {
                assert(row * new_n + new_n <= new_n * new_n) by (nonlinear_arith)
                    requires
                        0 <= row < new_n,
                {}
            }
            while col < new_n
                invariant
                    new_n == n + 1,
                    self == old(self),
                    self.wf(),
                    n == self.spec_num_nodes(),
                    new_n * new_n <= usize::MAX,
                    model == grown(n as int, self.spec_data()),
                    row < new_n,
                    col <= new_n,
                    row * new_n + new_n <= new_n * new_n,
                    n * n <= usize::MAX,
                    n * n == self.spec_data().len(),
                    data@.len() == row * new_n + col,
                    forall|i: int| 0 <= i < data@.len() ==> ints_of(data@)[i] == model[i],
                decreases new_n - col,
            {
                let value = if row < n && col < n {
                    proof {
                        assert(row * n + col < n * n) by (nonlinear_arith)
                            requires
                                0 <= row < n,
                                0 <= col < n,
                        {}
                    }
                    self.data[row * n + col]
                } else {
                    0i64
                };
                proof {
                    let i = data@.len() as int;
                    vstd::arithmetic::div_mod::lemma_fundamental_div_mod_converse(
                        i,
                        new_n as int,
                        row as int,
                        col as int,
                    );
                    assert(0 <= i < (n + 1) * (n + 1)) by (nonlinear_arith)
                        requires
                            i == row * (n as int + 1) + col,
                            0 <= row < n + 1,
                            0 <= col < n + 1,
                    {}
                    assert(model[i] == value as int);
                }
                data.push(value);
                proof {
                    assert(forall|i: int|
                        0 <= i < data@.len() ==> ints_of(data@)[i] == model[i]);
                }
                col = col + 1;
            }
            row = row + 1;
            proof {
                assert(data@.len() == row * new_n) by (nonlinear_arith)
                    requires
                        data@.len() == (row - 1) * new_n + new_n,
                        0 < row <= new_n,
                {}
            }
        }
        self.data = data;
        self.names.push(name);
        self.num_nodes = new_n;
        proof {
            assert((new_n * new_n) as int == (n as int + 1) * (n as int + 1)) by (nonlinear_arith)
                requires
                    new_n == n + 1,
                    new_n * new_n <= usize::MAX,
            {}
            assert(self.spec_data() =~= model);
            assert(self.spec_names() =~= old(self).spec_names().push(name@));
        }
        n
    }

    /// An independent copy of the matrix: same node count, same weights,
    /// same names.
    pub fn duplicate(&self) -> (r: Self)
        ensures
            r.spec_num_nodes() == self.spec_num_nodes(),
            r.spec_data() == self.spec_data(),
            r.spec_names() == self.spec_names(),
            r.wf() == self.wf(),
    {
        let mut data: Vec<i64> = Vec::new();
        let mut i: usize = 0;
        while i < self.data.len()
            invariant
                i <= self.data@.len(),
                data@ == self.data@.take(i as int),
            decreases self.data@.len() - i,
        {
            data.push(self.data[i]);
            proof {
                assert(data@ =~= self.data@.take(i as int + 1));
            }
            i = i + 1;
        }
        let mut names: Vec<String> = Vec::new();
        let mut j: usize = 0;
        while j < self.names.len()
            invariant
                j <= self.names@.len(),
                names@ == self.names@.take(j as int),
            decreases self.names@.len() - j,
        {
            names.push(self.names[j].clone());
            proof {
                assert(names@ =~= self.names@.take(j as int + 1));
            }
            j = j + 1;
        }
        proof {
            assert(self.data@.take(self.data@.len() as int) =~= self.data@);
            assert(self.names@.take(self.names@.len() as int) =~= self.names@);
        }
        Self { data, num_nodes: self.num_nodes, names }
    }

    /// The canonical flat position of the pair `(x, y)`, or an
    /// `IndexOutOfBounds` error if either index is out of range.
    fn index(&self, x: usize, y: usize) -> (r: Result<usize, Error>)
        requires
            self.wf(),
        ensures
            x < self.spec_num_nodes() && y < self.spec_num_nodes() ==> {
                &&& r matches Ok(i)
                &&& i == canonical_index(self.spec_num_nodes(), x as int, y as int)
                &&& i < self.spec_data().len()
            },
            !(x < self.spec_num_nodes() && y < self.spec_num_nodes()) ==> r == Err::<
                usize,
                Error,
            >(Error::IndexOutOfBounds { x, y, num_nodes: (self.spec_num_nodes() as usize) }),
    {
        let n = self.num_nodes;
        if x >= n || y >= n {
            return Err(Error::IndexOutOfBounds { x, y, num_nodes: n });
        }
        let (lo, hi) = if x <= y {
            (x, y)
        } else {
            (y, x)
        };
        let len = self.data.len();
        proof {
            assert(len == self.data@.len());
            assert(n * hi + lo < n * n) by (nonlinear_arith)
                requires
                    0 <= lo < n,
                    0 <= hi < n,
            {}
        }
        Ok(n * hi + lo)
    }

    /// The weight of the pair `(x, y)`, reading the canonical half whatever
    /// the order of the indices; out-of-range indices are reported as an
    /// error, never a panic.
    pub fn at(&self, x: usize, y: usize) -> (r: Result<i64, Error>)
        requires
            self.wf(),
        ensures
            x < self.spec_num_nodes() && y < self.spec_num_nodes() ==> r == Ok::<i64, Error>(
                self.spec_at(x as int, y as int) as i64,
            ),
            !(x < self.spec_num_nodes() && y < self.spec_num_nodes()) ==> r == Err::<i64, Error>(
                Error::IndexOutOfBounds { x, y, num_nodes: (self.spec_num_nodes() as usize) },
            ),
    {
        let index = self.index(x, y)?;
        Ok(self.data[index])
    }

    /// Accumulates `delta` onto the weight of the pair `(x, y)` (never a
    /// destructive overwrite); out-of-range indices leave the matrix
    /// untouched and are reported as an error, never a panic.
    pub fn delta_at(&mut self, x: usize, y: usize, delta: i64) -> (r: Result<(), Error>)
        requires
            old(self).wf(),
            x < old(self).spec_num_nodes() && y < old(self).spec_num_nodes() ==> {
                i64::MIN <= old(self).spec_at(x as int, y as int) + delta <= i64::MAX
            },
        ensures
            final(self).wf(),
            final(self).spec_num_nodes() == old(self).spec_num_nodes(),
            final(self).spec_names() == old(self).spec_names(),
            x < old(self).spec_num_nodes() && y < old(self).spec_num_nodes() ==> {
                &&& r == Ok::<(), Error>(())
                &&& final(self).spec_data() == old(self).spec_data().update(
                    canonical_index(old(self).spec_num_nodes(), x as int, y as int),
                    old(self).spec_at(x as int, y as int) + delta,
                )
            },
            !(x < old(self).spec_num_nodes() && y < old(self).spec_num_nodes()) ==> {
                &&& r == Err::<(), Error>(
                    Error::IndexOutOfBounds {
                        x,
                        y,
                        num_nodes: (old(self).spec_num_nodes() as usize),
                    },
                )
                &&& final(self).spec_data() == old(self).spec_data()
            },
    {
        let index = match self.index(x, y) {
            Ok(index) => index,
            Err(e) => {
                return Err(e);
            },
        };
        let updated = self.data[index] + delta;
        self.data.set(index, updated);
        proof {
            assert(self.spec_data() =~= old(self).spec_data().update(
                canonical_index(old(self).spec_num_nodes(), x as int, y as int),
                old(self).spec_at(x as int, y as int) + delta,
            ));
        }
        Ok(())
    }
}

impl Constraints {
    /// The text of one row up to column `x`, entries separated by a comma
    /// and a space. Every entry reads through the canonical half, as `at`
    /// does.
    pub open spec fn spec_row_text(self, y: int, x: int) -> Seq<char>
        decreases x,
    {
        if x <= 0 {
            Seq::empty()
        } else if x == 1 {
            crate::text::spec_int_text(self.spec_at(0, y))
        } else {
            self.spec_row_text(y, x - 1) + seq![',', ' '] + crate::text::spec_int_text(
                self.spec_at(x - 1, y),
            )
        }
    }

    /// The text of the first `y` rows: each row bracketed, rows separated
    /// by a comma and a line break, the last row closing the outer bracket.
    pub open spec fn spec_rows_text(self, y: int) -> Seq<char>
        decreases y,
    {
        if y <= 0 {
            Seq::empty()
        } else {
            self.spec_rows_text(y - 1) + (if y == 1 {
                seq!['[']
            } else {
                seq![' ', '[']
            }) + self.spec_row_text(y - 1, self.spec_num_nodes()) + seq![']'] + (if y
                == self.spec_num_nodes() {
                seq![']']
            } else {
                seq![',', '\n']
            })
        }
    }

    /// The whole matrix as text, row by row.
    pub open spec fn spec_text(self) -> Seq<char> {
        seq!['['] + self.spec_rows_text(self.spec_num_nodes())
    }

    /// Renders the matrix, row by row, for display.
    pub fn to_string(&self) -> (r: String)
        requires
            self.wf(),
        ensures
            r@ == self.spec_text(),
    {
        proof {
            reveal_strlit("[");
            reveal_strlit(" [");
            reveal_strlit(", ");
            reveal_strlit("]");
            reveal_strlit(",\n");
            reveal_strlit("]]");
            assert("["@ =~= seq!['[']);
            assert(" ["@ =~= seq![' ', '[']);
            assert(", "@ =~= seq![',', ' ']);
            assert("]"@ =~= seq![']']);
            assert(",\n"@ =~= seq![',', '\n']);
        }
        let n = self.num_nodes();
        let mut buf = String::from_str("[");
        let mut y: usize = 0;
        while y < n
            invariant
                self.wf(),
                n == self.spec_num_nodes(),
                y <= n,
                buf@ == seq!['['] + self.spec_rows_text(y as int),
                "["@ == seq!['['],
                " ["@ == seq![' ', '['],
                ", "@ == seq![',', ' '],
                "]"@ == seq![']'],
                ",\n"@ == seq![',', '\n'],
            decreases n - y,
        {
            if y == 0 {
                buf.append("[");
            } else {
                buf.append(" [");
            }
            let mut x: usize = 0;
            while x < n
                invariant
                    self.wf(),
                    n == self.spec_num_nodes(),
                    y < n,
                    x <= n,
                    buf@ == seq!['['] + self.spec_rows_text(y as int) + (if y == 0 {
                        seq!['[']
                    } else {
                        seq![' ', '[']
                    }) + self.spec_row_text(y as int, x as int),
                    ", "@ == seq![',', ' '],
                decreases n - x,
            {
                if x > 0 {
                    buf.append(", ");
                }
                proof {
                    let ni = self.spec_num_nodes();
                    let ci = canonical_index(ni, x as int, y as int);
                    assert(0 <= ci < ni * ni) by (nonlinear_arith)
                        requires
                            0 <= x < ni,
                            0 <= y < ni,
                            ci == if x <= y {
                                ni * (y as int) + (x as int)
                            } else {
                                ni * (x as int) + (y as int)
                            },
                    {}
                    assert(i64::MIN <= self.spec_at(x as int, y as int) <= i64::MAX);
                }
                let value = match self.at(x, y) {
                    Ok(value) => value,
                    Err(_) => {
                        proof {
                            assert(false);
                        }
                        0
                    },
                };
                let rendered = crate::text::int_string(value);
                buf.append(rendered.as_str());
                proof {
                    assert(buf@ =~= seq!['['] + self.spec_rows_text(y as int) + (if y == 0 {
                        seq!['[']
                    } else {
                        seq![' ', '[']
                    }) + self.spec_row_text(y as int, x as int + 1));
                }
                x = x + 1;
            }
            buf.append("]");
            if y + 1 == n {
                buf.append("]");
            } else {
                buf.append(",\n");
            }
            proof {
                assert(buf@ =~= seq!['['] + self.spec_rows_text(y as int + 1));
            }
            y = y + 1;
        }
        proof {
            assert(buf@ =~= self.spec_text());
        }
        buf
    }
}

impl Clone for Constraints {
    /// Cloning preserves the whole matrix model.
    fn clone(&self) -> (r: Self)
        ensures
            r.spec_num_nodes() == self.spec_num_nodes(),
            r.spec_data() == self.spec_data(),
            r.spec_names() == self.spec_names(),
            r.wf() == self.wf(),
    {
        self.duplicate()
    }
}

} // verus!

